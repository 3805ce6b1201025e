//! Operator-shaped reference-value decoder for the Intel CoRIM profile
//! (`draft-cds-rats-intel-corim-profile-07` §8.1 / §8.2) and the base CoRIM
//! `tagged-int-range`, `tagged-min-svn` and `tagged-masked-raw-value` shapes.
//!
//! | Tag        | Shape                                   |
//! |------------|-----------------------------------------|
//! | `#6.60010` | `[op ∈ {eq,gt,ge,lt,le}, int / float]`  |
//! | `#6.60020` | `[op ∈ {mem,nmem}, [* digest]]`         |
//! | `#6.60021` | `[op ∈ {mem,nmem}, [* tstr]]`           |
//! | `#6.563`   | `[value: bstr, mask: bstr]`             |
//! | `#6.564`   | `[min: int / null, max: int / null]`    |
//! | `#6.553`   | `uint`                                  |
//!
//! Operator codes (v07 §8.2.1): `eq=0`, `gt=1`, `ge=2`, `lt=3`, `le=4`, `mem=6`, `nmem=7`.
use vstd::prelude::*;
use crate::cbor::{Value, VModel, model, model_list, lemma_model_list, copy_bytes, clone_list};
use crate::tags::{TAG_INT_RANGE, TAG_MASKED_RAW_VALUE, TAG_MIN_SVN};
use crate::text::{concat, push_str, push_u64, push_usize, push_i128, dec_int};

verus! {

/// CBOR tag for Intel numeric expressions (v07 §8.2.2).
pub const TAG_INTEL_EXPRESSION: u64 = 60010;
/// CBOR tag for Intel set-of-digests expressions (v07 §8.2.3).
pub const TAG_INTEL_SET_DIGEST_EXPRESSION: u64 = 60020;
/// CBOR tag for Intel set-of-tstr expressions (v07 §8.2.3).
pub const TAG_INTEL_SET_TSTR_EXPRESSION: u64 = 60021;

/// Numeric comparison operator (v07 §8.2.2).
#[derive(Clone, Copy, Debug, PartialEq, Eq, Structural)]
#[non_exhaustive]
pub enum NumericOp {
    /// `op.eq` — equality.
    Eq,
    /// `op.gt` — greater-than.
    Gt,
    /// `op.ge` — greater-than-or-equal.
    Ge,
    /// `op.lt` — less-than.
    Lt,
    /// `op.le` — less-than-or-equal.
    Le,
}

/// The numeric operator of a wire code.
pub open spec fn numeric_op_of(code: int) -> Option<NumericOp> {
    if code == 0 {
        Some(NumericOp::Eq)
    } else if code == 1 {
        Some(NumericOp::Gt)
    } else if code == 2 {
        Some(NumericOp::Ge)
    } else if code == 3 {
        Some(NumericOp::Lt)
    } else if code == 4 {
        Some(NumericOp::Le)
    } else {
        None
    }
}

impl NumericOp {
    fn from_code(code: i64) -> (r: Option<Self>)
        ensures
            r == numeric_op_of(code as int),
    {
        match code {
            0 => Some(NumericOp::Eq),
            1 => Some(NumericOp::Gt),
            2 => Some(NumericOp::Ge),
            3 => Some(NumericOp::Lt),
            4 => Some(NumericOp::Le),
            _ => None,
        }
    }

    /// The mnemonic of an operator.
    pub open spec fn name(self) -> Seq<char> {
        match self {
            NumericOp::Eq => "eq"@,
            NumericOp::Gt => "gt"@,
            NumericOp::Ge => "ge"@,
            NumericOp::Lt => "lt"@,
            NumericOp::Le => "le"@,
        }
    }

    /// Short text mnemonic: `"eq"`, `"gt"`, `"ge"`, `"lt"` or `"le"`.
    pub fn as_str(self) -> (s: &'static str)
        ensures
            s@ == self.name(),
    {
        proof {
            reveal_strlit("eq");
            reveal_strlit("gt");
            reveal_strlit("ge");
            reveal_strlit("lt");
            reveal_strlit("le");
        }
        match self {
            NumericOp::Eq => "eq",
            NumericOp::Gt => "gt",
            NumericOp::Ge => "ge",
            NumericOp::Lt => "lt",
            NumericOp::Le => "le",
        }
    }
}

/// Set-membership operator (v07 §8.2.3).
#[derive(Clone, Copy, Debug, PartialEq, Eq, Structural)]
#[non_exhaustive]
pub enum SetOp {
    /// `op.mem` — member of the set.
    Member,
    /// `op.nmem` — not a member of the set.
    NotMember,
}

/// The set operator of a wire code.
pub open spec fn set_op_of(code: int) -> Option<SetOp> {
    if code == 6 {
        Some(SetOp::Member)
    } else if code == 7 {
        Some(SetOp::NotMember)
    } else {
        None
    }
}

impl SetOp {
    fn from_code(code: i64) -> (r: Option<Self>)
        ensures
            r == set_op_of(code as int),
    {
        match code {
            6 => Some(SetOp::Member),
            7 => Some(SetOp::NotMember),
            _ => None,
        }
    }

    /// The mnemonic of an operator.
    pub open spec fn name(self) -> Seq<char> {
        match self {
            SetOp::Member => "member"@,
            SetOp::NotMember => "not-member"@,
        }
    }

    /// Short text mnemonic: `"member"` or `"not-member"`.
    pub fn as_str(self) -> (s: &'static str)
        ensures
            s@ == self.name(),
    {
        proof {
            reveal_strlit("member");
            reveal_strlit("not-member");
        }
        match self {
            SetOp::Member => "member",
            SetOp::NotMember => "not-member",
        }
    }
}

/// Operand of a numeric expression: an integer, or a binary64 value (its bit pattern).
#[derive(Clone, Copy, Debug, PartialEq, Eq, Structural)]
#[non_exhaustive]
pub enum Numeric {
    /// Integer (signed or unsigned).
    Int(i128),
    /// IEEE 754 double-precision value, as its bit pattern.
    Float(u64),
}

/// Decoded representation of an operator-shaped Intel reference value.
#[allow(inconsistent_fields)]
#[derive(Clone, Debug, PartialEq)]
#[non_exhaustive]
pub enum Expression {
    /// `#6.60010([op, int / float])` — numeric comparison.
    Numeric {
        /// Comparison operator.
        op: NumericOp,
        /// Reference numeric value.
        value: Numeric,
    },
    /// `#6.60020([op, [* digest]])` — set-of-digests membership; digests kept verbatim.
    SetOfDigests {
        /// Membership operator.
        op: SetOp,
        /// Reference digests.
        members: Vec<Value>,
    },
    /// `#6.60021([op, [* tstr]])` — set-of-text-strings membership.
    SetOfTstr {
        /// Membership operator.
        op: SetOp,
        /// Reference strings.
        members: Vec<String>,
    },
    /// `#6.564([min, max])` — closed integer interval; `None` is an open bound.
    IntRange {
        /// Inclusive lower bound, or `None` for `-inf`.
        min: Option<i128>,
        /// Inclusive upper bound, or `None` for `+inf`.
        max: Option<i128>,
    },
    /// `#6.553(uint)` — minimum SVN.
    MinSvn(u64),
    /// `#6.563([value, mask])` — mask-aware raw value.
    MaskedRawValue {
        /// Reference value bytes.
        value: Vec<u8>,
        /// Bit-mask selecting which bits to compare.
        mask: Vec<u8>,
    },
}

/// Mathematical form of an [`Expression`].
#[allow(inconsistent_fields)]
pub enum ExprModel {
    Numeric { op: NumericOp, value: Numeric },
    SetOfDigests { op: SetOp, members: Seq<VModel> },
    SetOfTstr { op: SetOp, members: Seq<Seq<char>> },
    IntRange { min: Option<int>, max: Option<int> },
    MinSvn(int),
    MaskedRawValue { value: Seq<u8>, mask: Seq<u8> },
}

pub open spec fn opt_i128(o: Option<i128>) -> Option<int> {
    match o {
        Some(x) => Some(x as int),
        None => None,
    }
}

pub open spec fn strings_model(s: Seq<String>) -> Seq<Seq<char>> {
    s.map_values(|x: String| x@)
}

impl View for Expression {
    type V = ExprModel;

    open spec fn view(&self) -> ExprModel {
        match self {
            Expression::Numeric { op, value } => ExprModel::Numeric { op: *op, value: *value },
            Expression::SetOfDigests { op, members } => ExprModel::SetOfDigests {
                op: *op,
                members: model_list(members@),
            },
            Expression::SetOfTstr { op, members } => ExprModel::SetOfTstr {
                op: *op,
                members: strings_model(members@),
            },
            Expression::IntRange { min, max } => ExprModel::IntRange {
                min: opt_i128(*min),
                max: opt_i128(*max),
            },
            Expression::MinSvn(v) => ExprModel::MinSvn(*v as int),
            Expression::MaskedRawValue { value, mask } => ExprModel::MaskedRawValue {
                value: value@,
                mask: mask@,
            },
        }
    }
}

/// Error returned by [`Expression::from_tag`].
#[derive(Clone, Copy, Debug, PartialEq, Eq, Structural)]
#[non_exhaustive]
pub enum ExpressionDecodeError {
    /// Input was not a CBOR tag.
    NotTagged,
    /// The tag number was not one of the recognised six.
    WrongTag(u64),
    /// The tag body was not a CBOR array (where one was required).
    NotArray,
    /// The body array had the wrong number of elements for the tag.
    WrongArity(usize),
    /// The operator slot was not an integer.
    OperatorNotInteger,
    /// The operator slot was an integer that did not fit in `i64`.
    OperatorOutOfRange(i128),
    /// The operator code is not permitted by the tag.
    UnknownOperator(i64),
    /// A set expression's operand was not an array.
    SetOperandNotArray,
    /// A `set-tstr-type` member was not a text string.
    SetTstrMemberNotText,
    /// A numeric operand was neither an integer nor a float (bare or `#6.1`-wrapped).
    NumericOperandWrongType,
    /// An `int-range` bound was neither `null` nor an integer.
    IntRangeBoundType,
    /// An `int-range` had `min > max`.
    IntRangeReversed,
    /// A `tagged-min-svn` body did not fit in `u64`.
    MinSvnOutOfRange,
    /// A `tagged-min-svn` body was not an unsigned integer.
    MinSvnNotUint,
    /// A `tagged-masked-raw-value` element was not a byte string.
    MaskedRawValueNotBytes,
}

// ---------------------------------------------------------------------------
// Specification of the decoder.
// ---------------------------------------------------------------------------

/// Whether a tag number is one of the six operator-shaped tags.
pub open spec fn is_expression_tag(tag: u64) -> bool {
    tag == TAG_INTEL_EXPRESSION || tag == TAG_INTEL_SET_DIGEST_EXPRESSION || tag
        == TAG_INTEL_SET_TSTR_EXPRESSION || tag == TAG_INT_RANGE || tag == TAG_MIN_SVN || tag
        == TAG_MASKED_RAW_VALUE
}

pub open spec fn array_n_spec(body: VModel, n: int) -> Result<Seq<VModel>, ExpressionDecodeError> {
    match body {
        VModel::Array(a) => if a.len() == n {
            Ok(a)
        } else {
            Err(ExpressionDecodeError::WrongArity(a.len() as usize))
        },
        _ => Err(ExpressionDecodeError::NotArray),
    }
}

pub open spec fn op_code_spec(v: VModel) -> Result<int, ExpressionDecodeError> {
    match v {
        VModel::Int(n) => if i64::MIN <= n <= i64::MAX {
            Ok(n)
        } else {
            Err(ExpressionDecodeError::OperatorOutOfRange(n as i128))
        },
        _ => Err(ExpressionDecodeError::OperatorNotInteger),
    }
}

pub open spec fn numeric_op_spec(v: VModel) -> Result<NumericOp, ExpressionDecodeError> {
    match op_code_spec(v) {
        Ok(code) => match numeric_op_of(code) {
            Some(op) => Ok(op),
            None => Err(ExpressionDecodeError::UnknownOperator(code as i64)),
        },
        Err(e) => Err(e),
    }
}

pub open spec fn set_op_spec(v: VModel) -> Result<SetOp, ExpressionDecodeError> {
    match op_code_spec(v) {
        Ok(code) => match set_op_of(code) {
            Some(op) => Ok(op),
            None => Err(ExpressionDecodeError::UnknownOperator(code as i64)),
        },
        Err(e) => Err(e),
    }
}

pub open spec fn plain_numeric_spec(v: VModel) -> Option<Numeric> {
    match v {
        VModel::Int(n) => if i128::MIN <= n <= i128::MAX {
            Some(Numeric::Int(n as i128))
        } else {
            None
        },
        VModel::Float(f) => Some(Numeric::Float(f)),
        _ => None,
    }
}

pub open spec fn numeric_value_spec(v: VModel) -> Result<Numeric, ExpressionDecodeError> {
    let inner = match v {
        VModel::Tag(t, x) => if t == 1 {
            plain_numeric_spec(*x)
        } else {
            None
        },
        _ => plain_numeric_spec(v),
    };
    match inner {
        Some(n) => Ok(n),
        None => Err(ExpressionDecodeError::NumericOperandWrongType),
    }
}

/// The text strings of a list of data items, if all are text.
pub open spec fn all_text(a: Seq<VModel>) -> bool {
    forall|i: int| 0 <= i < a.len() ==> #[trigger] a[i] is Text
}

pub open spec fn texts_of(a: Seq<VModel>) -> Seq<Seq<char>> {
    a.map_values(|x: VModel| x->Text_0)
}

pub open spec fn bound_value_spec(v: VModel) -> Result<Option<int>, ExpressionDecodeError> {
    match v {
        VModel::Null => Ok(None),
        VModel::Int(n) => Ok(Some(n)),
        _ => Err(ExpressionDecodeError::IntRangeBoundType),
    }
}

/// The decoded expression (or the error) of a data item.
pub open spec fn from_tag_spec(v: VModel) -> Result<ExprModel, ExpressionDecodeError> {
    match v {
        VModel::Tag(t, inner) => {
            let body = *inner;
            if t == TAG_INTEL_EXPRESSION {
                match array_n_spec(body, 2) {
                    Err(e) => Err(e),
                    Ok(items) => match numeric_op_spec(items[0]) {
                        Err(e) => Err(e),
                        Ok(op) => match numeric_value_spec(items[1]) {
                            Err(e) => Err(e),
                            Ok(value) => Ok(ExprModel::Numeric { op, value }),
                        },
                    },
                }
            } else if t == TAG_INTEL_SET_DIGEST_EXPRESSION {
                match array_n_spec(body, 2) {
                    Err(e) => Err(e),
                    Ok(items) => match set_op_spec(items[0]) {
                        Err(e) => Err(e),
                        Ok(op) => match items[1] {
                            VModel::Array(a) => Ok(ExprModel::SetOfDigests { op, members: a }),
                            _ => Err(ExpressionDecodeError::SetOperandNotArray),
                        },
                    },
                }
            } else if t == TAG_INTEL_SET_TSTR_EXPRESSION {
                match array_n_spec(body, 2) {
                    Err(e) => Err(e),
                    Ok(items) => match set_op_spec(items[0]) {
                        Err(e) => Err(e),
                        Ok(op) => match items[1] {
                            VModel::Array(a) => if all_text(a) {
                                Ok(ExprModel::SetOfTstr { op, members: texts_of(a) })
                            } else {
                                Err(ExpressionDecodeError::SetTstrMemberNotText)
                            },
                            _ => Err(ExpressionDecodeError::SetOperandNotArray),
                        },
                    },
                }
            } else if t == TAG_INT_RANGE {
                match array_n_spec(body, 2) {
                    Err(e) => Err(e),
                    Ok(items) => match bound_value_spec(items[0]) {
                        Err(e) => Err(e),
                        Ok(min) => match bound_value_spec(items[1]) {
                            Err(e) => Err(e),
                            Ok(max) => if min is Some && max is Some && min->0 > max->0 {
                                Err(ExpressionDecodeError::IntRangeReversed)
                            } else {
                                Ok(ExprModel::IntRange { min, max })
                            },
                        },
                    },
                }
            } else if t == TAG_MIN_SVN {
                match body {
                    VModel::Int(n) => if 0 <= n <= u64::MAX {
                        Ok(ExprModel::MinSvn(n))
                    } else {
                        Err(ExpressionDecodeError::MinSvnOutOfRange)
                    },
                    _ => Err(ExpressionDecodeError::MinSvnNotUint),
                }
            } else if t == TAG_MASKED_RAW_VALUE {
                match array_n_spec(body, 2) {
                    Err(e) => Err(e),
                    Ok(items) => match (items[0], items[1]) {
                        (VModel::Bytes(value), VModel::Bytes(mask)) => Ok(
                            ExprModel::MaskedRawValue { value, mask },
                        ),
                        _ => Err(ExpressionDecodeError::MaskedRawValueNotBytes),
                    },
                }
            } else {
                Err(ExpressionDecodeError::WrongTag(t))
            }
        },
        _ => Err(ExpressionDecodeError::NotTagged),
    }
}

// ---------------------------------------------------------------------------
// Decoder.
// ---------------------------------------------------------------------------

fn expect_array_n(body: &Value, n: usize) -> (r: Result<&Vec<Value>, ExpressionDecodeError>)
    ensures
        r matches Ok(a) ==> array_n_spec(body@, n as int) == Ok::<Seq<VModel>, ExpressionDecodeError>(model_list(a@)) && a@.len() == n
            && model_list(a@).len() == n && (forall|j: int| 0 <= j < n ==> #[trigger] model_list(a@)[j] == model(a@[j])),
        r matches Err(e) ==> array_n_spec(body@, n as int) == Err::<Seq<VModel>, ExpressionDecodeError>(e),
{
    match body {
        Value::Array(items) => {
            proof {
                lemma_model_list(items@);
            }
            if items.len() != n {
                return Err(ExpressionDecodeError::WrongArity(items.len()));
            }
            Ok(items)
        },
        _ => Err(ExpressionDecodeError::NotArray),
    }
}

fn op_code(v: &Value) -> (r: Result<i64, ExpressionDecodeError>)
    ensures
        r matches Ok(c) ==> op_code_spec(v@) == Ok::<int, ExpressionDecodeError>(c as int),
        r matches Err(e) ==> op_code_spec(v@) == Err::<int, ExpressionDecodeError>(e),
{
    match v {
        Value::Integer(n) => {
            if *n >= -0x8000_0000_0000_0000i128 && *n <= 0x7fff_ffff_ffff_ffffi128 {
                Ok(*n as i64)
            } else {
                Err(ExpressionDecodeError::OperatorOutOfRange(*n))
            }
        },
        _ => Err(ExpressionDecodeError::OperatorNotInteger),
    }
}

fn numeric_op(v: &Value) -> (r: Result<NumericOp, ExpressionDecodeError>)
    ensures
        r == numeric_op_spec(v@),
{
    let code = match op_code(v) {
        Ok(c) => c,
        Err(e) => return Err(e),
    };
    match NumericOp::from_code(code) {
        Some(op) => Ok(op),
        None => Err(ExpressionDecodeError::UnknownOperator(code)),
    }
}

fn set_op(v: &Value) -> (r: Result<SetOp, ExpressionDecodeError>)
    ensures
        r == set_op_spec(v@),
{
    let code = match op_code(v) {
        Ok(c) => c,
        Err(e) => return Err(e),
    };
    match SetOp::from_code(code) {
        Some(op) => Ok(op),
        None => Err(ExpressionDecodeError::UnknownOperator(code)),
    }
}

fn numeric_value(v: &Value) -> (r: Result<Numeric, ExpressionDecodeError>)
    ensures
        r == numeric_value_spec(v@),
{
    match v {
        Value::Integer(n) => {
            assert(v@ == VModel::Int(*n as int));
            assert(plain_numeric_spec(v@) == Some(Numeric::Int(*n)));
            let r = Ok(Numeric::Int(*n));
            assert(numeric_value_spec(v@) == r);
            r
        },
        Value::Float(f) => Ok(Numeric::Float(*f)),
        Value::Tag(t, inner) => {
            if *t == 1 {
                assert(v@ == VModel::Tag(1, Box::new(inner@)));
                match &**inner {
                    Value::Integer(n) => {
                        assert(inner@ == VModel::Int(*n as int));
                        assert(plain_numeric_spec(inner@) == Some(Numeric::Int(*n)));
                        Ok(Numeric::Int(*n))
                    },
                    Value::Float(f) => Ok(Numeric::Float(*f)),
                    _ => Err(ExpressionDecodeError::NumericOperandWrongType),
                }
            } else {
                Err(ExpressionDecodeError::NumericOperandWrongType)
            }
        },
        _ => Err(ExpressionDecodeError::NumericOperandWrongType),
    }
}

fn text_members(a: &Vec<Value>) -> (r: Result<Vec<String>, ExpressionDecodeError>)
    ensures
        r matches Ok(out) ==> all_text(model_list(a@)) && strings_model(out@) == texts_of(
            model_list(a@),
        ),
        r matches Err(e) ==> !all_text(model_list(a@)) && e
            == ExpressionDecodeError::SetTstrMemberNotText,
{
    proof {
        lemma_model_list(a@);
    }
    let ghost ms = model_list(a@);
    let mut out: Vec<String> = Vec::new();
    let mut i: usize = 0;
    while i < a.len()
        invariant
            i <= a@.len(),
            ms == model_list(a@),
            ms.len() == a@.len(),
            forall|j: int| 0 <= j < a@.len() ==> #[trigger] ms[j] == model(a@[j]),
            forall|j: int| 0 <= j < i ==> #[trigger] ms[j] is Text,
            strings_model(out@) == texts_of(ms).take(i as int),
        decreases a@.len() - i,
    {
        match &a[i] {
            Value::Text(s) => {
                let c = s.clone();
                proof {
                    assert(texts_of(ms).take(i + 1) =~= texts_of(ms).take(i as int).push(c@));
                    assert(strings_model(out@.push(c)) =~= strings_model(out@).push(c@));
                }
                out.push(c);
            },
            _ => {
                proof {
                    assert(!(ms[i as int] is Text));
                }
                return Err(ExpressionDecodeError::SetTstrMemberNotText);
            },
        }
        i += 1;
    }
    proof {
        assert(texts_of(ms).take(i as int) =~= texts_of(ms));
    }
    Ok(out)
}

fn bound_value(v: &Value) -> (r: Result<Option<i128>, ExpressionDecodeError>)
    ensures
        r matches Ok(b) ==> bound_value_spec(v@) == Ok::<Option<int>, ExpressionDecodeError>(
            opt_i128(b),
        ),
        r matches Err(e) ==> bound_value_spec(v@) == Err::<Option<int>, ExpressionDecodeError>(e),
{
    match v {
        Value::Null => Ok(None),
        Value::Integer(n) => Ok(Some(*n)),
        _ => Err(ExpressionDecodeError::IntRangeBoundType),
    }
}

impl Expression {
    /// Decode an expression from one of the six operator-shaped tags; errors say why a
    /// value is not one.
    pub fn from_tag(value: &Value) -> (r: Result<Self, ExpressionDecodeError>)
        ensures
            r matches Ok(e) ==> from_tag_spec(value@) == Ok::<ExprModel, ExpressionDecodeError>(e@),
            r matches Err(e) ==> from_tag_spec(value@) == Err::<ExprModel, ExpressionDecodeError>(e),
    {
        let (t, body) = match value {
            Value::Tag(t, inner) => (*t, &**inner),
            _ => return Err(ExpressionDecodeError::NotTagged),
        };
        if t == TAG_INTEL_EXPRESSION {
            let items = match expect_array_n(body, 2) {
                Ok(a) => a,
                Err(e) => return Err(e),
            };
            let op = match numeric_op(&items[0]) {
                Ok(op) => op,
                Err(e) => return Err(e),
            };
            let value = match numeric_value(&items[1]) {
                Ok(v) => v,
                Err(e) => return Err(e),
            };
            Ok(Expression::Numeric { op, value })
        } else if t == TAG_INTEL_SET_DIGEST_EXPRESSION {
            let items = match expect_array_n(body, 2) {
                Ok(a) => a,
                Err(e) => return Err(e),
            };
            let op = match set_op(&items[0]) {
                Ok(op) => op,
                Err(e) => return Err(e),
            };
            match &items[1] {
                Value::Array(a) => Ok(Expression::SetOfDigests { op, members: clone_list(a) }),
                _ => Err(ExpressionDecodeError::SetOperandNotArray),
            }
        } else if t == TAG_INTEL_SET_TSTR_EXPRESSION {
            let items = match expect_array_n(body, 2) {
                Ok(a) => a,
                Err(e) => return Err(e),
            };
            let op = match set_op(&items[0]) {
                Ok(op) => op,
                Err(e) => return Err(e),
            };
            match &items[1] {
                Value::Array(a) => match text_members(a) {
                    Ok(members) => Ok(Expression::SetOfTstr { op, members }),
                    Err(e) => Err(e),
                },
                _ => Err(ExpressionDecodeError::SetOperandNotArray),
            }
        } else if t == TAG_INT_RANGE {
            let items = match expect_array_n(body, 2) {
                Ok(a) => a,
                Err(e) => return Err(e),
            };
            let min = match bound_value(&items[0]) {
                Ok(b) => b,
                Err(e) => return Err(e),
            };
            let max = match bound_value(&items[1]) {
                Ok(b) => b,
                Err(e) => return Err(e),
            };
            if let (Some(lo), Some(hi)) = (min, max) {
                if lo > hi {
                    return Err(ExpressionDecodeError::IntRangeReversed);
                }
            }
            Ok(Expression::IntRange { min, max })
        } else if t == TAG_MIN_SVN {
            match body {
                Value::Integer(n) => {
                    if *n >= 0 && *n <= 0xffff_ffff_ffff_ffffi128 {
                        Ok(Expression::MinSvn(*n as u64))
                    } else {
                        Err(ExpressionDecodeError::MinSvnOutOfRange)
                    }
                },
                _ => Err(ExpressionDecodeError::MinSvnNotUint),
            }
        } else if t == TAG_MASKED_RAW_VALUE {
            let items = match expect_array_n(body, 2) {
                Ok(a) => a,
                Err(e) => return Err(e),
            };
            match (&items[0], &items[1]) {
                (Value::Bytes(v), Value::Bytes(m)) => Ok(
                    Expression::MaskedRawValue {
                        value: copy_bytes(v.as_slice()),
                        mask: copy_bytes(m.as_slice()),
                    },
                ),
                _ => Err(ExpressionDecodeError::MaskedRawValueNotBytes),
            }
        } else {
            Err(ExpressionDecodeError::WrongTag(t))
        }
    }

    /// Whether `tag` is one of the six tags this decoder recognises.
    pub fn is_intel_expression_tag(tag: u64) -> (r: bool)
        ensures
            r == is_expression_tag(tag),
    {
        tag == TAG_INTEL_EXPRESSION || tag == TAG_INTEL_SET_DIGEST_EXPRESSION || tag
            == TAG_INTEL_SET_TSTR_EXPRESSION || tag == TAG_INT_RANGE || tag == TAG_MIN_SVN
            || tag == TAG_MASKED_RAW_VALUE
    }
}

// ---------------------------------------------------------------------------
// Rendering for diagnostic output.
// ---------------------------------------------------------------------------

/// `""` for one, `"s"` otherwise.
pub open spec fn plural(n: int) -> Seq<char> {
    if n == 1 {
        ""@
    } else {
        "s"@
    }
}

/// A bound of an integer range, `-∞` / `+∞` when open.
pub open spec fn bound_text(b: Option<int>, open: Seq<char>) -> Seq<char> {
    match b {
        Some(n) => dec_int(n),
        None => open,
    }
}

/// Whether an expression has a binary64 operand (whose decimal rendering is not computed
/// here).
pub open spec fn has_float_operand(x: ExprModel) -> bool {
    x matches ExprModel::Numeric { value: Numeric::Float(_), .. }
}

/// The single-line rendering of an expression with an integer or no numeric operand.
pub open spec fn display_spec(x: ExprModel) -> Seq<char> {
    match x {
        ExprModel::Numeric { op, value } => op.name() + " "@ + match value {
            Numeric::Int(i) => dec_int(i as int),
            Numeric::Float(_) => Seq::empty(),
        },
        ExprModel::SetOfDigests { op, members } => op.name() + " ("@ + dec_int(members.len() as int)
            + " digest"@ + plural(members.len() as int) + ")"@,
        ExprModel::SetOfTstr { op, members } => op.name() + " ("@ + dec_int(members.len() as int)
            + " string"@ + plural(members.len() as int) + ")"@,
        ExprModel::IntRange { min, max } => "range ["@ + bound_text(min, "-∞"@) + ".."@
            + bound_text(max, "+∞"@) + "]"@,
        ExprModel::MinSvn(v) => "min-svn "@ + dec_int(v),
        ExprModel::MaskedRawValue { value, mask } => "masked-bstr <"@ + dec_int(value.len() as int)
            + "-byte value, "@ + dec_int(mask.len() as int) + "-byte mask>"@,
    }
}

fn push_plural(s: &mut String, n: usize)
    ensures
        final(s)@ == old(s)@ + plural(n as int),
{
    proof {
        reveal_strlit("s");
        reveal_strlit("");
    }
    if n == 1 {
        push_str(s, "");
    } else {
        push_str(s, "s");
    }
}

/// Render an expression as a short single-line string, e.g. `"ge 5"`,
/// `"member (3 strings)"`, `"range [0..15]"`, `"min-svn 5"`.
///
/// A binary64 operand is rendered by [`display_numeric_with`] from its decimal text.
pub fn display_expression(e: &Expression) -> (s: String)
    requires
        !has_float_operand(e@),
    ensures
        s@ == display_spec(e@),
{
    match e {
        Expression::Numeric { op, value } => {
            let mut s = concat(op.as_str(), " ");
            match value {
                Numeric::Int(i) => push_i128(&mut s, *i),
                Numeric::Float(_) => {},
            }
            proof {
                reveal_strlit(" ");
            }
            s
        },
        Expression::SetOfDigests { op, members } => {
            proof {
                lemma_model_list(members@);
                reveal_strlit(" (");
                reveal_strlit(" digest");
                reveal_strlit(")");
            }
            let mut s = concat(op.as_str(), " (");
            push_usize(&mut s, members.len());
            push_str(&mut s, " digest");
            push_plural(&mut s, members.len());
            push_str(&mut s, ")");
            s
        },
        Expression::SetOfTstr { op, members } => {
            proof {
                reveal_strlit(" (");
                reveal_strlit(" string");
                reveal_strlit(")");
            }
            let mut s = concat(op.as_str(), " (");
            push_usize(&mut s, members.len());
            push_str(&mut s, " string");
            push_plural(&mut s, members.len());
            push_str(&mut s, ")");
            s
        },
        Expression::IntRange { min, max } => {
            proof {
                reveal_strlit("range [");
                reveal_strlit("-∞");
                reveal_strlit("..");
                reveal_strlit("+∞");
                reveal_strlit("]");
            }
            let mut s = String::from_str("range [");
            match min {
                Some(n) => push_i128(&mut s, *n),
                None => push_str(&mut s, "-∞"),
            }
            push_str(&mut s, "..");
            match max {
                Some(n) => push_i128(&mut s, *n),
                None => push_str(&mut s, "+∞"),
            }
            push_str(&mut s, "]");
            s
        },
        Expression::MinSvn(v) => {
            proof {
                reveal_strlit("min-svn ");
            }
            let mut s = String::from_str("min-svn ");
            push_u64(&mut s, *v);
            s
        },
        Expression::MaskedRawValue { value, mask } => {
            proof {
                reveal_strlit("masked-bstr <");
                reveal_strlit("-byte value, ");
                reveal_strlit("-byte mask>");
            }
            let mut s = String::from_str("masked-bstr <");
            push_usize(&mut s, value.len());
            push_str(&mut s, "-byte value, ");
            push_usize(&mut s, mask.len());
            push_str(&mut s, "-byte mask>");
            s
        },
    }
}

/// The rendering of a numeric expression whose operand's decimal text is `operand`:
/// the operator mnemonic, a space, the text.
pub fn display_numeric_with(op: NumericOp, operand: &str) -> (s: String)
    ensures
        s@ == op.name() + " "@ + operand@,
{
    proof {
        reveal_strlit(" ");
    }
    let mut s = concat(op.as_str(), " ");
    push_str(&mut s, operand);
    s
}

} // verus!
