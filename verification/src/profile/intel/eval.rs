//! Per-key operator evaluator for the Intel CoRIM profile.
//!
//! | Reference shape                    | Verdict semantics                                   |
//! |------------------------------------|-----------------------------------------------------|
//! | bare value                         | CBOR equality with the evidence                     |
//! | numeric (`eq`/`gt`/`ge`/`lt`/`le`) | both sides promoted to binary64, then compared      |
//! | set-of-tstr (`mem`/`nmem`)         | string membership                                   |
//! | set-of-digests (`mem`/`nmem`)      | digest (CBOR) equality membership                   |
//! | `tagged-int-range`                 | `min <= ev <= max` (open bounds skip the side)      |
//! | `tagged-min-svn`                   | `ev >= min`                                         |
//! | `tagged-masked-raw-value`          | `(ev & mask) == (value & mask)`, all equal lengths  |
//!
//! Anything the evaluator cannot complete (malformed expression, operand-type mismatch,
//! evidence outside the comparison domain, `NaN`) fails closed.
use vstd::prelude::*;
use crate::binary64::{
    Extended, Number, compare_extended, compare_numbers, extended_of_bits, int_scaled, is_nan,
    number_of_bits, number_of_int,
};
use crate::cbor::{Value, VModel, model, model_list, lemma_model_list, value_eq, values_equal};
use crate::profile::MatchContext;
use crate::tags::{TAG_BYTES, TAG_SVN};
use super::MVAL_TEE_TCBDATE;
use super::expression::{
    ExprModel, Expression, Numeric, NumericOp, SetOp, from_tag_spec, is_expression_tag,
    strings_model, opt_i128,
};
use super::tcbdate::{match_tcbdate, tcbdate_match_spec};

verus! {

/// Outcome of evaluating one (reference, evidence) pair for a single Intel key.
#[derive(Clone, Copy, Debug, PartialEq, Eq, Structural)]
pub enum Verdict {
    /// Evidence satisfies the reference.
    Pass,
    /// Evidence violates the reference (or the reference is unintelligible).
    Fail,
}

/// `Pass` for `true`, `Fail` for `false`.
pub open spec fn verdict_of(b: bool) -> Verdict {
    if b {
        Verdict::Pass
    } else {
        Verdict::Fail
    }
}

/// The verdict of a boolean outcome.
pub fn bool_verdict(b: bool) -> (v: Verdict)
    ensures
        v == verdict_of(b),
{
    if b {
        Verdict::Pass
    } else {
        Verdict::Fail
    }
}

// ---------------------------------------------------------------------------
// Specification.
// ---------------------------------------------------------------------------

/// A numeric operand promoted to binary64: an integer (converted with rounding) or a
/// binary64 bit pattern.
pub enum Promoted {
    FromInt(int),
    Bits(u64),
}

pub open spec fn promoted_nan(x: Promoted) -> bool {
    match x {
        Promoted::FromInt(_) => false,
        Promoted::Bits(b) => is_nan(b),
    }
}

pub open spec fn promoted_value(x: Promoted) -> Extended {
    match x {
        Promoted::FromInt(n) => Extended { rank: 0, scaled: int_scaled(n) },
        Promoted::Bits(b) => extended_of_bits(b),
    }
}

pub open spec fn promote_ref(n: Numeric) -> Promoted {
    match n {
        Numeric::Int(i) => Promoted::FromInt(i as int),
        Numeric::Float(f) => Promoted::Bits(f),
    }
}

/// Numeric evidence: an integer, a float, or `#6.1` around one of them (any depth).
pub open spec fn numeric_evidence_spec(v: VModel) -> Option<Promoted>
    decreases v,
{
    match v {
        VModel::Int(n) => Some(Promoted::FromInt(n)),
        VModel::Float(f) => Some(Promoted::Bits(f)),
        VModel::Tag(t, inner) => if t == 1 {
            numeric_evidence_spec(*inner)
        } else {
            None
        },
        _ => None,
    }
}

/// Whether a three-way comparison outcome satisfies an operator.
pub open spec fn op_holds(op: NumericOp, c: int) -> bool {
    match op {
        NumericOp::Eq => c == 0,
        NumericOp::Gt => c > 0,
        NumericOp::Ge => c >= 0,
        NumericOp::Lt => c < 0,
        NumericOp::Le => c <= 0,
    }
}

/// `evidence op reference` on promoted values; `NaN` on either side fails.
pub open spec fn numeric_pass(op: NumericOp, ev: Promoted, r: Numeric) -> bool {
    !promoted_nan(ev) && !promoted_nan(promote_ref(r)) && op_holds(
        op,
        compare_extended(promoted_value(ev), promoted_value(promote_ref(r))),
    )
}

/// Integer evidence: an integer or `#6.552(integer)`.
pub open spec fn integer_evidence_spec(v: VModel) -> Option<int> {
    match v {
        VModel::Int(n) => Some(n),
        VModel::Tag(t, inner) => if t == TAG_SVN {
            match *inner {
                VModel::Int(n) => Some(n),
                _ => None,
            }
        } else {
            None
        },
        _ => None,
    }
}

/// Byte-string evidence: a byte string or `#6.560(bytes)`.
pub open spec fn bytes_evidence_spec(v: VModel) -> Option<Seq<u8>> {
    match v {
        VModel::Bytes(b) => Some(b),
        VModel::Tag(t, inner) => if t == TAG_BYTES {
            match *inner {
                VModel::Bytes(b) => Some(b),
                _ => None,
            }
        } else {
            None
        },
        _ => None,
    }
}

/// `(ev & mask) == (value & mask)` byte by byte, all three of one length.
pub open spec fn masked_eq_spec(ev: Seq<u8>, value: Seq<u8>, mask: Seq<u8>) -> bool {
    ev.len() == mask.len() && value.len() == mask.len() && forall|i: int|
        0 <= i < mask.len() ==> (#[trigger] ev[i] & mask[i]) == (value[i] & mask[i])
}

/// Whether some member equals `e` (CBOR equality).
pub open spec fn contains_equal(members: Seq<VModel>, e: VModel) -> bool {
    exists|i: int| 0 <= i < members.len() && value_eq(#[trigger] members[i], e)
}

pub open spec fn membership(op: SetOp, present: bool) -> bool {
    match op {
        SetOp::Member => present,
        SetOp::NotMember => !present,
    }
}

/// Whether evidence satisfies a decoded expression.
pub open spec fn expression_pass(x: ExprModel, e: VModel) -> bool {
    match x {
        ExprModel::Numeric { op, value } => match numeric_evidence_spec(e) {
            Some(n) => numeric_pass(op, n, value),
            None => false,
        },
        ExprModel::SetOfTstr { op, members } => match e {
            VModel::Text(t) => membership(op, members.contains(t)),
            _ => false,
        },
        ExprModel::SetOfDigests { op, members } => membership(op, contains_equal(members, e)),
        ExprModel::IntRange { min, max } => match integer_evidence_spec(e) {
            Some(n) => (min is None || n >= min->0) && (max is None || n <= max->0),
            None => false,
        },
        ExprModel::MinSvn(min) => match integer_evidence_spec(e) {
            Some(n) => 0 <= n <= u64::MAX && n >= min,
            None => false,
        },
        ExprModel::MaskedRawValue { value, mask } => match bytes_evidence_spec(e) {
            Some(b) => masked_eq_spec(b, value, mask),
            None => false,
        },
    }
}

/// Whether evidence satisfies the reference for an Intel key.
pub open spec fn key_pass(key: i64, r: VModel, e: VModel) -> bool {
    if key == MVAL_TEE_TCBDATE {
        tcbdate_match_spec(r, e)
    } else if r is Tag && is_expression_tag(r->Tag_0) {
        match from_tag_spec(r) {
            Ok(x) => expression_pass(x, e),
            Err(_) => false,
        }
    } else {
        value_eq(r, e)
    }
}

// ---------------------------------------------------------------------------
// Evaluator.
// ---------------------------------------------------------------------------

/// Evaluate one Intel-keyed `(reference, evidence)` pair.
pub fn evaluate_one_key(key: i64, reference: &Value, evidence: &Value, _ctx: &MatchContext) -> (v:
    Verdict)
    ensures
        v == verdict_of(key_pass(key, reference@, evidence@)),
{
    if key == MVAL_TEE_TCBDATE {
        return match_tcbdate(reference, evidence);
    }
    if let Value::Tag(t, _) = reference {
        if Expression::is_intel_expression_tag(*t) {
            return match Expression::from_tag(reference) {
                Ok(expr) => evaluate_expression(&expr, evidence),
                Err(_) => Verdict::Fail,
            };
        }
    }
    bool_verdict(values_equal(reference, evidence))
}

fn promoted_of_int(n: i128) -> (r: Number)
    ensures
        r.normal(),
        !(r is NaN),
        r.extended() == promoted_value(Promoted::FromInt(n as int)),
{
    number_of_int(n)
}

fn promoted_of_bits(b: u64) -> (r: Number)
    ensures
        r.normal(),
        r is NaN <==> is_nan(b),
        !is_nan(b) ==> r.extended() == promoted_value(Promoted::Bits(b)),
{
    number_of_bits(b)
}

/// Promote numeric evidence.
fn numeric_evidence(v: &Value) -> (r: Option<Number>)
    ensures
        r is None <==> numeric_evidence_spec(v@) is None,
        r matches Some(n) ==> n.normal() && (n is NaN <==> promoted_nan(
            numeric_evidence_spec(v@)->0,
        )) && (!(n is NaN) ==> n.extended() == promoted_value(numeric_evidence_spec(v@)->0)),
    decreases v,
{
    match v {
        Value::Integer(n) => Some(promoted_of_int(*n)),
        Value::Float(f) => Some(promoted_of_bits(*f)),
        Value::Tag(t, inner) => {
            assert(v@ == VModel::Tag(*t, Box::new(inner@)));
            if *t == 1 {
                numeric_evidence(inner)
            } else {
                None
            }
        },
        _ => None,
    }
}

fn op_outcome(op: NumericOp, c: i8) -> (r: bool)
    ensures
        r == op_holds(op, c as int),
{
    match op {
        NumericOp::Eq => c == 0,
        NumericOp::Gt => c > 0,
        NumericOp::Ge => c >= 0,
        NumericOp::Lt => c < 0,
        NumericOp::Le => c <= 0,
    }
}

fn numeric_verdict(op: NumericOp, ev: &Number, ghost_ev: Ghost<Promoted>, refv: &Numeric) -> (v:
    Verdict)
    requires
        ev.normal(),
        ev is NaN <==> promoted_nan(ghost_ev@),
        !(ev is NaN) ==> ev.extended() == promoted_value(ghost_ev@),
    ensures
        v == verdict_of(numeric_pass(op, ghost_ev@, *refv)),
{
    let r = match refv {
        Numeric::Int(i) => promoted_of_int(*i),
        Numeric::Float(f) => promoted_of_bits(*f),
    };
    if matches!(ev, Number::NaN) || matches!(r, Number::NaN) {
        return Verdict::Fail;
    }
    let c = compare_numbers(ev, &r);
    bool_verdict(op_outcome(op, c))
}

fn integer_evidence(v: &Value) -> (r: Option<i128>)
    ensures
        r matches Some(n) ==> integer_evidence_spec(v@) == Some(n as int),
        r is None ==> integer_evidence_spec(v@) is None,
{
    match v {
        Value::Integer(n) => Some(*n),
        Value::Tag(t, inner) => {
            assert(v@ == VModel::Tag(*t, Box::new(inner@)));
            if *t == TAG_SVN {
                match &**inner {
                    Value::Integer(n) => Some(*n),
                    _ => None,
                }
            } else {
                None
            }
        },
        _ => None,
    }
}

fn bytes_evidence(v: &Value) -> (r: Option<&[u8]>)
    ensures
        r matches Some(b) ==> bytes_evidence_spec(v@) == Some(b@),
        r is None ==> bytes_evidence_spec(v@) is None,
{
    match v {
        Value::Bytes(b) => Some(b.as_slice()),
        Value::Tag(t, inner) => {
            assert(v@ == VModel::Tag(*t, Box::new(inner@)));
            if *t == TAG_BYTES {
                match &**inner {
                    Value::Bytes(b) => Some(b.as_slice()),
                    _ => None,
                }
            } else {
                None
            }
        },
        _ => None,
    }
}

/// Mask-aware byte comparison: `(ev & mask) == (value & mask)`, all of one length.
fn masked_eq(evidence: &[u8], value: &[u8], mask: &[u8]) -> (v: Verdict)
    ensures
        v == verdict_of(masked_eq_spec(evidence@, value@, mask@)),
{
    if evidence.len() != mask.len() || value.len() != mask.len() {
        return Verdict::Fail;
    }
    let mut i: usize = 0;
    while i < mask.len()
        invariant
            evidence@.len() == mask@.len(),
            value@.len() == mask@.len(),
            i <= mask@.len(),
            forall|j: int| 0 <= j < i ==> (#[trigger] evidence@[j] & mask@[j]) == (value@[j]
                & mask@[j]),
        decreases mask@.len() - i,
    {
        if (evidence[i] & mask[i]) != (value[i] & mask[i]) {
            return Verdict::Fail;
        }
        i += 1;
    }
    Verdict::Pass
}

fn text_present(members: &Vec<String>, t: &String) -> (r: bool)
    ensures
        r == strings_model(members@).contains(t@),
{
    let ghost ms = strings_model(members@);
    let mut i: usize = 0;
    while i < members.len()
        invariant
            i <= members@.len(),
            ms == strings_model(members@),
            forall|j: int| 0 <= j < i ==> ms[j] != t@,
        decreases members@.len() - i,
    {
        if members[i] == *t {
            proof {
                assert(ms[i as int] == t@);
            }
            return true;
        }
        assert(ms[i as int] == members@[i as int]@);
        i += 1;
    }
    false
}

fn value_present(members: &Vec<Value>, e: &Value) -> (r: bool)
    ensures
        r == contains_equal(model_list(members@), e@),
{
    proof {
        lemma_model_list(members@);
    }
    let ghost ms = model_list(members@);
    let mut i: usize = 0;
    while i < members.len()
        invariant
            i <= members@.len(),
            ms == model_list(members@),
            ms.len() == members@.len(),
            forall|j: int| 0 <= j < members@.len() ==> #[trigger] ms[j] == model(members@[j]),
            forall|j: int| 0 <= j < i ==> !value_eq(#[trigger] ms[j], e@),
        decreases members@.len() - i,
    {
        if values_equal(&members[i], e) {
            proof {
                assert(value_eq(ms[i as int], e@));
            }
            return true;
        }
        i += 1;
    }
    false
}

fn membership_verdict(op: SetOp, present: bool) -> (v: Verdict)
    ensures
        v == verdict_of(membership(op, present)),
{
    match op {
        SetOp::Member => bool_verdict(present),
        SetOp::NotMember => bool_verdict(!present),
    }
}

fn evaluate_expression(e: &Expression, ev: &Value) -> (v: Verdict)
    ensures
        v == verdict_of(expression_pass(e@, ev@)),
{
    match e {
        Expression::Numeric { op, value } => {
            assert(e@ == ExprModel::Numeric { op: *op, value: *value });
            let r = match numeric_evidence(ev) {
                Some(n) => numeric_verdict(*op, &n, Ghost(numeric_evidence_spec(ev@)->0), value),
                None => Verdict::Fail,
            };
            assert(r == verdict_of(expression_pass(e@, ev@)));
            r
        },
        Expression::SetOfTstr { op, members } => {
            assert(e@ == ExprModel::SetOfTstr { op: *op, members: strings_model(members@) });
            let ev_text = match ev {
                Value::Text(t) => t,
                _ => return Verdict::Fail,
            };
            let present = text_present(members, ev_text);
            let r = membership_verdict(*op, present);
            assert(r == verdict_of(expression_pass(e@, ev@)));
            r
        },
        Expression::SetOfDigests { op, members } => {
            assert(e@ == ExprModel::SetOfDigests { op: *op, members: model_list(members@) });
            let present = value_present(members, ev);
            let r = membership_verdict(*op, present);
            assert(r == verdict_of(expression_pass(e@, ev@)));
            r
        },
        Expression::IntRange { min, max } => {
            assert(e@ == ExprModel::IntRange { min: opt_i128(*min), max: opt_i128(*max) });
            match integer_evidence(ev) {
                Some(ev_n) => {
                    let lo_ok = match min {
                        Some(lo) => ev_n >= *lo,
                        None => true,
                    };
                    let hi_ok = match max {
                        Some(hi) => ev_n <= *hi,
                        None => true,
                    };
                    bool_verdict(lo_ok && hi_ok)
                },
                None => Verdict::Fail,
            }
        },
        Expression::MinSvn(min) => {
            assert(e@ == ExprModel::MinSvn(*min as int));
            match integer_evidence(ev) {
                Some(ev_n) => {
                    if ev_n >= 0 {
                        if ev_n > 0xffff_ffff_ffff_ffffi128 {
                            return Verdict::Fail;
                        }
                        let ev_u = ev_n as u64;
                        bool_verdict(ev_u >= *min)
                    } else {
                        Verdict::Fail
                    }
                },
                None => Verdict::Fail,
            }
        },
        Expression::MaskedRawValue { value, mask } => {
            assert(e@ == ExprModel::MaskedRawValue { value: value@, mask: mask@ });
            match bytes_evidence(ev) {
                Some(ev_bytes) => masked_eq(ev_bytes, value.as_slice(), mask.as_slice()),
                None => Verdict::Fail,
            }
        },
    }
}

/// The overall verdict of per-key verdicts: `Some(false)` if any failed, `Some(true)` if
/// there is at least one and all passed, `None` if there are none.
pub open spec fn combine_spec(verdicts: Seq<Verdict>) -> Option<bool> {
    if exists|i: int| 0 <= i < verdicts.len() && verdicts[i] == Verdict::Fail {
        Some(false)
    } else if verdicts.len() > 0 {
        Some(true)
    } else {
        None
    }
}

/// Combine per-key verdicts into the overall profile verdict.
pub fn combine(verdicts: &[Verdict]) -> (r: Option<bool>)
    ensures
        r == combine_spec(verdicts@),
{
    let mut had_pass = false;
    let mut i: usize = 0;
    while i < verdicts.len()
        invariant
            i <= verdicts@.len(),
            forall|j: int| 0 <= j < i ==> verdicts@[j] == Verdict::Pass,
            had_pass == (i > 0),
        decreases verdicts@.len() - i,
    {
        match verdicts[i] {
            Verdict::Fail => {
                return Some(false);
            },
            Verdict::Pass => {
                had_pass = true;
            },
        }
        i += 1;
    }
    if had_pass {
        Some(true)
    } else {
        None
    }
}

/// A failing verdict anywhere in the list makes the combined verdict a failure.
pub proof fn lemma_combine_any_fail(verdicts: Seq<Verdict>, k: int)
    requires
        0 <= k < verdicts.len(),
        verdicts[k] == Verdict::Fail,
    ensures
        combine_spec(verdicts) == Some(false),
{
}

/// A non-empty list of passing verdicts combines to a pass; an empty list to no verdict.
pub proof fn lemma_combine_all_pass(verdicts: Seq<Verdict>)
    requires
        forall|k: int| 0 <= k < verdicts.len() ==> verdicts[k] == Verdict::Pass,
    ensures
        verdicts.len() > 0 ==> combine_spec(verdicts) == Some(true),
        verdicts.len() == 0 ==> combine_spec(verdicts) is None,
{
}

/// Combining does not depend on the order of the verdicts: appending one more verdict
/// gives a failure if it or an earlier one fails, and a pass if all pass.
pub proof fn lemma_combine_push(verdicts: Seq<Verdict>, v: Verdict)
    ensures
        combine_spec(verdicts.push(v)) == (if v == Verdict::Fail || combine_spec(verdicts) == Some(false) {
            Some(false)
        } else {
            Some(true)
        }),
{
    let w = verdicts.push(v);
    if v == Verdict::Fail {
        assert(w[verdicts.len() as int] == Verdict::Fail);
    } else if combine_spec(verdicts) == Some(false) {
        let k = choose|k: int| 0 <= k < verdicts.len() && verdicts[k] == Verdict::Fail;
        assert(w[k] == Verdict::Fail);
    } else {
        assert forall|k: int| 0 <= k < w.len() implies w[k] != Verdict::Fail by {
            if k < verdicts.len() {
                assert(w[k] == verdicts[k]);
            }
        }
    }
}

} // verus!
