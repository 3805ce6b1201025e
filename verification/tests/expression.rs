use corim::cbor::Value;
use corim::profile::intel::expression::{
    display_expression, Expression, ExpressionDecodeError, Numeric, NumericOp, SetOp,
    TAG_INTEL_EXPRESSION, TAG_INTEL_SET_DIGEST_EXPRESSION, TAG_INTEL_SET_TSTR_EXPRESSION,
};
use corim::tags::{TAG_INT_RANGE, TAG_MASKED_RAW_VALUE, TAG_MIN_SVN};

const OP_EQ: i64 = 0;
const OP_GE: i64 = 2;
const OP_LT: i64 = 3;
const OP_MEMBER: i64 = 6;
const OP_NOT_MEMBER: i64 = 7;

fn numeric_expr(items: Vec<Value>) -> Value {
    Value::Tag(TAG_INTEL_EXPRESSION, Box::new(Value::Array(items)))
}
fn set_digest_expr(items: Vec<Value>) -> Value {
    Value::Tag(
        TAG_INTEL_SET_DIGEST_EXPRESSION,
        Box::new(Value::Array(items)),
    )
}
fn set_tstr_expr(items: Vec<Value>) -> Value {
    Value::Tag(TAG_INTEL_SET_TSTR_EXPRESSION, Box::new(Value::Array(items)))
}

// -- numeric -------------------------------------------------------------

#[test]
fn decodes_numeric_ge_int() {
    let v = numeric_expr(vec![Value::Integer(OP_GE as i128), Value::Integer(5)]);
    let e = Expression::from_tag(&v).unwrap();
    assert_eq!(
        e,
        Expression::Numeric {
            op: NumericOp::Ge,
            value: Numeric::Int(5),
        }
    );
    assert_eq!(display_expression(&e), "ge 5");
}

#[test]
fn decodes_numeric_eq() {
    let v = numeric_expr(vec![Value::Integer(OP_EQ as i128), Value::Integer(7)]);
    let e = Expression::from_tag(&v).unwrap();
    assert_eq!(
        e,
        Expression::Numeric {
            op: NumericOp::Eq,
            value: Numeric::Int(7),
        }
    );
}

#[test]
fn decodes_numeric_lt_float() {
    let v = numeric_expr(vec![Value::Integer(OP_LT as i128), Value::Float(1.5f64.to_bits())]);
    let e = Expression::from_tag(&v).unwrap();
    assert_eq!(
        e,
        Expression::Numeric {
            op: NumericOp::Lt,
            value: Numeric::Float(1.5f64.to_bits()),
        }
    );
}

#[test]
fn unwraps_tagged_time_61() {
    let inner = Value::Tag(1, Box::new(Value::Integer(1700000000)));
    let v = numeric_expr(vec![Value::Integer(OP_GE as i128), inner]);
    let e = Expression::from_tag(&v).unwrap();
    assert_eq!(
        e,
        Expression::Numeric {
            op: NumericOp::Ge,
            value: Numeric::Int(1700000000),
        }
    );
}

// -- set-of-tstr ---------------------------------------------------------

#[test]
fn decodes_set_tstr_member() {
    let v = set_tstr_expr(vec![
        Value::Integer(OP_MEMBER as i128),
        Value::Array(vec![
            Value::Text("UpToDate".into()),
            Value::Text("OutOfDate".into()),
        ]),
    ]);
    let e = Expression::from_tag(&v).unwrap();
    match &e {
        Expression::SetOfTstr { op, members } => {
            assert_eq!(*op, SetOp::Member);
            assert_eq!(members.len(), 2);
        }
        other => panic!("expected SetOfTstr, got {:?}", other),
    }
    assert_eq!(display_expression(&e), "member (2 strings)");
}

#[test]
fn decodes_set_tstr_not_member_singleton_uses_singular() {
    let v = set_tstr_expr(vec![
        Value::Integer(OP_NOT_MEMBER as i128),
        Value::Array(vec![Value::Text("CVE-1".into())]),
    ]);
    let e = Expression::from_tag(&v).unwrap();
    assert_eq!(display_expression(&e), "not-member (1 string)");
}

#[test]
fn set_tstr_rejects_non_text_member() {
    let v = set_tstr_expr(vec![
        Value::Integer(OP_MEMBER as i128),
        Value::Array(vec![Value::Integer(1)]),
    ]);
    assert_eq!(
        Expression::from_tag(&v).unwrap_err(),
        ExpressionDecodeError::SetTstrMemberNotText
    );
}

// -- set-of-digests ------------------------------------------------------

#[test]
fn decodes_set_digest_member() {
    let digest = Value::Array(vec![Value::Integer(1), Value::Bytes(vec![0u8; 32])]);
    let v = set_digest_expr(vec![
        Value::Integer(OP_MEMBER as i128),
        Value::Array(vec![digest]),
    ]);
    let e = Expression::from_tag(&v).unwrap();
    match &e {
        Expression::SetOfDigests { op, members } => {
            assert_eq!(*op, SetOp::Member);
            assert_eq!(members.len(), 1);
        }
        other => panic!("expected SetOfDigests, got {:?}", other),
    }
    assert_eq!(display_expression(&e), "member (1 digest)");
}

// -- int-range -----------------------------------------------------------

#[test]
fn decodes_int_range_closed() {
    let v = Value::Tag(
        TAG_INT_RANGE,
        Box::new(Value::Array(vec![Value::Integer(0), Value::Integer(15)])),
    );
    let e = Expression::from_tag(&v).unwrap();
    assert_eq!(
        e,
        Expression::IntRange {
            min: Some(0),
            max: Some(15),
        }
    );
    assert_eq!(display_expression(&e), "range [0..15]");
}

#[test]
fn decodes_int_range_half_open_min() {
    let v = Value::Tag(
        TAG_INT_RANGE,
        Box::new(Value::Array(vec![Value::Null, Value::Integer(10)])),
    );
    let e = Expression::from_tag(&v).unwrap();
    assert_eq!(
        e,
        Expression::IntRange {
            min: None,
            max: Some(10),
        }
    );
    assert_eq!(display_expression(&e), "range [-∞..10]");
}

#[test]
fn decodes_int_range_half_open_max() {
    let v = Value::Tag(
        TAG_INT_RANGE,
        Box::new(Value::Array(vec![Value::Integer(5), Value::Null])),
    );
    let e = Expression::from_tag(&v).unwrap();
    assert_eq!(display_expression(&e), "range [5..+∞]");
}

#[test]
fn int_range_rejects_reversed() {
    let v = Value::Tag(
        TAG_INT_RANGE,
        Box::new(Value::Array(vec![Value::Integer(10), Value::Integer(0)])),
    );
    assert_eq!(
        Expression::from_tag(&v).unwrap_err(),
        ExpressionDecodeError::IntRangeReversed
    );
}

#[test]
fn int_range_rejects_non_int_non_null_bound() {
    let v = Value::Tag(
        TAG_INT_RANGE,
        Box::new(Value::Array(vec![
            Value::Text("0".into()),
            Value::Integer(10),
        ])),
    );
    assert_eq!(
        Expression::from_tag(&v).unwrap_err(),
        ExpressionDecodeError::IntRangeBoundType
    );
}

// -- min-svn -------------------------------------------------------------

#[test]
fn decodes_min_svn() {
    let v = Value::Tag(TAG_MIN_SVN, Box::new(Value::Integer(5)));
    let e = Expression::from_tag(&v).unwrap();
    assert_eq!(e, Expression::MinSvn(5));
    assert_eq!(display_expression(&e), "min-svn 5");
}

#[test]
fn min_svn_rejects_negative() {
    let v = Value::Tag(TAG_MIN_SVN, Box::new(Value::Integer(-1)));
    assert_eq!(
        Expression::from_tag(&v).unwrap_err(),
        ExpressionDecodeError::MinSvnOutOfRange
    );
}

#[test]
fn min_svn_rejects_non_int() {
    let v = Value::Tag(TAG_MIN_SVN, Box::new(Value::Text("5".into())));
    assert_eq!(
        Expression::from_tag(&v).unwrap_err(),
        ExpressionDecodeError::MinSvnNotUint
    );
}

// -- masked-raw-value ---------------------------------------------------

#[test]
fn decodes_masked_raw_value() {
    let v = Value::Tag(
        TAG_MASKED_RAW_VALUE,
        Box::new(Value::Array(vec![
            Value::Bytes(vec![0xAA, 0xBB]),
            Value::Bytes(vec![0xFF, 0x00]),
        ])),
    );
    let e = Expression::from_tag(&v).unwrap();
    assert_eq!(
        e,
        Expression::MaskedRawValue {
            value: vec![0xAA, 0xBB],
            mask: vec![0xFF, 0x00],
        }
    );
    assert_eq!(
        display_expression(&e),
        "masked-bstr <2-byte value, 2-byte mask>"
    );
}

#[test]
fn masked_raw_value_rejects_wrong_arity() {
    let v = Value::Tag(
        TAG_MASKED_RAW_VALUE,
        Box::new(Value::Array(vec![Value::Bytes(vec![0])])),
    );
    assert_eq!(
        Expression::from_tag(&v).unwrap_err(),
        ExpressionDecodeError::WrongArity(1)
    );
}

#[test]
fn masked_raw_value_rejects_non_bytes() {
    let v = Value::Tag(
        TAG_MASKED_RAW_VALUE,
        Box::new(Value::Array(vec![
            Value::Text("oops".into()),
            Value::Bytes(vec![0xFF]),
        ])),
    );
    assert_eq!(
        Expression::from_tag(&v).unwrap_err(),
        ExpressionDecodeError::MaskedRawValueNotBytes
    );
}

// -- error cases ---------------------------------------------------------

#[test]
fn rejects_non_tag() {
    assert_eq!(
        Expression::from_tag(&Value::Integer(1)).unwrap_err(),
        ExpressionDecodeError::NotTagged,
    );
}

#[test]
fn rejects_wrong_tag() {
    let v = Value::Tag(999, Box::new(Value::Array(vec![])));
    assert_eq!(
        Expression::from_tag(&v).unwrap_err(),
        ExpressionDecodeError::WrongTag(999),
    );
}

#[test]
fn numeric_rejects_wrong_arity() {
    let v = numeric_expr(vec![Value::Integer(OP_GE as i128)]);
    assert_eq!(
        Expression::from_tag(&v).unwrap_err(),
        ExpressionDecodeError::WrongArity(1),
    );
    let v = numeric_expr(vec![
        Value::Integer(OP_GE as i128),
        Value::Integer(0),
        Value::Integer(0),
    ]);
    assert_eq!(
        Expression::from_tag(&v).unwrap_err(),
        ExpressionDecodeError::WrongArity(3),
    );
}

#[test]
fn numeric_rejects_set_operator() {
    let v = numeric_expr(vec![Value::Integer(OP_MEMBER as i128), Value::Integer(0)]);
    assert_eq!(
        Expression::from_tag(&v).unwrap_err(),
        ExpressionDecodeError::UnknownOperator(OP_MEMBER),
    );
}

#[test]
fn set_rejects_numeric_operator() {
    let v = set_tstr_expr(vec![Value::Integer(OP_GE as i128), Value::Array(vec![])]);
    assert_eq!(
        Expression::from_tag(&v).unwrap_err(),
        ExpressionDecodeError::UnknownOperator(OP_GE),
    );
}

#[test]
fn rejects_non_integer_operator() {
    let v = numeric_expr(vec![Value::Text("ge".into()), Value::Integer(0)]);
    assert_eq!(
        Expression::from_tag(&v).unwrap_err(),
        ExpressionDecodeError::OperatorNotInteger,
    );
}

#[test]
fn rejects_unknown_operator_code() {
    let v = numeric_expr(vec![Value::Integer(99), Value::Integer(0)]);
    assert_eq!(
        Expression::from_tag(&v).unwrap_err(),
        ExpressionDecodeError::UnknownOperator(99),
    );
}

#[test]
fn set_rejects_non_array_operand() {
    let v = set_tstr_expr(vec![Value::Integer(OP_MEMBER as i128), Value::Integer(1)]);
    assert_eq!(
        Expression::from_tag(&v).unwrap_err(),
        ExpressionDecodeError::SetOperandNotArray,
    );
}

#[test]
fn is_intel_expression_tag_check() {
    assert!(Expression::is_intel_expression_tag(60010));
    assert!(Expression::is_intel_expression_tag(60020));
    assert!(Expression::is_intel_expression_tag(60021));
    assert!(Expression::is_intel_expression_tag(563));
    assert!(Expression::is_intel_expression_tag(564));
    assert!(Expression::is_intel_expression_tag(553));
    assert!(!Expression::is_intel_expression_tag(0));
    assert!(!Expression::is_intel_expression_tag(60011));
}
