use corim::cbor::Value;
use corim::profile::intel::eval::{combine, evaluate_one_key, Verdict};
use corim::profile::intel::expression::{
    NumericOp, SetOp, TAG_INTEL_EXPRESSION, TAG_INTEL_SET_DIGEST_EXPRESSION,
    TAG_INTEL_SET_TSTR_EXPRESSION,
};
use corim::profile::intel::MVAL_TEE_ISVSVN;
use corim::profile::MatchContext;
use corim::tags::{TAG_INT_RANGE, TAG_MASKED_RAW_VALUE, TAG_MIN_SVN};

fn eval_pair(reference: &Value, evidence: &Value) -> Verdict {
    // Use a non-tcbdate key so the generic decoder path runs.
    evaluate_one_key(
        MVAL_TEE_ISVSVN,
        reference,
        evidence,
        &MatchContext::new(),
    )
}

fn numeric_expr(items: Vec<Value>) -> Value {
    Value::Tag(TAG_INTEL_EXPRESSION, Box::new(Value::Array(items)))
}
fn set_tstr_expr(items: Vec<Value>) -> Value {
    Value::Tag(TAG_INTEL_SET_TSTR_EXPRESSION, Box::new(Value::Array(items)))
}
fn set_digest_expr(items: Vec<Value>) -> Value {
    Value::Tag(
        TAG_INTEL_SET_DIGEST_EXPRESSION,
        Box::new(Value::Array(items)),
    )
}
fn int_range_expr(min: Value, max: Value) -> Value {
    Value::Tag(TAG_INT_RANGE, Box::new(Value::Array(vec![min, max])))
}
fn min_svn_expr(v: u64) -> Value {
    Value::Tag(TAG_MIN_SVN, Box::new(Value::Integer(v as i128)))
}

// -- evaluate_one_key: bare values -------------------------------------

#[test]
fn bare_text_equal_passes() {
    assert_eq!(
        eval_pair(&Value::Text("Intel".into()), &Value::Text("Intel".into())),
        Verdict::Pass
    );
}

#[test]
fn bare_text_unequal_fails() {
    assert_eq!(
        eval_pair(&Value::Text("Intel".into()), &Value::Text("AMD".into())),
        Verdict::Fail
    );
}

#[test]
fn bare_bytes_equal_passes() {
    let v = Value::Bytes(vec![1, 2, 3]);
    assert_eq!(eval_pair(&v, &v), Verdict::Pass);
}

// -- numeric ------------------------------------------------------------

#[test]
fn numeric_ge_passes_on_equal_and_greater() {
    let r = numeric_expr(vec![Value::Integer(2), Value::Integer(5)]); // ge 5
    assert_eq!(eval_pair(&r, &Value::Integer(5)), Verdict::Pass);
    assert_eq!(eval_pair(&r, &Value::Integer(9)), Verdict::Pass);
}

#[test]
fn numeric_ge_fails_on_lesser() {
    let r = numeric_expr(vec![Value::Integer(2), Value::Integer(5)]);
    assert_eq!(eval_pair(&r, &Value::Integer(4)), Verdict::Fail);
}

#[test]
fn numeric_eq_strict() {
    let r = numeric_expr(vec![Value::Integer(0), Value::Integer(7)]); // eq 7
    assert_eq!(eval_pair(&r, &Value::Integer(7)), Verdict::Pass);
    assert_eq!(eval_pair(&r, &Value::Integer(8)), Verdict::Fail);
}

#[test]
fn numeric_gt_strict() {
    let r = numeric_expr(vec![Value::Integer(1), Value::Integer(5)]); // gt 5
    assert_eq!(eval_pair(&r, &Value::Integer(5)), Verdict::Fail);
    assert_eq!(eval_pair(&r, &Value::Integer(6)), Verdict::Pass);
}

#[test]
fn numeric_lt_le() {
    let lt = numeric_expr(vec![Value::Integer(3), Value::Integer(10)]); // lt 10
    let le = numeric_expr(vec![Value::Integer(4), Value::Integer(10)]); // le 10
    assert_eq!(eval_pair(&lt, &Value::Integer(9)), Verdict::Pass);
    assert_eq!(eval_pair(&lt, &Value::Integer(10)), Verdict::Fail);
    assert_eq!(eval_pair(&le, &Value::Integer(10)), Verdict::Pass);
    assert_eq!(eval_pair(&le, &Value::Integer(11)), Verdict::Fail);
}

#[test]
fn numeric_float_compare() {
    let r = numeric_expr(vec![Value::Integer(2), Value::Float(1.5f64.to_bits())]); // ge 1.5
    assert_eq!(eval_pair(&r, &Value::Float(2.0f64.to_bits())), Verdict::Pass);
    assert_eq!(eval_pair(&r, &Value::Float(1.0f64.to_bits())), Verdict::Fail);
    assert_eq!(eval_pair(&r, &Value::Integer(2)), Verdict::Pass);
}

#[test]
fn numeric_fails_on_non_numeric_evidence() {
    let r = numeric_expr(vec![Value::Integer(2), Value::Integer(0)]);
    assert_eq!(eval_pair(&r, &Value::Text("oops".into())), Verdict::Fail);
}

#[test]
fn numeric_nan_fails() {
    let r = numeric_expr(vec![Value::Integer(2), Value::Float(0.0f64.to_bits())]);
    assert_eq!(eval_pair(&r, &Value::Float(f64::NAN.to_bits())), Verdict::Fail);
}

// -- set-of-tstr --------------------------------------------------------

#[test]
fn set_tstr_member_pass_and_fail() {
    let r = set_tstr_expr(vec![
        Value::Integer(6),
        Value::Array(vec![
            Value::Text("a".into()),
            Value::Text("b".into()),
            Value::Text("c".into()),
        ]),
    ]);
    assert_eq!(eval_pair(&r, &Value::Text("b".into())), Verdict::Pass);
    assert_eq!(eval_pair(&r, &Value::Text("z".into())), Verdict::Fail);
}

#[test]
fn set_tstr_not_member_pass_and_fail() {
    let r = set_tstr_expr(vec![
        Value::Integer(7),
        Value::Array(vec![
            Value::Text("CVE-A".into()),
            Value::Text("CVE-B".into()),
        ]),
    ]);
    assert_eq!(eval_pair(&r, &Value::Text("CVE-C".into())), Verdict::Pass);
    assert_eq!(eval_pair(&r, &Value::Text("CVE-A".into())), Verdict::Fail);
}

#[test]
fn set_tstr_non_text_evidence_fails() {
    let r = set_tstr_expr(vec![
        Value::Integer(6),
        Value::Array(vec![Value::Text("x".into())]),
    ]);
    assert_eq!(eval_pair(&r, &Value::Integer(1)), Verdict::Fail);
}

// -- set-of-digests -----------------------------------------------------

#[test]
fn set_digest_member_pass_and_fail() {
    let d1 = Value::Array(vec![Value::Integer(1), Value::Bytes(vec![0u8; 32])]);
    let d2 = Value::Array(vec![Value::Integer(1), Value::Bytes(vec![1u8; 32])]);
    let r = set_digest_expr(vec![
        Value::Integer(6),
        Value::Array(vec![d1.clone(), d2.clone()]),
    ]);
    assert_eq!(eval_pair(&r, &d1), Verdict::Pass);
    let other = Value::Array(vec![Value::Integer(1), Value::Bytes(vec![2u8; 32])]);
    assert_eq!(eval_pair(&r, &other), Verdict::Fail);
}

#[test]
fn set_digest_not_member_excludes_known_bad() {
    let bad = Value::Array(vec![Value::Integer(1), Value::Bytes(vec![0xBAu8; 32])]);
    let r = set_digest_expr(vec![Value::Integer(7), Value::Array(vec![bad.clone()])]);
    let good = Value::Array(vec![Value::Integer(1), Value::Bytes(vec![0xCCu8; 32])]);
    assert_eq!(eval_pair(&r, &good), Verdict::Pass);
    assert_eq!(eval_pair(&r, &bad), Verdict::Fail);
}

// -- int-range ----------------------------------------------------------

#[test]
fn int_range_closed_inclusive() {
    let r = int_range_expr(Value::Integer(0), Value::Integer(15));
    assert_eq!(eval_pair(&r, &Value::Integer(0)), Verdict::Pass);
    assert_eq!(eval_pair(&r, &Value::Integer(15)), Verdict::Pass);
    assert_eq!(eval_pair(&r, &Value::Integer(7)), Verdict::Pass);
    assert_eq!(eval_pair(&r, &Value::Integer(-1)), Verdict::Fail);
    assert_eq!(eval_pair(&r, &Value::Integer(16)), Verdict::Fail);
}

#[test]
fn int_range_open_min() {
    let r = int_range_expr(Value::Null, Value::Integer(10));
    assert_eq!(eval_pair(&r, &Value::Integer(-1_000_000)), Verdict::Pass);
    assert_eq!(eval_pair(&r, &Value::Integer(10)), Verdict::Pass);
    assert_eq!(eval_pair(&r, &Value::Integer(11)), Verdict::Fail);
}

#[test]
fn int_range_open_max() {
    let r = int_range_expr(Value::Integer(5), Value::Null);
    assert_eq!(eval_pair(&r, &Value::Integer(4)), Verdict::Fail);
    assert_eq!(eval_pair(&r, &Value::Integer(5)), Verdict::Pass);
    assert_eq!(eval_pair(&r, &Value::Integer(1_000_000)), Verdict::Pass);
}

#[test]
fn int_range_rejects_non_int_evidence() {
    let r = int_range_expr(Value::Integer(0), Value::Integer(10));
    assert_eq!(eval_pair(&r, &Value::Float(5.0f64.to_bits())), Verdict::Fail);
    assert_eq!(eval_pair(&r, &Value::Text("5".into())), Verdict::Fail);
}

#[test]
fn int_range_accepts_tagged_svn_evidence() {
    let r = int_range_expr(Value::Integer(0), Value::Integer(10));
    let ev = Value::Tag(corim::tags::TAG_SVN, Box::new(Value::Integer(5)));
    assert_eq!(eval_pair(&r, &ev), Verdict::Pass);
}

// -- min-svn ------------------------------------------------------------

#[test]
fn min_svn_pass_when_at_or_above() {
    let r = min_svn_expr(5);
    assert_eq!(eval_pair(&r, &Value::Integer(5)), Verdict::Pass);
    assert_eq!(eval_pair(&r, &Value::Integer(99)), Verdict::Pass);
}

#[test]
fn min_svn_fail_when_below_or_negative() {
    let r = min_svn_expr(5);
    assert_eq!(eval_pair(&r, &Value::Integer(4)), Verdict::Fail);
    assert_eq!(eval_pair(&r, &Value::Integer(-1)), Verdict::Fail);
}

#[test]
fn min_svn_accepts_tagged_svn_evidence() {
    let r = min_svn_expr(3);
    let ev = Value::Tag(corim::tags::TAG_SVN, Box::new(Value::Integer(7)));
    assert_eq!(eval_pair(&r, &ev), Verdict::Pass);
}

// -- masked-raw-value ---------------------------------------------------

fn masked_expr(value: Vec<u8>, mask: Vec<u8>) -> Value {
    Value::Tag(
        TAG_MASKED_RAW_VALUE,
        Box::new(Value::Array(vec![Value::Bytes(value), Value::Bytes(mask)])),
    )
}

#[test]
fn masked_raw_value_pass_under_mask() {
    // reference value=0xF0, mask=0xF0  →  upper nibble must be 0xF.
    let r = masked_expr(vec![0xF0], vec![0xF0]);
    assert_eq!(eval_pair(&r, &Value::Bytes(vec![0xFA])), Verdict::Pass);
    assert_eq!(eval_pair(&r, &Value::Bytes(vec![0xF7])), Verdict::Pass);
}

#[test]
fn masked_raw_value_fail_outside_mask() {
    let r = masked_expr(vec![0xF0], vec![0xF0]);
    assert_eq!(eval_pair(&r, &Value::Bytes(vec![0x10])), Verdict::Fail);
}

#[test]
fn masked_raw_value_length_mismatch_fails() {
    let r = masked_expr(vec![0xFF, 0xFF], vec![0xFF, 0xFF]);
    assert_eq!(eval_pair(&r, &Value::Bytes(vec![0xFF])), Verdict::Fail);
}

#[test]
fn masked_raw_value_accepts_tag_560_evidence() {
    // Evidence wrapped as #6.560(bstr) (`tagged-bytes`).
    let r = masked_expr(vec![0xF0], vec![0xF0]);
    let ev = Value::Tag(
        corim::tags::TAG_BYTES,
        Box::new(Value::Bytes(vec![0xFA])),
    );
    assert_eq!(eval_pair(&r, &ev), Verdict::Pass);
}

#[test]
fn masked_raw_value_non_bytes_evidence_fails() {
    let r = masked_expr(vec![0x00], vec![0xFF]);
    assert_eq!(eval_pair(&r, &Value::Integer(0)), Verdict::Fail);
}

// -- malformed expression fails-closed ---------------------------------

#[test]
fn malformed_expression_body_fails() {
    // Tag 60010 wrapping a non-array body → decode error → Fail.
    let r = Value::Tag(TAG_INTEL_EXPRESSION, Box::new(Value::Integer(5)));
    assert_eq!(eval_pair(&r, &Value::Integer(5)), Verdict::Fail);
}

#[test]
fn unknown_operator_fails() {
    let r = numeric_expr(vec![Value::Integer(99), Value::Integer(0)]);
    assert_eq!(eval_pair(&r, &Value::Integer(0)), Verdict::Fail);
}

#[test]
fn unrelated_tag_falls_back_to_equality() {
    // A non-Intel tag is treated as a bare CBOR value: equality
    // works if reference == evidence verbatim.
    let r = Value::Tag(42, Box::new(Value::Integer(5)));
    assert_eq!(eval_pair(&r, &r), Verdict::Pass);
    assert_eq!(eval_pair(&r, &Value::Integer(5)), Verdict::Fail);
}

// -- combine ------------------------------------------------------------

#[test]
fn combine_all_pass_is_some_true() {
    assert_eq!(combine(&[Verdict::Pass, Verdict::Pass]), Some(true));
}

#[test]
fn combine_any_fail_is_some_false() {
    assert_eq!(combine(&[Verdict::Pass, Verdict::Fail]), Some(false));
}

#[test]
fn combine_empty_is_none() {
    assert_eq!(combine(&[]), None);
}

// -- silence dead-code warnings ----------------------------------------

#[test]
fn evaluate_one_key_uses_enum_imports() {
    let _ = SetOp::Member;
    let _ = NumericOp::Ge;
}
