use corim::cbor::Value;
use corim::profile::intel::expression::TAG_INTEL_SET_TSTR_EXPRESSION;
use corim::profile::intel::{
    intel_mval_name, intel_profile_oid_der, IntelProfile, MVAL_TEE_ATTRIBUTES, MVAL_TEE_ISVSVN,
    MVAL_TEE_MRTEE, MVAL_TEE_TCBDATE, MVAL_TEE_TCBSTATUS, MVAL_TEE_VENDOR,
};
use corim::profile::Profile;
use corim::types::corim::ProfileChoice;

#[test]
fn oid_round_trips_through_profile_choice() {
    let p = IntelProfile::new();
    match p.identifier() {
        ProfileChoice::Oid(b) => assert_eq!(b.as_slice(), intel_profile_oid_der().as_slice()),
        other => panic!("expected Oid, got {:?}", other),
    }
}

#[test]
fn known_mval_keys_map_to_names() {
    assert_eq!(intel_mval_name(-70), Some("tee.vendor"));
    assert_eq!(intel_mval_name(-83), Some("tee.mrtee"));
    assert_eq!(intel_mval_name(-125), Some("tee.tcb-comp-svn"));
}

#[test]
fn unknown_mval_keys_return_none() {
    assert_eq!(intel_mval_name(-1), None);
    assert_eq!(intel_mval_name(0), None);
    assert_eq!(intel_mval_name(-77), None); // v03 tee.instance-id (removed in v07)
    assert_eq!(intel_mval_name(-90), None); // v03 tee.epoch (removed in v07)
    assert_eq!(intel_mval_name(-100), None);
    assert_eq!(intel_mval_name(-126), None);
}

#[test]
fn platform_instance_id_is_recognised() {
    // v07 §8.3.6 replaces -77 with -101.
    assert_eq!(intel_mval_name(-101), Some("tee.platform-instance-id"));
}

#[test]
fn diagnose_renders_known_keys() {
    let p = IntelProfile::new();
    let label = p.diagnose_mval_entry(MVAL_TEE_VENDOR, &Value::Text("Intel".to_string()));
    assert_eq!(label.as_deref(), Some("tee.vendor = \"Intel\""));

    let digest_array = Value::Array(vec![Value::Integer(1), Value::Bytes(vec![0u8; 32])]);
    let label = p.diagnose_mval_entry(MVAL_TEE_MRTEE, &digest_array);
    assert_eq!(label.as_deref(), Some("tee.mrtee = array[2]"));

    let label = p.diagnose_mval_entry(MVAL_TEE_ISVSVN, &Value::Integer(3));
    assert_eq!(label.as_deref(), Some("tee.isvsvn = 3"));
}

#[test]
fn diagnose_renders_v07_set_tstr_expression() {
    let p = IntelProfile::new();
    let expr = Value::Tag(
        TAG_INTEL_SET_TSTR_EXPRESSION,
        Box::new(Value::Array(vec![
            Value::Integer(6), // op.mem
            Value::Array(vec![
                Value::Text("UpToDate".into()),
                Value::Text("Hardening".into()),
            ]),
        ])),
    );
    let label = p.diagnose_mval_entry(MVAL_TEE_TCBSTATUS, &expr);
    assert_eq!(label.as_deref(), Some("tee.tcbstatus = member (2 strings)"));
}

#[test]
fn diagnose_renders_int_range_expression() {
    let p = IntelProfile::new();
    let expr = Value::Tag(
        corim::tags::TAG_INT_RANGE,
        Box::new(Value::Array(vec![Value::Integer(0), Value::Integer(15)])),
    );
    let label = p.diagnose_mval_entry(MVAL_TEE_ISVSVN, &expr);
    assert_eq!(label.as_deref(), Some("tee.isvsvn = range [0..15]"));
}

#[test]
fn diagnose_renders_min_svn_expression() {
    let p = IntelProfile::new();
    let expr = Value::Tag(corim::tags::TAG_MIN_SVN, Box::new(Value::Integer(7)));
    let label = p.diagnose_mval_entry(MVAL_TEE_ISVSVN, &expr);
    assert_eq!(label.as_deref(), Some("tee.isvsvn = min-svn 7"));
}

#[test]
fn diagnose_renders_masked_raw_value_expression() {
    let p = IntelProfile::new();
    let expr = Value::Tag(
        corim::tags::TAG_MASKED_RAW_VALUE,
        Box::new(Value::Array(vec![
            Value::Bytes(vec![0xF0, 0x00, 0x00, 0x00]),
            Value::Bytes(vec![0xF0, 0xFF, 0xFF, 0xFF]),
        ])),
    );
    let label = p.diagnose_mval_entry(MVAL_TEE_ATTRIBUTES, &expr);
    assert_eq!(
        label.as_deref(),
        Some("tee.attributes = masked-bstr <4-byte value, 4-byte mask>")
    );
}

#[test]
fn diagnose_labels_rfc9581_time_tags() {
    let p = IntelProfile::new();
    // tee.tcbdate may carry etime / duration / period per v07 §8.3.4.
    let etime = Value::Tag(1001, Box::new(Value::Mapping(vec![])));
    let label = p.diagnose_mval_entry(MVAL_TEE_TCBDATE, &etime);
    assert_eq!(label.as_deref(), Some("tee.tcbdate = etime(…)"));
    let period = Value::Tag(1003, Box::new(Value::Array(vec![])));
    let label = p.diagnose_mval_entry(MVAL_TEE_TCBDATE, &period);
    assert_eq!(label.as_deref(), Some("tee.tcbdate = period(…)"));
}

#[test]
fn diagnose_returns_none_for_unknown_keys() {
    let p = IntelProfile::new();
    assert_eq!(p.diagnose_mval_entry(-1, &Value::Integer(0)), None);
    assert_eq!(p.diagnose_mval_entry(9999, &Value::Null), None);
}

#[test]
fn long_text_is_truncated() {
    let p = IntelProfile::new();
    let long = "x".repeat(100);
    let label = p
        .diagnose_mval_entry(MVAL_TEE_VENDOR, &Value::Text(long))
        .expect("known key");
    assert!(label.contains("…"));
    assert!(label.contains("(100 chars)"));
}
