use corim::cbor::{encode, Value};
use corim::diagnose::{inspect, EnvelopeKind, Severity};
use corim::tags::{TAG_COMID, TAG_CORIM, TAG_SIGNED_CORIM};
use corim::types::signed::header::corim_content_type_str;

fn empty_report_has_envelope(bytes: &[u8], kind: EnvelopeKind) {
    let r = inspect(bytes);
    assert_eq!(r.envelope(), kind);
}

#[test]
fn empty_input_reports_error() {
    let r = inspect(&[]);
    assert_eq!(r.envelope(), EnvelopeKind::Unknown);
    assert!(r.error_count() >= 1);
}

#[test]
fn unknown_top_tag_reports_error() {
    // #6.999(0)
    let bytes = encode(&Value::Tag(999u64, Box::new(Value::Integer(0)))).unwrap();
    let r = inspect(&bytes);
    assert_eq!(r.envelope(), EnvelopeKind::Unknown);
    assert!(r.issues().iter().any(|i| i.severity() == Severity::Error));
}

#[test]
fn signed_envelope_recognized_even_when_payload_missing_inner_decode() {
    // #6.18([protected_bytes, {}, nil, sig]) where protected encodes a map missing alg and
    // the meta-group: the envelope is still classified and several issues are reported.
    let protected_inner = Value::Mapping(vec![(
        Value::Integer(3),
        Value::Text(corim_content_type_str().into()),
    )]);
    let protected_bytes = encode(&protected_inner).unwrap();
    let arr = Value::Array(vec![
        Value::Bytes(protected_bytes),
        Value::Mapping(vec![]),
        Value::Null,
        Value::Bytes(vec![0x55; 64]),
    ]);
    let bytes = encode(&Value::Tag(TAG_SIGNED_CORIM, Box::new(arr))).unwrap();
    empty_report_has_envelope(&bytes, EnvelopeKind::Signed);
    let r = inspect(&bytes);
    assert!(r
        .issues()
        .iter()
        .any(|i| i.severity() == Severity::Error && i.message().contains("alg")));
    assert!(r
        .issues()
        .iter()
        .any(|i| i.severity() == Severity::Error && i.message().contains("meta-group")));
}

#[test]
fn corim_meta_as_bare_map_is_flagged_with_hint() {
    // Key 8 carries a CBOR map directly, instead of bstr .cbor map.
    let protected_inner = Value::Mapping(vec![
        (Value::Integer(1), Value::Integer(-35)),
        (Value::Integer(3), Value::Text(corim_content_type_str().into())),
        (
            Value::Integer(8),
            Value::Mapping(vec![(
                Value::Integer(0),
                Value::Mapping(vec![(Value::Integer(0), Value::Text("Intel".into()))]),
            )]),
        ),
    ]);
    let protected_bytes = encode(&protected_inner).unwrap();
    let arr = Value::Array(vec![
        Value::Bytes(protected_bytes),
        Value::Mapping(vec![]),
        Value::Null,
        Value::Bytes(vec![0x00; 32]),
    ]);
    let bytes = encode(&Value::Tag(TAG_SIGNED_CORIM, Box::new(arr))).unwrap();
    let r = inspect(&bytes);
    let bad = r
        .issues()
        .iter()
        .find(|i| i.path() == "$.protected.8" && i.severity() == Severity::Error)
        .expect("expected an Error at $.protected.8");
    assert!(bad.message().contains("bare CBOR map"));
    assert!(bad.hint().is_some());
}

#[test]
fn unsigned_corim_with_one_comid_tag_reports_no_errors() {
    // A minimal valid #6.501(corim-map) with one CoMID tag.
    let inner_comid = Value::Mapping(vec![(Value::Integer(1), Value::Text("t".into()))]);
    let comid_bytes = encode(&inner_comid).unwrap();
    let corim_inner = Value::Mapping(vec![
        (Value::Integer(0), Value::Text("my-id".into())),
        (
            Value::Integer(1),
            Value::Array(vec![Value::Tag(TAG_COMID, Box::new(Value::Bytes(comid_bytes)))]),
        ),
    ]);
    let bytes = encode(&Value::Tag(TAG_CORIM, Box::new(corim_inner))).unwrap();
    let r = inspect(&bytes);
    assert_eq!(r.envelope(), EnvelopeKind::Unsigned);
    assert_eq!(r.error_count(), 0, "issues: {:#?}", r.issues());
}

#[test]
fn cose_sign1_wrong_arity_is_reported_but_decoding_continues() {
    let arr = Value::Array(vec![Value::Bytes(vec![]), Value::Mapping(vec![])]);
    let bytes = encode(&Value::Tag(TAG_SIGNED_CORIM, Box::new(arr))).unwrap();
    let r = inspect(&bytes);
    assert!(r
        .issues()
        .iter()
        .any(|i| i.message().contains("4") && i.severity() == Severity::Error));
    // Element 0 (empty protected bstr) is still inspected.
    assert!(r.issues().iter().any(|i| i.path() == "$.protected"));
}

#[test]
fn report_text_lists_issues_and_summary() {
    let r = inspect(&[]);
    assert_eq!(
        r.to_text(),
        "Diagnose: unrecognized envelope\n  [error] $\n         input is empty\nSummary: 1 error(s), 0 warning(s)\n"
    );
}

#[test]
fn content_type_mismatch_is_quoted() {
    let protected_inner = Value::Mapping(vec![
        (Value::Integer(1), Value::Integer(-7)),
        (Value::Integer(3), Value::Text("text/plain".into())),
        (Value::Integer(15), Value::Mapping(vec![(Value::Integer(1), Value::Text("x".into()))])),
    ]);
    let arr = Value::Array(vec![
        Value::Bytes(encode(&protected_inner).unwrap()),
        Value::Mapping(vec![]),
        Value::Null,
        Value::Bytes(vec![1]),
    ]);
    let bytes = encode(&Value::Tag(TAG_SIGNED_CORIM, Box::new(arr))).unwrap();
    let r = inspect(&bytes);
    assert_eq!(r.error_count(), 0);
    assert_eq!(r.warning_count(), 1);
    let w = r.issues().iter().find(|i| i.severity() == Severity::Warning).unwrap();
    assert_eq!(w.path(), "$.protected.3");
    assert_eq!(
        w.message(),
        "content-type (key 3) is \"text/plain\", expected \"application/rim+cbor\""
    );
}
