use corim::cbor::{decode, encode, Value};
use corim::compat::{decode_comid_from_tcg_bstr, peel_tcg_wrappers, wrap_bare_corim_map};
use corim::error::DecodeError;
use corim::tags::{TAG_COMID, TAG_CORIM, TAG_LEGACY_SIGNED, TAG_LEGACY_TOP, TAG_SIGNED_CORIM};
use corim::types::common::TagIdChoice;

#[test]
fn no_legacy_wrapper_returns_unchanged() {
    // A normal #6.501(map{}) — should pass through untouched.
    let bytes = encode(&Value::Tag(TAG_CORIM, Box::new(Value::Mapping(vec![])))).unwrap();
    let out = peel_tcg_wrappers(&bytes).unwrap();
    assert!(!out.was_peeled());
    assert_eq!(out.as_bytes(), bytes.as_slice());
}

#[test]
fn peels_500_wrapper() {
    // #6.500(#6.501({})) -> #6.501({})
    let inner = Value::Tag(TAG_CORIM, Box::new(Value::Mapping(vec![])));
    let bytes = encode(&Value::Tag(TAG_LEGACY_TOP, Box::new(inner.clone()))).unwrap();
    let out = peel_tcg_wrappers(&bytes).unwrap();
    assert!(out.was_peeled());
    let expected = encode(&inner).unwrap();
    assert_eq!(out.as_bytes(), expected.as_slice());
}

#[test]
fn peels_502_wrapper() {
    // #6.502(#6.18([...])) -> #6.18([...])
    let cose = Value::Tag(TAG_SIGNED_CORIM, Box::new(Value::Array(vec![])));
    let bytes = encode(&Value::Tag(TAG_LEGACY_SIGNED, Box::new(cose.clone()))).unwrap();
    let out = peel_tcg_wrappers(&bytes).unwrap();
    assert!(out.was_peeled());
    let expected = encode(&cose).unwrap();
    assert_eq!(out.as_bytes(), expected.as_slice());
}

#[test]
fn peels_nested_500_502_wrappers() {
    // The NVIDIA shape: #6.500(#6.502(#6.18(...)))
    let cose = Value::Tag(TAG_SIGNED_CORIM, Box::new(Value::Array(vec![])));
    let inner502 = Value::Tag(TAG_LEGACY_SIGNED, Box::new(cose.clone()));
    let bytes = encode(&Value::Tag(TAG_LEGACY_TOP, Box::new(inner502))).unwrap();
    let out = peel_tcg_wrappers(&bytes).unwrap();
    assert!(out.was_peeled());
    let expected = encode(&cose).unwrap();
    assert_eq!(out.as_bytes(), expected.as_slice());
}

#[test]
fn malformed_cbor_after_legacy_marker_returns_decode_error() {
    // Starts with the 500 magic bytes but is otherwise garbage.
    let garbage = [0xD9, 0x01, 0xF4, 0xFF, 0xFF, 0xFF];
    let err = peel_tcg_wrappers(&garbage).unwrap_err();
    match err {
        DecodeError::Deserialization(msg) => assert!(msg.starts_with("peel:")),
        other => panic!("expected Deserialization, got {:?}", other),
    }
}

// -------- wrap_bare_corim_map --------

#[test]
fn wrap_passes_through_already_tagged_corim_map() {
    // #6.501({}) — should not be re-wrapped.
    let bytes = encode(&Value::Tag(TAG_CORIM, Box::new(Value::Mapping(vec![])))).unwrap();
    let out = wrap_bare_corim_map(&bytes);
    assert!(!out.was_wrapped());
    assert_eq!(out.as_bytes(), bytes.as_slice());
}

#[test]
fn wrap_prefixes_bare_small_map() {
    // {} — empty map, header byte 0xA0.
    let bytes = encode(&Value::Mapping(vec![])).unwrap();
    assert_eq!(bytes[0], 0xA0);
    let out = wrap_bare_corim_map(&bytes);
    assert!(out.was_wrapped());
    // Resulting bytes must round-trip as #6.501({}).
    let (tag, value) = match decode(out.as_bytes()).unwrap() {
        Value::Tag(t, inner) => (t, *inner),
        other => panic!("expected a tag, got {:?}", other),
    };
    assert_eq!(tag, TAG_CORIM);
    assert_eq!(value, Value::Mapping(vec![]));
}

#[test]
fn wrap_prefixes_bare_larger_map() {
    // A 24-entry map uses 0xB8 0x18 header — exercises the upper end of the
    // definite-length range we accept.
    let entries: Vec<(Value, Value)> = (0..24)
        .map(|i| (Value::Integer(i as i128), Value::Integer(0)))
        .collect();
    let bytes = encode(&Value::Mapping(entries.clone())).unwrap();
    assert_eq!(bytes[0], 0xB8);
    let out = wrap_bare_corim_map(&bytes);
    assert!(out.was_wrapped());
    let (tag, value) = match decode(out.as_bytes()).unwrap() {
        Value::Tag(t, inner) => (t, *inner),
        other => panic!("expected a tag, got {:?}", other),
    };
    assert_eq!(tag, TAG_CORIM);
    assert_eq!(value, Value::Mapping(entries));
}

#[test]
fn wrap_passes_through_non_map() {
    // bare integer — not something we should wrap.
    let bytes = encode(&Value::Integer(42)).unwrap();
    let out = wrap_bare_corim_map(&bytes);
    assert!(!out.was_wrapped());
    assert_eq!(out.as_bytes(), bytes.as_slice());
}

#[test]
fn wrap_passes_through_other_tags() {
    // #6.18(...) — a COSE_Sign1 envelope must not be misclassified as a
    // bare corim-map.
    let bytes = encode(&Value::Tag(TAG_SIGNED_CORIM, Box::new(Value::Array(vec![])))).unwrap();
    let out = wrap_bare_corim_map(&bytes);
    assert!(!out.was_wrapped());
    assert_eq!(out.as_bytes(), bytes.as_slice());
}

#[test]
fn wrap_passes_through_empty_input() {
    let out = wrap_bare_corim_map(&[]);
    assert!(!out.was_wrapped());
    assert_eq!(out.as_bytes(), &[] as &[u8]);
}

// -------- decode_comid_from_tcg_bstr --------

/// Build a minimal valid `concise-mid-tag` map: `{ 1: { 0: "test-id" }, 4: { 0: [...] } }`.
/// Key 1 = tag-identity (a map with key 0 = tag-id).
/// Key 4 = triples-map with one reference-triple (key 0) so the
/// non-empty constraint on `triples-map` is satisfied.
fn minimal_comid_map_value() -> Value {
    let tag_identity = Value::Mapping(vec![(Value::Integer(0), Value::Text("test-id".into()))]);
    // reference-triple-record = [environment-map, [+ measurement-map]]
    // environment-map needs at least one entry; use class with vendor.
    let env = Value::Mapping(vec![(
        Value::Integer(0),                                                 // class
        Value::Mapping(vec![(Value::Integer(1), Value::Text("acme".into()))]), // vendor
    )]);
    // measurement-map needs mval (key 1).
    // measurement-values-map needs at least one entry; use name (key 11).
    let meas = Value::Mapping(vec![(
        Value::Integer(1), // mval
        Value::Mapping(vec![(Value::Integer(11), Value::Text("fw".into()))]),
    )]);
    let ref_triple = Value::Array(vec![env, Value::Array(vec![meas])]);
    let triples = Value::Mapping(vec![(
        Value::Integer(0), // reference-triples
        Value::Array(vec![ref_triple]),
    )]);
    Value::Mapping(vec![
        (Value::Integer(1), tag_identity),
        (Value::Integer(4), triples),
    ])
}

#[test]
fn decode_comid_accepts_tag_then_map_shape() {
    // TCG/NVIDIA shape: bytes contain #6.506(map(...))
    let inner = minimal_comid_map_value();
    let bytes =
        encode(&Value::Tag(corim::tags::TAG_COMID, Box::new(inner))).unwrap();
    let comid = decode_comid_from_tcg_bstr(&bytes).expect("must decode");
    match &comid.tag_identity.tag_id {
        TagIdChoice::Text(s) => assert_eq!(s, "test-id"),
        other => panic!("unexpected tag-id: {:?}", other),
    }
}

#[test]
fn decode_comid_accepts_bare_map_shape() {
    // Pre-PR-#337 shape: bytes contain just the concise-mid-tag map
    let bytes = encode(&minimal_comid_map_value()).unwrap();
    let comid = decode_comid_from_tcg_bstr(&bytes).expect("must decode");
    match &comid.tag_identity.tag_id {
        TagIdChoice::Text(s) => assert_eq!(s, "test-id"),
        other => panic!("unexpected tag-id: {:?}", other),
    }
}

#[test]
fn decode_comid_rejects_unrelated_tag() {
    // #6.999(map) — a tag that's not 506
    let bytes = encode(&Value::Tag(999, Box::new(minimal_comid_map_value()))).unwrap();
    let err = decode_comid_from_tcg_bstr(&bytes).unwrap_err();
    match err {
        DecodeError::InvalidStructure(msg) => {
            assert!(msg.contains("unrelated tag"), "got: {}", msg);
            assert!(msg.contains("999"), "got: {}", msg);
        }
        other => panic!("expected InvalidStructure, got {:?}", other),
    }
}

#[test]
fn decode_comid_rejects_non_map_value() {
    let bytes = encode(&Value::Integer(42)).unwrap();
    let err = decode_comid_from_tcg_bstr(&bytes).unwrap_err();
    match err {
        DecodeError::InvalidStructure(msg) => {
            assert!(msg.contains("integer"), "got: {}", msg);
        }
        other => panic!("expected InvalidStructure, got {:?}", other),
    }
}

#[test]
fn decode_comid_rejects_invalid_cbor() {
    let garbage = [0xFF, 0xFE, 0xFD];
    let err = decode_comid_from_tcg_bstr(&garbage).unwrap_err();
    match err {
        DecodeError::Deserialization(msg) => {
            assert!(
                msg.starts_with("decode_comid_from_tcg_bstr:"),
                "got: {}",
                msg
            );
        }
        other => panic!("expected Deserialization, got {:?}", other),
    }
}
