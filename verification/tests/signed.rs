use corim::baseline::{compare_headers, render_path, MismatchKind, PathSegment};
use corim::cbor::{decode, encode, Value};
use corim::error::DecodeError;
use corim::tags::TAG_SIGNED_CORIM;
use corim::types::signed::algorithm::CoseAlgorithm;
use corim::types::signed::builder::SignedCorimBuilder;
use corim::types::signed::cwt::CwtClaims;
use corim::types::signed::envelope::{build_sig_structure1, decode_signed_corim, encode_signed_corim};
use corim::types::signed::header::{corim_content_type_str, ProtectedCorimHeaderMap};

fn payload() -> Vec<u8> {
    encode(&Value::Tag(501, Box::new(Value::Mapping(vec![])))).unwrap()
}

#[test]
fn sig_structure_for_empty_inputs() {
    let tbs = build_sig_structure1(&[], &[], &[]).unwrap();
    let mut expected = vec![0x84u8, 0x6a];
    expected.extend_from_slice(b"Signature1");
    expected.extend_from_slice(&[0x40, 0x40, 0x40]);
    assert_eq!(tbs, expected);
}

#[test]
fn built_signed_corim_decodes_back() {
    let mut b = SignedCorimBuilder::new(CoseAlgorithm::Es256, payload())
        .set_cwt_claims(CwtClaims::new("ACME Corp"))
        .add_unprotected(Value::Integer(4), Value::Bytes(vec![1, 2]));
    let tbs = b.to_be_signed(&[]).unwrap();
    let bytes = b.build_with_signature(vec![0xAB; 64]).unwrap();
    let e = decode_signed_corim(&bytes).unwrap();
    assert_eq!(e.protected.alg, CoseAlgorithm::Es256);
    assert_eq!(e.protected.content_type.as_deref(), Some(corim_content_type_str()));
    assert_eq!(e.protected.cwt_claims.as_ref().unwrap().iss, "ACME Corp");
    assert_eq!(e.payload, Some(payload()));
    assert_eq!(e.signature, vec![0xAB; 64]);
    assert_eq!(e.unprotected, vec![(Value::Integer(4), Value::Bytes(vec![1, 2]))]);
    assert!(!e.is_detached());
    // The decoded envelope yields the same to-be-signed bytes the builder produced.
    assert_eq!(e.to_be_signed(&[]).unwrap(), tbs);
    // And re-encoding gives the same bytes.
    assert_eq!(encode_signed_corim(&e).unwrap(), bytes);
}

#[test]
fn detached_payload_is_nil() {
    let mut b = SignedCorimBuilder::new(CoseAlgorithm::Esp256, payload())
        .set_cwt_claims(CwtClaims::new("signer"));
    let tbs = b.to_be_signed(b"aad").unwrap();
    let bytes = b.build_detached_with_signature(vec![7; 8]).unwrap();
    let e = decode_signed_corim(&bytes).unwrap();
    assert!(e.is_detached());
    assert!(e.to_be_signed(b"aad").is_err());
    assert_eq!(e.to_be_signed_detached(&payload(), b"aad").unwrap(), tbs);
}

#[test]
fn builder_requires_signer_metadata() {
    let b = SignedCorimBuilder::new(CoseAlgorithm::Es256, payload());
    match b.build_with_signature(vec![0; 4]) {
        Err(corim::error::EncodeError::Serialization(m)) => {
            assert_eq!(m, "at least one of corim-meta or cwt-claims must be set")
        }
        other => panic!("unexpected {:?}", other),
    }
}

#[test]
fn decode_rejects_wrong_tag_and_shape() {
    let bytes = encode(&Value::Tag(19, Box::new(Value::Array(vec![])))).unwrap();
    match decode_signed_corim(&bytes) {
        Err(DecodeError::UnexpectedTag { expected, found }) => {
            assert_eq!(expected, 18);
            assert_eq!(found, 19);
        }
        other => panic!("unexpected {:?}", other),
    }
    let bytes = encode(&Value::Tag(TAG_SIGNED_CORIM, Box::new(Value::Array(vec![Value::Null; 3])))).unwrap();
    match decode_signed_corim(&bytes) {
        Err(DecodeError::InvalidStructure(m)) => {
            assert_eq!(m, "COSE_Sign1 must be a 4-element array, got 3")
        }
        other => panic!("unexpected {:?}", other),
    }
    let bytes = encode(&Value::Tag(TAG_SIGNED_CORIM, Box::new(Value::Null))).unwrap();
    match decode_signed_corim(&bytes) {
        Err(DecodeError::InvalidStructure(m)) => assert_eq!(m, "COSE_Sign1 must be an array"),
        other => panic!("unexpected {:?}", other),
    }
    let bytes = encode(&Value::Text("x".into())).unwrap();
    match decode_signed_corim(&bytes) {
        Err(DecodeError::InvalidStructure(m)) => {
            assert_eq!(m, "expected CBOR tag 18 for signed-corim")
        }
        other => panic!("unexpected {:?}", other),
    }
}

#[test]
fn decode_reports_protected_header_error() {
    let arr = Value::Array(vec![
        Value::Bytes(encode(&Value::Mapping(vec![])).unwrap()),
        Value::Mapping(vec![]),
        Value::Null,
        Value::Bytes(vec![]),
    ]);
    let bytes = encode(&Value::Tag(TAG_SIGNED_CORIM, Box::new(arr))).unwrap();
    match decode_signed_corim(&bytes) {
        Err(DecodeError::InvalidStructure(m)) => assert_eq!(
            m,
            "protected header decode: CBOR deserialization failed: protected header: missing alg (key 1)"
        ),
        other => panic!("unexpected {:?}", other),
    }
}

fn header(alg: CoseAlgorithm, iss: &str) -> ProtectedCorimHeaderMap {
    let bytes = SignedCorimBuilder::new(alg, payload())
        .set_cwt_claims(CwtClaims::new(iss))
        .build_with_signature(vec![])
        .unwrap();
    decode_signed_corim(&bytes).unwrap().protected
}

#[test]
fn header_compared_with_itself_conforms() {
    let h = header(CoseAlgorithm::Es256, "a");
    let r = compare_headers(&h, &h);
    assert!(r.is_conformant());
    assert!(r.value_differences.is_empty());
}

#[test]
fn differing_alg_and_iss_are_structural() {
    let base = header(CoseAlgorithm::Es256, "a");
    let input = header(CoseAlgorithm::Esp256, "b");
    let r = compare_headers(&input, &base);
    assert!(!r.is_conformant());
    assert_eq!(r.structural_mismatches.len(), 2);
    assert_eq!(render_path(&r.structural_mismatches[0].path), "$.protected-header.alg");
    assert_eq!(
        r.structural_mismatches[0].kind,
        MismatchKind::TypeMismatch { baseline: "ES256 (deprecated) (-7)".into(), input: "ESP256 (-9)".into() }
    );
    assert_eq!(render_path(&r.structural_mismatches[1].path), "$.protected-header.cwt-claims");
    assert_eq!(r.structural_mismatches[1].detail, "iss differs; the documents follow different structures");
}

#[test]
fn render_path_formats_each_segment() {
    let p = vec![
        PathSegment::Comid("abc".into()),
        PathSegment::Triple { kind: "reference", index: 2 },
        PathSegment::Measurement("#0".into()),
        PathSegment::Field("digests"),
        PathSegment::Index(1),
        PathSegment::MapKey(-5),
    ];
    assert_eq!(render_path(&p), "$.comid[abc].reference[2].measurement[#0].digests[1][-5]");
}

#[test]
fn decoded_value_round_trips() {
    let v = Value::Array(vec![Value::Integer(-3), Value::Text("é".into())]);
    assert_eq!(decode(&encode(&v).unwrap()).unwrap(), v);
}
