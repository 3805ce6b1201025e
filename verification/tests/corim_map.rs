use corim::builder::{CorimBuilder, CotlBuilder};
use corim::cbor::{decode, encode, Value};
use corim::error::{BuilderError, DecodeError};
use corim::tags::{TAG_COMID, TAG_CORIM, TAG_COTL};
use corim::types::common::{EntityMap, TagIdChoice, TagIdentity};
use corim::types::corim::{
    ConciseTagChoice, ConciseTlTag, CorimId, CorimLocator, CorimLocatorHref, CorimLocatorThumbprint,
    CorimMap, ProfileChoice,
};
use corim::types::measurement::{Digest, DigestAlg};

#[test]
fn uuid_id_displays_in_groups() {
    let id = CorimId::Uuid([
        0x12, 0x34, 0x56, 0x78, 0x9a, 0xbc, 0xde, 0xf0, 0x01, 0x23, 0x45, 0x67, 0x89, 0xab, 0xcd, 0xef,
    ]);
    assert_eq!(id.to_text(), "12345678-9abc-def0-0123-456789abcdef");
    assert_eq!(CorimId::Text("x".into()).to_text(), "x");
}

#[test]
fn corim_id_reading() {
    let uuid = Value::Tag(37, Box::new(Value::Bytes(vec![7; 16])));
    assert_eq!(CorimId::from_value(&uuid).unwrap(), CorimId::Uuid([7; 16]));
    assert_eq!(CorimId::from_value(&Value::Bytes(vec![1; 16])).unwrap(), CorimId::Uuid([1; 16]));
    assert_eq!(
        CorimId::from_value(&Value::Tag(37, Box::new(Value::Bytes(vec![1; 3])))).unwrap_err(),
        "UUID must be 16 bytes"
    );
    assert_eq!(
        CorimId::from_value(&Value::Tag(37, Box::new(Value::Null))).unwrap_err(),
        "tag 37 must wrap bytes"
    );
    assert_eq!(CorimId::from_value(&Value::Integer(3)).unwrap_err(), "expected text or tagged UUID");
    assert_eq!(CorimId::Uuid([7; 16]).to_value(), uuid);
}

#[test]
fn profile_display_and_reading() {
    assert_eq!(ProfileChoice::Oid(vec![0x2a, 0x86]).to_text(), "oid:2a86");
    let v = ProfileChoice::Oid(vec![1, 2]).to_value();
    assert_eq!(ProfileChoice::from_value(&v).unwrap(), ProfileChoice::Oid(vec![1, 2]));
    assert_eq!(
        ProfileChoice::from_value(&Value::Null).unwrap_err(),
        "expected text URI or tagged OID"
    );
}

#[test]
fn tag_entries_read_and_classify() {
    let comid = Value::Tag(TAG_COMID, Box::new(Value::Bytes(vec![1])));
    assert_eq!(ConciseTagChoice::from_value(&comid).unwrap(), ConciseTagChoice::Comid(vec![1]));
    assert_eq!(
        ConciseTagChoice::from_value(&Value::Bytes(vec![9])).unwrap(),
        ConciseTagChoice::BareBstr(vec![9])
    );
    // Another tag keeps the encoding of what it wraps.
    let other = Value::Tag(600, Box::new(Value::Integer(1)));
    assert_eq!(ConciseTagChoice::from_value(&other).unwrap(), ConciseTagChoice::Unknown(600, vec![0x01]));
    assert_eq!(
        ConciseTagChoice::from_value(&Value::Tag(TAG_COTL, Box::new(Value::Null))).unwrap_err(),
        "tag 508 must wrap bytes"
    );
    match ConciseTagChoice::Coswid(vec![]).as_comid() {
        Err(DecodeError::InvalidStructure(m)) => {
            assert_eq!(m, "as_comid: tag is CoSWID (#6.505), not CoMID")
        }
        other => panic!("unexpected {:?}", other),
    }
    match ConciseTagChoice::Unknown(7, vec![]).as_comid() {
        Err(DecodeError::InvalidStructure(m)) => assert_eq!(m, "as_comid: tag is unknown (#6.7), not CoMID"),
        other => panic!("unexpected {:?}", other),
    }
}

#[test]
fn comid_entry_decodes_as_comid() {
    let comid = Value::Mapping(vec![
        (Value::Integer(1), Value::Mapping(vec![(Value::Integer(0), Value::Text("tag-1".into()))])),
        (Value::Integer(4), Value::Mapping(vec![(Value::Integer(0), Value::Array(vec![]))])),
    ]);
    let entry = ConciseTagChoice::Comid(encode(&comid).unwrap());
    let c = entry.as_comid().unwrap();
    assert_eq!(c.tag_identity.tag_id, TagIdChoice::Text("tag-1".into()));
    match ConciseTagChoice::Comid(vec![0xff]).as_comid() {
        Err(DecodeError::Deserialization(m)) => {
            assert!(m.starts_with("as_comid: ComidTag decode: CBOR deserialization failed: "))
        }
        other => panic!("unexpected {:?}", other),
    }
}

#[test]
fn locator_href_and_thumbprint() {
    let href = Value::Tag(32, Box::new(Value::Text("https://a".into())));
    assert_eq!(CorimLocatorHref::from_value(&href).unwrap(), CorimLocatorHref::Single("https://a".into()));
    let many = Value::Array(vec![Value::Text("a".into()), href.clone()]);
    assert_eq!(
        CorimLocatorHref::from_value(&many).unwrap(),
        CorimLocatorHref::Multiple(vec!["a".into(), "https://a".into()])
    );
    assert!(CorimLocatorHref::from_value(&Value::Integer(1))
        .unwrap_err()
        .starts_with("expected text or #6.32(text) for URI, got "));

    let single = Value::Array(vec![Value::Integer(1), Value::Bytes(vec![5])]);
    assert_eq!(
        CorimLocatorThumbprint::from_value(&single).unwrap(),
        CorimLocatorThumbprint::Single(Digest(DigestAlg::Int(1), vec![5]))
    );
    let multi = Value::Array(vec![single.clone(), Value::Array(vec![Value::Text("sha-256".into()), Value::Bytes(vec![])])]);
    assert_eq!(
        CorimLocatorThumbprint::from_value(&multi).unwrap(),
        CorimLocatorThumbprint::Multiple(vec![
            Digest(DigestAlg::Int(1), vec![5]),
            Digest(DigestAlg::Text("sha-256".into()), vec![])
        ])
    );
    assert_eq!(
        CorimLocatorThumbprint::from_value(&Value::Array(vec![])).unwrap_err(),
        "expected array for thumbprint"
    );
    assert_eq!(
        CorimLocatorThumbprint::from_value(&Value::Array(vec![Value::Integer(1)])).unwrap_err(),
        "digest must be [alg, val]"
    );
    assert_eq!(
        CorimLocatorThumbprint::from_value(&Value::Array(vec![Value::Null, Value::Bytes(vec![])])).unwrap_err(),
        "digest alg must be int or text"
    );
    assert_eq!(
        CorimLocatorThumbprint::from_value(&Value::Array(vec![Value::Integer(1), Value::Null])).unwrap_err(),
        "digest val must be bytes"
    );
    let loc = CorimLocator {
        href: CorimLocatorHref::Single("u".into()),
        thumbprint: Some(CorimLocatorThumbprint::Single(Digest(DigestAlg::Int(-16), vec![1, 2]))),
    };
    assert_eq!(CorimLocator::from_value(&loc.to_value()).unwrap(), loc);
}

fn sample_builder() -> CorimBuilder {
    CorimBuilder::new(CorimId::Text("corim-1".into()))
        .set_profile(ProfileChoice::Uri("tag:example.com,2025:p".into()))
        .add_entity(EntityMap { entity_name: "ACME".into(), reg_id: None, roles: vec![0, 1] })
        .add_dependent_rim(CorimLocator { href: CorimLocatorHref::Single("https://x".into()), thumbprint: None })
        .add_coswid_tag(vec![0xa0])
}

#[test]
fn corim_builder_round_trips_through_bytes() {
    let built = sample_builder().set_validity(Some(10), 20).unwrap().build().unwrap();
    let bytes = sample_builder().set_validity(Some(10), 20).unwrap().build_bytes().unwrap();
    let v = decode(&bytes).unwrap();
    match v {
        Value::Tag(t, inner) => {
            assert_eq!(t, TAG_CORIM);
            assert_eq!(CorimMap::from_value(&inner).unwrap(), built);
        }
        other => panic!("unexpected {:?}", other),
    }
    assert!(built.valid().is_ok());
}

#[test]
fn corim_builder_errors() {
    assert!(matches!(CorimBuilder::new(CorimId::Text("x".into())).build(), Err(BuilderError::NoTags)));
    assert!(matches!(
        CorimBuilder::new(CorimId::Text("x".into())).set_validity(Some(5), 4),
        Err(BuilderError::InvalidValidity)
    ));
}

#[test]
fn corim_map_validity_checks() {
    let mut m = sample_builder().build().unwrap();
    m.entities = Some(vec![]);
    assert_eq!(m.valid().unwrap_err(), "entities list must not be empty");
    m.tags.clear();
    assert_eq!(m.valid().unwrap_err(), "tags list must not be empty");
    assert_eq!(
        CorimMap::from_value(&Value::Mapping(vec![])).unwrap_err(),
        "corim-map: missing id (key 0)"
    );
}

#[test]
fn cotl_builder_builds_and_checks() {
    let cotl = CotlBuilder::new(TagIdChoice::Text("tl".into()), 100)
        .set_tag_version(2)
        .set_not_before(50)
        .add_tag_id(TagIdChoice::Text("a".into()))
        .add_tag(TagIdentity { tag_id: TagIdChoice::Uuid(vec![3; 16]), tag_version: Some(1) })
        .build()
        .unwrap();
    assert_eq!(cotl.tags_list.len(), 2);
    assert_eq!(cotl.tag_identity.tag_version, Some(2));
    assert!(cotl.valid().is_ok());
    assert_eq!(ConciseTlTag::from_value(&cotl.to_value()).unwrap(), cotl);
    let with_cotl = CorimBuilder::new(CorimId::Text("x".into())).add_cotl(cotl).unwrap().build().unwrap();
    assert!(matches!(with_cotl.tags[0], ConciseTagChoice::Cotl(_)));

    assert!(matches!(
        CotlBuilder::new(TagIdChoice::Text("tl".into()), 1).build(),
        Err(BuilderError::EmptyList { field: "tags-list" })
    ));
    assert!(matches!(
        CotlBuilder::new(TagIdChoice::Text("tl".into()), 1)
            .set_not_before(2)
            .add_tag_id(TagIdChoice::Text("a".into()))
            .build(),
        Err(BuilderError::InvalidValidity)
    ));
}
