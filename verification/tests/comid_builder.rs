use corim::builder::{ComidBuilder, CorimBuilder, EnvSpec};
use corim::cbor::{decode, Value};
use corim::error::BuilderError;
use corim::types::comid::ComidTag;
use corim::types::common::TagIdChoice;
use corim::types::corim::CorimId;
use corim::types::triples::{
    CesCondition, ConditionalEndorsementSeriesTriple, ConditionalEndorsementTriple, ConditionalSeriesRecord,
    CoswidTriple, DomainTriple, EnvClaims, KeyTriple, ReferenceTriple,
};

fn env(vendor: &str) -> Value {
    Value::Mapping(vec![(
        Value::Integer(0),
        Value::Mapping(vec![(Value::Integer(1), Value::Text(vendor.into()))]),
    )])
}

fn meas(name: &str, digest: u8) -> Value {
    Value::Mapping(vec![
        (Value::Integer(0), Value::Text(name.into())),
        (
            Value::Integer(1),
            Value::Mapping(vec![(
                Value::Integer(2),
                Value::Array(vec![Value::Array(vec![Value::Integer(7), Value::Bytes(vec![digest; 4])])]),
            )]),
        ),
    ])
}

fn tag() -> TagIdChoice {
    TagIdChoice::Text("my-comid-tag".into())
}

fn triples_of(c: &ComidTag) -> Vec<(Value, Value)> {
    match &c.triples {
        Value::Mapping(m) => m.clone(),
        other => panic!("triples are not a map: {:?}", other),
    }
}

#[test]
fn builds_reference_triple() {
    let comid = ComidBuilder::new(tag())
        .set_tag_version(2)
        .add_reference_triple(ReferenceTriple::new(env("ACME"), vec![meas("fw", 0xaa)]))
        .build()
        .unwrap();
    assert_eq!(comid.tag_identity.tag_id, tag());
    assert_eq!(comid.tag_identity.tag_version, Some(2));
    assert_eq!(comid.entities, None);
    assert_eq!(
        triples_of(&comid),
        vec![(
            Value::Integer(0),
            Value::Array(vec![Value::Array(vec![env("ACME"), Value::Array(vec![meas("fw", 0xaa)])])]),
        )]
    );
}

#[test]
fn triples_are_keyed_by_kind() {
    let key = Value::Tag(554, Box::new(Value::Text("key".into())));
    let comid = ComidBuilder::new(tag())
        .add_conditional_endorsement(ConditionalEndorsementTriple::new(
            vec![EnvClaims::new(env("A"), vec![meas("a", 1)])],
            vec![EnvClaims::new(env("A"), vec![meas("b", 2)])],
        ))
        .add_coswid_triple(CoswidTriple::new(env("A"), vec![TagIdChoice::Text("sw".into())]))
        .add_identity_triple(KeyTriple::new(env("A"), vec![key.clone()], None))
        .add_dependency_triple(DomainTriple::new(env("A"), vec![env("B")]))
        .build()
        .unwrap();
    let keys: Vec<Value> = triples_of(&comid).into_iter().map(|(k, _)| k).collect();
    assert_eq!(keys, vec![Value::Integer(2), Value::Integer(4), Value::Integer(6), Value::Integer(10)]);
    let identity = &triples_of(&comid)[0].1;
    assert_eq!(
        identity,
        &Value::Array(vec![Value::Array(vec![env("A"), Value::Array(vec![key])])])
    );
}

#[test]
fn no_triples_is_an_error() {
    let r = ComidBuilder::new(tag()).build();
    assert!(matches!(r, Err(BuilderError::EmptyTriples)));
}

#[test]
fn empty_measurement_list_is_an_error() {
    let r = ComidBuilder::new(tag()).add_reference_triple(ReferenceTriple::new(env("A"), vec![])).build();
    assert!(matches!(r, Err(BuilderError::EmptyList { field: "ref-claims" })));
    let r = ComidBuilder::new(tag())
        .add_reference_triple(ReferenceTriple::new(env("A"), vec![meas("a", 1)]))
        .add_membership_triple(DomainTriple::new(env("A"), vec![]))
        .build();
    assert!(matches!(r, Err(BuilderError::EmptyList { field: "members" })));
}

#[test]
fn duplicate_label_is_refused() {
    let mut b = ComidBuilder::new(tag());
    let r = b.declare_env("cpu", env("A")).unwrap();
    assert_eq!(r.label(), "cpu");
    let again = b.declare_env("cpu", env("B"));
    assert!(matches!(again, Err(BuilderError::DuplicateEnvLabel { ref label }) if label == "cpu"));
}

#[test]
fn ref_builds_as_inline() {
    let mut b = ComidBuilder::new(tag());
    let cpu = b.declare_env("cpu", env("ACME")).unwrap();
    let by_ref = b
        .add_reference_triple_for(EnvSpec::of_ref(&cpu), vec![meas("fw", 1)])
        .add_endorsed_triple_for(EnvSpec::from(cpu), vec![meas("cfg", 2)])
        .build()
        .unwrap();
    let inline = ComidBuilder::new(tag())
        .add_reference_triple(ReferenceTriple::new(env("ACME"), vec![meas("fw", 1)]))
        .add_endorsed_triple(EnvClaims::new(env("ACME"), vec![meas("cfg", 2)]))
        .build()
        .unwrap();
    assert_eq!(by_ref, inline);
    let by_spec = ComidBuilder::new(tag())
        .add_reference_triple_for(EnvSpec::from(env("ACME")), vec![meas("fw", 1)])
        .add_endorsed_triple_for(EnvSpec::from(env("ACME")), vec![meas("cfg", 2)])
        .build()
        .unwrap();
    assert_eq!(by_spec, inline);
}

#[test]
fn ref_from_other_builder_fails() {
    let mut other = ComidBuilder::new(tag());
    let foreign = other.declare_env("gpu", env("X")).unwrap();
    let r = ComidBuilder::new(tag())
        .add_reference_triple(ReferenceTriple::new(env("A"), vec![meas("a", 1)]))
        .add_dependency_triple_for(EnvSpec::from(env("A")), vec![EnvSpec::from(foreign)])
        .build();
    assert!(matches!(r, Err(BuilderError::RefFromOtherBuilder { ref label }) if label == "gpu"));
}

#[test]
fn strict_links_reports_unanchored_env() {
    let base = || {
        ComidBuilder::new(tag())
            .add_reference_triple(ReferenceTriple::new(env("A"), vec![meas("a", 1)]))
            .add_endorsed_triple(EnvClaims::new(env("B"), vec![meas("b", 2)]))
    };
    assert!(base().build().is_ok());
    let r = base().strict_links(true).build();
    assert!(matches!(
        r,
        Err(BuilderError::UnanchoredConditionEnv { triple_kind: "endorsed", index: 0 })
    ));
}

#[test]
fn strict_links_reports_unanchored_measurement() {
    let ces = |selection: Value| {
        ConditionalEndorsementSeriesTriple::new(
            CesCondition { environment: env("A"), claims_list: vec![meas("a", 1)], authorized_by: None },
            vec![ConditionalSeriesRecord::new(vec![selection], vec![meas("new", 9)])],
        )
    };
    let ok = ComidBuilder::new(tag())
        .strict_links(true)
        .add_reference_triple(ReferenceTriple::new(env("A"), vec![meas("a", 1), meas("s", 3)]))
        .add_conditional_endorsement_series(ces(meas("s", 3)))
        .build();
    assert!(ok.is_ok());
    let r = ComidBuilder::new(tag())
        .strict_links(true)
        .add_reference_triple(ReferenceTriple::new(env("A"), vec![meas("a", 1)]))
        .add_conditional_endorsement_series(ces(meas("s", 3)))
        .build();
    assert!(matches!(
        r,
        Err(BuilderError::UnanchoredConditionMeasurement {
            triple_kind: "conditional-endorsement-series-condition",
            triple_index: 0,
            measurement_index: 0,
        })
    ));
    let r = ComidBuilder::new(tag())
        .strict_links(true)
        .add_reference_triple(ReferenceTriple::new(env("A"), vec![meas("a", 1)]))
        .add_conditional_endorsement_for(vec![(EnvSpec::from(env("A")), vec![meas("a", 1), meas("z", 0)])], vec![
            EnvClaims::new(env("A"), vec![meas("e", 5)]),
        ])
        .build();
    assert!(matches!(
        r,
        Err(BuilderError::UnanchoredConditionMeasurement {
            triple_kind: "conditional-endorsement",
            triple_index: 0,
            measurement_index: 1,
        })
    ));
}

#[test]
fn comid_goes_into_a_corim() {
    let comid = ComidBuilder::new(tag())
        .set_language("en-US")
        .add_reference_triple(ReferenceTriple::new(env("ACME"), vec![meas("fw", 0xaa)]))
        .build()
        .unwrap();
    let bytes = CorimBuilder::new(CorimId::Text("my-corim".into()))
        .add_comid_tag(comid.clone())
        .unwrap()
        .build_bytes()
        .unwrap();
    let v = decode(&bytes).unwrap();
    assert!(matches!(v, Value::Tag(501, _)));
    assert_eq!(comid.language.as_deref(), Some("en-US"));
}
