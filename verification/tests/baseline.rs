use corim::baseline::{compare, render_path, MismatchKind, PathSegment};
use corim::builder::{ComidBuilder, CorimBuilder};
use corim::cbor::Value;
use corim::types::common::TagIdChoice;
use corim::types::corim::{CorimId, CorimMap, ProfileChoice};
use corim::types::triples::{
    CesCondition, ConditionalEndorsementSeriesTriple, ConditionalEndorsementTriple, ConditionalSeriesRecord, EnvClaims,
    KeyTriple, ReferenceTriple,
};

fn env(vendor: &str) -> Value {
    Value::Mapping(vec![(
        Value::Integer(0),
        Value::Mapping(vec![(Value::Integer(1), Value::Text(vendor.into()))]),
    )])
}

fn meas_with(name: &str, digest: u8, extra: Vec<(Value, Value)>) -> Value {
    let mut mval = vec![(
        Value::Integer(2),
        Value::Array(vec![Value::Array(vec![Value::Integer(7), Value::Bytes(vec![digest; 4])])]),
    )];
    mval.extend(extra);
    Value::Mapping(vec![(Value::Integer(0), Value::Text(name.into())), (Value::Integer(1), Value::Mapping(mval))])
}

fn meas(name: &str, digest: u8) -> Value {
    meas_with(name, digest, vec![])
}

fn corim_of(id: &str, tag: &str, ms: Vec<Value>) -> CorimMap {
    let comid = ComidBuilder::new(TagIdChoice::Text(tag.into()))
        .add_reference_triple(ReferenceTriple::new(env("ACME"), ms))
        .build()
        .unwrap();
    CorimBuilder::new(CorimId::Text(id.into())).add_comid_tag(comid).unwrap().build().unwrap()
}

#[test]
fn compare_self_is_conformant() {
    let c = corim_of("c", "t", vec![meas("fw", 1), meas("bl", 2)]);
    let r = compare(&c, &c);
    assert!(r.is_conformant());
    assert!(r.structural_mismatches.is_empty());
    assert!(r.value_differences.is_empty());
}

#[test]
fn compare_digest_change_is_a_value_difference() {
    let b = corim_of("c", "t", vec![meas("fw", 1)]);
    let i = corim_of("c", "t", vec![meas("fw", 9)]);
    let r = compare(&i, &b);
    assert!(r.is_conformant());
    assert_eq!(r.value_differences.len(), 1);
    let d = &r.value_differences[0];
    assert_eq!(d.field, "digest-value");
    assert_eq!(d.baseline, Value::Bytes(vec![1; 4]));
    assert_eq!(d.input, Value::Bytes(vec![9; 4]));
    assert_eq!(render_path(&d.path), "$.comid[t].reference[0].measurement[fw].digests[0]");
}

#[test]
fn compare_missing_and_extra_measurements_are_structural() {
    let b = corim_of("c", "t", vec![meas("fw", 1), meas("bl", 2)]);
    let i = corim_of("c", "t", vec![meas("fw", 1), meas("os", 3)]);
    let r = compare(&i, &b);
    assert!(!r.is_conformant());
    assert_eq!(r.structural_mismatches.len(), 2);
    let m0 = &r.structural_mismatches[0];
    assert_eq!(m0.kind, MismatchKind::MissingInInput);
    assert_eq!(render_path(&m0.path), "$.comid[t].reference[0].measurement[bl]");
    assert_eq!(m0.detail, "measurement present in baseline but not in input");
    let m1 = &r.structural_mismatches[1];
    assert_eq!(m1.kind, MismatchKind::UnexpectedInInput);
    assert_eq!(render_path(&m1.path), "$.comid[t].reference[0].measurement[os]");
}

#[test]
fn compare_pairs_comids_by_tag_id() {
    let b = corim_of("c", "a", vec![meas("fw", 1)]);
    let i = corim_of("c", "b", vec![meas("fw", 1)]);
    let r = compare(&i, &b);
    assert_eq!(r.structural_mismatches.len(), 2);
    assert_eq!(r.structural_mismatches[0].path, vec![PathSegment::Comid("a".into())]);
    assert_eq!(r.structural_mismatches[0].detail, "CoMID present in baseline but missing in input");
    assert_eq!(r.structural_mismatches[1].path, vec![PathSegment::Comid("b".into())]);
    assert_eq!(r.structural_mismatches[1].kind, MismatchKind::UnexpectedInInput);
}

#[test]
fn compare_corim_id_is_a_value() {
    let b = corim_of("one", "t", vec![meas("fw", 1)]);
    let i = corim_of("two", "t", vec![meas("fw", 1)]);
    let r = compare(&i, &b);
    assert!(r.is_conformant());
    assert_eq!(r.value_differences.len(), 1);
    assert_eq!(r.value_differences[0].field, "corim-id");
    assert_eq!(r.value_differences[0].baseline, Value::Text("one".into()));
    assert_eq!(r.value_differences[0].input, Value::Text("two".into()));
}

#[test]
fn compare_profile_is_structural() {
    let mut b = corim_of("c", "t", vec![meas("fw", 1)]);
    let i = corim_of("c", "t", vec![meas("fw", 1)]);
    b.profile = Some(ProfileChoice::Uri("https://example.com/p".into()));
    let r = compare(&i, &b);
    assert!(!r.is_conformant());
    assert_eq!(r.structural_mismatches.len(), 1);
    assert_eq!(r.structural_mismatches[0].kind, MismatchKind::MissingInInput);
    assert_eq!(render_path(&r.structural_mismatches[0].path), "$.profile");
}

#[test]
fn compare_svn_exact_against_minimum_is_structural() {
    let exact = vec![(Value::Integer(1), Value::Integer(3))];
    let min = vec![(Value::Integer(1), Value::Tag(553, Box::new(Value::Integer(3))))];
    let b = corim_of("c", "t", vec![meas_with("fw", 1, exact.clone())]);
    let i = corim_of("c", "t", vec![meas_with("fw", 1, min)]);
    let r = compare(&i, &b);
    assert_eq!(r.structural_mismatches.len(), 1);
    assert_eq!(
        r.structural_mismatches[0].kind,
        MismatchKind::TypeMismatch { baseline: "exact-svn".into(), input: "min-svn".into() }
    );
    let newer = vec![(Value::Integer(1), Value::Integer(4))];
    let i2 = corim_of("c", "t", vec![meas_with("fw", 1, newer)]);
    let r2 = compare(&i2, &b);
    assert!(r2.is_conformant());
    assert_eq!(r2.value_differences.len(), 1);
    assert_eq!(r2.value_differences[0].input, Value::Integer(4));
}

#[test]
fn compare_missing_environment_is_structural() {
    let b = corim_of("c", "t", vec![meas("fw", 1)]);
    let comid = ComidBuilder::new(TagIdChoice::Text("t".into()))
        .add_reference_triple(ReferenceTriple::new(env("OTHER"), vec![meas("fw", 1)]))
        .build()
        .unwrap();
    let i = CorimBuilder::new(CorimId::Text("c".into())).add_comid_tag(comid).unwrap().build().unwrap();
    let r = compare(&i, &b);
    assert_eq!(r.structural_mismatches.len(), 2);
    assert_eq!(r.structural_mismatches[0].detail, "reference triple environment present in baseline but not in input");
    assert_eq!(r.structural_mismatches[1].detail, "reference triple environment present in input but not in baseline");
    assert_eq!(render_path(&r.structural_mismatches[1].path), "$.comid[t].reference[0]");
}

fn corim_with(b: ComidBuilder) -> CorimMap {
    let comid = b.build().unwrap();
    CorimBuilder::new(CorimId::Text("c".into())).add_comid_tag(comid).unwrap().build().unwrap()
}

fn ces(records: usize, addition_digest: u8) -> ConditionalEndorsementSeriesTriple {
    let mut series = Vec::new();
    for _ in 0..records {
        series.push(ConditionalSeriesRecord::new(vec![meas("s", 3)], vec![meas("new", addition_digest)]));
    }
    ConditionalEndorsementSeriesTriple::new(
        CesCondition { environment: env("A"), claims_list: vec![meas("a", 1)], authorized_by: None },
        series,
    )
}

#[test]
fn compare_ces_series_length_is_structural() {
    let b = corim_with(ComidBuilder::new(TagIdChoice::Text("t".into())).add_conditional_endorsement_series(ces(2, 9)));
    let i = corim_with(ComidBuilder::new(TagIdChoice::Text("t".into())).add_conditional_endorsement_series(ces(1, 8)));
    let r = compare(&i, &b);
    assert_eq!(r.structural_mismatches.len(), 2);
    assert_eq!(
        r.structural_mismatches[0].kind,
        MismatchKind::TypeMismatch { baseline: "2".into(), input: "1".into() }
    );
    assert_eq!(r.structural_mismatches[0].detail, "CES series length differs");
    assert_eq!(
        render_path(&r.structural_mismatches[1].path),
        "$.comid[t].conditional-endorsement-series[0].series[1]"
    );
    assert_eq!(r.value_differences.len(), 1);
    assert_eq!(
        render_path(&r.value_differences[0].path),
        "$.comid[t].conditional-endorsement-series[0].series[0].addition.measurement[new].digests[0]"
    );
    let same = compare(&b, &b);
    assert!(same.is_conformant());
}

#[test]
fn compare_conditional_endorsements_by_position() {
    let ce = |vendor: &str| {
        ConditionalEndorsementTriple::new(
            vec![EnvClaims::new(env(vendor), vec![meas("a", 1)])],
            vec![EnvClaims::new(env("A"), vec![meas("b", 2)])],
        )
    };
    let b = corim_with(ComidBuilder::new(TagIdChoice::Text("t".into())).add_conditional_endorsement(ce("A")).add_conditional_endorsement(ce("A")));
    let i = corim_with(ComidBuilder::new(TagIdChoice::Text("t".into())).add_conditional_endorsement(ce("B")));
    let r = compare(&i, &b);
    assert_eq!(r.structural_mismatches.len(), 3);
    assert_eq!(r.structural_mismatches[0].detail, "conditions environment present in baseline but not in input");
    assert_eq!(render_path(&r.structural_mismatches[0].path), "$.comid[t].conditional-endorsement[0].conditions");
    assert_eq!(r.structural_mismatches[1].detail, "conditions environment present in input but not in baseline");
    assert_eq!(r.structural_mismatches[2].detail, "conditional-endorsement triple present in baseline but not in input");
    assert_eq!(render_path(&r.structural_mismatches[2].path), "$.comid[t].conditional-endorsement[1]");
}

#[test]
fn compare_key_triples_are_compared_whole() {
    let key = |k: &str| Value::Tag(554, Box::new(Value::Text(k.into())));
    let b = corim_with(ComidBuilder::new(TagIdChoice::Text("t".into())).add_identity_triple(KeyTriple::new(env("A"), vec![key("k1")], None)));
    let i = corim_with(ComidBuilder::new(TagIdChoice::Text("t".into())).add_identity_triple(KeyTriple::new(env("A"), vec![key("k2")], None)));
    let r = compare(&i, &b);
    assert_eq!(r.structural_mismatches.len(), 1);
    assert_eq!(
        r.structural_mismatches[0].kind,
        MismatchKind::TypeMismatch { baseline: "triple".into(), input: "triple".into() }
    );
    assert_eq!(r.structural_mismatches[0].detail, "identity triple content differs from baseline");
    assert_eq!(render_path(&r.structural_mismatches[0].path), "$.comid[t].identity[0]");
}

#[test]
fn compare_self_with_a_repeated_environment_pairs_the_first() {
    let c = corim_with(
        ComidBuilder::new(TagIdChoice::Text("t".into()))
            .add_reference_triple(ReferenceTriple::new(env("A"), vec![meas("fw", 1)]))
            .add_reference_triple(ReferenceTriple::new(env("A"), vec![meas("bl", 2)])),
    );
    let r = compare(&c, &c);
    assert!(!r.is_conformant());
    assert_eq!(render_path(&r.structural_mismatches[0].path), "$.comid[t].reference[1].measurement[bl]");
    assert_eq!(r.structural_mismatches[0].kind, MismatchKind::MissingInInput);
}
