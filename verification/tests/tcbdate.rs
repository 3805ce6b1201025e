use corim::cbor::Value;
use corim::profile::intel::eval::Verdict;
use corim::profile::intel::tcbdate::{match_tcbdate, normalize, rfc3339_to_epoch_seconds, Tcbdate};
// -- rfc3339 -----------------------------------------------------------

#[test]
fn parses_unix_epoch_origin() {
    assert_eq!(rfc3339_to_epoch_seconds("1970-01-01T00:00:00Z"), Some(0));
}

#[test]
fn parses_year_2025() {
    // 2025-01-01T00:00:00Z = 1735689600.
    assert_eq!(
        rfc3339_to_epoch_seconds("2025-01-01T00:00:00Z"),
        Some(1735689600)
    );
}

#[test]
fn parses_leap_day_advances_one_day() {
    let leap = rfc3339_to_epoch_seconds("2024-02-29T00:00:00Z").unwrap();
    let next = rfc3339_to_epoch_seconds("2024-03-01T00:00:00Z").unwrap();
    assert_eq!(next - leap, 86400);
}

#[test]
fn parses_positive_offset() {
    assert_eq!(
        rfc3339_to_epoch_seconds("2025-01-01T05:00:00+05:00"),
        rfc3339_to_epoch_seconds("2025-01-01T00:00:00Z")
    );
}

#[test]
fn parses_lowercase_t_and_z() {
    assert_eq!(
        rfc3339_to_epoch_seconds("2025-01-01t00:00:00z"),
        rfc3339_to_epoch_seconds("2025-01-01T00:00:00Z")
    );
}

#[test]
fn parses_fractional_seconds_truncated() {
    assert_eq!(
        rfc3339_to_epoch_seconds("2025-01-01T00:00:00.999Z"),
        rfc3339_to_epoch_seconds("2025-01-01T00:00:00Z")
    );
}

#[test]
fn rejects_short_string() {
    assert_eq!(rfc3339_to_epoch_seconds("2025"), None);
}

#[test]
fn rejects_missing_offset() {
    assert_eq!(rfc3339_to_epoch_seconds("2025-01-01T00:00:00"), None);
}

#[test]
fn rejects_out_of_range_month() {
    assert_eq!(rfc3339_to_epoch_seconds("2025-13-01T00:00:00Z"), None);
}

// -- normalize ---------------------------------------------------------

#[test]
fn normalize_bare_int_is_instant() {
    assert_eq!(
        normalize(&Value::Integer(1735689600)),
        Some(Tcbdate::Instant(1735689600))
    );
}

#[test]
fn normalize_bare_text_is_instant() {
    assert_eq!(
        normalize(&Value::Text("2025-01-01T00:00:00Z".into())),
        Some(Tcbdate::Instant(1735689600))
    );
}

#[test]
fn normalize_tag_0_text_is_instant() {
    let v = Value::Tag(0, Box::new(Value::Text("2025-01-01T00:00:00Z".into())));
    assert_eq!(normalize(&v), Some(Tcbdate::Instant(1735689600)));
}

#[test]
fn normalize_tag_1_int_is_instant() {
    let v = Value::Tag(1, Box::new(Value::Integer(1735689600)));
    assert_eq!(normalize(&v), Some(Tcbdate::Instant(1735689600)));
}

#[test]
fn normalize_etime_with_key_1_is_instant() {
    // #6.1001({1: 1735689600})
    let body = Value::Mapping(vec![(Value::Integer(1), Value::Integer(1735689600))]);
    let v = Value::Tag(1001, Box::new(body));
    assert_eq!(normalize(&v), Some(Tcbdate::Instant(1735689600)));
}

#[test]
fn normalize_etime_without_key_1_is_none() {
    let body = Value::Mapping(vec![(Value::Integer(2), Value::Integer(0))]);
    let v = Value::Tag(1001, Box::new(body));
    assert_eq!(normalize(&v), None);
}

#[test]
fn normalize_period_with_explicit_bounds() {
    // #6.1003([2024-01-01, 2025-01-01]).
    let body = Value::Array(vec![Value::Integer(1704067200), Value::Integer(1735689600)]);
    let v = Value::Tag(1003, Box::new(body));
    assert_eq!(
        normalize(&v),
        Some(Tcbdate::Period {
            lo: Some(1704067200),
            hi: Some(1735689600),
        })
    );
}

#[test]
fn normalize_period_with_open_start() {
    let body = Value::Array(vec![Value::Null, Value::Integer(1735689600)]);
    let v = Value::Tag(1003, Box::new(body));
    assert_eq!(
        normalize(&v),
        Some(Tcbdate::Period {
            lo: None,
            hi: Some(1735689600),
        })
    );
}

#[test]
fn normalize_period_with_duration_derives_end() {
    // [start=1000, end=null, duration=500] → hi = 1500.
    let body = Value::Array(vec![Value::Integer(1000), Value::Null, Value::Integer(500)]);
    let v = Value::Tag(1003, Box::new(body));
    assert_eq!(
        normalize(&v),
        Some(Tcbdate::Period {
            lo: Some(1000),
            hi: Some(1500),
        })
    );
}

#[test]
fn normalize_period_with_text_bounds() {
    // Real-world Endorsers may emit RFC 3339 strings inside the
    // period array.
    let body = Value::Array(vec![
        Value::Text("2024-01-01T00:00:00Z".into()),
        Value::Text("2025-01-01T00:00:00Z".into()),
    ]);
    let v = Value::Tag(1003, Box::new(body));
    assert_eq!(
        normalize(&v),
        Some(Tcbdate::Period {
            lo: Some(1704067200),
            hi: Some(1735689600),
        })
    );
}

// -- match_tcbdate -----------------------------------------------------

#[test]
fn instant_text_equals_instant_int() {
    let r = Value::Text("2025-01-01T00:00:00Z".into());
    let e = Value::Integer(1735689600);
    assert_eq!(match_tcbdate(&r, &e), Verdict::Pass);
}

#[test]
fn instant_etime_equals_instant_tag_0() {
    let r = Value::Tag(
        1001,
        Box::new(Value::Mapping(vec![(
            Value::Integer(1),
            Value::Integer(1735689600),
        )])),
    );
    let e = Value::Tag(0, Box::new(Value::Text("2025-01-01T00:00:00Z".into())));
    assert_eq!(match_tcbdate(&r, &e), Verdict::Pass);
}

#[test]
fn instant_inequality_fails() {
    let r = Value::Text("2025-01-01T00:00:00Z".into());
    let e = Value::Integer(1735689601);
    assert_eq!(match_tcbdate(&r, &e), Verdict::Fail);
}

#[test]
fn period_contains_instant_passes() {
    let r = Value::Tag(
        1003,
        Box::new(Value::Array(vec![
            Value::Integer(1704067200), // 2024-01-01
            Value::Integer(1735689600), // 2025-01-01
        ])),
    );
    // Evidence in the middle of the window.
    let e = Value::Text("2024-06-01T00:00:00Z".into());
    assert_eq!(match_tcbdate(&r, &e), Verdict::Pass);
}

#[test]
fn period_excludes_instant_fails() {
    let r = Value::Tag(
        1003,
        Box::new(Value::Array(vec![
            Value::Integer(1704067200),
            Value::Integer(1735689600),
        ])),
    );
    let e = Value::Text("2026-01-01T00:00:00Z".into());
    assert_eq!(match_tcbdate(&r, &e), Verdict::Fail);
}

#[test]
fn period_open_bounds_treat_as_infinity() {
    let r = Value::Tag(
        1003,
        Box::new(Value::Array(vec![Value::Null, Value::Integer(1735689600)])),
    );
    assert_eq!(
        match_tcbdate(&r, &Value::Integer(-1_000_000)),
        Verdict::Pass
    );
    assert_eq!(
        match_tcbdate(&r, &Value::Integer(1735689601)),
        Verdict::Fail
    );
}

#[test]
fn period_equals_period_passes() {
    let r = Value::Tag(
        1003,
        Box::new(Value::Array(vec![Value::Integer(0), Value::Integer(100)])),
    );
    let e = r.clone();
    assert_eq!(match_tcbdate(&r, &e), Verdict::Pass);
}

#[test]
fn period_differs_from_period_fails() {
    let r = Value::Tag(
        1003,
        Box::new(Value::Array(vec![Value::Integer(0), Value::Integer(100)])),
    );
    let e = Value::Tag(
        1003,
        Box::new(Value::Array(vec![Value::Integer(0), Value::Integer(200)])),
    );
    assert_eq!(match_tcbdate(&r, &e), Verdict::Fail);
}

#[test]
fn instant_vs_period_fails_explicit() {
    let r = Value::Integer(0);
    let e = Value::Tag(
        1003,
        Box::new(Value::Array(vec![Value::Integer(0), Value::Integer(100)])),
    );
    assert_eq!(match_tcbdate(&r, &e), Verdict::Fail);
}

#[test]
fn unrecognised_falls_back_to_cbor_equality() {
    // Two unrelated tag wrappers — not tcbdate forms; CBOR
    // equality still passes when they're verbatim equal.
    let r = Value::Tag(9999, Box::new(Value::Integer(7)));
    let e = r.clone();
    assert_eq!(match_tcbdate(&r, &e), Verdict::Pass);
}
