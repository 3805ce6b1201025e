//! Structural conformance of a whole CoRIM against a baseline: the profile (structural),
//! the identifier (a value), and the CoMIDs, paired by tag id, down to their triples,
//! measurements and measurement values.
//!
//! Triples, measurements and measurement values are read from the data items the CoMID
//! carries: a `measurement-map` is `{ ? 0: mkey, 1: mval, ? 2: authorized-by }`; in
//! `measurement-values-map` the attributes are `version` (0), `svn` (1), `digests` (2),
//! `flags` (3), `raw-value` (4), `mac-addr` (6), `ip-addr` (7), `serial-number` (8),
//! `ueid` (9), `uuid` (10), `name` (11), `cryptokeys` (13), `integrity-registers` (14) and
//! `int-range` (15), and every other integer key is a profile extension. A part whose item
//! has another shape than the one it is read as reads as empty (or `null`).
use vstd::prelude::*;
use crate::baseline::{
    ConformanceReport, Findings, KindModel, MismatchKind, PathSegment, SegModel, join, no_findings,
    one_mismatch, one_diff, missing_at, unexpected_at, field_path, path_model, keyed_get,
};
use crate::builder::comid::{first_fail, lemma_first_fail_step, lemma_first_fail_prefix, lemma_first_fail_all, lemma_first_fail_none};
use crate::cbor::{
    Value, VModel, model_list, model_pairs, lemma_model_list, lemma_model_pairs, pairs_lookup, map_lookup,
    value_eq, values_equal, clone_value,
};
use crate::intmap::{IntMap, insert_spec, keyed_model};
use crate::text::{dec_int, hex, hex_text, push_str, push_i128, push_i64, push_usize, str_debug, debug_quoted, str_eq};
use crate::cbor::{decode, decode_spec};
use crate::types::comid::{ComidTag, comid_spec};
use crate::types::common::{TagIdChoice, TagIdModel};
use crate::types::corim::{ConciseTagChoice, TagChoiceModel};

verus! {

// ---------------------------------------------------------------------------
// Findings of each element of a sequence, in order.
// ---------------------------------------------------------------------------

/// The findings of each element, in order (`f` gets the element's position).
pub open spec fn join_each<A>(s: Seq<A>, f: spec_fn(int, A) -> Findings) -> Findings
    decreases s.len(),
{
    if s.len() == 0 {
        no_findings()
    } else {
        join(join_each(s.drop_last(), f), f(s.len() - 1, s.last()))
    }
}

proof fn lemma_join_each_step<A>(start: Findings, s: Seq<A>, f: spec_fn(int, A) -> Findings, k: int)
    requires
        0 <= k < s.len(),
    ensures
        join(join(start, join_each(s.take(k), f)), f(k, s[k])) == join(start, join_each(s.take(k + 1), f)),
{
    assert(s.take(k + 1).drop_last() =~= s.take(k));
    super::lemma_join_assoc(start, join_each(s.take(k), f), f(k, s[k]));
}

proof fn lemma_join_each_all<A>(s: Seq<A>, f: spec_fn(int, A) -> Findings)
    ensures
        join_each(s.take(s.len() as int), f) == join_each(s, f),
{
    assert(s.take(s.len() as int) =~= s);
}

proof fn lemma_join3(a: Findings, b: Findings, c: Findings)
    ensures
        join(join(a, b), c) == join(a, join(b, c)),
{
    super::lemma_join_assoc(a, b, c);
}

// ---------------------------------------------------------------------------
// Reading items.
// ---------------------------------------------------------------------------

/// The items of an array (none for another item).
pub open spec fn arr(v: VModel) -> Seq<VModel> {
    match v {
        VModel::Array(a) => a,
        _ => Seq::empty(),
    }
}

/// The entries of a map (none for another item).
pub open spec fn entries(v: VModel) -> Seq<(VModel, VModel)> {
    match v {
        VModel::Mapping(m) => m,
        _ => Seq::empty(),
    }
}

/// The items of the array at position `k` of an array record (none where there is none).
pub open spec fn arr_at(r: VModel, k: int) -> Seq<VModel> {
    match r {
        VModel::Array(a) => if 0 <= k < a.len() {
            arr(a[k])
        } else {
            Seq::empty()
        },
        _ => Seq::empty(),
    }
}

/// The item at position `k` of an array record, `null` where there is none.
pub open spec fn item_at(r: VModel, k: int) -> VModel {
    match r {
        VModel::Array(a) => if 0 <= k < a.len() {
            a[k]
        } else {
            VModel::Null
        },
        _ => VModel::Null,
    }
}

fn empty_list() -> (r: Vec<Value>)
    ensures
        model_list(r@) == Seq::<VModel>::empty(),
{
    let r: Vec<Value> = Vec::new();
    proof {
        lemma_model_list(r@);
    }
    assert(model_list(r@) =~= Seq::<VModel>::empty());
    r
}

fn empty_entries() -> (r: Vec<(Value, Value)>)
    ensures
        model_pairs(r@) == Seq::<(VModel, VModel)>::empty(),
{
    let r: Vec<(Value, Value)> = Vec::new();
    proof {
        lemma_model_pairs(r@);
    }
    assert(model_pairs(r@) =~= Seq::<(VModel, VModel)>::empty());
    r
}

/// The items of an array item, or `fallback` (empty) for another item.
fn arr_of<'a>(v: &'a Value, fallback: &'a Vec<Value>) -> (r: &'a Vec<Value>)
    requires
        model_list(fallback@) == Seq::<VModel>::empty(),
    ensures
        model_list(r@) == arr(v@),
{
    match v {
        Value::Array(a) => a,
        _ => fallback,
    }
}

/// The entries of a map item, or `fallback` (empty) for another item.
fn entries_of<'a>(v: &'a Value, fallback: &'a Vec<(Value, Value)>) -> (r: &'a Vec<(Value, Value)>)
    requires
        model_pairs(fallback@) == Seq::<(VModel, VModel)>::empty(),
    ensures
        model_pairs(r@) == entries(v@),
{
    match v {
        Value::Mapping(m) => m,
        _ => fallback,
    }
}

/// The item at position `k` of an array record, if there is one.
fn item_of(r: &Value, k: usize) -> (x: Option<&Value>)
    ensures
        x matches Some(v) ==> item_at(r@, k as int) == v@,
        x is None ==> item_at(r@, k as int) == VModel::Null,
        x is None ==> arr_at(r@, k as int) == Seq::<VModel>::empty(),
        x matches Some(v) ==> arr_at(r@, k as int) == arr(v@),
{
    match r {
        Value::Array(a) => {
            proof {
                lemma_model_list(a@);
            }
            if k < a.len() {
                Some(&a[k])
            } else {
                None
            }
        },
        _ => None,
    }
}

/// The value under integer key `k` of a map's entries.
pub open spec fn at_key(m: Seq<(VModel, VModel)>, k: int) -> Option<VModel> {
    pairs_lookup(m, k)
}

/// Equality of two optional items (`None` equals only `None`).
pub open spec fn opt_eq(a: Option<VModel>, b: Option<VModel>) -> bool {
    match (a, b) {
        (None, None) => true,
        (Some(x), Some(y)) => value_eq(x, y),
        _ => false,
    }
}

fn opt_equal(a: Option<&Value>, b: Option<&Value>) -> (r: bool)
    ensures
        r == opt_eq(
            match a {
                Some(x) => Some(x@),
                None => None,
            },
            match b {
                Some(y) => Some(y@),
                None => None,
            },
        ),
{
    match (a, b) {
        (None, None) => true,
        (Some(x), Some(y)) => values_equal(x, y),
        _ => false,
    }
}

pub open spec fn opt_model(o: Option<&Value>) -> Option<VModel> {
    match o {
        Some(x) => Some(x@),
        None => None,
    }
}

// ---------------------------------------------------------------------------
// Scalar attributes.
// ---------------------------------------------------------------------------

/// An optional attribute: presence is structural, a different payload a value difference.
pub open spec fn scalar_findings(path: Seq<SegModel>, field: Seq<char>, b: Option<VModel>, i: Option<VModel>) -> Findings {
    match (b, i) {
        (None, None) => no_findings(),
        (Some(_), None) => missing_at(field_path(path, field), field),
        (None, Some(_)) => unexpected_at(field_path(path, field), field),
        (Some(x), Some(y)) => if value_eq(x, y) {
            no_findings()
        } else {
            one_diff(field_path(path, field), field, x, y)
        },
    }
}

fn scalar(path: &Vec<PathSegment>, field: &'static str, b: Option<&Value>, i: Option<&Value>, r: &mut ConformanceReport)
    ensures
        final(r)@ == join(old(r)@, scalar_findings(path_model(path@), field@, opt_model(b), opt_model(i))),
{
    proof {
        super::lemma_join_none(r@);
    }
    match (b, i) {
        (None, None) => {},
        (Some(_), None) => super::missing(r, super::path_with(path, PathSegment::Field(field)), field),
        (None, Some(_)) => super::unexpected(r, super::path_with(path, PathSegment::Field(field)), field),
        (Some(x), Some(y)) => {
            if !values_equal(x, y) {
                super::push_diff(r, super::path_with(path, PathSegment::Field(field)), field, clone_value(x), clone_value(y));
            }
        },
    }
}

// ---------------------------------------------------------------------------
// Digests.
// ---------------------------------------------------------------------------

/// The algorithm of a digest `[alg, value]`.
pub open spec fn digest_alg(d: VModel) -> VModel {
    item_at(d, 0)
}

/// The value of a digest `[alg, value]`.
pub open spec fn digest_value(d: VModel) -> VModel {
    item_at(d, 1)
}

/// What `{:?}` writes for a digest algorithm: `Int(n)` or `Text("name")`.
pub open spec fn alg_debug(a: VModel) -> Seq<char> {
    match a {
        VModel::Int(n) => "Int("@ + dec_int(n) + ")"@,
        VModel::Text(t) => "Text("@ + str_debug(t) + ")"@,
        _ => "Int(0)"@,
    }
}

fn push_alg_debug(s: &mut String, a: &Value)
    ensures
        final(s)@ == old(s)@ + alg_debug(a@),
{
    match a {
        Value::Integer(n) => {
            push_str(s, "Int(");
            push_i128(s, *n);
            push_str(s, ")");
        },
        Value::Text(t) => {
            push_str(s, "Text(");
            let d = debug_quoted(t.as_str());
            push_str(s, d.as_str());
            push_str(s, ")");
        },
        _ => {
            push_str(s, "Int(0)");
        },
    }
    assert(s@ =~= old(s)@ + alg_debug(a@));
}

/// The digest of the given algorithm (as its position).
pub open spec fn alg_is(alg: VModel) -> spec_fn(int, VModel) -> Option<int> {
    |j: int, d: VModel| if value_eq(digest_alg(d), alg) {
        Some(j)
    } else {
        None
    }
}

/// A baseline digest: its algorithm must be in the input; its value may differ.
pub open spec fn digest_left(path: Seq<SegModel>, i: Seq<VModel>) -> spec_fn(int, VModel) -> Findings {
    |slot: int, bd: VModel| {
        let p = path.push(SegModel::Field("digests"@)).push(SegModel::Index(slot as nat));
        match first_fail(i, alg_is(digest_alg(bd))) {
            Some(j) => if value_eq(digest_value(i[j]), digest_value(bd)) {
                no_findings()
            } else {
                one_diff(p, "digest-value"@, digest_value(bd), digest_value(i[j]))
            },
            None => one_mismatch(
                p,
                KindModel::MissingInInput,
                "digest algorithm "@ + alg_debug(digest_alg(bd)) + " present in baseline but not in input"@,
            ),
        }
    }
}

/// An input digest whose algorithm the baseline lacks.
pub open spec fn digest_right(path: Seq<SegModel>, b: Seq<VModel>) -> spec_fn(int, VModel) -> Findings {
    |j: int, id: VModel| if first_fail(b, alg_is(digest_alg(id))) is None {
        one_mismatch(
            path.push(SegModel::Field("digests"@)),
            KindModel::UnexpectedInInput,
            "digest algorithm "@ + alg_debug(digest_alg(id)) + " present in input but not in baseline"@,
        )
    } else {
        no_findings()
    }
}

/// Digests: presence is structural; digests are paired by algorithm, whose presence is
/// structural, and a differing value is a value difference.
pub open spec fn digests_findings(path: Seq<SegModel>, b: Option<VModel>, i: Option<VModel>) -> Findings {
    match (b, i) {
        (None, None) => no_findings(),
        (Some(_), None) => missing_at(field_path(path, "digests"@), "digests"@),
        (None, Some(_)) => unexpected_at(field_path(path, "digests"@), "digests"@),
        (Some(x), Some(y)) => join(
            join_each(arr(x), digest_left(path, arr(y))),
            join_each(arr(y), digest_right(path, arr(x))),
        ),
    }
}

/// The first digest of the given algorithm.
fn find_alg(list: &Vec<Value>, alg: &Value) -> (r: Option<usize>)
    ensures
        r matches Some(j) ==> j < list@.len() && first_fail(model_list(list@), alg_is(alg@)) == Some(j as int),
        r is None ==> first_fail(model_list(list@), alg_is(alg@)) is None,
{
    let ghost ms = model_list(list@);
    proof {
        lemma_model_list(list@);
    }
    let mut j: usize = 0;
    while j < list.len()
        invariant
            j <= list@.len(),
            ms == model_list(list@),
            ms.len() == list@.len(),
            forall|k: int| 0 <= k < list@.len() ==> #[trigger] ms[k] == list@[k]@,
            first_fail(ms.take(j as int), alg_is(alg@)) is None,
        decreases list@.len() - j,
    {
        proof {
            lemma_first_fail_step(ms, alg_is(alg@), j as int);
        }
        let d = &list[j];
        let a = match item_of(d, 0) {
            Some(a) => values_equal(a, alg),
            None => values_equal(&Value::Null, alg),
        };
        if a {
            proof {
                lemma_first_fail_prefix(ms, alg_is(alg@), j + 1);
            }
            return Some(j);
        }
        j += 1;
    }
    proof {
        lemma_first_fail_all(ms, alg_is(alg@));
    }
    None
}

fn null_or(x: Option<&Value>) -> (r: Value)
    ensures
        r@ == match x {
            Some(v) => v@,
            None => VModel::Null,
        },
{
    match x {
        Some(v) => clone_value(v),
        None => Value::Null,
    }
}

#[verifier::loop_isolation(false)]
fn compare_digests(path: &Vec<PathSegment>, b: Option<&Value>, i: Option<&Value>, r: &mut ConformanceReport)
    ensures
        final(r)@ == join(old(r)@, digests_findings(path_model(path@), opt_model(b), opt_model(i))),
{
    proof {
        super::lemma_join_none(r@);
    }
    let ghost pm = path_model(path@);
    match (b, i) {
        (None, None) => {},
        (Some(_), None) => super::missing(r, super::path_with(path, PathSegment::Field("digests")), "digests"),
        (None, Some(_)) => super::unexpected(r, super::path_with(path, PathSegment::Field("digests")), "digests"),
        (Some(x), Some(y)) => {
            let e1 = empty_list();
            let e2 = empty_list();
            let bl = arr_of(x, &e1);
            let il = arr_of(y, &e2);
            let ghost bs = model_list(bl@);
            let ghost is = model_list(il@);
            proof {
                lemma_model_list(bl@);
                lemma_model_list(il@);
            }
            let ghost start = r@;
            proof {
                super::lemma_join_none(start);
                assert(bs.take(0) =~= Seq::<VModel>::empty());
            }
            let mut slot: usize = 0;
            while slot < bl.len()
                invariant
                    slot <= bl@.len(),
                    r@ == join(start, join_each(bs.take(slot as int), digest_left(pm, is))),
                decreases bl@.len() - slot,
            {
                let ghost before = r@;
                let bd = &bl[slot];
                assert(bs[slot as int] == bd@);
                let p = super::path_with(&super::path_with(path, PathSegment::Field("digests")), PathSegment::Index(slot));
                let bv = null_or(item_of(bd, 1));
                let ba = null_or(item_of(bd, 0));
                match find_alg(il, &ba) {
                    Some(j) => {
                        assert(is[j as int] == il@[j as int]@);
                        let iv = null_or(item_of(&il[j], 1));
                        if !values_equal(&iv, &bv) {
                            super::push_diff(r, p, "digest-value", bv, iv);
                        } else {
                            proof {
                                super::lemma_join_none(before);
                            }
                        }
                    },
                    None => {
                        let mut d = String::from_str("digest algorithm ");
                        push_alg_debug(&mut d, &ba);
                        push_str(&mut d, " present in baseline but not in input");
                        super::push_mismatch(r, p, MismatchKind::MissingInInput, d);
                    },
                }
                proof {
                    lemma_join_each_step(start, bs, digest_left(pm, is), slot as int);
                }
                slot += 1;
            }
            proof {
                lemma_join_each_all(bs, digest_left(pm, is));
            }
            let ghost mid = r@;
            proof {
                super::lemma_join_none(mid);
                assert(is.take(0) =~= Seq::<VModel>::empty());
            }
            let mut j: usize = 0;
            while j < il.len()
                invariant
                    j <= il@.len(),
                    r@ == join(mid, join_each(is.take(j as int), digest_right(pm, bs))),
                decreases il@.len() - j,
            {
                let ghost before = r@;
                let id = &il[j];
                assert(is[j as int] == id@);
                let ia = null_or(item_of(id, 0));
                match find_alg(bl, &ia) {
                    None => {
                        let mut d = String::from_str("digest algorithm ");
                        push_alg_debug(&mut d, &ia);
                        push_str(&mut d, " present in input but not in baseline");
                        super::push_mismatch(
                            r,
                            super::path_with(path, PathSegment::Field("digests")),
                            MismatchKind::UnexpectedInInput,
                            d,
                        );
                    },
                    Some(_) => {
                        proof {
                            super::lemma_join_none(before);
                        }
                    },
                }
                proof {
                    lemma_join_each_step(mid, is, digest_right(pm, bs), j as int);
                }
                j += 1;
            }
            proof {
                lemma_join_each_all(is, digest_right(pm, bs));
                lemma_join3(old(r)@, join_each(bs, digest_left(pm, is)), join_each(is, digest_right(pm, bs)));
            }
        },
    }
}

// ---------------------------------------------------------------------------
// Security version numbers and raw values.
// ---------------------------------------------------------------------------

/// An svn given as a minimum (`#6.553`) rather than an exact value.
pub open spec fn svn_is_min(v: VModel) -> bool {
    v matches VModel::Tag(t, _) && t == 553
}

/// The number of an svn (plain, or inside its tag).
pub open spec fn svn_number(v: VModel) -> int {
    match v {
        VModel::Int(n) => n,
        VModel::Tag(_, inner) => match *inner {
            VModel::Int(n) => n,
            _ => 0,
        },
        _ => 0,
    }
}

pub open spec fn svn_kind(v: VModel) -> Seq<char> {
    if svn_is_min(v) {
        "min-svn"@
    } else {
        "exact-svn"@
    }
}

/// svn: presence is structural, and so is exact against minimum; a differing number is a
/// value difference.
pub open spec fn svn_findings(path: Seq<SegModel>, b: Option<VModel>, i: Option<VModel>) -> Findings {
    match (b, i) {
        (None, None) => no_findings(),
        (Some(_), None) => missing_at(field_path(path, "svn"@), "svn"@),
        (None, Some(_)) => unexpected_at(field_path(path, "svn"@), "svn"@),
        (Some(x), Some(y)) => if svn_is_min(x) == svn_is_min(y) {
            if svn_number(x) == svn_number(y) {
                no_findings()
            } else {
                one_diff(field_path(path, "svn"@), "svn"@, VModel::Int(svn_number(x)), VModel::Int(svn_number(y)))
            }
        } else {
            one_mismatch(
                field_path(path, "svn"@),
                KindModel::TypeMismatch { baseline: svn_kind(x), input: svn_kind(y) },
                "svn type discriminant differs (exact vs minimum)"@,
            )
        },
    }
}

fn svn_parts(v: &Value) -> (r: (bool, i128))
    ensures
        r.0 == svn_is_min(v@),
        r.1 as int == svn_number(v@),
{
    match v {
        Value::Integer(n) => (false, *n),
        Value::Tag(t, inner) => {
            let iv: &Value = inner;
            assert(v@ == VModel::Tag(*t, Box::new(iv@)));
            let n = match iv {
                Value::Integer(n) => *n,
                _ => 0,
            };
            (*t == 553, n)
        },
        _ => (false, 0),
    }
}

fn svn_kind_text(min: bool) -> (s: String)
    ensures
        s@ == (if min {
            "min-svn"@
        } else {
            "exact-svn"@
        }),
{
    if min {
        String::from_str("min-svn")
    } else {
        String::from_str("exact-svn")
    }
}

fn compare_svn(path: &Vec<PathSegment>, b: Option<&Value>, i: Option<&Value>, r: &mut ConformanceReport)
    ensures
        final(r)@ == join(old(r)@, svn_findings(path_model(path@), opt_model(b), opt_model(i))),
{
    proof {
        super::lemma_join_none(r@);
    }
    match (b, i) {
        (None, None) => {},
        (Some(_), None) => super::missing(r, super::path_with(path, PathSegment::Field("svn")), "svn"),
        (None, Some(_)) => super::unexpected(r, super::path_with(path, PathSegment::Field("svn")), "svn"),
        (Some(x), Some(y)) => {
            let (xm, xn) = svn_parts(x);
            let (ym, yn) = svn_parts(y);
            let p = super::path_with(path, PathSegment::Field("svn"));
            if xm == ym {
                if xn != yn {
                    super::push_diff(r, p, "svn", Value::Integer(xn), Value::Integer(yn));
                }
            } else {
                let kind = MismatchKind::TypeMismatch { baseline: svn_kind_text(xm), input: svn_kind_text(ym) };
                super::push_mismatch(r, p, kind, String::from_str("svn type discriminant differs (exact vs minimum)"));
            }
        },
    }
}

/// A raw value given with a mask (`#6.563`) rather than as bytes.
pub open spec fn raw_is_masked(v: VModel) -> bool {
    v matches VModel::Tag(t, _) && t == 563
}

/// The payload of a raw value: what its tag (560 or 563) wraps.
pub open spec fn raw_payload(v: VModel) -> VModel {
    match v {
        VModel::Tag(t, inner) => if t == 560 || t == 563 {
            *inner
        } else {
            v
        },
        _ => v,
    }
}

/// raw-value: presence is structural, and so is bytes against masked; a differing payload
/// is a value difference.
pub open spec fn raw_findings(path: Seq<SegModel>, b: Option<VModel>, i: Option<VModel>) -> Findings {
    match (b, i) {
        (None, None) => no_findings(),
        (Some(_), None) => missing_at(field_path(path, "raw-value"@), "raw-value"@),
        (None, Some(_)) => unexpected_at(field_path(path, "raw-value"@), "raw-value"@),
        (Some(x), Some(y)) => if raw_is_masked(x) == raw_is_masked(y) {
            if value_eq(raw_payload(x), raw_payload(y)) {
                no_findings()
            } else {
                one_diff(field_path(path, "raw-value"@), "raw-value"@, raw_payload(x), raw_payload(y))
            }
        } else {
            one_mismatch(
                field_path(path, "raw-value"@),
                KindModel::TypeMismatch { baseline: "bytes-or-masked"@, input: "bytes-or-masked"@ },
                "raw-value type discriminant differs (bytes vs masked)"@,
            )
        },
    }
}

fn raw_parts(v: &Value) -> (r: (bool, Value))
    ensures
        r.0 == raw_is_masked(v@),
        r.1@ == raw_payload(v@),
{
    match v {
        Value::Tag(t, inner) => {
            let iv: &Value = inner;
            assert(v@ == VModel::Tag(*t, Box::new(iv@)));
            if *t == 560 || *t == 563 {
                (*t == 563, clone_value(iv))
            } else {
                (false, clone_value(v))
            }
        },
        _ => (false, clone_value(v)),
    }
}

fn compare_raw(path: &Vec<PathSegment>, b: Option<&Value>, i: Option<&Value>, r: &mut ConformanceReport)
    ensures
        final(r)@ == join(old(r)@, raw_findings(path_model(path@), opt_model(b), opt_model(i))),
{
    proof {
        super::lemma_join_none(r@);
    }
    match (b, i) {
        (None, None) => {},
        (Some(_), None) => super::missing(r, super::path_with(path, PathSegment::Field("raw-value")), "raw-value"),
        (None, Some(_)) => super::unexpected(r, super::path_with(path, PathSegment::Field("raw-value")), "raw-value"),
        (Some(x), Some(y)) => {
            let (xm, xv) = raw_parts(x);
            let (ym, yv) = raw_parts(y);
            let p = super::path_with(path, PathSegment::Field("raw-value"));
            if xm == ym {
                if !values_equal(&xv, &yv) {
                    super::push_diff(r, p, "raw-value", xv, yv);
                }
            } else {
                let kind = MismatchKind::TypeMismatch {
                    baseline: String::from_str("bytes-or-masked"),
                    input: String::from_str("bytes-or-masked"),
                };
                super::push_mismatch(r, p, kind, String::from_str("raw-value type discriminant differs (bytes vs masked)"));
            }
        },
    }
}

// ---------------------------------------------------------------------------
// Flags.
// ---------------------------------------------------------------------------

/// The names of the flags, by key.
pub open spec fn flag_names() -> Seq<Seq<char>> {
    seq![
        "is-configured"@,
        "is-secure"@,
        "is-recovery"@,
        "is-debug"@,
        "is-replay-protected"@,
        "is-integrity-protected"@,
        "is-runtime-meas"@,
        "is-immutable"@,
        "is-tcb"@,
        "is-confidentiality-protected"@,
        "is-runtime-updatable"@,
    ]
}

fn flag_name(k: usize) -> (s: &'static str)
    requires
        k < 11,
    ensures
        s@ == flag_names()[k as int],
{
    match k {
        0 => "is-configured",
        1 => "is-secure",
        2 => "is-recovery",
        3 => "is-debug",
        4 => "is-replay-protected",
        5 => "is-integrity-protected",
        6 => "is-runtime-meas",
        7 => "is-immutable",
        8 => "is-tcb",
        9 => "is-confidentiality-protected",
        _ => "is-runtime-updatable",
    }
}

/// One flag: presence is structural, a differing value a value difference.
pub open spec fn flag_item(path: Seq<SegModel>, b: Seq<(VModel, VModel)>, i: Seq<(VModel, VModel)>) -> spec_fn(int, Seq<char>) -> Findings {
    |k: int, name: Seq<char>| {
        let fp = path.push(SegModel::Field(name));
        match (at_key(b, k), at_key(i, k)) {
            (None, None) => no_findings(),
            (Some(_), None) => one_mismatch(
                fp,
                KindModel::MissingInInput,
                "flag "@ + name + " present in baseline but not in input"@,
            ),
            (None, Some(_)) => one_mismatch(
                fp,
                KindModel::UnexpectedInInput,
                "flag "@ + name + " present in input but not in baseline"@,
            ),
            (Some(x), Some(y)) => if value_eq(x, y) {
                no_findings()
            } else {
                one_diff(fp, "flag"@, x, y)
            },
        }
    }
}

/// flags: presence of the map is structural, then each flag.
pub open spec fn flags_findings(path: Seq<SegModel>, b: Option<VModel>, i: Option<VModel>) -> Findings {
    match (b, i) {
        (None, None) => no_findings(),
        (Some(_), None) => missing_at(field_path(path, "flags"@), "flags"@),
        (None, Some(_)) => unexpected_at(field_path(path, "flags"@), "flags"@),
        (Some(x), Some(y)) => join_each(flag_names(), flag_item(field_path(path, "flags"@), entries(x), entries(y))),
    }
}

#[verifier::loop_isolation(false)]
fn compare_flags(path: &Vec<PathSegment>, b: Option<&Value>, i: Option<&Value>, r: &mut ConformanceReport)
    ensures
        final(r)@ == join(old(r)@, flags_findings(path_model(path@), opt_model(b), opt_model(i))),
{
    proof {
        super::lemma_join_none(r@);
    }
    match (b, i) {
        (None, None) => {},
        (Some(_), None) => super::missing(r, super::path_with(path, PathSegment::Field("flags")), "flags"),
        (None, Some(_)) => super::unexpected(r, super::path_with(path, PathSegment::Field("flags")), "flags"),
        (Some(x), Some(y)) => {
            let e1 = empty_entries();
            let e2 = empty_entries();
            let bm = entries_of(x, &e1);
            let im = entries_of(y, &e2);
            let p = super::path_with(path, PathSegment::Field("flags"));
            let ghost pm = path_model(p@);
            let ghost names = flag_names();
            let ghost f = flag_item(pm, entries(x@), entries(y@));
            let ghost start = r@;
            proof {
                super::lemma_join_none(start);
                assert(names.take(0) =~= Seq::<Seq<char>>::empty());
            }
            let mut k: usize = 0;
            while k < 11
                invariant
                    k <= 11,
                    r@ == join(start, join_each(names.take(k as int), f)),
                decreases 11 - k,
            {
                let ghost before = r@;
                let name = flag_name(k);
                let fp = super::path_with(&p, PathSegment::Field(name));
                let bv = map_lookup(bm, k as i128);
                let iv = map_lookup(im, k as i128);
                match (bv, iv) {
                    (None, None) => {
                        proof {
                            super::lemma_join_none(before);
                        }
                    },
                    (Some(_), None) => {
                        let mut d = String::from_str("flag ");
                        push_str(&mut d, name);
                        push_str(&mut d, " present in baseline but not in input");
                        super::push_mismatch(r, fp, MismatchKind::MissingInInput, d);
                    },
                    (None, Some(_)) => {
                        let mut d = String::from_str("flag ");
                        push_str(&mut d, name);
                        push_str(&mut d, " present in input but not in baseline");
                        super::push_mismatch(r, fp, MismatchKind::UnexpectedInInput, d);
                    },
                    (Some(xv), Some(yv)) => {
                        if !values_equal(xv, yv) {
                            super::push_diff(r, fp, "flag", clone_value(xv), clone_value(yv));
                        } else {
                            proof {
                                super::lemma_join_none(before);
                            }
                        }
                    },
                }
                proof {
                    lemma_join_each_step(start, names, f, k as int);
                }
                k += 1;
            }
            proof {
                lemma_join_each_all(names, f);
            }
        },
    }
}

// ---------------------------------------------------------------------------
// Profile extensions of measurement values.
// ---------------------------------------------------------------------------

/// The keys of the attributes of `measurement-values-map`.
pub open spec fn known_mval_key(n: int) -> bool {
    (0 <= n <= 4) || (6 <= n <= 11) || (13 <= n <= 15)
}

/// The profile-extension entries of a measurement-values map, in ascending key order (a
/// later entry with the same key replaces an earlier one).
pub open spec fn extras_of(m: Seq<(VModel, VModel)>) -> Seq<(i64, VModel)>
    decreases m.len(),
{
    if m.len() == 0 {
        Seq::empty()
    } else {
        let prev = extras_of(m.drop_last());
        let e = m.last();
        match e.0 {
            VModel::Int(n) => if i64::MIN <= n <= i64::MAX && !known_mval_key(n) {
                insert_spec(prev, n as i64, e.1)
            } else {
                prev
            },
            _ => prev,
        }
    }
}

fn extras_map(m: &Vec<(Value, Value)>) -> (r: IntMap)
    ensures
        r.wf(),
        r.entries_spec() == extras_of(model_pairs(m@)),
{
    let ghost ms = model_pairs(m@);
    proof {
        lemma_model_pairs(m@);
    }
    let mut out = IntMap::new();
    assert(out.entries_spec() =~= extras_of(ms.take(0)));
    let mut i: usize = 0;
    while i < m.len()
        invariant
            i <= m@.len(),
            ms == model_pairs(m@),
            ms.len() == m@.len(),
            forall|k: int| 0 <= k < m@.len() ==> #[trigger] ms[k] == (m@[k].0@, m@[k].1@),
            out.wf(),
            out.entries_spec() == extras_of(ms.take(i as int)),
        decreases m@.len() - i,
    {
        proof {
            assert(ms.take(i + 1).drop_last() =~= ms.take(i as int));
            assert(ms.take(i + 1).last() == ms[i as int]);
        }
        if let Value::Integer(n) = &m[i].0 {
            let n = *n;
            if n >= i64::MIN as i128 && n <= i64::MAX as i128 && !((0 <= n && n <= 4) || (6 <= n && n <= 11) || (
            13 <= n && n <= 15)) {
                out.insert(n as i64, clone_value(&m[i].1));
            }
        }
        i += 1;
    }
    proof {
        assert(ms.take(i as int) =~= ms);
    }
    out
}

pub open spec fn ext_path(path: Seq<SegModel>, k: i64) -> Seq<SegModel> {
    path.push(SegModel::Field("mval-extension"@)).push(SegModel::MapKey(k))
}

/// A baseline extension key: it must be in the input; its value may differ.
pub open spec fn ext_left(path: Seq<SegModel>, i: Seq<(i64, VModel)>) -> spec_fn(int, (i64, VModel)) -> Findings {
    |idx: int, e: (i64, VModel)| match keyed_get(i, e.0) {
        Some(iv) => if value_eq(iv, e.1) {
            no_findings()
        } else {
            one_diff(ext_path(path, e.0), "mval-extension"@, e.1, iv)
        },
        None => one_mismatch(
            ext_path(path, e.0),
            KindModel::MissingInInput,
            "mval extension key "@ + dec_int(e.0 as int) + " present in baseline but not in input"@,
        ),
    }
}

/// An input extension key the baseline lacks.
pub open spec fn ext_right(path: Seq<SegModel>, b: Seq<(i64, VModel)>) -> spec_fn(int, (i64, VModel)) -> Findings {
    |idx: int, e: (i64, VModel)| if keyed_get(b, e.0) is None {
        one_mismatch(
            ext_path(path, e.0),
            KindModel::UnexpectedInInput,
            "mval extension key "@ + dec_int(e.0 as int) + " present in input but not in baseline"@,
        )
    } else {
        no_findings()
    }
}

/// Extensions: key presence is structural, a differing value a value difference.
pub open spec fn ext_findings(path: Seq<SegModel>, b: Seq<(i64, VModel)>, i: Seq<(i64, VModel)>) -> Findings {
    join(join_each(b, ext_left(path, i)), join_each(i, ext_right(path, b)))
}

#[verifier::loop_isolation(false)]
fn compare_extensions(path: &Vec<PathSegment>, b: &IntMap, i: &IntMap, r: &mut ConformanceReport)
    requires
        b.wf(),
        i.wf(),
    ensures
        final(r)@ == join(old(r)@, ext_findings(path_model(path@), b.entries_spec(), i.entries_spec())),
{
    let ghost pm = path_model(path@);
    let ghost bs = b.entries_spec();
    let ghost is = i.entries_spec();
    proof {
        super::lemma_keyed_get(bs, 0);
    }
    let be = b.entries();
    let ie = i.entries();
    let ghost start = r@;
    proof {
        super::lemma_join_none(start);
        assert(bs.take(0) =~= Seq::<(i64, VModel)>::empty());
    }
    let mut k: usize = 0;
    while k < be.len()
        invariant
            k <= be@.len(),
            keyed_model(be@) == bs,
            r@ == join(start, join_each(bs.take(k as int), ext_left(pm, is))),
        decreases be@.len() - k,
    {
        let ghost before = r@;
        let key = be[k].0;
        assert(bs[k as int] == (key, be@[k as int].1@));
        proof {
            super::lemma_keyed_get(is, key);
        }
        let p = super::path_with(&super::path_with(path, PathSegment::Field("mval-extension")), PathSegment::MapKey(key));
        match i.get(key) {
            Some(iv) => {
                if !values_equal(iv, &be[k].1) {
                    super::push_diff(r, p, "mval-extension", clone_value(&be[k].1), clone_value(iv));
                } else {
                    proof {
                        super::lemma_join_none(before);
                    }
                }
            },
            None => {
                let mut d = String::from_str("mval extension key ");
                push_i64(&mut d, key);
                push_str(&mut d, " present in baseline but not in input");
                super::push_mismatch(r, p, MismatchKind::MissingInInput, d);
            },
        }
        proof {
            lemma_join_each_step(start, bs, ext_left(pm, is), k as int);
        }
        k += 1;
    }
    proof {
        lemma_join_each_all(bs, ext_left(pm, is));
    }
    let ghost mid = r@;
    proof {
        super::lemma_join_none(mid);
        assert(is.take(0) =~= Seq::<(i64, VModel)>::empty());
    }
    let mut k: usize = 0;
    while k < ie.len()
        invariant
            k <= ie@.len(),
            keyed_model(ie@) == is,
            r@ == join(mid, join_each(is.take(k as int), ext_right(pm, bs))),
        decreases ie@.len() - k,
    {
        let ghost before = r@;
        let key = ie[k].0;
        assert(is[k as int] == (key, ie@[k as int].1@));
        proof {
            super::lemma_keyed_get(bs, key);
        }
        match b.get(key) {
            None => {
                let p = super::path_with(&super::path_with(path, PathSegment::Field("mval-extension")), PathSegment::MapKey(key));
                let mut d = String::from_str("mval extension key ");
                push_i64(&mut d, key);
                push_str(&mut d, " present in input but not in baseline");
                super::push_mismatch(r, p, MismatchKind::UnexpectedInInput, d);
            },
            Some(_) => {
                proof {
                    super::lemma_join_none(before);
                }
            },
        }
        proof {
            lemma_join_each_step(mid, is, ext_right(pm, bs), k as int);
        }
        k += 1;
    }
    proof {
        lemma_join_each_all(is, ext_right(pm, bs));
        lemma_join3(old(r)@, join_each(bs, ext_left(pm, is)), join_each(is, ext_right(pm, bs)));
    }
}

// ---------------------------------------------------------------------------
// Measurement values.
// ---------------------------------------------------------------------------

/// The findings of four parts, in order.
pub open spec fn join4(a: Findings, b: Findings, c: Findings, d: Findings) -> Findings {
    join(join(join(a, b), c), d)
}

proof fn lemma_join4(s: Findings, a: Findings, b: Findings, c: Findings, d: Findings)
    ensures
        join(join(join(join(s, a), b), c), d) == join(s, join4(a, b, c, d)),
{
    assert(join(join(join(join(s, a), b), c), d).mismatches =~= join(s, join4(a, b, c, d)).mismatches);
    assert(join(join(join(join(s, a), b), c), d).diffs =~= join(s, join4(a, b, c, d)).diffs);
}

/// Digests, svn, raw-value and flags.
pub open spec fn mval_head(path: Seq<SegModel>, b: Seq<(VModel, VModel)>, i: Seq<(VModel, VModel)>) -> Findings {
    join4(
        digests_findings(path, at_key(b, 2), at_key(i, 2)),
        svn_findings(path, at_key(b, 1), at_key(i, 1)),
        raw_findings(path, at_key(b, 4), at_key(i, 4)),
        flags_findings(path, at_key(b, 3), at_key(i, 3)),
    )
}

/// Version, serial number, name and ueid.
pub open spec fn mval_ids(path: Seq<SegModel>, b: Seq<(VModel, VModel)>, i: Seq<(VModel, VModel)>) -> Findings {
    join4(
        scalar_findings(path, "version"@, at_key(b, 0), at_key(i, 0)),
        scalar_findings(path, "serial-number"@, at_key(b, 8), at_key(i, 8)),
        scalar_findings(path, "name"@, at_key(b, 11), at_key(i, 11)),
        scalar_findings(path, "ueid"@, at_key(b, 9), at_key(i, 9)),
    )
}

/// Uuid, mac-addr, ip-addr and cryptokeys.
pub open spec fn mval_net(path: Seq<SegModel>, b: Seq<(VModel, VModel)>, i: Seq<(VModel, VModel)>) -> Findings {
    join4(
        scalar_findings(path, "uuid"@, at_key(b, 10), at_key(i, 10)),
        scalar_findings(path, "mac-addr"@, at_key(b, 6), at_key(i, 6)),
        scalar_findings(path, "ip-addr"@, at_key(b, 7), at_key(i, 7)),
        scalar_findings(path, "cryptokeys"@, at_key(b, 13), at_key(i, 13)),
    )
}

/// Integrity registers, int-range, then the profile extensions.
pub open spec fn mval_tail(path: Seq<SegModel>, b: Seq<(VModel, VModel)>, i: Seq<(VModel, VModel)>) -> Findings {
    join(
        join(
            scalar_findings(path, "integrity-registers"@, at_key(b, 14), at_key(i, 14)),
            scalar_findings(path, "int-range"@, at_key(b, 15), at_key(i, 15)),
        ),
        ext_findings(path, extras_of(b), extras_of(i)),
    )
}

/// A measurement-values comparison: digests, svn, raw-value, flags, the other attributes,
/// then the profile extensions.
pub open spec fn mval_findings(path: Seq<SegModel>, b: Seq<(VModel, VModel)>, i: Seq<(VModel, VModel)>) -> Findings {
    join4(mval_head(path, b, i), mval_ids(path, b, i), mval_net(path, b, i), mval_tail(path, b, i))
}

fn compare_mval_head(path: &Vec<PathSegment>, b: &Vec<(Value, Value)>, i: &Vec<(Value, Value)>, r: &mut ConformanceReport)
    ensures
        final(r)@ == join(old(r)@, mval_head(path_model(path@), model_pairs(b@), model_pairs(i@))),
{
    let ghost start = r@;
    compare_digests(path, map_lookup(b, 2), map_lookup(i, 2), r);
    compare_svn(path, map_lookup(b, 1), map_lookup(i, 1), r);
    compare_raw(path, map_lookup(b, 4), map_lookup(i, 4), r);
    compare_flags(path, map_lookup(b, 3), map_lookup(i, 3), r);
    proof {
        let pm = path_model(path@);
        let bm = model_pairs(b@);
        let im = model_pairs(i@);
        lemma_join4(start, digests_findings(pm, at_key(bm, 2), at_key(im, 2)), svn_findings(pm, at_key(bm, 1), at_key(im, 1)),
            raw_findings(pm, at_key(bm, 4), at_key(im, 4)), flags_findings(pm, at_key(bm, 3), at_key(im, 3)));
    }
}

fn compare_mval_ids(path: &Vec<PathSegment>, b: &Vec<(Value, Value)>, i: &Vec<(Value, Value)>, r: &mut ConformanceReport)
    ensures
        final(r)@ == join(old(r)@, mval_ids(path_model(path@), model_pairs(b@), model_pairs(i@))),
{
    let ghost start = r@;
    scalar(path, "version", map_lookup(b, 0), map_lookup(i, 0), r);
    scalar(path, "serial-number", map_lookup(b, 8), map_lookup(i, 8), r);
    scalar(path, "name", map_lookup(b, 11), map_lookup(i, 11), r);
    scalar(path, "ueid", map_lookup(b, 9), map_lookup(i, 9), r);
    proof {
        let pm = path_model(path@);
        let bm = model_pairs(b@);
        let im = model_pairs(i@);
        lemma_join4(start, scalar_findings(pm, "version"@, at_key(bm, 0), at_key(im, 0)),
            scalar_findings(pm, "serial-number"@, at_key(bm, 8), at_key(im, 8)),
            scalar_findings(pm, "name"@, at_key(bm, 11), at_key(im, 11)),
            scalar_findings(pm, "ueid"@, at_key(bm, 9), at_key(im, 9)));
    }
}

fn compare_mval_net(path: &Vec<PathSegment>, b: &Vec<(Value, Value)>, i: &Vec<(Value, Value)>, r: &mut ConformanceReport)
    ensures
        final(r)@ == join(old(r)@, mval_net(path_model(path@), model_pairs(b@), model_pairs(i@))),
{
    let ghost start = r@;
    scalar(path, "uuid", map_lookup(b, 10), map_lookup(i, 10), r);
    scalar(path, "mac-addr", map_lookup(b, 6), map_lookup(i, 6), r);
    scalar(path, "ip-addr", map_lookup(b, 7), map_lookup(i, 7), r);
    scalar(path, "cryptokeys", map_lookup(b, 13), map_lookup(i, 13), r);
    proof {
        let pm = path_model(path@);
        let bm = model_pairs(b@);
        let im = model_pairs(i@);
        lemma_join4(start, scalar_findings(pm, "uuid"@, at_key(bm, 10), at_key(im, 10)),
            scalar_findings(pm, "mac-addr"@, at_key(bm, 6), at_key(im, 6)),
            scalar_findings(pm, "ip-addr"@, at_key(bm, 7), at_key(im, 7)),
            scalar_findings(pm, "cryptokeys"@, at_key(bm, 13), at_key(im, 13)));
    }
}

fn compare_mval_tail(path: &Vec<PathSegment>, b: &Vec<(Value, Value)>, i: &Vec<(Value, Value)>, r: &mut ConformanceReport)
    ensures
        final(r)@ == join(old(r)@, mval_tail(path_model(path@), model_pairs(b@), model_pairs(i@))),
{
    let ghost start = r@;
    scalar(path, "integrity-registers", map_lookup(b, 14), map_lookup(i, 14), r);
    scalar(path, "int-range", map_lookup(b, 15), map_lookup(i, 15), r);
    let be = extras_map(b);
    let ie = extras_map(i);
    compare_extensions(path, &be, &ie, r);
    proof {
        let pm = path_model(path@);
        let bm = model_pairs(b@);
        let im = model_pairs(i@);
        let x = scalar_findings(pm, "integrity-registers"@, at_key(bm, 14), at_key(im, 14));
        let y = scalar_findings(pm, "int-range"@, at_key(bm, 15), at_key(im, 15));
        let z = ext_findings(pm, extras_of(bm), extras_of(im));
        assert(join(join(join(start, x), y), z).mismatches =~= join(start, join(join(x, y), z)).mismatches);
        assert(join(join(join(start, x), y), z).diffs =~= join(start, join(join(x, y), z)).diffs);
    }
}

fn compare_mval(path: &Vec<PathSegment>, b: &Vec<(Value, Value)>, i: &Vec<(Value, Value)>, r: &mut ConformanceReport)
    ensures
        final(r)@ == join(old(r)@, mval_findings(path_model(path@), model_pairs(b@), model_pairs(i@))),
{
    let ghost start = r@;
    compare_mval_head(path, b, i, r);
    compare_mval_ids(path, b, i, r);
    compare_mval_net(path, b, i, r);
    compare_mval_tail(path, b, i, r);
    proof {
        let pm = path_model(path@);
        let bm = model_pairs(b@);
        let im = model_pairs(i@);
        lemma_join4(start, mval_head(pm, bm, im), mval_ids(pm, bm, im), mval_net(pm, bm, im), mval_tail(pm, bm, im));
    }
}

// ---------------------------------------------------------------------------
// Measurements.
// ---------------------------------------------------------------------------

/// The entries of a measurement map.
pub open spec fn meas_entries(m: VModel) -> Seq<(VModel, VModel)> {
    entries(m)
}

/// The measured-element key of a measurement.
pub open spec fn mkey(m: VModel) -> Option<VModel> {
    at_key(meas_entries(m), 0)
}

/// The authorising keys of a measurement.
pub open spec fn authority(m: VModel) -> Option<VModel> {
    at_key(meas_entries(m), 2)
}

/// The measurement values of a measurement.
pub open spec fn mval(m: VModel) -> Seq<(VModel, VModel)> {
    match at_key(meas_entries(m), 1) {
        Some(v) => entries(v),
        None => Seq::empty(),
    }
}

/// The name of a measurement in a path: its text, integer or bytes (in hex) key, or
/// `#<position>`.
pub open spec fn mkey_text(m: VModel, idx: int) -> Seq<char> {
    match mkey(m) {
        Some(VModel::Text(t)) => t,
        Some(VModel::Int(n)) => dec_int(n),
        Some(VModel::Bytes(b)) => hex_text(b),
        _ => "#"@ + dec_int(idx),
    }
}

/// The first measurement with the given key.
pub open spec fn mkey_is(k: VModel) -> spec_fn(int, VModel) -> Option<int> {
    |j: int, x: VModel| if (mkey(x) matches Some(y) && value_eq(y, k)) {
        Some(j)
    } else {
        None
    }
}

/// The input measurement a baseline one is paired with: by key when it has one, else the
/// unkeyed input measurement at the same position.
pub open spec fn meas_match(i: Seq<VModel>, b: VModel, idx: int) -> Option<VModel> {
    match mkey(b) {
        Some(k) => match first_fail(i, mkey_is(k)) {
            Some(j) => Some(i[j]),
            None => None,
        },
        None => if 0 <= idx < i.len() && mkey(i[idx]) is None {
            Some(i[idx])
        } else {
            None
        },
    }
}

/// The authorising keys differ (a structural mismatch under `authorized-by`).
pub open spec fn authority_mismatch(path: Seq<SegModel>) -> Findings {
    one_mismatch(
        path.push(SegModel::Field("authorized-by"@)),
        KindModel::TypeMismatch { baseline: "authority"@, input: "authority"@ },
        "authorized-by keys differ (binary comparison, §8.2.4.4.2)"@,
    )
}

/// A baseline measurement: it must have its pair in the input; then the authority and
/// the values are compared.
pub open spec fn meas_left(path: Seq<SegModel>, i: Seq<VModel>) -> spec_fn(int, VModel) -> Findings {
    |idx: int, b: VModel| {
        let p = path.push(SegModel::Measurement(mkey_text(b, idx)));
        match meas_match(i, b, idx) {
            Some(x) => join(
                if opt_eq(authority(b), authority(x)) {
                    no_findings()
                } else {
                    authority_mismatch(p)
                },
                mval_findings(p, mval(b), mval(x)),
            ),
            None => one_mismatch(p, KindModel::MissingInInput, "measurement present in baseline but not in input"@),
        }
    }
}

/// An input measurement is paired when the baseline has one with its key (or, unkeyed,
/// an unkeyed one at its position).
pub open spec fn meas_present(b: Seq<VModel>, x: VModel, idx: int) -> bool {
    match mkey(x) {
        Some(k) => first_fail(b, mkey_is(k)) is Some,
        None => 0 <= idx < b.len() && mkey(b[idx]) is None,
    }
}

/// An input measurement without its pair in the baseline.
pub open spec fn meas_right(path: Seq<SegModel>, b: Seq<VModel>) -> spec_fn(int, VModel) -> Findings {
    |idx: int, x: VModel| if meas_present(b, x, idx) {
        no_findings()
    } else {
        one_mismatch(
            path.push(SegModel::Measurement(mkey_text(x, idx))),
            KindModel::UnexpectedInInput,
            "measurement present in input but not in baseline"@,
        )
    }
}

/// Two measurement lists: paired by key (unkeyed by position), each pair compared.
pub open spec fn meas_findings(path: Seq<SegModel>, b: Seq<VModel>, i: Seq<VModel>) -> Findings {
    join(join_each(b, meas_left(path, i)), join_each(i, meas_right(path, b)))
}

fn meas_parts<'a>(m: &'a Value, e: &'a Vec<(Value, Value)>) -> (r: (Option<&'a Value>, Option<&'a Value>, &'a Vec<(Value, Value)>))
    requires
        model_pairs(e@) == Seq::<(VModel, VModel)>::empty(),
    ensures
        opt_model(r.0) == mkey(m@),
        opt_model(r.1) == authority(m@),
        model_pairs(r.2@) == mval(m@),
{
    let ms = entries_of(m, e);
    let key = map_lookup(ms, 0);
    let auth = map_lookup(ms, 2);
    let vals = match map_lookup(ms, 1) {
        Some(v) => entries_of(v, e),
        None => e,
    };
    (key, auth, vals)
}

fn mkey_string(m: &Value, idx: usize) -> (s: String)
    ensures
        s@ == mkey_text(m@, idx as int),
{
    let e = empty_entries();
    let ms = entries_of(m, &e);
    match map_lookup(ms, 0) {
        Some(Value::Text(t)) => t.clone(),
        Some(Value::Integer(n)) => {
            let mut s = String::new();
            push_i128(&mut s, *n);
            assert(s@ =~= dec_int(*n as int));
            s
        },
        Some(Value::Bytes(b)) => hex(b.as_slice()),
        _ => {
            let mut s = String::from_str("#");
            push_usize(&mut s, idx);
            s
        },
    }
}

/// The first measurement with the given key.
fn find_mkey(list: &Vec<Value>, k: &Value) -> (r: Option<usize>)
    ensures
        r matches Some(j) ==> j < list@.len() && first_fail(model_list(list@), mkey_is(k@)) == Some(j as int),
        r is None ==> first_fail(model_list(list@), mkey_is(k@)) is None,
{
    let ghost ms = model_list(list@);
    proof {
        lemma_model_list(list@);
    }
    let e = empty_entries();
    let mut j: usize = 0;
    while j < list.len()
        invariant
            j <= list@.len(),
            ms == model_list(list@),
            ms.len() == list@.len(),
            forall|q: int| 0 <= q < list@.len() ==> #[trigger] ms[q] == list@[q]@,
            model_pairs(e@) == Seq::<(VModel, VModel)>::empty(),
            first_fail(ms.take(j as int), mkey_is(k@)) is None,
        decreases list@.len() - j,
    {
        proof {
            lemma_first_fail_step(ms, mkey_is(k@), j as int);
        }
        let (key, _, _) = meas_parts(&list[j], &e);
        let hit = match key {
            Some(y) => values_equal(y, k),
            None => false,
        };
        if hit {
            proof {
                lemma_first_fail_prefix(ms, mkey_is(k@), j + 1);
            }
            return Some(j);
        }
        j += 1;
    }
    proof {
        lemma_first_fail_all(ms, mkey_is(k@));
    }
    None
}

/// The input measurement a baseline one is paired with.
fn match_meas<'a>(i: &'a Vec<Value>, b: &Value, idx: usize) -> (r: Option<&'a Value>)
    ensures
        opt_model(r) == meas_match(model_list(i@), b@, idx as int),
{
    proof {
        lemma_model_list(i@);
    }
    let e = empty_entries();
    let (key, _, _) = meas_parts(b, &e);
    match key {
        Some(k) => match find_mkey(i, k) {
            Some(j) => Some(&i[j]),
            None => None,
        },
        None => {
            if idx < i.len() {
                let (ik, _, _) = meas_parts(&i[idx], &e);
                if ik.is_none() {
                    Some(&i[idx])
                } else {
                    None
                }
            } else {
                None
            }
        },
    }
}

fn meas_is_present(b: &Vec<Value>, x: &Value, idx: usize) -> (r: bool)
    ensures
        r == meas_present(model_list(b@), x@, idx as int),
{
    proof {
        lemma_model_list(b@);
    }
    let e = empty_entries();
    let (key, _, _) = meas_parts(x, &e);
    match key {
        Some(k) => find_mkey(b, k).is_some(),
        None => {
            if idx < b.len() {
                let (bk, _, _) = meas_parts(&b[idx], &e);
                bk.is_none()
            } else {
                false
            }
        },
    }
}

fn push_authority_mismatch(path: &Vec<PathSegment>, r: &mut ConformanceReport)
    ensures
        final(r)@ == join(old(r)@, authority_mismatch(path_model(path@))),
{
    let kind = MismatchKind::TypeMismatch { baseline: String::from_str("authority"), input: String::from_str("authority") };
    super::push_mismatch(
        r,
        super::path_with(path, PathSegment::Field("authorized-by")),
        kind,
        String::from_str("authorized-by keys differ (binary comparison, §8.2.4.4.2)"),
    );
}

#[verifier::loop_isolation(false)]
fn compare_measurements(path: &Vec<PathSegment>, b: &Vec<Value>, i: &Vec<Value>, r: &mut ConformanceReport)
    ensures
        final(r)@ == join(old(r)@, meas_findings(path_model(path@), model_list(b@), model_list(i@))),
{
    let ghost pm = path_model(path@);
    let ghost bs = model_list(b@);
    let ghost is = model_list(i@);
    proof {
        lemma_model_list(b@);
        lemma_model_list(i@);
    }
    let e = empty_entries();
    let ghost start = r@;
    proof {
        super::lemma_join_none(start);
        assert(bs.take(0) =~= Seq::<VModel>::empty());
    }
    let mut idx: usize = 0;
    while idx < b.len()
        invariant
            idx <= b@.len(),
            r@ == join(start, join_each(bs.take(idx as int), meas_left(pm, is))),
        decreases b@.len() - idx,
    {
        let ghost before = r@;
        let bm = &b[idx];
        assert(bs[idx as int] == bm@);
        let key = mkey_string(bm, idx);
        let p = super::path_with(path, PathSegment::Measurement(key));
        match match_meas(i, bm, idx) {
            Some(x) => {
                let (_, ba, bv) = meas_parts(bm, &e);
                let (_, ia, iv) = meas_parts(x, &e);
                if !opt_equal(ba, ia) {
                    push_authority_mismatch(&p, r);
                } else {
                    proof {
                        super::lemma_join_none(before);
                    }
                }
                let ghost mid = r@;
                compare_mval(&p, bv, iv, r);
                proof {
                    lemma_join3(
                        before,
                        if opt_eq(authority(bm@), authority(x@)) {
                            no_findings()
                        } else {
                            authority_mismatch(path_model(p@))
                        },
                        mval_findings(path_model(p@), mval(bm@), mval(x@)),
                    );
                }
            },
            None => {
                super::push_mismatch(
                    r,
                    p,
                    MismatchKind::MissingInInput,
                    String::from_str("measurement present in baseline but not in input"),
                );
            },
        }
        proof {
            lemma_join_each_step(start, bs, meas_left(pm, is), idx as int);
        }
        idx += 1;
    }
    proof {
        lemma_join_each_all(bs, meas_left(pm, is));
    }
    let ghost mid = r@;
    proof {
        super::lemma_join_none(mid);
        assert(is.take(0) =~= Seq::<VModel>::empty());
    }
    let mut idx: usize = 0;
    while idx < i.len()
        invariant
            idx <= i@.len(),
            r@ == join(mid, join_each(is.take(idx as int), meas_right(pm, bs))),
        decreases i@.len() - idx,
    {
        let ghost before = r@;
        let x = &i[idx];
        assert(is[idx as int] == x@);
        if !meas_is_present(b, x, idx) {
            let key = mkey_string(x, idx);
            super::push_mismatch(
                r,
                super::path_with(path, PathSegment::Measurement(key)),
                MismatchKind::UnexpectedInInput,
                String::from_str("measurement present in input but not in baseline"),
            );
        } else {
            proof {
                super::lemma_join_none(before);
            }
        }
        proof {
            lemma_join_each_step(mid, is, meas_right(pm, bs), idx as int);
        }
        idx += 1;
    }
    proof {
        lemma_join_each_all(is, meas_right(pm, bs));
        lemma_join3(old(r)@, join_each(bs, meas_left(pm, is)), join_each(is, meas_right(pm, bs)));
    }
}

/// A measurement list under a named field.
fn meas_list(path: &Vec<PathSegment>, field: &'static str, b: &Vec<Value>, i: &Vec<Value>, r: &mut ConformanceReport)
    ensures
        final(r)@ == join(
            old(r)@,
            meas_findings(path_model(path@).push(SegModel::Field(field@)), model_list(b@), model_list(i@)),
        ),
{
    let p = super::path_with(path, PathSegment::Field(field));
    compare_measurements(&p, b, i, r);
}

// ---------------------------------------------------------------------------
// Environment-keyed groups: `[environment, [* measurement]]` records.
// ---------------------------------------------------------------------------

/// The environment of a record.
pub open spec fn rec_env(x: VModel) -> VModel {
    item_at(x, 0)
}

/// The measurements of a record.
pub open spec fn rec_meas(x: VModel) -> Seq<VModel> {
    arr_at(x, 1)
}

/// The first record with the given environment.
pub open spec fn env_is(e: VModel) -> spec_fn(int, VModel) -> Option<int> {
    |j: int, x: VModel| if value_eq(rec_env(x), e) {
        Some(j)
    } else {
        None
    }
}

/// Where a group's findings stand: at the triple of that kind and position, or under the
/// named field.
pub open spec fn group_seg(kind: Seq<char>, indexed: bool, idx: int) -> SegModel {
    if indexed {
        SegModel::Triple { kind: kind, index: idx as nat }
    } else {
        SegModel::Field(kind)
    }
}

pub open spec fn group_missing(kind: Seq<char>, indexed: bool) -> Seq<char> {
    if indexed {
        kind + " triple environment present in baseline but not in input"@
    } else {
        kind + " environment present in baseline but not in input"@
    }
}

pub open spec fn group_unexpected(kind: Seq<char>, indexed: bool) -> Seq<char> {
    if indexed {
        kind + " triple environment present in input but not in baseline"@
    } else {
        kind + " environment present in input but not in baseline"@
    }
}

/// A baseline record: the first input record with an equal environment is its pair, and
/// their measurements are compared.
pub open spec fn group_left(path: Seq<SegModel>, kind: Seq<char>, indexed: bool, i: Seq<VModel>) -> spec_fn(int, VModel) -> Findings {
    |idx: int, x: VModel| {
        let p = path.push(group_seg(kind, indexed, idx));
        match first_fail(i, env_is(rec_env(x))) {
            Some(j) => meas_findings(p, rec_meas(x), rec_meas(i[j])),
            None => one_mismatch(p, KindModel::MissingInInput, group_missing(kind, indexed)),
        }
    }
}

/// An input record whose environment the baseline lacks.
pub open spec fn group_right(path: Seq<SegModel>, kind: Seq<char>, indexed: bool, b: Seq<VModel>) -> spec_fn(int, VModel) -> Findings {
    |idx: int, x: VModel| if first_fail(b, env_is(rec_env(x))) is Some {
        no_findings()
    } else {
        one_mismatch(path.push(group_seg(kind, indexed, idx)), KindModel::UnexpectedInInput, group_unexpected(kind, indexed))
    }
}

/// Two lists of records, paired by environment.
pub open spec fn groups_findings(path: Seq<SegModel>, kind: Seq<char>, indexed: bool, b: Seq<VModel>, i: Seq<VModel>) -> Findings {
    join(join_each(b, group_left(path, kind, indexed, i)), join_each(i, group_right(path, kind, indexed, b)))
}

fn env_of(x: &Value) -> (r: Value)
    ensures
        r@ == rec_env(x@),
{
    null_or(item_of(x, 0))
}

fn meas_of<'a>(x: &'a Value, e: &'a Vec<Value>) -> (r: &'a Vec<Value>)
    requires
        model_list(e@) == Seq::<VModel>::empty(),
    ensures
        model_list(r@) == rec_meas(x@),
{
    match item_of(x, 1) {
        Some(v) => arr_of(v, e),
        None => e,
    }
}

/// The first record with the given environment.
fn find_env(list: &Vec<Value>, e: &Value) -> (r: Option<usize>)
    ensures
        r matches Some(j) ==> j < list@.len() && first_fail(model_list(list@), env_is(e@)) == Some(j as int),
        r is None ==> first_fail(model_list(list@), env_is(e@)) is None,
{
    let ghost ms = model_list(list@);
    proof {
        lemma_model_list(list@);
    }
    let mut j: usize = 0;
    while j < list.len()
        invariant
            j <= list@.len(),
            ms == model_list(list@),
            ms.len() == list@.len(),
            forall|q: int| 0 <= q < list@.len() ==> #[trigger] ms[q] == list@[q]@,
            first_fail(ms.take(j as int), env_is(e@)) is None,
        decreases list@.len() - j,
    {
        proof {
            lemma_first_fail_step(ms, env_is(e@), j as int);
        }
        let x = env_of(&list[j]);
        if values_equal(&x, e) {
            proof {
                lemma_first_fail_prefix(ms, env_is(e@), j + 1);
            }
            return Some(j);
        }
        j += 1;
    }
    proof {
        lemma_first_fail_all(ms, env_is(e@));
    }
    None
}

fn group_segment(kind: &'static str, indexed: bool, idx: usize) -> (s: PathSegment)
    ensures
        s@ == group_seg(kind@, indexed, idx as int),
{
    if indexed {
        PathSegment::Triple { kind, index: idx }
    } else {
        PathSegment::Field(kind)
    }
}

fn group_detail(kind: &'static str, indexed: bool, missing: bool) -> (s: String)
    ensures
        missing ==> s@ == group_missing(kind@, indexed),
        !missing ==> s@ == group_unexpected(kind@, indexed),
{
    let mut s = String::from_str(kind);
    if indexed {
        push_str(&mut s, " triple");
    }
    if missing {
        push_str(&mut s, " environment present in baseline but not in input");
    } else {
        push_str(&mut s, " environment present in input but not in baseline");
    }
    proof {
        reveal_strlit(" triple");
        reveal_strlit(" environment present in baseline but not in input");
        reveal_strlit(" environment present in input but not in baseline");
        reveal_strlit(" triple environment present in baseline but not in input");
        reveal_strlit(" triple environment present in input but not in baseline");
        assert(missing && indexed ==> s@ =~= group_missing(kind@, indexed));
        assert(!missing && indexed ==> s@ =~= group_unexpected(kind@, indexed));
    }
    s
}

#[verifier::loop_isolation(false)]
fn compare_groups(path: &Vec<PathSegment>, kind: &'static str, indexed: bool, b: &Vec<Value>, i: &Vec<Value>, r: &mut ConformanceReport)
    ensures
        final(r)@ == join(old(r)@, groups_findings(path_model(path@), kind@, indexed, model_list(b@), model_list(i@))),
{
    let ghost pm = path_model(path@);
    let ghost bs = model_list(b@);
    let ghost is = model_list(i@);
    proof {
        lemma_model_list(b@);
        lemma_model_list(i@);
    }
    let e = empty_list();
    let ghost start = r@;
    proof {
        super::lemma_join_none(start);
        assert(bs.take(0) =~= Seq::<VModel>::empty());
    }
    let mut idx: usize = 0;
    while idx < b.len()
        invariant
            idx <= b@.len(),
            r@ == join(start, join_each(bs.take(idx as int), group_left(pm, kind@, indexed, is))),
        decreases b@.len() - idx,
    {
        let x = &b[idx];
        assert(bs[idx as int] == x@);
        let p = super::path_with(path, group_segment(kind, indexed, idx));
        let env = env_of(x);
        match find_env(i, &env) {
            Some(j) => {
                compare_measurements(&p, meas_of(x, &e), meas_of(&i[j], &e), r);
            },
            None => {
                super::push_mismatch(r, p, MismatchKind::MissingInInput, group_detail(kind, indexed, true));
            },
        }
        proof {
            lemma_join_each_step(start, bs, group_left(pm, kind@, indexed, is), idx as int);
        }
        idx += 1;
    }
    proof {
        lemma_join_each_all(bs, group_left(pm, kind@, indexed, is));
    }
    let ghost mid = r@;
    proof {
        super::lemma_join_none(mid);
        assert(is.take(0) =~= Seq::<VModel>::empty());
    }
    let mut idx: usize = 0;
    while idx < i.len()
        invariant
            idx <= i@.len(),
            r@ == join(mid, join_each(is.take(idx as int), group_right(pm, kind@, indexed, bs))),
        decreases i@.len() - idx,
    {
        let ghost before = r@;
        let x = &i[idx];
        assert(is[idx as int] == x@);
        let env = env_of(x);
        if find_env(b, &env).is_none() {
            super::push_mismatch(
                r,
                super::path_with(path, group_segment(kind, indexed, idx)),
                MismatchKind::UnexpectedInInput,
                group_detail(kind, indexed, false),
            );
        } else {
            proof {
                super::lemma_join_none(before);
            }
        }
        proof {
            lemma_join_each_step(mid, is, group_right(pm, kind@, indexed, bs), idx as int);
        }
        idx += 1;
    }
    proof {
        lemma_join_each_all(is, group_right(pm, kind@, indexed, bs));
        lemma_join3(old(r)@, join_each(bs, group_left(pm, kind@, indexed, is)), join_each(is, group_right(pm, kind@, indexed, bs)));
    }
}

// ---------------------------------------------------------------------------
// Conditional-endorsement-series triples: `[[environment, claims, ? authority], series]`.
// ---------------------------------------------------------------------------

/// The common condition of a series triple.
pub open spec fn ces_cond(t: VModel) -> VModel {
    item_at(t, 0)
}

pub open spec fn ces_env(t: VModel) -> VModel {
    item_at(ces_cond(t), 0)
}

pub open spec fn ces_claims(t: VModel) -> Seq<VModel> {
    arr_at(ces_cond(t), 1)
}

/// The authorising keys of the condition, where it names them.
pub open spec fn ces_auth(t: VModel) -> Option<VModel> {
    if arr(ces_cond(t)).len() > 2 {
        Some(arr(ces_cond(t))[2])
    } else {
        None
    }
}

pub open spec fn ces_series(t: VModel) -> Seq<VModel> {
    arr_at(t, 1)
}

/// The first series triple with the given condition environment.
pub open spec fn ces_env_is(e: VModel) -> spec_fn(int, VModel) -> Option<int> {
    |j: int, x: VModel| if value_eq(ces_env(x), e) {
        Some(j)
    } else {
        None
    }
}

pub open spec fn series_path(path: Seq<SegModel>) -> Seq<SegModel> {
    path.push(SegModel::Field("series"@))
}

/// A baseline series record against the input's record at the same position.
pub open spec fn series_left(path: Seq<SegModel>, i: Seq<VModel>) -> spec_fn(int, VModel) -> Findings {
    |idx: int, x: VModel| {
        let q = series_path(path).push(SegModel::Index(idx as nat));
        if idx < i.len() {
            join(
                meas_findings(q.push(SegModel::Field("condition"@)), arr_at(x, 0), arr_at(i[idx], 0)),
                meas_findings(q.push(SegModel::Field("addition"@)), arr_at(x, 1), arr_at(i[idx], 1)),
            )
        } else {
            one_mismatch(q, KindModel::MissingInInput, "CES series record present in baseline but not in input"@)
        }
    }
}

/// Series records by position: a differing length is structural.
pub open spec fn series_findings(path: Seq<SegModel>, b: Seq<VModel>, i: Seq<VModel>) -> Findings {
    join(
        if b.len() == i.len() {
            no_findings()
        } else {
            one_mismatch(
                series_path(path),
                KindModel::TypeMismatch { baseline: dec_int(b.len() as int), input: dec_int(i.len() as int) },
                "CES series length differs"@,
            )
        },
        join_each(b, series_left(path, i)),
    )
}

/// A baseline series triple: paired by condition environment, then the claims, the
/// authority and the series are compared.
pub open spec fn ces_left(path: Seq<SegModel>, i: Seq<VModel>) -> spec_fn(int, VModel) -> Findings {
    |idx: int, x: VModel| {
        let p = path.push(SegModel::Triple { kind: "conditional-endorsement-series"@, index: idx as nat });
        match first_fail(i, ces_env_is(ces_env(x))) {
            Some(j) => join(
                join(
                    meas_findings(p.push(SegModel::Field("claims-list"@)), ces_claims(x), ces_claims(i[j])),
                    if opt_eq(ces_auth(x), ces_auth(i[j])) {
                        no_findings()
                    } else {
                        authority_mismatch(p)
                    },
                ),
                series_findings(p, ces_series(x), ces_series(i[j])),
            ),
            None => one_mismatch(
                p,
                KindModel::MissingInInput,
                "CES triple common-condition environment present in baseline but not in input"@,
            ),
        }
    }
}

pub open spec fn ces_right(path: Seq<SegModel>, b: Seq<VModel>) -> spec_fn(int, VModel) -> Findings {
    |idx: int, x: VModel| if first_fail(b, ces_env_is(ces_env(x))) is Some {
        no_findings()
    } else {
        one_mismatch(
            path.push(SegModel::Triple { kind: "conditional-endorsement-series"@, index: idx as nat }),
            KindModel::UnexpectedInInput,
            "CES triple present in input but not in baseline"@,
        )
    }
}

pub open spec fn ces_findings(path: Seq<SegModel>, b: Seq<VModel>, i: Seq<VModel>) -> Findings {
    join(join_each(b, ces_left(path, i)), join_each(i, ces_right(path, b)))
}

fn ces_env_of(x: &Value) -> (r: Value)
    ensures
        r@ == ces_env(x@),
{
    match item_of(x, 0) {
        Some(c) => null_or(item_of(c, 0)),
        None => Value::Null,
    }
}

fn ces_claims_of<'a>(x: &'a Value, e: &'a Vec<Value>) -> (r: &'a Vec<Value>)
    requires
        model_list(e@) == Seq::<VModel>::empty(),
    ensures
        model_list(r@) == ces_claims(x@),
{
    match item_of(x, 0) {
        Some(c) => match item_of(c, 1) {
            Some(v) => arr_of(v, e),
            None => e,
        },
        None => e,
    }
}

fn ces_auth_of(x: &Value) -> (r: Option<&Value>)
    ensures
        opt_model(r) == ces_auth(x@),
{
    match item_of(x, 0) {
        Some(Value::Array(a)) => {
            proof {
                lemma_model_list(a@);
            }
            if a.len() > 2 {
                Some(&a[2])
            } else {
                None
            }
        },
        _ => None,
    }
}

fn list_at<'a>(x: &'a Value, k: usize, e: &'a Vec<Value>) -> (r: &'a Vec<Value>)
    requires
        model_list(e@) == Seq::<VModel>::empty(),
    ensures
        model_list(r@) == arr_at(x@, k as int),
{
    match item_of(x, k) {
        Some(v) => arr_of(v, e),
        None => e,
    }
}

fn find_ces(list: &Vec<Value>, e: &Value) -> (r: Option<usize>)
    ensures
        r matches Some(j) ==> j < list@.len() && first_fail(model_list(list@), ces_env_is(e@)) == Some(j as int),
        r is None ==> first_fail(model_list(list@), ces_env_is(e@)) is None,
{
    let ghost ms = model_list(list@);
    proof {
        lemma_model_list(list@);
    }
    let mut j: usize = 0;
    while j < list.len()
        invariant
            j <= list@.len(),
            ms == model_list(list@),
            ms.len() == list@.len(),
            forall|q: int| 0 <= q < list@.len() ==> #[trigger] ms[q] == list@[q]@,
            first_fail(ms.take(j as int), ces_env_is(e@)) is None,
        decreases list@.len() - j,
    {
        proof {
            lemma_first_fail_step(ms, ces_env_is(e@), j as int);
        }
        let x = ces_env_of(&list[j]);
        if values_equal(&x, e) {
            proof {
                lemma_first_fail_prefix(ms, ces_env_is(e@), j + 1);
            }
            return Some(j);
        }
        j += 1;
    }
    proof {
        lemma_first_fail_all(ms, ces_env_is(e@));
    }
    None
}

fn usize_text(n: usize) -> (s: String)
    ensures
        s@ == dec_int(n as int),
{
    let mut s = String::new();
    push_usize(&mut s, n);
    assert(s@ =~= dec_int(n as int));
    s
}

#[verifier::loop_isolation(false)]
fn compare_series(path: &Vec<PathSegment>, b: &Vec<Value>, i: &Vec<Value>, r: &mut ConformanceReport)
    ensures
        final(r)@ == join(old(r)@, series_findings(path_model(path@), model_list(b@), model_list(i@))),
{
    let ghost pm = path_model(path@);
    let ghost bs = model_list(b@);
    let ghost is = model_list(i@);
    proof {
        lemma_model_list(b@);
        lemma_model_list(i@);
    }
    let e = empty_list();
    let sp = super::path_with(path, PathSegment::Field("series"));
    if b.len() != i.len() {
        let kind = MismatchKind::TypeMismatch { baseline: usize_text(b.len()), input: usize_text(i.len()) };
        super::push_mismatch(r, super::path_with(path, PathSegment::Field("series")), kind, String::from_str("CES series length differs"));
    } else {
        proof {
            super::lemma_join_none(old(r)@);
        }
    }
    let ghost start = r@;
    proof {
        super::lemma_join_none(start);
        assert(bs.take(0) =~= Seq::<VModel>::empty());
    }
    let mut idx: usize = 0;
    while idx < b.len()
        invariant
            idx <= b@.len(),
            r@ == join(start, join_each(bs.take(idx as int), series_left(pm, is))),
            path_model(sp@) == series_path(pm),
        decreases b@.len() - idx,
    {
        let ghost before = r@;
        let x = &b[idx];
        assert(bs[idx as int] == x@);
        let q = super::path_with(&sp, PathSegment::Index(idx));
        if idx < i.len() {
            meas_list(&q, "condition", list_at(x, 0, &e), list_at(&i[idx], 0, &e), r);
            meas_list(&q, "addition", list_at(x, 1, &e), list_at(&i[idx], 1, &e), r);
            proof {
                let qm = path_model(q@);
                super::lemma_join_assoc(
                    before,
                    meas_findings(qm.push(SegModel::Field("condition"@)), arr_at(x@, 0), arr_at(is[idx as int], 0)),
                    meas_findings(qm.push(SegModel::Field("addition"@)), arr_at(x@, 1), arr_at(is[idx as int], 1)),
                );
            }
        } else {
            super::push_mismatch(
                r,
                q,
                MismatchKind::MissingInInput,
                String::from_str("CES series record present in baseline but not in input"),
            );
        }
        proof {
            lemma_join_each_step(start, bs, series_left(pm, is), idx as int);
        }
        idx += 1;
    }
    proof {
        lemma_join_each_all(bs, series_left(pm, is));
        super::lemma_join_assoc(
            old(r)@,
            if bs.len() == is.len() {
                no_findings()
            } else {
                one_mismatch(
                    series_path(pm),
                    KindModel::TypeMismatch { baseline: dec_int(bs.len() as int), input: dec_int(is.len() as int) },
                    "CES series length differs"@,
                )
            },
            join_each(bs, series_left(pm, is)),
        );
    }
}

#[verifier::loop_isolation(false)]
fn compare_ces(path: &Vec<PathSegment>, b: &Vec<Value>, i: &Vec<Value>, r: &mut ConformanceReport)
    ensures
        final(r)@ == join(old(r)@, ces_findings(path_model(path@), model_list(b@), model_list(i@))),
{
    let ghost pm = path_model(path@);
    let ghost bs = model_list(b@);
    let ghost is = model_list(i@);
    proof {
        lemma_model_list(b@);
        lemma_model_list(i@);
    }
    let e = empty_list();
    let ghost start = r@;
    proof {
        super::lemma_join_none(start);
        assert(bs.take(0) =~= Seq::<VModel>::empty());
    }
    let mut idx: usize = 0;
    while idx < b.len()
        invariant
            idx <= b@.len(),
            r@ == join(start, join_each(bs.take(idx as int), ces_left(pm, is))),
        decreases b@.len() - idx,
    {
        let ghost before = r@;
        let x = &b[idx];
        assert(bs[idx as int] == x@);
        let p = super::path_with(path, PathSegment::Triple { kind: "conditional-endorsement-series", index: idx });
        let env = ces_env_of(x);
        match find_ces(i, &env) {
            Some(j) => {
                let y = &i[j];
                meas_list(&p, "claims-list", ces_claims_of(x, &e), ces_claims_of(y, &e), r);
                let ghost m1 = r@;
                if !opt_equal(ces_auth_of(x), ces_auth_of(y)) {
                    push_authority_mismatch(&p, r);
                } else {
                    proof {
                        super::lemma_join_none(m1);
                    }
                }
                let ghost m2 = r@;
                compare_series(&p, list_at(x, 1, &e), list_at(y, 1, &e), r);
                proof {
                    let ppm = path_model(p@);
                    let f1 = meas_findings(ppm.push(SegModel::Field("claims-list"@)), ces_claims(x@), ces_claims(y@));
                    let f2 = if opt_eq(ces_auth(x@), ces_auth(y@)) {
                        no_findings()
                    } else {
                        authority_mismatch(ppm)
                    };
                    let f3 = series_findings(ppm, ces_series(x@), ces_series(y@));
                    assert(join(join(join(before, f1), f2), f3).mismatches =~= join(before, join(join(f1, f2), f3)).mismatches);
                    assert(join(join(join(before, f1), f2), f3).diffs =~= join(before, join(join(f1, f2), f3)).diffs);
                }
            },
            None => {
                super::push_mismatch(
                    r,
                    p,
                    MismatchKind::MissingInInput,
                    String::from_str("CES triple common-condition environment present in baseline but not in input"),
                );
            },
        }
        proof {
            lemma_join_each_step(start, bs, ces_left(pm, is), idx as int);
        }
        idx += 1;
    }
    proof {
        lemma_join_each_all(bs, ces_left(pm, is));
    }
    let ghost mid = r@;
    proof {
        super::lemma_join_none(mid);
        assert(is.take(0) =~= Seq::<VModel>::empty());
    }
    let mut idx: usize = 0;
    while idx < i.len()
        invariant
            idx <= i@.len(),
            r@ == join(mid, join_each(is.take(idx as int), ces_right(pm, bs))),
        decreases i@.len() - idx,
    {
        let ghost before = r@;
        let x = &i[idx];
        assert(is[idx as int] == x@);
        let env = ces_env_of(x);
        if find_ces(b, &env).is_none() {
            super::push_mismatch(
                r,
                super::path_with(path, PathSegment::Triple { kind: "conditional-endorsement-series", index: idx }),
                MismatchKind::UnexpectedInInput,
                String::from_str("CES triple present in input but not in baseline"),
            );
        } else {
            proof {
                super::lemma_join_none(before);
            }
        }
        proof {
            lemma_join_each_step(mid, is, ces_right(pm, bs), idx as int);
        }
        idx += 1;
    }
    proof {
        lemma_join_each_all(is, ces_right(pm, bs));
        lemma_join3(old(r)@, join_each(bs, ces_left(pm, is)), join_each(is, ces_right(pm, bs)));
    }
}

// ---------------------------------------------------------------------------
// Triples compared by position.
// ---------------------------------------------------------------------------

/// The positions `0 .. max(b, i)`.
pub open spec fn positions(b: nat, i: nat) -> Seq<int> {
    Seq::new(if b < i { i } else { b }, |k: int| k)
}

/// A conditional-endorsement triple at a position: `conditions` and `endorsements` are
/// each compared as environment-keyed groups.
pub open spec fn ce_at(path: Seq<SegModel>, b: Seq<VModel>, i: Seq<VModel>) -> spec_fn(int, int) -> Findings {
    |n: int, k: int| {
        let p = path.push(SegModel::Triple { kind: "conditional-endorsement"@, index: k as nat });
        if k < b.len() && k < i.len() {
            join(
                groups_findings(p, "conditions"@, false, arr_at(b[k], 0), arr_at(i[k], 0)),
                groups_findings(p, "endorsements"@, false, arr_at(b[k], 1), arr_at(i[k], 1)),
            )
        } else if k < b.len() {
            one_mismatch(p, KindModel::MissingInInput, "conditional-endorsement triple present in baseline but not in input"@)
        } else if k < i.len() {
            one_mismatch(p, KindModel::UnexpectedInInput, "conditional-endorsement triple present in input but not in baseline"@)
        } else {
            no_findings()
        }
    }
}

pub open spec fn ce_findings(path: Seq<SegModel>, b: Seq<VModel>, i: Seq<VModel>) -> Findings {
    join_each(positions(b.len(), i.len()), ce_at(path, b, i))
}

/// A triple compared as a whole (key, domain and identity triples): any difference is
/// structural.
pub open spec fn opaque_at(path: Seq<SegModel>, kind: Seq<char>, b: Seq<VModel>, i: Seq<VModel>) -> spec_fn(int, int) -> Findings {
    |n: int, k: int| {
        let p = path.push(SegModel::Triple { kind: kind, index: k as nat });
        if k < b.len() && k < i.len() {
            if value_eq(b[k], i[k]) {
                no_findings()
            } else {
                one_mismatch(
                    p,
                    KindModel::TypeMismatch { baseline: "triple"@, input: "triple"@ },
                    kind + " triple content differs from baseline"@,
                )
            }
        } else if k < b.len() {
            one_mismatch(p, KindModel::MissingInInput, kind + " triple present in baseline but not in input"@)
        } else if k < i.len() {
            one_mismatch(p, KindModel::UnexpectedInInput, kind + " triple present in input but not in baseline"@)
        } else {
            no_findings()
        }
    }
}

pub open spec fn opaque_findings(path: Seq<SegModel>, kind: Seq<char>, b: Seq<VModel>, i: Seq<VModel>) -> Findings {
    join_each(positions(b.len(), i.len()), opaque_at(path, kind, b, i))
}

fn max_len(a: usize, b: usize) -> (n: usize)
    ensures
        n as int == (if a < b { b } else { a }),
{
    if a < b {
        b
    } else {
        a
    }
}

#[verifier::loop_isolation(false)]
fn compare_ce(path: &Vec<PathSegment>, b: &Vec<Value>, i: &Vec<Value>, r: &mut ConformanceReport)
    ensures
        final(r)@ == join(old(r)@, ce_findings(path_model(path@), model_list(b@), model_list(i@))),
{
    let ghost pm = path_model(path@);
    let ghost bs = model_list(b@);
    let ghost is = model_list(i@);
    proof {
        lemma_model_list(b@);
        lemma_model_list(i@);
    }
    let e = empty_list();
    let n = max_len(b.len(), i.len());
    let ghost ks = positions(bs.len(), is.len());
    let ghost start = r@;
    proof {
        super::lemma_join_none(start);
        assert(ks.take(0) =~= Seq::<int>::empty());
    }
    let mut k: usize = 0;
    while k < n
        invariant
            k <= n,
            n == ks.len(),
            r@ == join(start, join_each(ks.take(k as int), ce_at(pm, bs, is))),
        decreases n - k,
    {
        let ghost before = r@;
        assert(ks[k as int] == k as int);
        let p = super::path_with(path, PathSegment::Triple { kind: "conditional-endorsement", index: k });
        if k < b.len() && k < i.len() {
            compare_groups(&p, "conditions", false, list_at(&b[k], 0, &e), list_at(&i[k], 0, &e), r);
            compare_groups(&p, "endorsements", false, list_at(&b[k], 1, &e), list_at(&i[k], 1, &e), r);
            proof {
                let ppm = path_model(p@);
                super::lemma_join_assoc(
                    before,
                    groups_findings(ppm, "conditions"@, false, arr_at(bs[k as int], 0), arr_at(is[k as int], 0)),
                    groups_findings(ppm, "endorsements"@, false, arr_at(bs[k as int], 1), arr_at(is[k as int], 1)),
                );
            }
        } else if k < b.len() {
            super::push_mismatch(
                r,
                p,
                MismatchKind::MissingInInput,
                String::from_str("conditional-endorsement triple present in baseline but not in input"),
            );
        } else {
            super::push_mismatch(
                r,
                p,
                MismatchKind::UnexpectedInInput,
                String::from_str("conditional-endorsement triple present in input but not in baseline"),
            );
        }
        proof {
            lemma_join_each_step(start, ks, ce_at(pm, bs, is), k as int);
        }
        k += 1;
    }
    proof {
        lemma_join_each_all(ks, ce_at(pm, bs, is));
    }
}

fn opaque_detail(kind: &'static str, tail: &'static str) -> (s: String)
    ensures
        s@ == kind@ + tail@,
{
    let mut s = String::from_str(kind);
    push_str(&mut s, tail);
    s
}

#[verifier::loop_isolation(false)]
fn compare_opaque(path: &Vec<PathSegment>, kind: &'static str, b: &Vec<Value>, i: &Vec<Value>, r: &mut ConformanceReport)
    ensures
        final(r)@ == join(old(r)@, opaque_findings(path_model(path@), kind@, model_list(b@), model_list(i@))),
{
    let ghost pm = path_model(path@);
    let ghost bs = model_list(b@);
    let ghost is = model_list(i@);
    proof {
        lemma_model_list(b@);
        lemma_model_list(i@);
    }
    let n = max_len(b.len(), i.len());
    let ghost ks = positions(bs.len(), is.len());
    let ghost start = r@;
    proof {
        super::lemma_join_none(start);
        assert(ks.take(0) =~= Seq::<int>::empty());
    }
    let mut k: usize = 0;
    while k < n
        invariant
            k <= n,
            n == ks.len(),
            r@ == join(start, join_each(ks.take(k as int), opaque_at(pm, kind@, bs, is))),
        decreases n - k,
    {
        let ghost before = r@;
        assert(ks[k as int] == k as int);
        let p = super::path_with(path, PathSegment::Triple { kind, index: k });
        if k < b.len() && k < i.len() {
            assert(bs[k as int] == b@[k as int]@ && is[k as int] == i@[k as int]@);
            if !values_equal(&b[k], &i[k]) {
                let mk = MismatchKind::TypeMismatch { baseline: String::from_str("triple"), input: String::from_str("triple") };
                super::push_mismatch(r, p, mk, opaque_detail(kind, " triple content differs from baseline"));
            } else {
                proof {
                    super::lemma_join_none(before);
                }
            }
        } else if k < b.len() {
            super::push_mismatch(r, p, MismatchKind::MissingInInput, opaque_detail(kind, " triple present in baseline but not in input"));
        } else {
            super::push_mismatch(r, p, MismatchKind::UnexpectedInInput, opaque_detail(kind, " triple present in input but not in baseline"));
        }
        proof {
            lemma_join_each_step(start, ks, opaque_at(pm, kind@, bs, is), k as int);
        }
        k += 1;
    }
    proof {
        lemma_join_each_all(ks, opaque_at(pm, kind@, bs, is));
    }
}

// ---------------------------------------------------------------------------
// The triples map of a CoMID.
// ---------------------------------------------------------------------------

/// The triple list under key `k` of a triples map (none where it is absent).
pub open spec fn triple_list(t: VModel, k: int) -> Seq<VModel> {
    match at_key(entries(t), k) {
        Some(v) => arr(v),
        None => Seq::empty(),
    }
}

/// Reference (0) and endorsed (1) triples by environment, series (8) and conditional (10)
/// endorsements.
pub open spec fn triples_head(path: Seq<SegModel>, b: VModel, i: VModel) -> Findings {
    join4(
        groups_findings(path, "reference"@, true, triple_list(b, 0), triple_list(i, 0)),
        groups_findings(path, "endorsed"@, true, triple_list(b, 1), triple_list(i, 1)),
        ces_findings(path, triple_list(b, 8), triple_list(i, 8)),
        ce_findings(path, triple_list(b, 10), triple_list(i, 10)),
    )
}

/// Identity (2), attest-key (3), dependency (4), membership (5) and CoSWID (6) triples,
/// each compared whole and by position.
pub open spec fn triples_tail(path: Seq<SegModel>, b: VModel, i: VModel) -> Findings {
    join(
        join4(
            opaque_findings(path, "identity"@, triple_list(b, 2), triple_list(i, 2)),
            opaque_findings(path, "attest-key"@, triple_list(b, 3), triple_list(i, 3)),
            opaque_findings(path, "dependency"@, triple_list(b, 4), triple_list(i, 4)),
            opaque_findings(path, "membership"@, triple_list(b, 5), triple_list(i, 5)),
        ),
        opaque_findings(path, "coswid"@, triple_list(b, 6), triple_list(i, 6)),
    )
}

/// Two triples maps.
pub open spec fn triples_findings(path: Seq<SegModel>, b: VModel, i: VModel) -> Findings {
    join(triples_head(path, b, i), triples_tail(path, b, i))
}

fn triple_list_of<'a>(t: &'a Value, k: i128, ee: &'a Vec<(Value, Value)>, e: &'a Vec<Value>) -> (r: &'a Vec<Value>)
    requires
        model_pairs(ee@) == Seq::<(VModel, VModel)>::empty(),
        model_list(e@) == Seq::<VModel>::empty(),
    ensures
        model_list(r@) == triple_list(t@, k as int),
{
    match map_lookup(entries_of(t, ee), k) {
        Some(v) => arr_of(v, e),
        None => e,
    }
}

fn compare_triples_head(path: &Vec<PathSegment>, b: &Value, i: &Value, r: &mut ConformanceReport)
    ensures
        final(r)@ == join(old(r)@, triples_head(path_model(path@), b@, i@)),
{
    let ghost start = r@;
    let ee = empty_entries();
    let e = empty_list();
    compare_groups(path, "reference", true, triple_list_of(b, 0, &ee, &e), triple_list_of(i, 0, &ee, &e), r);
    compare_groups(path, "endorsed", true, triple_list_of(b, 1, &ee, &e), triple_list_of(i, 1, &ee, &e), r);
    compare_ces(path, triple_list_of(b, 8, &ee, &e), triple_list_of(i, 8, &ee, &e), r);
    compare_ce(path, triple_list_of(b, 10, &ee, &e), triple_list_of(i, 10, &ee, &e), r);
    proof {
        let pm = path_model(path@);
        lemma_join4(
            start,
            groups_findings(pm, "reference"@, true, triple_list(b@, 0), triple_list(i@, 0)),
            groups_findings(pm, "endorsed"@, true, triple_list(b@, 1), triple_list(i@, 1)),
            ces_findings(pm, triple_list(b@, 8), triple_list(i@, 8)),
            ce_findings(pm, triple_list(b@, 10), triple_list(i@, 10)),
        );
    }
}

fn compare_triples_tail(path: &Vec<PathSegment>, b: &Value, i: &Value, r: &mut ConformanceReport)
    ensures
        final(r)@ == join(old(r)@, triples_tail(path_model(path@), b@, i@)),
{
    let ghost start = r@;
    let ee = empty_entries();
    let e = empty_list();
    compare_opaque(path, "identity", triple_list_of(b, 2, &ee, &e), triple_list_of(i, 2, &ee, &e), r);
    compare_opaque(path, "attest-key", triple_list_of(b, 3, &ee, &e), triple_list_of(i, 3, &ee, &e), r);
    compare_opaque(path, "dependency", triple_list_of(b, 4, &ee, &e), triple_list_of(i, 4, &ee, &e), r);
    compare_opaque(path, "membership", triple_list_of(b, 5, &ee, &e), triple_list_of(i, 5, &ee, &e), r);
    let ghost mid = r@;
    compare_opaque(path, "coswid", triple_list_of(b, 6, &ee, &e), triple_list_of(i, 6, &ee, &e), r);
    proof {
        let pm = path_model(path@);
        let a = opaque_findings(pm, "identity"@, triple_list(b@, 2), triple_list(i@, 2));
        let k = opaque_findings(pm, "attest-key"@, triple_list(b@, 3), triple_list(i@, 3));
        let d = opaque_findings(pm, "dependency"@, triple_list(b@, 4), triple_list(i@, 4));
        let m = opaque_findings(pm, "membership"@, triple_list(b@, 5), triple_list(i@, 5));
        let c = opaque_findings(pm, "coswid"@, triple_list(b@, 6), triple_list(i@, 6));
        lemma_join4(start, a, k, d, m);
        super::lemma_join_assoc(start, join4(a, k, d, m), c);
    }
}

fn compare_triples(path: &Vec<PathSegment>, b: &Value, i: &Value, r: &mut ConformanceReport)
    ensures
        final(r)@ == join(old(r)@, triples_findings(path_model(path@), b@, i@)),
{
    let ghost start = r@;
    compare_triples_head(path, b, i, r);
    compare_triples_tail(path, b, i, r);
    proof {
        let pm = path_model(path@);
        super::lemma_join_assoc(start, triples_head(pm, b@, i@), triples_tail(pm, b@, i@));
    }
}

// ---------------------------------------------------------------------------
// CoMIDs, paired by tag id.
// ---------------------------------------------------------------------------

/// The name of a CoMID: its text tag id, or its UUID in hex.
pub open spec fn tag_id_text(id: TagIdModel) -> Seq<char> {
    match id {
        TagIdModel::Text(t) => t,
        TagIdModel::Uuid(u) => hex_text(u),
    }
}

/// A tag entry that is a CoMID which decodes: its name and its triples.
pub open spec fn comid_entry(t: TagChoiceModel) -> Option<(Seq<char>, VModel)> {
    match t {
        TagChoiceModel::Comid(bytes) => match decode_spec(bytes) {
            Some(v) => match comid_spec(v) {
                Ok(c) => Some((tag_id_text(c.tag_identity.0), c.triples)),
                Err(_) => None,
            },
            None => None,
        },
        _ => None,
    }
}

/// The CoMIDs of a tag list, in order; other tags and entries that do not decode are
/// passed over.
pub open spec fn comids_of(tags: Seq<TagChoiceModel>) -> Seq<(Seq<char>, VModel)>
    decreases tags.len(),
{
    if tags.len() == 0 {
        Seq::empty()
    } else {
        match comid_entry(tags.last()) {
            Some(e) => comids_of(tags.drop_last()).push(e),
            None => comids_of(tags.drop_last()),
        }
    }
}

pub open spec fn comid_list_model(l: Seq<(String, Value)>) -> Seq<(Seq<char>, VModel)> {
    l.map_values(|p: (String, Value)| (p.0@, p.1@))
}

/// The first CoMID with the given name.
pub open spec fn comid_is(id: Seq<char>) -> spec_fn(int, (Seq<char>, VModel)) -> Option<int> {
    |j: int, x: (Seq<char>, VModel)| if x.0 == id {
        Some(j)
    } else {
        None
    }
}

/// A baseline CoMID: the first input CoMID of the same name is its pair, and their triples
/// are compared under the CoMID's name.
pub open spec fn comid_left(i: Seq<(Seq<char>, VModel)>) -> spec_fn(int, (Seq<char>, VModel)) -> Findings {
    |idx: int, x: (Seq<char>, VModel)| match first_fail(i, comid_is(x.0)) {
        Some(j) => triples_findings(seq![SegModel::Comid(x.0)], x.1, i[j].1),
        None => one_mismatch(
            seq![SegModel::Comid(x.0)],
            KindModel::MissingInInput,
            "CoMID present in baseline but missing in input"@,
        ),
    }
}

pub open spec fn comid_right(b: Seq<(Seq<char>, VModel)>) -> spec_fn(int, (Seq<char>, VModel)) -> Findings {
    |idx: int, x: (Seq<char>, VModel)| if first_fail(b, comid_is(x.0)) is Some {
        no_findings()
    } else {
        one_mismatch(seq![SegModel::Comid(x.0)], KindModel::UnexpectedInInput, "CoMID present in input but not in baseline"@)
    }
}

/// Two lists of CoMIDs.
pub open spec fn comids_findings(b: Seq<(Seq<char>, VModel)>, i: Seq<(Seq<char>, VModel)>) -> Findings {
    join(join_each(b, comid_left(i)), join_each(i, comid_right(b)))
}

fn tag_id_string(id: &TagIdChoice) -> (s: String)
    ensures
        s@ == tag_id_text(id@),
{
    match id {
        TagIdChoice::Text(t) => t.clone(),
        TagIdChoice::Uuid(u) => hex(u.as_slice()),
    }
}

fn comid_entry_of(t: &ConciseTagChoice) -> (r: Option<(String, Value)>)
    ensures
        r matches Some(p) ==> comid_entry(t@) == Some((p.0@, p.1@)),
        r is None ==> comid_entry(t@) is None,
{
    match t {
        ConciseTagChoice::Comid(bytes) => match decode(bytes.as_slice()) {
            Ok(v) => match ComidTag::from_value(&v) {
                Ok(c) => Some((tag_id_string(&c.tag_identity.tag_id), c.triples)),
                Err(_) => None,
            },
            Err(_) => None,
        },
        _ => None,
    }
}

/// The CoMIDs of a tag list.
pub(crate) fn decode_comids(tags: &Vec<ConciseTagChoice>) -> (r: Vec<(String, Value)>)
    ensures
        comid_list_model(r@) == comids_of(tags@.map_values(|x: ConciseTagChoice| x@)),
{
    let ghost tm = tags@.map_values(|x: ConciseTagChoice| x@);
    let mut out: Vec<(String, Value)> = Vec::new();
    proof {
        assert(tm.take(0) =~= Seq::<TagChoiceModel>::empty());
        assert(comid_list_model(out@) =~= Seq::<(Seq<char>, VModel)>::empty());
    }
    let mut k: usize = 0;
    while k < tags.len()
        invariant
            k <= tags@.len(),
            tm == tags@.map_values(|x: ConciseTagChoice| x@),
            comid_list_model(out@) == comids_of(tm.take(k as int)),
        decreases tags@.len() - k,
    {
        let ghost prev = out@;
        proof {
            assert(tm.take(k + 1).drop_last() =~= tm.take(k as int));
            assert(tm.take(k + 1).last() == tags@[k as int]@);
        }
        match comid_entry_of(&tags[k]) {
            Some(e) => {
                out.push(e);
                proof {
                    assert(comid_list_model(out@) =~= comid_list_model(prev).push((e.0@, e.1@)));
                }
            },
            None => {},
        }
        k += 1;
    }
    proof {
        assert(tm.take(tags@.len() as int) =~= tm);
    }
    out
}

fn find_comid(list: &Vec<(String, Value)>, id: &String) -> (r: Option<usize>)
    ensures
        r matches Some(j) ==> j < list@.len() && first_fail(comid_list_model(list@), comid_is(id@)) == Some(j as int),
        r is None ==> first_fail(comid_list_model(list@), comid_is(id@)) is None,
{
    let ghost ms = comid_list_model(list@);
    let mut j: usize = 0;
    while j < list.len()
        invariant
            j <= list@.len(),
            ms == comid_list_model(list@),
            ms.len() == list@.len(),
            first_fail(ms.take(j as int), comid_is(id@)) is None,
        decreases list@.len() - j,
    {
        proof {
            lemma_first_fail_step(ms, comid_is(id@), j as int);
            assert(ms[j as int] == (list@[j as int].0@, list@[j as int].1@));
        }
        if str_eq(list[j].0.as_str(), id.as_str()) {
            proof {
                lemma_first_fail_prefix(ms, comid_is(id@), j + 1);
            }
            return Some(j);
        }
        j += 1;
    }
    proof {
        lemma_first_fail_all(ms, comid_is(id@));
    }
    None
}

#[verifier::loop_isolation(false)]
pub(crate) fn compare_comids(b: &Vec<(String, Value)>, i: &Vec<(String, Value)>, r: &mut ConformanceReport)
    ensures
        final(r)@ == join(old(r)@, comids_findings(comid_list_model(b@), comid_list_model(i@))),
{
    let ghost bs = comid_list_model(b@);
    let ghost is = comid_list_model(i@);
    let ghost start = r@;
    proof {
        super::lemma_join_none(start);
        assert(bs.take(0) =~= Seq::<(Seq<char>, VModel)>::empty());
    }
    let mut idx: usize = 0;
    while idx < b.len()
        invariant
            idx <= b@.len(),
            bs.len() == b@.len(),
            r@ == join(start, join_each(bs.take(idx as int), comid_left(is))),
        decreases b@.len() - idx,
    {
        let x = &b[idx];
        assert(bs[idx as int] == (x.0@, x.1@));
        let mut p: Vec<PathSegment> = Vec::new();
        p.push(PathSegment::Comid(x.0.clone()));
        proof {
            assert(path_model(p@) =~= seq![SegModel::Comid(x.0@)]);
        }
        match find_comid(i, &x.0) {
            Some(j) => {
                assert(is[j as int] == (i@[j as int].0@, i@[j as int].1@));
                compare_triples(&p, &x.1, &i[j].1, r);
            },
            None => {
                super::push_mismatch(r, p, MismatchKind::MissingInInput, String::from_str("CoMID present in baseline but missing in input"));
            },
        }
        proof {
            lemma_join_each_step(start, bs, comid_left(is), idx as int);
        }
        idx += 1;
    }
    proof {
        lemma_join_each_all(bs, comid_left(is));
    }
    let ghost mid = r@;
    proof {
        super::lemma_join_none(mid);
        assert(is.take(0) =~= Seq::<(Seq<char>, VModel)>::empty());
    }
    let mut idx: usize = 0;
    while idx < i.len()
        invariant
            idx <= i@.len(),
            is.len() == i@.len(),
            r@ == join(mid, join_each(is.take(idx as int), comid_right(bs))),
        decreases i@.len() - idx,
    {
        let ghost before = r@;
        let x = &i[idx];
        assert(is[idx as int] == (x.0@, x.1@));
        if find_comid(b, &x.0).is_none() {
            let mut p: Vec<PathSegment> = Vec::new();
            p.push(PathSegment::Comid(x.0.clone()));
            proof {
                assert(path_model(p@) =~= seq![SegModel::Comid(x.0@)]);
            }
            super::push_mismatch(r, p, MismatchKind::UnexpectedInInput, String::from_str("CoMID present in input but not in baseline"));
        } else {
            proof {
                super::lemma_join_none(before);
            }
        }
        proof {
            lemma_join_each_step(mid, is, comid_right(bs), idx as int);
        }
        idx += 1;
    }
    proof {
        lemma_join_each_all(is, comid_right(bs));
        lemma_join3(old(r)@, join_each(bs, comid_left(is)), join_each(is, comid_right(bs)));
    }
}

// ---------------------------------------------------------------------------
// Comparing a document with itself.
// ---------------------------------------------------------------------------

/// Findings that hold no structural mismatch.
pub open spec fn clean(f: Findings) -> bool {
    f.mismatches.len() == 0
}

proof fn lemma_join_each_clean<A>(s: Seq<A>, f: spec_fn(int, A) -> Findings)
    requires
        forall|k: int| 0 <= k < s.len() ==> clean(#[trigger] f(k, s[k])),
    ensures
        clean(join_each(s, f)),
    decreases s.len(),
{
    if s.len() > 0 {
        let t = s.drop_last();
        assert forall|k: int| 0 <= k < t.len() implies clean(#[trigger] f(k, t[k])) by {
            assert(t[k] == s[k]);
        }
        lemma_join_each_clean(t, f);
        assert(clean(f(s.len() - 1, s[s.len() - 1])));
    }
}

/// An element's own test finds something in its sequence.
proof fn lemma_first_fail_found<A, E>(s: Seq<A>, f: spec_fn(int, A) -> Option<E>, k: int)
    requires
        0 <= k < s.len(),
        f(k, s[k]) is Some,
    ensures
        first_fail(s, f) is Some,
{
    lemma_first_fail_none(s, f);
}

proof fn lemma_keyed_get_found(s: Seq<(i64, VModel)>, j: int)
    requires
        0 <= j < s.len(),
    ensures
        keyed_get(s, s[j].0) is Some,
    decreases s.len(),
{
    if j > 0 && s[0].0 != s[j].0 {
        assert(s.drop_first()[j - 1] == s[j]);
        lemma_keyed_get_found(s.drop_first(), j - 1);
    }
}

/// Each digest algorithm of a measurement-values map equals itself.
pub open spec fn mval_self(m: Seq<(VModel, VModel)>) -> bool {
    at_key(m, 2) matches Some(x) ==> forall|k: int| 0 <= k < arr(x).len() ==> #[trigger] value_eq(digest_alg(arr(x)[k]), digest_alg(arr(x)[k]))
}

proof fn lemma_mval_self(path: Seq<SegModel>, m: Seq<(VModel, VModel)>)
    requires
        mval_self(m),
    ensures
        clean(mval_findings(path, m, m)),
{
    if let Some(x) = at_key(m, 2) {
        let a = arr(x);
        assert forall|k: int| 0 <= k < a.len() implies clean(#[trigger] digest_left(path, a)(k, a[k])) by {
            assert(value_eq(digest_alg(a[k]), digest_alg(a[k])));
            lemma_first_fail_found(a, alg_is(digest_alg(a[k])), k);
        }
        assert forall|k: int| 0 <= k < a.len() implies clean(#[trigger] digest_right(path, a)(k, a[k])) by {
            assert(value_eq(digest_alg(a[k]), digest_alg(a[k])));
            lemma_first_fail_found(a, alg_is(digest_alg(a[k])), k);
        }
        lemma_join_each_clean(a, digest_left(path, a));
        lemma_join_each_clean(a, digest_right(path, a));
    }
    if let Some(x) = at_key(m, 3) {
        let fp = field_path(path, "flags"@);
        let e = entries(x);
        assert forall|k: int| 0 <= k < flag_names().len() implies clean(#[trigger] flag_item(fp, e, e)(k, flag_names()[k])) by {}
        lemma_join_each_clean(flag_names(), flag_item(fp, e, e));
    }
    let xs = extras_of(m);
    assert forall|k: int| 0 <= k < xs.len() implies clean(#[trigger] ext_left(path, xs)(k, xs[k])) by {
        lemma_keyed_get_found(xs, k);
    }
    assert forall|k: int| 0 <= k < xs.len() implies clean(#[trigger] ext_right(path, xs)(k, xs[k])) by {
        lemma_keyed_get_found(xs, k);
    }
    lemma_join_each_clean(xs, ext_left(path, xs));
    lemma_join_each_clean(xs, ext_right(path, xs));
}

/// A measurement pairs with itself: a keyed one is the first with its key, its authority
/// equals itself, and so do its digest algorithms.
pub open spec fn meas_one_self(ms: Seq<VModel>, k: int) -> bool {
    &&& (mkey(ms[k]) matches Some(key) ==> first_fail(ms, mkey_is(key)) == Some(k))
    &&& opt_eq(authority(ms[k]), authority(ms[k]))
    &&& mval_self(mval(ms[k]))
}

pub open spec fn meas_self(ms: Seq<VModel>) -> bool {
    forall|k: int| 0 <= k < ms.len() ==> #[trigger] meas_one_self(ms, k)
}

proof fn lemma_meas_self(path: Seq<SegModel>, ms: Seq<VModel>)
    requires
        meas_self(ms),
    ensures
        clean(meas_findings(path, ms, ms)),
{
    assert forall|k: int| 0 <= k < ms.len() implies clean(#[trigger] meas_left(path, ms)(k, ms[k])) by {
        assert(meas_one_self(ms, k));
        assert(meas_match(ms, ms[k], k) == Some(ms[k]));
        lemma_mval_self(path.push(SegModel::Measurement(mkey_text(ms[k], k))), mval(ms[k]));
    }
    assert forall|k: int| 0 <= k < ms.len() implies clean(#[trigger] meas_right(path, ms)(k, ms[k])) by {
        assert(meas_one_self(ms, k));
    }
    lemma_join_each_clean(ms, meas_left(path, ms));
    lemma_join_each_clean(ms, meas_right(path, ms));
}

/// A record is the first with its environment, and its measurements pair with themselves.
pub open spec fn group_one_self(l: Seq<VModel>, k: int) -> bool {
    &&& first_fail(l, env_is(rec_env(l[k]))) == Some(k)
    &&& meas_self(rec_meas(l[k]))
}

pub open spec fn groups_self(l: Seq<VModel>) -> bool {
    forall|k: int| 0 <= k < l.len() ==> #[trigger] group_one_self(l, k)
}

proof fn lemma_groups_self(path: Seq<SegModel>, kind: Seq<char>, indexed: bool, l: Seq<VModel>)
    requires
        groups_self(l),
    ensures
        clean(groups_findings(path, kind, indexed, l, l)),
{
    assert forall|k: int| 0 <= k < l.len() implies clean(#[trigger] group_left(path, kind, indexed, l)(k, l[k])) by {
        assert(group_one_self(l, k));
        lemma_meas_self(path.push(group_seg(kind, indexed, k)), rec_meas(l[k]));
    }
    assert forall|k: int| 0 <= k < l.len() implies clean(#[trigger] group_right(path, kind, indexed, l)(k, l[k])) by {
        assert(group_one_self(l, k));
    }
    lemma_join_each_clean(l, group_left(path, kind, indexed, l));
    lemma_join_each_clean(l, group_right(path, kind, indexed, l));
}

pub open spec fn series_one_self(s: Seq<VModel>, k: int) -> bool {
    meas_self(arr_at(s[k], 0)) && meas_self(arr_at(s[k], 1))
}

/// A series triple is the first with its condition environment; its claims, authority and
/// series records pair with themselves.
pub open spec fn ces_one_self(l: Seq<VModel>, k: int) -> bool {
    &&& first_fail(l, ces_env_is(ces_env(l[k]))) == Some(k)
    &&& meas_self(ces_claims(l[k]))
    &&& opt_eq(ces_auth(l[k]), ces_auth(l[k]))
    &&& forall|j: int| 0 <= j < ces_series(l[k]).len() ==> #[trigger] series_one_self(ces_series(l[k]), j)
}

pub open spec fn ces_self(l: Seq<VModel>) -> bool {
    forall|k: int| 0 <= k < l.len() ==> #[trigger] ces_one_self(l, k)
}

proof fn lemma_ces_self(path: Seq<SegModel>, l: Seq<VModel>)
    requires
        ces_self(l),
    ensures
        clean(ces_findings(path, l, l)),
{
    assert forall|k: int| 0 <= k < l.len() implies clean(#[trigger] ces_left(path, l)(k, l[k])) by {
        assert(ces_one_self(l, k));
        let p = path.push(SegModel::Triple { kind: "conditional-endorsement-series"@, index: k as nat });
        lemma_meas_self(p.push(SegModel::Field("claims-list"@)), ces_claims(l[k]));
        let s = ces_series(l[k]);
        assert forall|j: int| 0 <= j < s.len() implies clean(#[trigger] series_left(p, s)(j, s[j])) by {
            assert(series_one_self(s, j));
            let q = series_path(p).push(SegModel::Index(j as nat));
            lemma_meas_self(q.push(SegModel::Field("condition"@)), arr_at(s[j], 0));
            lemma_meas_self(q.push(SegModel::Field("addition"@)), arr_at(s[j], 1));
        }
        lemma_join_each_clean(s, series_left(p, s));
    }
    assert forall|k: int| 0 <= k < l.len() implies clean(#[trigger] ces_right(path, l)(k, l[k])) by {
        assert(ces_one_self(l, k));
    }
    lemma_join_each_clean(l, ces_left(path, l));
    lemma_join_each_clean(l, ces_right(path, l));
}

pub open spec fn ce_one_self(l: Seq<VModel>, k: int) -> bool {
    groups_self(arr_at(l[k], 0)) && groups_self(arr_at(l[k], 1))
}

pub open spec fn ce_self(l: Seq<VModel>) -> bool {
    forall|k: int| 0 <= k < l.len() ==> #[trigger] ce_one_self(l, k)
}

proof fn lemma_ce_self(path: Seq<SegModel>, l: Seq<VModel>)
    requires
        ce_self(l),
    ensures
        clean(ce_findings(path, l, l)),
{
    let ks = positions(l.len(), l.len());
    assert forall|n: int| 0 <= n < ks.len() implies clean(#[trigger] ce_at(path, l, l)(n, ks[n])) by {
        assert(ks[n] == n);
        assert(ce_one_self(l, n));
        let p = path.push(SegModel::Triple { kind: "conditional-endorsement"@, index: n as nat });
        lemma_groups_self(p, "conditions"@, false, arr_at(l[n], 0));
        lemma_groups_self(p, "endorsements"@, false, arr_at(l[n], 1));
    }
    lemma_join_each_clean(ks, ce_at(path, l, l));
}

/// Triples compared whole that each equal themselves.
pub open spec fn opaque_self(l: Seq<VModel>) -> bool {
    forall|k: int| 0 <= k < l.len() ==> #[trigger] value_eq(l[k], l[k])
}

proof fn lemma_opaque_self(path: Seq<SegModel>, kind: Seq<char>, l: Seq<VModel>)
    requires
        opaque_self(l),
    ensures
        clean(opaque_findings(path, kind, l, l)),
{
    let ks = positions(l.len(), l.len());
    assert forall|n: int| 0 <= n < ks.len() implies clean(#[trigger] opaque_at(path, kind, l, l)(n, ks[n])) by {
        assert(ks[n] == n);
        assert(value_eq(l[n], l[n]));
    }
    lemma_join_each_clean(ks, opaque_at(path, kind, l, l));
}

/// A triples map whose every list pairs with itself.
pub open spec fn triples_self(t: VModel) -> bool {
    &&& groups_self(triple_list(t, 0))
    &&& groups_self(triple_list(t, 1))
    &&& ces_self(triple_list(t, 8))
    &&& ce_self(triple_list(t, 10))
    &&& opaque_self(triple_list(t, 2))
    &&& opaque_self(triple_list(t, 3))
    &&& opaque_self(triple_list(t, 4))
    &&& opaque_self(triple_list(t, 5))
    &&& opaque_self(triple_list(t, 6))
}

proof fn lemma_triples_self(path: Seq<SegModel>, t: VModel)
    requires
        triples_self(t),
    ensures
        clean(triples_findings(path, t, t)),
{
    lemma_groups_self(path, "reference"@, true, triple_list(t, 0));
    lemma_groups_self(path, "endorsed"@, true, triple_list(t, 1));
    lemma_ces_self(path, triple_list(t, 8));
    lemma_ce_self(path, triple_list(t, 10));
    lemma_opaque_self(path, "identity"@, triple_list(t, 2));
    lemma_opaque_self(path, "attest-key"@, triple_list(t, 3));
    lemma_opaque_self(path, "dependency"@, triple_list(t, 4));
    lemma_opaque_self(path, "membership"@, triple_list(t, 5));
    lemma_opaque_self(path, "coswid"@, triple_list(t, 6));
}

/// A CoMID is the first with its name, and its triples pair with themselves.
pub open spec fn comid_one_self(l: Seq<(Seq<char>, VModel)>, k: int) -> bool {
    first_fail(l, comid_is(l[k].0)) == Some(k) && triples_self(l[k].1)
}

pub open spec fn comids_self(l: Seq<(Seq<char>, VModel)>) -> bool {
    forall|k: int| 0 <= k < l.len() ==> #[trigger] comid_one_self(l, k)
}

pub(crate) proof fn lemma_comids_self(l: Seq<(Seq<char>, VModel)>)
    requires
        comids_self(l),
    ensures
        clean(comids_findings(l, l)),
{
    assert forall|k: int| 0 <= k < l.len() implies clean(#[trigger] comid_left(l)(k, l[k])) by {
        assert(comid_one_self(l, k));
        lemma_triples_self(seq![SegModel::Comid(l[k].0)], l[k].1);
    }
    assert forall|k: int| 0 <= k < l.len() implies clean(#[trigger] comid_right(l)(k, l[k])) by {
        assert(comid_one_self(l, k));
    }
    lemma_join_each_clean(l, comid_left(l));
    lemma_join_each_clean(l, comid_right(l));
}

} // verus!
