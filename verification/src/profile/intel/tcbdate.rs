//! Normalization-aware comparison for `tee.tcbdate` (v07 §8.3.4).
//!
//! `$tee-date-type` admits several wire encodings of one instant (bare or `#6.0`-tagged
//! RFC 3339 text, bare or `#6.1`-tagged epoch seconds, RFC 9581 `#6.1001` etime) and an
//! interval form (RFC 9581 `#6.1003` period). Both sides of a comparison are normalised to
//! an epoch-second instant or a `[lo, hi]` period before comparing:
//!
//! - instant vs instant → equality
//! - period vs instant  → instant within `[lo, hi]` (open bounds are infinite)
//! - period vs period   → equality of the bounds
//! - instant vs period  → fail
//! - anything else      → CBOR equality of the two values
use vstd::prelude::*;
use vstd::utf8::*;
use crate::binary64::{binary64_to_i64, truncate_spec};
use crate::cbor::{Value, VModel, model_list, model_pairs, lemma_model_list, lemma_model_pairs, value_eq, values_equal};
use super::eval::{Verdict, verdict_of, bool_verdict};

verus! {

/// Normalized representation of a tcbdate value.
#[derive(Clone, Copy, Debug, PartialEq, Eq, Structural)]
pub enum Tcbdate {
    /// A single instant, epoch seconds.
    Instant(i64),
    /// A period, both bounds in epoch seconds; `None` is an open bound.
    Period { lo: Option<i64>, hi: Option<i64> },
}

/// Mathematical form of a [`Tcbdate`].
pub enum TcbdateModel {
    Instant(int),
    Period { lo: Option<int>, hi: Option<int> },
}

pub open spec fn opt_int(o: Option<i64>) -> Option<int> {
    match o {
        Some(x) => Some(x as int),
        None => None,
    }
}

impl View for Tcbdate {
    type V = TcbdateModel;

    open spec fn view(&self) -> TcbdateModel {
        match *self {
            Tcbdate::Instant(x) => TcbdateModel::Instant(x as int),
            Tcbdate::Period { lo, hi } => TcbdateModel::Period { lo: opt_int(lo), hi: opt_int(hi) },
        }
    }
}

// ---------------------------------------------------------------------------
// RFC 3339 date-time.
// ---------------------------------------------------------------------------

pub open spec fn is_digit(c: u8) -> bool {
    48 <= c <= 57
}

/// The decimal value of a digit string.
pub open spec fn digits_value(s: Seq<u8>) -> int
    decreases s.len(),
{
    if s.len() == 0 {
        0
    } else {
        digits_value(s.drop_last()) * 10 + (s.last() - 48)
    }
}

/// The decimal field `b[lo..hi]`, if it consists of digits only.
pub open spec fn field(b: Seq<u8>, lo: int, hi: int) -> Option<int> {
    if forall|i: int| lo <= i < hi ==> #[trigger] is_digit(b[i]) {
        Some(digits_value(b.subrange(lo, hi)))
    } else {
        None
    }
}

/// The number of consecutive digits from position `i`.
pub open spec fn digit_run(b: Seq<u8>, i: int) -> int
    decreases b.len() - i,
{
    if 0 <= i < b.len() && is_digit(b[i]) {
        1 + digit_run(b, i + 1)
    } else {
        0
    }
}

/// Where the UTC offset starts, after an optional `.frac` part (at least one digit).
pub open spec fn offset_start(b: Seq<u8>) -> Option<int> {
    if b.len() > 19 && b[19] == 46 {
        if digit_run(b, 20) == 0 {
            None
        } else {
            Some(20 + digit_run(b, 20))
        }
    } else {
        Some(19)
    }
}

/// The UTC offset in seconds: `Z`/`z` ending the string, or `+HH:MM` / `-HH:MM` ending it.
pub open spec fn offset_seconds(b: Seq<u8>, i: int) -> Option<int> {
    if i < b.len() && (b[i] == 90 || b[i] == 122) {
        if i + 1 == b.len() {
            Some(0)
        } else {
            None
        }
    } else if i + 6 == b.len() && (b[i] == 43 || b[i] == 45) {
        match (field(b, i + 1, i + 3), field(b, i + 4, i + 6)) {
            (Some(oh), Some(om)) => if b[i + 3] == 58 && oh <= 23 && om <= 59 {
                Some((if b[i] == 43 { 1int } else { -1int }) * (oh * 3600 + om * 60))
            } else {
                None
            },
            _ => None,
        }
    } else {
        None
    }
}

/// Days from 1970-01-01 to a proleptic Gregorian date (Howard Hinnant's `days_from_civil`).
pub open spec fn days_from_civil(year: int, month: int, day: int) -> int {
    let y = if month <= 2 { year - 1 } else { year };
    let m = if month <= 2 { month + 12 } else { month };
    let era = y / 400;
    let yoe = y - era * 400;
    let doy = (153 * (m - 3) + 2) / 5 + day - 1;
    let doe = yoe * 365 + yoe / 4 - yoe / 100 + doy;
    era * 146097 + doe - 719468
}

/// `YYYY-MM-DDTHH:MM:SS[.frac](Z|+HH:MM|-HH:MM)` (`T` and `Z` in either case) to epoch
/// seconds; fractional seconds are dropped and a leap second `:60` counts as `:59`.
pub open spec fn rfc3339_spec(b: Seq<u8>) -> Option<int> {
    if b.len() < 20 {
        None
    } else {
        match (
            field(b, 0, 4),
            field(b, 5, 7),
            field(b, 8, 10),
            field(b, 11, 13),
            field(b, 14, 16),
            field(b, 17, 19),
        ) {
            (Some(year), Some(month), Some(day), Some(hour), Some(minute), Some(second)) => {
                if b[4] == 45 && b[7] == 45 && (b[10] == 84 || b[10] == 116) && b[13] == 58
                    && b[16] == 58 && 1 <= month <= 12 && 1 <= day <= 31 && hour <= 23 && minute
                    <= 59 && second <= 60 {
                    let sec = if second == 60 { 59 } else { second };
                    match offset_start(b) {
                        None => None,
                        Some(i) => match offset_seconds(b, i) {
                            None => None,
                            Some(off) => Some(
                                days_from_civil(year, month, day) * 86400 + hour * 3600 + minute
                                    * 60 + sec - off,
                            ),
                        },
                    }
                } else {
                    None
                }
            },
            _ => None,
        }
    }
}

proof fn lemma_digits_bound(s: Seq<u8>)
    requires
        forall|i: int| 0 <= i < s.len() ==> #[trigger] is_digit(s[i]),
    ensures
        0 <= digits_value(s),
        s.len() <= 4 ==> digits_value(s) <= 9999,
        s.len() <= 3 ==> digits_value(s) <= 999,
        s.len() <= 2 ==> digits_value(s) <= 99,
        s.len() <= 1 ==> digits_value(s) <= 9,
    decreases s.len(),
{
    if s.len() > 0 {
        lemma_digits_bound(s.drop_last());
        assert(is_digit(s[s.len() - 1]));
    }
}

/// Parse the decimal field `b[lo..hi]` (at most four digits).
fn parse_digits(b: &[u8], lo: usize, hi: usize) -> (r: Option<i64>)
    requires
        lo <= hi <= b@.len(),
        hi - lo <= 4,
    ensures
        opt_int(r) == field(b@, lo as int, hi as int),
        r matches Some(x) ==> 0 <= x <= 9999,
{
    let mut n: i64 = 0;
    let mut i: usize = lo;
    while i < hi
        invariant
            lo <= i <= hi <= b@.len(),
            hi - lo <= 4,
            forall|j: int| lo <= j < i ==> #[trigger] is_digit(b@[j]),
            n == digits_value(b@.subrange(lo as int, i as int)),
            0 <= n <= 9999,
            i - lo <= 1 ==> n <= 9,
            i - lo <= 2 ==> n <= 99,
            i - lo <= 3 ==> n <= 999,
        decreases hi - i,
    {
        let c = b[i];
        if !(c >= 48 && c <= 57) {
            proof {
                assert(!is_digit(b@[i as int]));
            }
            return None;
        }
        proof {
            let s1 = b@.subrange(lo as int, i + 1);
            assert(s1.drop_last() =~= b@.subrange(lo as int, i as int));
            assert(s1.last() == c);
        }
        n = n * 10 + (c - 48) as i64;
        i += 1;
    }
    Some(n)
}

proof fn lemma_digit_run_step(b: Seq<u8>, i: int)
    requires
        0 <= i < b.len(),
        is_digit(b[i]),
    ensures
        digit_run(b, i) == 1 + digit_run(b, i + 1),
{
}

/// `days_from_civil` for the field ranges the parser admits.
fn civil_days(year: i64, month: i64, day: i64) -> (r: i64)
    requires
        0 <= year <= 9999,
        1 <= month <= 12,
        1 <= day <= 31,
    ensures
        r == days_from_civil(year as int, month as int, day as int),
{
    let (y, m) = if month <= 2 {
        (year - 1, month + 12)
    } else {
        (year, month)
    };
    let era: i64 = if y >= 0 {
        y / 400
    } else {
        -1
    };
    proof {
        if y < 0 {
            assert(y == -1);
            assert((-1int) / 400 == -1);
        }
    }
    let yoe = y - era * 400;
    let doy = (153 * (m - 3) + 2) / 5 + day - 1;
    let doe = yoe * 365 + yoe / 4 - yoe / 100 + doy;
    era * 146097 + doe - 719468
}

/// Parse an RFC 3339 `date-time` string to integer seconds since the Unix epoch.
pub fn rfc3339_to_epoch_seconds(s: &str) -> (r: Option<i64>)
    ensures
        opt_int(r) == rfc3339_spec(encode_utf8(s@)),
{
    let b = s.as_bytes();
    let ghost bs = b@;
    if b.len() < 20 {
        return None;
    }
    let year = match parse_digits(b, 0, 4) {
        Some(v) => v,
        None => return None,
    };
    if b[4] != 45 {
        return None;
    }
    let month = match parse_digits(b, 5, 7) {
        Some(v) => v,
        None => return None,
    };
    if b[7] != 45 {
        return None;
    }
    let day = match parse_digits(b, 8, 10) {
        Some(v) => v,
        None => return None,
    };
    if b[10] != 84 && b[10] != 116 {
        return None;
    }
    let hour = match parse_digits(b, 11, 13) {
        Some(v) => v,
        None => return None,
    };
    if b[13] != 58 {
        return None;
    }
    let minute = match parse_digits(b, 14, 16) {
        Some(v) => v,
        None => return None,
    };
    if b[16] != 58 {
        return None;
    }
    let second = match parse_digits(b, 17, 19) {
        Some(v) => v,
        None => return None,
    };
    if !(1 <= month && month <= 12) || !(1 <= day && day <= 31) || hour > 23 || minute > 59
        || second > 60 {
        return None;
    }
    let second = if second == 60 {
        59
    } else {
        second
    };
    let mut i: usize = 19;
    if i < b.len() && b[i] == 46 {
        i += 1;
        let start = i;
        while i < b.len() && b[i] >= 48 && b[i] <= 57
            invariant
                20 <= start <= i <= b@.len(),
                start == 20,
                digit_run(b@, 20) == (i - 20) + digit_run(b@, i as int),
            decreases b@.len() - i,
        {
            proof {
                lemma_digit_run_step(b@, i as int);
            }
            i += 1;
        }
        if i == start {
            return None;
        }
    }
    assert(offset_start(bs) == Some(i as int));
    let offset_secs: i64 = if i < b.len() && (b[i] == 90 || b[i] == 122) {
        if i + 1 != b.len() {
            return None;
        }
        0
    } else if b.len() >= 6 && i == b.len() - 6 && (b[i] == 43 || b[i] == 45) {
        let sign: i64 = if b[i] == 43 {
            1
        } else {
            -1
        };
        let oh = match parse_digits(b, i + 1, i + 3) {
            Some(v) => v,
            None => return None,
        };
        if b[i + 3] != 58 {
            return None;
        }
        let om = match parse_digits(b, i + 4, i + 6) {
            Some(v) => v,
            None => return None,
        };
        if oh > 23 || om > 59 {
            return None;
        }
        sign * (oh * 3600 + om * 60)
    } else {
        return None;
    };
    let days = civil_days(year, month, day);
    Some(days * 86400 + hour * 3600 + minute * 60 + second - offset_secs)
}

// ---------------------------------------------------------------------------
// Normalization.
// ---------------------------------------------------------------------------

/// An integer that fits in 64 bits.
pub open spec fn fits_i64(n: int) -> Option<int> {
    if i64::MIN <= n <= i64::MAX {
        Some(n)
    } else {
        None
    }
}

/// Epoch seconds of a bare number (integer, or binary64 truncated toward zero).
pub open spec fn number_seconds(v: VModel) -> Option<int> {
    match v {
        VModel::Int(n) => fits_i64(n),
        VModel::Float(f) => truncate_spec(f),
        _ => None,
    }
}

/// The value of the first entry whose key is the integer 1.
pub open spec fn first_key_one(m: Seq<(VModel, VModel)>) -> Option<VModel>
    decreases m.len(),
{
    if m.len() == 0 {
        None
    } else if m[0].0 == VModel::Int(1) {
        Some(m[0].1)
    } else {
        first_key_one(m.drop_first())
    }
}

/// The base time of an RFC 9581 etime body (key 1 as epoch seconds).
pub open spec fn etime_spec(body: VModel) -> Option<int> {
    match body {
        VModel::Mapping(m) => match first_key_one(m) {
            Some(v) => number_seconds(v),
            None => None,
        },
        _ => None,
    }
}

/// Epoch seconds of an instant encoding.
pub open spec fn instant_spec(v: VModel) -> Option<int> {
    match v {
        VModel::Int(n) => fits_i64(n),
        VModel::Float(f) => truncate_spec(f),
        VModel::Text(s) => rfc3339_spec(encode_utf8(s)),
        VModel::Tag(t, inner) => if t == 1 {
            number_seconds(*inner)
        } else if t == 0 {
            match *inner {
                VModel::Text(s) => rfc3339_spec(encode_utf8(s)),
                _ => None,
            }
        } else if t == 1001 {
            etime_spec(*inner)
        } else {
            None
        },
        _ => None,
    }
}

/// A period bound: `null` is open; otherwise an instant (`None` rejects the period).
pub open spec fn bound_spec(v: VModel) -> Option<Option<int>> {
    if v is Null {
        Some(None)
    } else {
        match instant_spec(v) {
            Some(x) => Some(Some(x)),
            None => None,
        }
    }
}

/// The optional duration of a period (`None` rejects the period; `Some(None)` is missing).
pub open spec fn duration_spec(v: VModel) -> Option<Option<int>> {
    match v {
        VModel::Int(_) => match number_seconds(v) {
            Some(x) => Some(Some(x)),
            None => None,
        },
        VModel::Float(_) => match number_seconds(v) {
            Some(x) => Some(Some(x)),
            None => None,
        },
        VModel::Tag(t, inner) => if t == 1002 {
            match *inner {
                VModel::Int(_) => match number_seconds(*inner) {
                    Some(x) => Some(Some(x)),
                    None => None,
                },
                VModel::Float(_) => match number_seconds(*inner) {
                    Some(x) => Some(Some(x)),
                    None => None,
                },
                _ => Some(None),
            }
        } else {
            None
        },
        VModel::Null => Some(None),
        _ => None,
    }
}

/// `a + b` saturated to the 64-bit range.
pub open spec fn saturating_add_spec(a: int, b: int) -> int {
    if a + b > i64::MAX {
        i64::MAX as int
    } else if a + b < i64::MIN {
        i64::MIN as int
    } else {
        a + b
    }
}

/// A `#6.1003([start, end, ?duration])` period; an open end with a start and a duration
/// ends at `start + duration`.
pub open spec fn period_spec(v: VModel) -> Option<TcbdateModel> {
    match v {
        VModel::Tag(t, inner) => if t == 1003 {
            match *inner {
                VModel::Array(items) => if 2 <= items.len() <= 3 {
                    match (bound_spec(items[0]), bound_spec(items[1])) {
                        (Some(start), Some(end)) => {
                            let dur = if items.len() == 3 {
                                duration_spec(items[2])
                            } else {
                                Some(None)
                            };
                            match dur {
                                None => None,
                                Some(d) => {
                                    let hi = if end is Some {
                                        end
                                    } else if start is Some && d is Some {
                                        Some(saturating_add_spec(start->0, d->0))
                                    } else {
                                        None
                                    };
                                    Some(TcbdateModel::Period { lo: start, hi })
                                },
                            }
                        },
                        _ => None,
                    }
                } else {
                    None
                },
                _ => None,
            }
        } else {
            None
        },
        _ => None,
    }
}

/// The normalized form of a tcbdate value, if it has one.
pub open spec fn normalize_spec(v: VModel) -> Option<TcbdateModel> {
    match period_spec(v) {
        Some(p) => Some(p),
        None => match instant_spec(v) {
            Some(x) => Some(TcbdateModel::Instant(x)),
            None => None,
        },
    }
}

/// Whether evidence matches a reference under the tcbdate exact-match contract.
pub open spec fn tcbdate_match_spec(r: VModel, e: VModel) -> bool {
    match (normalize_spec(r), normalize_spec(e)) {
        (Some(TcbdateModel::Instant(a)), Some(TcbdateModel::Instant(b))) => a == b,
        (Some(TcbdateModel::Period { lo, hi }), Some(TcbdateModel::Instant(x))) => (lo is None
            || x >= lo->0) && (hi is None || x <= hi->0),
        (
            Some(TcbdateModel::Period { lo: rlo, hi: rhi }),
            Some(TcbdateModel::Period { lo: elo, hi: ehi }),
        ) => rlo == elo && rhi == ehi,
        (Some(TcbdateModel::Instant(_)), Some(TcbdateModel::Period { .. })) => false,
        _ => value_eq(r, e),
    }
}

fn integer_seconds(n: i128) -> (r: Option<i64>)
    ensures
        opt_int(r) == fits_i64(n as int),
{
    if n >= -0x8000_0000_0000_0000i128 && n <= 0x7fff_ffff_ffff_ffffi128 {
        Some(n as i64)
    } else {
        None
    }
}

fn float_seconds(f: u64) -> (r: Option<i64>)
    ensures
        opt_int(r) == truncate_spec(f),
{
    binary64_to_i64(f)
}

fn number_seconds_of(v: &Value) -> (r: Option<i64>)
    ensures
        opt_int(r) == number_seconds(v@),
{
    match v {
        Value::Integer(n) => integer_seconds(*n),
        Value::Float(f) => float_seconds(*f),
        _ => None,
    }
}

/// Extract the base time from an RFC 9581 etime body.
fn etime_basetime(body: &Value) -> (r: Option<i64>)
    ensures
        opt_int(r) == etime_spec(body@),
{
    let entries = match body {
        Value::Mapping(m) => m,
        _ => return None,
    };
    let ghost ms = model_pairs(entries@);
    proof {
        lemma_model_pairs(entries@);
        assert(ms.skip(0) =~= ms);
    }
    let mut i: usize = 0;
    while i < entries.len()
        invariant
            i <= entries@.len(),
            ms == model_pairs(entries@),
            ms.len() == entries@.len(),
            forall|j: int| 0 <= j < entries@.len() ==> #[trigger] ms[j] == (
                entries@[j].0@,
                entries@[j].1@,
            ),
            first_key_one(ms) == first_key_one(ms.skip(i as int)),
            body@ == VModel::Mapping(ms),
        decreases entries@.len() - i,
    {
        let (k, v) = (&entries[i].0, &entries[i].1);
        proof {
            assert(ms.skip(i as int)[0] == ms[i as int]);
            assert(ms.skip(i as int).drop_first() =~= ms.skip(i + 1));
        }
        let key = match k {
            Value::Integer(n) => *n,
            _ => {
                i += 1;
                continue;
            },
        };
        if key == 1 {
            return number_seconds_of(v);
        }
        i += 1;
    }
    proof {
        assert(ms.skip(i as int).len() == 0);
    }
    None
}

fn instant_of(v: &Value) -> (r: Option<i64>)
    ensures
        opt_int(r) == instant_spec(v@),
{
    match v {
        Value::Integer(n) => integer_seconds(*n),
        Value::Float(f) => float_seconds(*f),
        Value::Tag(t, inner) => {
            if *t == 1 {
                number_seconds_of(inner)
            } else if *t == 0 {
                match &**inner {
                    Value::Text(s) => rfc3339_to_epoch_seconds(s.as_str()),
                    _ => None,
                }
            } else if *t == 1001 {
                etime_basetime(inner)
            } else {
                None
            }
        },
        Value::Text(s) => rfc3339_to_epoch_seconds(s.as_str()),
        _ => None,
    }
}

fn bound_of(v: &Value) -> (r: Option<Option<i64>>)
    ensures
        r matches Some(x) ==> bound_spec(v@) == Some(opt_int(x)),
        r is None ==> bound_spec(v@) is None,
{
    if let Value::Null = v {
        return Some(None);
    }
    match instant_of(v) {
        Some(x) => Some(Some(x)),
        None => None,
    }
}

fn duration_of(v: &Value) -> (r: Option<Option<i64>>)
    ensures
        r matches Some(x) ==> duration_spec(v@) == Some(opt_int(x)),
        r is None ==> duration_spec(v@) is None,
{
    match v {
        Value::Integer(_) | Value::Float(_) => match number_seconds_of(v) {
            Some(x) => Some(Some(x)),
            None => None,
        },
        Value::Tag(t, inner) => {
            if *t == 1002 {
                match &**inner {
                    Value::Integer(_) | Value::Float(_) => match number_seconds_of(inner) {
                        Some(x) => Some(Some(x)),
                        None => None,
                    },
                    _ => Some(None),
                }
            } else {
                None
            }
        },
        Value::Null => Some(None),
        _ => None,
    }
}

fn saturating_add(a: i64, b: i64) -> (r: i64)
    ensures
        r == saturating_add_spec(a as int, b as int),
{
    if b > 0 && a > i64::MAX - b {
        i64::MAX
    } else if b < 0 && a < i64::MIN - b {
        i64::MIN
    } else {
        a + b
    }
}

/// Normalize a `#6.1003` period.
fn normalize_period(v: &Value) -> (r: Option<Tcbdate>)
    ensures
        r matches Some(p) ==> period_spec(v@) == Some(p@),
        r is None ==> period_spec(v@) is None,
{
    let body = match v {
        Value::Tag(t, inner) => {
            if *t == 1003 {
                &**inner
            } else {
                return None;
            }
        },
        _ => return None,
    };
    assert(v@ == VModel::Tag(1003, Box::new(body@)));
    let items = match body {
        Value::Array(a) => a,
        _ => return None,
    };
    proof {
        lemma_model_list(items@);
        assert(body@ == VModel::Array(model_list(items@)));
    }
    if items.len() < 2 || items.len() > 3 {
        return None;
    }
    let start = match bound_of(&items[0]) {
        Some(x) => x,
        None => return None,
    };
    let end = match bound_of(&items[1]) {
        Some(x) => x,
        None => return None,
    };
    let duration = if items.len() == 3 {
        match duration_of(&items[2]) {
            Some(d) => d,
            None => return None,
        }
    } else {
        None
    };
    let lo = start;
    let hi = match (end, start, duration) {
        (Some(_), _, _) => end,
        (None, Some(l), Some(d)) => Some(saturating_add(l, d)),
        _ => None,
    };
    Some(Tcbdate::Period { lo, hi })
}

/// Normalize a tcbdate value to an instant or a period.
pub fn normalize(v: &Value) -> (r: Option<Tcbdate>)
    ensures
        r matches Some(t) ==> normalize_spec(v@) == Some(t@),
        r is None ==> normalize_spec(v@) is None,
{
    if let Some(p) = normalize_period(v) {
        return Some(p);
    }
    match instant_of(v) {
        Some(x) => Some(Tcbdate::Instant(x)),
        None => None,
    }
}

/// Compare a tcbdate reference value with an evidence value under the exact-match
/// contract of v07 §8.3.4 (see the module documentation for the matching matrix).
pub fn match_tcbdate(reference: &Value, evidence: &Value) -> (v: Verdict)
    ensures
        v == verdict_of(tcbdate_match_spec(reference@, evidence@)),
{
    let ref_norm = normalize(reference);
    let ev_norm = normalize(evidence);
    match (ref_norm, ev_norm) {
        (Some(Tcbdate::Instant(r)), Some(Tcbdate::Instant(e))) => bool_verdict(r == e),
        (Some(Tcbdate::Period { lo, hi }), Some(Tcbdate::Instant(e))) => {
            let lo_ok = match lo {
                Some(l) => e >= l,
                None => true,
            };
            let hi_ok = match hi {
                Some(h) => e <= h,
                None => true,
            };
            bool_verdict(lo_ok && hi_ok)
        },
        (Some(Tcbdate::Period { lo: rlo, hi: rhi }), Some(Tcbdate::Period { lo: elo, hi: ehi })) => {
            bool_verdict(rlo == elo && rhi == ehi)
        },
        (Some(Tcbdate::Instant(_)), Some(Tcbdate::Period { .. })) => Verdict::Fail,
        _ => bool_verdict(values_equal(reference, evidence)),
    }
}

// ---------------------------------------------------------------------------
// Laws of the UTC offset.
// ---------------------------------------------------------------------------

/// The two-digit decimal value of `d1 d2`.
pub open spec fn two_digits(d1: u8, d2: u8) -> int {
    (d1 - 48) * 10 + (d2 - 48)
}

/// A numeric offset `<sign>HH:MM`.
pub open spec fn offset_suffix(sign: u8, h1: u8, h2: u8, m1: u8, m2: u8) -> Seq<u8> {
    seq![sign, h1, h2, 58u8, m1, m2]
}

proof fn lemma_digit_run_same(x: Seq<u8>, y: Seq<u8>, i: int, l: int)
    requires
        0 <= i <= l,
        l < x.len(),
        l < y.len(),
        forall|j: int| i <= j < l ==> x[j] == y[j],
        !is_digit(x[l]),
        !is_digit(y[l]),
    ensures
        digit_run(x, i) == digit_run(y, i),
    decreases l - i,
{
    if i < l {
        lemma_digit_run_same(x, y, i + 1, l);
    }
}

/// A timestamp written with the offset `<sign>HH:MM` in place of `Z` is read as the same
/// wall-clock time in that zone, so its epoch seconds are those of the `Z` form minus the
/// offset: `-HH:MM` adds `HH*3600 + MM*60` seconds, `+HH:MM` takes them away.
pub proof fn lemma_offset_shifts_instant(b: Seq<u8>, sign: u8, h1: u8, h2: u8, m1: u8, m2: u8)
    requires
        rfc3339_spec(b.push(90u8)) is Some,
        sign == 43 || sign == 45,
        is_digit(h1) && is_digit(h2) && is_digit(m1) && is_digit(m2),
        two_digits(h1, h2) <= 23,
        two_digits(m1, m2) <= 59,
    ensures
        rfc3339_spec(b + offset_suffix(sign, h1, h2, m1, m2)) == Some(
            rfc3339_spec(b.push(90u8))->0 + (if sign == 45 { 1int } else { -1int }) * (two_digits(h1, h2) * 3600 + two_digits(m1, m2) * 60),
        ),
{
    let z = b.push(90u8);
    let n = b + offset_suffix(sign, h1, h2, m1, m2);
    let l = b.len() as int;
    assert forall|j: int| 0 <= j < l implies z[j] == n[j] && z[j] == b[j] by {}
    assert(n[l] == sign);
    assert(z[l] == 90u8);
    assert(l >= 19);
    assert forall|lo: int, hi: int| 0 <= lo <= hi <= 19 implies field(z, lo, hi) == field(n, lo, hi) by {
        assert(z.subrange(lo, hi) =~= n.subrange(lo, hi));
        if forall|i: int| lo <= i < hi ==> #[trigger] is_digit(z[i]) {
            assert forall|i: int| lo <= i < hi implies #[trigger] is_digit(n[i]) by {
                assert(is_digit(z[i]));
            }
        }
        if forall|i: int| lo <= i < hi ==> #[trigger] is_digit(n[i]) {
            assert forall|i: int| lo <= i < hi implies #[trigger] is_digit(z[i]) by {
                assert(is_digit(n[i]));
            }
        }
    }
    assert(field(z, 0, 4) == field(n, 0, 4));
    assert(field(z, 5, 7) == field(n, 5, 7));
    assert(field(z, 8, 10) == field(n, 8, 10));
    assert(field(z, 11, 13) == field(n, 11, 13));
    assert(field(z, 14, 16) == field(n, 14, 16));
    assert(field(z, 17, 19) == field(n, 17, 19));
    if l > 19 {
        assert(z[19] == n[19]);
        if z[19] == 46 {
            lemma_digit_run_same(z, n, 20, l);
        }
    }
    assert(offset_start(z) == offset_start(n));
    let i0 = offset_start(z)->0;
    assert(i0 == l) by {
        if z[i0] == 90 || z[i0] == 122 {
        } else {
            assert(i0 + 6 == z.len());
            assert(!is_digit(z[i0 + 5]));
        }
    }
    assert(offset_seconds(z, l) == Some(0int));
    assert(n.subrange(l + 1, l + 3) =~= seq![h1, h2]);
    assert(n.subrange(l + 4, l + 6) =~= seq![m1, m2]);
    reveal_with_fuel(digits_value, 3);
    assert(digits_value(seq![h1, h2]) == two_digits(h1, h2)) by {
        assert(seq![h1, h2].drop_last() =~= seq![h1]);
        assert(seq![h1].drop_last() =~= Seq::<u8>::empty());
    }
    assert(digits_value(seq![m1, m2]) == two_digits(m1, m2)) by {
        assert(seq![m1, m2].drop_last() =~= seq![m1]);
        assert(seq![m1].drop_last() =~= Seq::<u8>::empty());
    }
    assert(field(n, l + 1, l + 3) == Some(two_digits(h1, h2)));
    assert(field(n, l + 4, l + 6) == Some(two_digits(m1, m2)));
    assert(n[l + 3] == 58u8);
    let x = two_digits(h1, h2) * 3600 + two_digits(m1, m2) * 60;
    if sign == 43 {
        assert(offset_seconds(n, l) == Some(x));
        assert((-1int) * x == -x);
    } else {
        assert((-1int) * x == -x);
        assert(offset_seconds(n, l) == Some(-x));
    }
    assert(n.len() >= 20);
    assert(n[4] == z[4] && n[7] == z[7] && n[10] == z[10] && n[13] == z[13] && n[16] == z[16]);
}

/// The same offset written with `-` and with `+` gives instants twice the offset apart.
pub proof fn lemma_offset_sign_difference(b: Seq<u8>, h1: u8, h2: u8, m1: u8, m2: u8)
    requires
        rfc3339_spec(b.push(90u8)) is Some,
        is_digit(h1) && is_digit(h2) && is_digit(m1) && is_digit(m2),
        two_digits(h1, h2) <= 23,
        two_digits(m1, m2) <= 59,
    ensures
        rfc3339_spec(b + offset_suffix(45u8, h1, h2, m1, m2))->0 - rfc3339_spec(b + offset_suffix(43u8, h1, h2, m1, m2))->0
            == 2 * (two_digits(h1, h2) * 3600 + two_digits(m1, m2) * 60),
{
    lemma_offset_shifts_instant(b, 45u8, h1, h2, m1, m2);
    lemma_offset_shifts_instant(b, 43u8, h1, h2, m1, m2);
}

} // verus!
