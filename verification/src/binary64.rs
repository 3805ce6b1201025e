//! IEEE 754 binary64 values read from their bit patterns with integer arithmetic only:
//! classification, exact ordering, conversion from integers (round to nearest, ties to
//! even) and truncation toward zero.
//!
//! A finite binary64 value `v` is an integer multiple of `2^-1074`; every value handled
//! here is described by `v * 2^1126`, an integer (the extra `2^52` leaves room to
//! normalise subnormal significands).
use vstd::prelude::*;
use vstd::arithmetic::power2::*;
use vstd::arithmetic::div_mod::*;
use vstd::arithmetic::mul::*;

verus! {

/// `2^52`.
pub open spec fn two52() -> int {
    0x10_0000_0000_0000
}

/// `2^53`.
pub open spec fn two53() -> int {
    0x20_0000_0000_0000
}

/// The biased exponent field of a bit pattern.
pub open spec fn exp_field(b: u64) -> int {
    (b as int / two52()) % 2048
}

/// The fraction field of a bit pattern.
pub open spec fn frac_field(b: u64) -> int {
    b as int % two52()
}

/// The sign bit of a bit pattern.
pub open spec fn sign_bit(b: u64) -> bool {
    b as int >= 0x8000_0000_0000_0000
}

/// Not a number.
pub open spec fn is_nan(b: u64) -> bool {
    exp_field(b) == 2047 && frac_field(b) != 0
}

/// An infinity.
pub open spec fn is_infinite(b: u64) -> bool {
    exp_field(b) == 2047 && frac_field(b) == 0
}

/// The integer significand (implicit leading bit included for normal numbers).
pub open spec fn significand(b: u64) -> int {
    if exp_field(b) == 0 {
        frac_field(b)
    } else {
        frac_field(b) + two52()
    }
}

/// `|v| * 2^1126` for a finite bit pattern.
pub open spec fn scaled_magnitude(b: u64) -> int {
    significand(b) * pow2((if exp_field(b) == 0 { 1 } else { exp_field(b) } + 51) as nat)
}

/// `v * 2^1126` for a finite bit pattern.
pub open spec fn scaled_value(b: u64) -> int {
    if sign_bit(b) {
        -scaled_magnitude(b)
    } else {
        scaled_magnitude(b)
    }
}

/// A zero of either sign.
pub open spec fn is_zero(b: u64) -> bool {
    exp_field(b) == 0 && frac_field(b) == 0
}

/// Equality of two binary64 values: `NaN` equals nothing, and the two zeros are equal.
pub open spec fn binary64_eq(a: u64, b: u64) -> bool {
    !is_nan(a) && !is_nan(b) && (a == b || (is_zero(a) && is_zero(b)))
}

/// A point of the extended real line: `rank` is `-1` for `-inf`, `1` for `+inf`, `0` for a
/// finite value whose `value * 2^1126` is `scaled`.
pub struct Extended {
    pub rank: int,
    pub scaled: int,
}

/// The extended value of a non-NaN bit pattern.
pub open spec fn extended_of_bits(b: u64) -> Extended {
    if is_infinite(b) {
        Extended { rank: if sign_bit(b) { -1 } else { 1 }, scaled: 0 }
    } else {
        Extended { rank: 0, scaled: scaled_value(b) }
    }
}

/// Three-way comparison of extended values.
pub open spec fn compare_extended(x: Extended, y: Extended) -> int {
    if x.rank < y.rank {
        -1
    } else if x.rank > y.rank {
        1
    } else if x.rank != 0 {
        0
    } else if x.scaled < y.scaled {
        -1
    } else if x.scaled > y.scaled {
        1
    } else {
        0
    }
}

/// The number of low bits dropped when a magnitude is rounded to 53 significant bits.
pub open spec fn shift_for(m: nat) -> nat
    decreases m,
{
    if m < two53() {
        0
    } else {
        1 + shift_for(m / 2)
    }
}

/// A magnitude rounded to 53 significant bits, to nearest with ties to even.
pub open spec fn round_even(m: nat) -> int {
    if m < two53() {
        m as int
    } else {
        let k = shift_for(m);
        let p = pow2(k);
        let q = m / p;
        let r = m % p;
        let h = pow2((k - 1) as nat);
        (if r > h || (r == h && q % 2 == 1) {
            (q + 1) as int
        } else {
            q as int
        }) * p
    }
}

/// `n` converted to binary64 (as Rust's `as` does for a 128-bit integer), times `2^1126`.
pub open spec fn int_scaled(n: int) -> int {
    let r = round_even((if n < 0 { -n } else { n }) as nat);
    (if n < 0 { -r } else { r }) * pow2(1126)
}

/// A binary64 value in the form used for comparison: finite non-zero magnitudes are
/// normalised to `m * 2^e` (the value times `2^1126`) with `2^52 <= m < 2^53`.
pub enum Number {
    NaN,
    NegInf,
    PosInf,
    Zero,
    Pos { e: u32, m: u64 },
    Neg { e: u32, m: u64 },
}

impl Number {
    /// Normalised significands.
    pub open spec fn normal(self) -> bool {
        match self {
            Number::Pos { e, m } => two52() <= m < two53(),
            Number::Neg { e, m } => two52() <= m < two53(),
            _ => true,
        }
    }

    /// The extended value (meaningless for `NaN`).
    pub open spec fn extended(self) -> Extended {
        match self {
            Number::NaN => Extended { rank: 0, scaled: 0 },
            Number::NegInf => Extended { rank: -1, scaled: 0 },
            Number::PosInf => Extended { rank: 1, scaled: 0 },
            Number::Zero => Extended { rank: 0, scaled: 0 },
            Number::Pos { e, m } => Extended { rank: 0, scaled: m * pow2(e as nat) },
            Number::Neg { e, m } => Extended { rank: 0, scaled: -(m * pow2(e as nat)) },
        }
    }
}

proof fn lemma_pow2_values()
    ensures
        pow2(0) == 1,
        pow2(52) == two52(),
        pow2(53) == two53(),
        pow2(63) == 0x8000_0000_0000_0000,
        pow2(64) == 0x1_0000_0000_0000_0000,
{
    lemma2_to64();
    lemma_pow2_adds(32, 20);
    lemma_pow2_adds(32, 21);
    lemma_pow2_adds(32, 31);
}

/// Bring a non-zero magnitude `m * 2^e` to a significand in `[2^52, 2^53)`.
fn normalize(m: u64, e: u32) -> (r: (u64, u32))
    requires
        1 <= m < two53(),
        52 <= e,
    ensures
        two52() <= r.0 < two53(),
        r.0 * pow2(r.1 as nat) == m * pow2(e as nat),
{
    proof {
        lemma_pow2_values();
    }
    let mut mm = m;
    let mut ee = e;
    assert(pow2((e - ee) as nat) == 1);
    while mm < 0x10_0000_0000_0000
        invariant
            1 <= mm < two53(),
            ee <= e,
            pow2((e - ee) as nat) <= mm,
            mm * pow2(ee as nat) == m * pow2(e as nat),
            52 <= e,
            pow2(52) == two52(),
        decreases ee,
    {
        proof {
            if e - ee >= 52 {
                if e - ee > 52 {
                    lemma_pow2_strictly_increases(52, (e - ee) as nat);
                }
                assert(false);
            }
            lemma_pow2_unfold(ee as nat);
            lemma_pow2_unfold((e - ee + 1) as nat);
            assert(mm * pow2(ee as nat) == (2 * mm) * pow2((ee - 1) as nat)) by (nonlinear_arith)
                requires
                    pow2(ee as nat) == 2 * pow2((ee - 1) as nat),
            ;
        }
        mm = mm * 2;
        ee = ee - 1;
    }
    (mm, ee)
}

/// Read a bit pattern.
pub fn number_of_bits(b: u64) -> (n: Number)
    ensures
        n.normal(),
        n is NaN <==> is_nan(b),
        !is_nan(b) ==> n.extended() == extended_of_bits(b),
        (n is NegInf || n is PosInf) <==> is_infinite(b),
        n is Zero ==> scaled_magnitude(b) == 0,
        n matches Number::Pos { e, m } ==> !sign_bit(b) && scaled_magnitude(b) == m * pow2(
            e as nat,
        ),
        n matches Number::Neg { e, m } ==> sign_bit(b) && scaled_magnitude(b) == m * pow2(
            e as nat,
        ),
{
    proof {
        lemma_pow2_values();
    }
    let ef: u64 = (b / 0x10_0000_0000_0000) % 2048;
    let f: u64 = b % 0x10_0000_0000_0000;
    let neg = b >= 0x8000_0000_0000_0000;
    if ef == 2047 {
        if f != 0 {
            Number::NaN
        } else if neg {
            Number::NegInf
        } else {
            Number::PosInf
        }
    } else if ef == 0 {
        if f == 0 {
            proof {
                assert(exp_field(b) == 0);
                assert(frac_field(b) == 0);
                assert(significand(b) == 0);
                assert(scaled_magnitude(b) == 0 * pow2(52));
            }
            Number::Zero
        } else {
            let (m, e) = normalize(f, 52);
            if neg {
                Number::Neg { e, m }
            } else {
                Number::Pos { e, m }
            }
        }
    } else {
        let m = f + 0x10_0000_0000_0000;
        let e = (ef + 51) as u32;
        if neg {
            Number::Neg { e, m }
        } else {
            Number::Pos { e, m }
        }
    }
}


proof fn lemma_shift_step(m: nat, q: nat, k: nat)
    requires
        q == m / pow2(k),
        q >= two53(),
    ensures
        q / 2 == m / pow2(k + 1),
        pow2(k + 1) == 2 * pow2(k),
{
    lemma_pow2_pos(k);
    lemma_pow2_unfold(k + 1);
    lemma_div_denominator(m as int, pow2(k) as int, 2);
    assert(pow2(k) * 2 == 2 * pow2(k)) by (nonlinear_arith);
}

/// Convert an integer as Rust's `as` conversion to binary64 does (round to nearest, ties
/// to even).
pub fn number_of_int(n: i128) -> (r: Number)
    ensures
        r.normal(),
        !(r is NaN),
        r.extended() == (Extended { rank: 0, scaled: int_scaled(n as int) }),
{
    proof {
        lemma_pow2_values();
    }
    if n == 0 {
        assert(round_even(0) == 0);
        return Number::Zero;
    }
    let neg = n < 0;
    let m: u128 = if neg {
        ((-(n + 1)) as u128) + 1
    } else {
        n as u128
    };
    let ghost am: nat = (if n < 0 { -(n as int) } else { n as int }) as nat;
    assert(m == am);
    if m < 0x20_0000_0000_0000 {
        let (mm, e) = normalize(m as u64, 1126);
        proof {
            assert(round_even(am) == am);
            assert((-am) * pow2(1126) == -(am * pow2(1126))) by (nonlinear_arith);
        }
        if neg {
            Number::Neg { e, m: mm }
        } else {
            Number::Pos { e, m: mm }
        }
    } else {
        let mut q: u128 = m;
        let mut k: u32 = 0;
        let mut p: u128 = 1;
        proof {
            assert(am / pow2(0) == am);
        }
        while q >= 0x20_0000_0000_0000
            invariant
                q == am / pow2(k as nat),
                p == pow2(k as nat),
                shift_for(am) == k + shift_for(q as nat),
                p * q <= am,
                am == m,
                m < 0x1_0000_0000_0000_0000_0000_0000_0000_0000,
                k > 0 ==> q >= two52(),
                am >= two53(),
                pow2(0) == 1,
                k < 128,
            decreases q,
        {
            proof {
                lemma_pow2_adds(64, 64);
                lemma_pow2_values();
                assert(pow2((k + 1) as nat) <= am) by {
                    lemma_pow2_unfold((k + 1) as nat);
                    assert(p * 2 <= p * q) by (nonlinear_arith)
                        requires
                            q >= 2,
                            p >= 0,
                    ;
                }
                if k + 1 >= 128 {
                    if k + 1 > 128 {
                        lemma_pow2_strictly_increases(128, (k + 1) as nat);
                    }
                    assert(false);
                }
                lemma_shift_step(am, q as nat, k as nat);
                assert(p * 2 <= p * q) by (nonlinear_arith)
                    requires
                        q >= 2,
                        p >= 0,
                ;
                lemma_fundamental_div_mod(am as int, pow2((k + 1) as nat) as int);
                lemma_pow2_pos((k + 1) as nat);
                assert((p * 2) * (q / 2) <= am) by (nonlinear_arith)
                    requires
                        p * 2 == pow2((k + 1) as nat),
                        q / 2 == am / pow2((k + 1) as nat),
                        am == pow2((k + 1) as nat) * (am / pow2((k + 1) as nat)) + am % pow2(
                            (k + 1) as nat,
                        ),
                        am % pow2((k + 1) as nat) >= 0,
                ;
            }
            q = q / 2;
            k = k + 1;
            p = p * 2;
        }
        let ghost kk: nat = k as nat;
        proof {
            assert(k > 0);
            lemma_pow2_pos(kk);
            lemma_fundamental_div_mod(am as int, p as int);
            lemma_pow2_unfold(kk);
            assert(shift_for(q as nat) == 0);
        }
        let r: u128 = m - q * p;
        let h: u128 = p / 2;
        let up = r > h || (r == h && q % 2 == 1);
        let q2: u64 = if up {
            (q + 1) as u64
        } else {
            q as u64
        };
        proof {
            assert(r == am % pow2(kk));
            assert(h == pow2((kk - 1) as nat));
            assert(round_even(am) == q2 * pow2(kk));
            lemma_pow2_adds(kk, 1126);
            assert(q2 * pow2(kk) * pow2(1126) == q2 * pow2(kk + 1126)) by (nonlinear_arith)
                requires
                    pow2(kk + 1126) == pow2(kk) * pow2(1126),
            ;
        }
        if q2 == 0x20_0000_0000_0000 {
            let e = k + 1127;
            proof {
                lemma_pow2_adds(1, kk + 1126);
                lemma2_to64();
                assert(q2 * pow2(kk + 1126) == 0x10_0000_0000_0000 * pow2((kk + 1127) as nat))
                    by (nonlinear_arith)
                    requires
                        q2 == 0x20_0000_0000_0000,
                        pow2((kk + 1127) as nat) == pow2(1) * pow2(kk + 1126),
                        pow2(1) == 2,
                ;
                let x = round_even(am);
                assert((-x) * pow2(1126) == -(x * pow2(1126))) by (nonlinear_arith);
                assert(int_scaled(n as int) == (if n < 0 { -x } else { x }) * pow2(1126));
            }
            if neg {
                Number::Neg { e, m: 0x10_0000_0000_0000 }
            } else {
                Number::Pos { e, m: 0x10_0000_0000_0000 }
            }
        } else {
            let e = k + 1126;
            proof {
                let x = round_even(am);
                assert((-x) * pow2(1126) == -(x * pow2(1126))) by (nonlinear_arith);
                assert(int_scaled(n as int) == (if n < 0 { -x } else { x }) * pow2(1126));
            }
            if neg {
                Number::Neg { e, m: q2 }
            } else {
                Number::Pos { e, m: q2 }
            }
        }
    }
}

proof fn lemma_magnitude_order(e1: nat, m1: int, e2: nat, m2: int)
    requires
        two52() <= m1 < two53(),
        two52() <= m2 < two53(),
        e1 < e2 || (e1 == e2 && m1 < m2),
    ensures
        m1 * pow2(e1) < m2 * pow2(e2),
{
    lemma_pow2_values();
    lemma_pow2_pos(e1);
    lemma_pow2_pos(e2);
    if e1 == e2 {
        assert(m1 * pow2(e1) < m2 * pow2(e2)) by (nonlinear_arith)
            requires
                m1 < m2,
                pow2(e1) > 0,
                e1 == e2,
        ;
    } else {
        lemma_pow2_adds(53, e1);
        lemma_pow2_adds(52, e2);
        if 53 + e1 < 52 + e2 {
            lemma_pow2_strictly_increases(53 + e1, 52 + e2);
        }
        assert(m1 * pow2(e1) < pow2(53) * pow2(e1)) by (nonlinear_arith)
            requires
                m1 < pow2(53),
                pow2(e1) > 0,
        ;
        assert(pow2(52) * pow2(e2) <= m2 * pow2(e2)) by (nonlinear_arith)
            requires
                pow2(52) <= m2,
                pow2(e2) > 0,
        ;
    }
}

fn compare_magnitudes(e1: u32, m1: u64, e2: u32, m2: u64) -> (c: i8)
    requires
        two52() <= m1 < two53(),
        two52() <= m2 < two53(),
    ensures
        c == (if m1 * pow2(e1 as nat) < m2 * pow2(e2 as nat) {
            -1int
        } else if m1 * pow2(e1 as nat) > m2 * pow2(e2 as nat) {
            1int
        } else {
            0int
        }),
{
    if e1 < e2 || (e1 == e2 && m1 < m2) {
        proof {
            lemma_magnitude_order(e1 as nat, m1 as int, e2 as nat, m2 as int);
        }
        -1
    } else if e1 > e2 || (e1 == e2 && m1 > m2) {
        proof {
            lemma_magnitude_order(e2 as nat, m2 as int, e1 as nat, m1 as int);
        }
        1
    } else {
        0
    }
}

/// Three-way comparison of two non-NaN numbers.
pub fn compare_numbers(a: &Number, b: &Number) -> (c: i8)
    requires
        a.normal(),
        b.normal(),
        !(a is NaN),
        !(b is NaN),
    ensures
        c == compare_extended(a.extended(), b.extended()),
{
    let ra: i8 = match a {
        Number::NegInf => -1,
        Number::PosInf => 1,
        _ => 0,
    };
    let rb: i8 = match b {
        Number::NegInf => -1,
        Number::PosInf => 1,
        _ => 0,
    };
    if ra < rb {
        return -1;
    }
    if ra > rb {
        return 1;
    }
    if ra != 0 {
        return 0;
    }
    match (a, b) {
        (Number::Zero, Number::Zero) => 0,
        (Number::Zero, Number::Pos { e, m }) => {
            proof {
                lemma_pow2_pos(*e as nat);
                assert(*m * pow2(*e as nat) > 0) by (nonlinear_arith)
                    requires
                        *m > 0,
                        pow2(*e as nat) > 0,
                ;
            }
            -1
        },
        (Number::Zero, Number::Neg { e, m }) => {
            proof {
                lemma_pow2_pos(*e as nat);
                assert(*m * pow2(*e as nat) > 0) by (nonlinear_arith)
                    requires
                        *m > 0,
                        pow2(*e as nat) > 0,
                ;
            }
            1
        },
        (Number::Pos { e, m }, Number::Zero) => {
            proof {
                lemma_pow2_pos(*e as nat);
                assert(*m * pow2(*e as nat) > 0) by (nonlinear_arith)
                    requires
                        *m > 0,
                        pow2(*e as nat) > 0,
                ;
            }
            1
        },
        (Number::Neg { e, m }, Number::Zero) => {
            proof {
                lemma_pow2_pos(*e as nat);
                assert(*m * pow2(*e as nat) > 0) by (nonlinear_arith)
                    requires
                        *m > 0,
                        pow2(*e as nat) > 0,
                ;
            }
            -1
        },
        (Number::Pos { e: e1, m: m1 }, Number::Neg { e: e2, m: m2 }) => {
            proof {
                lemma_pow2_pos(*e1 as nat);
                lemma_pow2_pos(*e2 as nat);
                assert(*m1 * pow2(*e1 as nat) > 0 && *m2 * pow2(*e2 as nat) > 0)
                    by (nonlinear_arith)
                    requires
                        *m1 > 0,
                        pow2(*e1 as nat) > 0,
                        *m2 > 0,
                        pow2(*e2 as nat) > 0,
                ;
            }
            1
        },
        (Number::Neg { e: e1, m: m1 }, Number::Pos { e: e2, m: m2 }) => {
            proof {
                lemma_pow2_pos(*e1 as nat);
                lemma_pow2_pos(*e2 as nat);
                assert(*m1 * pow2(*e1 as nat) > 0 && *m2 * pow2(*e2 as nat) > 0)
                    by (nonlinear_arith)
                    requires
                        *m1 > 0,
                        pow2(*e1 as nat) > 0,
                        *m2 > 0,
                        pow2(*e2 as nat) > 0,
                ;
            }
            -1
        },
        (Number::Pos { e: e1, m: m1 }, Number::Pos { e: e2, m: m2 }) => {
            compare_magnitudes(*e1, *m1, *e2, *m2)
        },
        (Number::Neg { e: e1, m: m1 }, Number::Neg { e: e2, m: m2 }) => {
            compare_magnitudes(*e2, *m2, *e1, *m1)
        },
        _ => 0,
    }
}

/// Truncation toward zero of a bit pattern to a 64-bit integer, as
/// `if v is NaN or infinite or v < -2^63 or v > 2^63 { None } else { Some(v as i64) }`
/// computes it (`2^63` itself saturates to `i64::MAX`).
pub open spec fn truncate_spec(b: u64) -> Option<int> {
    if is_nan(b) || is_infinite(b) {
        None
    } else {
        let mag = scaled_magnitude(b);
        let limit = pow2(63) * pow2(1126);
        if mag > limit {
            None
        } else {
            let t = mag / pow2(1126) as int;
            if sign_bit(b) {
                Some(-t)
            } else if t == pow2(63) {
                Some(pow2(63) - 1)
            } else {
                Some(t)
            }
        }
    }
}

fn pow2_u64(d: u32) -> (p: u64)
    requires
        d < 64,
    ensures
        p == pow2(d as nat),
{
    proof {
        lemma2_to64();
    }
    let mut p: u64 = 1;
    let mut i: u32 = 0;
    while i < d
        invariant
            i <= d < 64,
            p == pow2(i as nat),
        decreases d - i,
    {
        proof {
            lemma_pow2_unfold((i + 1) as nat);
            lemma_pow2_strictly_increases((i + 1) as nat, 64);
            lemma2_to64();
        }
        p = p * 2;
        i = i + 1;
    }
    p
}

/// Truncate a bit pattern toward zero to a 64-bit integer; `None` for NaN, infinities and
/// values outside `[-2^63, 2^63]`.
pub fn binary64_to_i64(b: u64) -> (r: Option<i64>)
    ensures
        r matches Some(x) ==> truncate_spec(b) == Some(x as int),
        r is None ==> truncate_spec(b) is None,
{
    proof {
        lemma_pow2_values();
    }
    let n = number_of_bits(b);
    match n {
        Number::NaN => None,
        Number::NegInf => None,
        Number::PosInf => None,
        Number::Zero => {
            proof {
                lemma_pow2_pos(1126);
                lemma_pow2_pos(63);
                assert(pow2(63) * pow2(1126) > 0) by (nonlinear_arith)
                    requires
                        pow2(63) > 0,
                        pow2(1126) > 0,
                ;
                assert(0int / (pow2(1126) as int) == 0);
            }
            Some(0)
        },
        Number::Pos { e, m } => {
            let t = truncate_magnitude(e, m);
            match t {
                None => None,
                Some(t) => {
                    if t == 0x8000_0000_0000_0000u64 {
                        Some(0x7fff_ffff_ffff_ffffi64)
                    } else {
                        Some(t as i64)
                    }
                },
            }
        },
        Number::Neg { e, m } => {
            let t = truncate_magnitude(e, m);
            match t {
                None => None,
                Some(t) => {
                    if t == 0x8000_0000_0000_0000u64 {
                        Some(-0x8000_0000_0000_0000i64)
                    } else {
                        Some(-(t as i64))
                    }
                },
            }
        },
    }
}

/// `floor(m * 2^e / 2^1126)` when `m * 2^e <= 2^63 * 2^1126`.
fn truncate_magnitude(e: u32, m: u64) -> (r: Option<u64>)
    requires
        two52() <= m < two53(),
    ensures
        r is None <==> m * pow2(e as nat) > pow2(63) * pow2(1126),
        r matches Some(t) ==> t == (m * pow2(e as nat)) / pow2(1126) as int && t <= pow2(63),
{
    proof {
        lemma_pow2_values();
        lemma_pow2_pos(1126);
        lemma_pow2_pos(e as nat);
    }
    if e >= 1126 {
        let d = e - 1126;
        let ghost dd: nat = d as nat;
        proof {
            lemma_pow2_adds(dd, 1126);
            assert(m * pow2(e as nat) == (m * pow2(dd)) * pow2(1126)) by (nonlinear_arith)
                requires
                    pow2(e as nat) == pow2(dd) * pow2(1126),
            ;
            lemma_div_multiples_vanish(m * pow2(dd), pow2(1126) as int);
            assert((m * pow2(dd)) * pow2(1126) == pow2(1126) * (m * pow2(dd))) by (nonlinear_arith);
        }
        if d > 11 {
            proof {
                lemma_pow2_adds(52, dd);
                lemma_pow2_strictly_increases(63, 52 + dd);
                assert(m * pow2(dd) >= pow2(52) * pow2(dd)) by (nonlinear_arith)
                    requires
                        m >= pow2(52),
                        pow2(dd) > 0,
                ;
                lemma_pow2_pos(1126);
                assert((m * pow2(dd)) * pow2(1126) > pow2(63) * pow2(1126)) by (nonlinear_arith)
                    requires
                        m * pow2(dd) > pow2(63),
                        pow2(1126) > 0,
                ;
            }
            None
        } else {
            let p = pow2_u64(d);
            proof {
                lemma_pow2_adds(53, dd);
                lemma_pow2_adds(52, dd);
                lemma_pow2_pos(dd);
                if dd < 11 {
                    lemma_pow2_strictly_increases(53 + dd, 64);
                } else {
                    lemma2_to64();
                    lemma_pow2_adds(11, 52);
                }
                assert(m * pow2(dd) < pow2(53) * pow2(dd)) by (nonlinear_arith)
                    requires
                        m < pow2(53),
                        pow2(dd) > 0,
                ;
            }
            let v: u128 = (m as u128) * (p as u128);
            if v > 0x8000_0000_0000_0000u128 {
                proof {
                    assert((m * pow2(dd)) * pow2(1126) > pow2(63) * pow2(1126)) by (nonlinear_arith)
                        requires
                            m * pow2(dd) > pow2(63),
                            pow2(1126) > 0,
                    ;
                }
                None
            } else {
                proof {
                    assert((m * pow2(dd)) * pow2(1126) <= pow2(63) * pow2(1126)) by (nonlinear_arith)
                        requires
                            m * pow2(dd) <= pow2(63),
                            pow2(1126) > 0,
                    ;
                }
                Some(v as u64)
            }
        }
    } else {
        let d = 1126 - e;
        let ghost dd: nat = d as nat;
        proof {
            lemma_pow2_adds(e as nat, dd);
            lemma_div_denominator(m * pow2(e as nat), pow2(e as nat) as int, pow2(dd) as int);
            lemma_div_multiples_vanish(m as int, pow2(e as nat) as int);
            assert(m * pow2(e as nat) == pow2(e as nat) * m) by (nonlinear_arith);
            lemma_pow2_strictly_increases(e as nat, 1126);
            assert(pow2(63) * pow2(1126) >= pow2(1126)) by (nonlinear_arith)
                requires
                    pow2(63) >= 1,
                    pow2(1126) > 0,
            ;
            assert(m * pow2(e as nat) < pow2(53) * pow2(e as nat)) by (nonlinear_arith)
                requires
                    m < pow2(53),
                    pow2(e as nat) > 0,
            ;
            lemma_pow2_adds(53, e as nat);
        }
        if d >= 54 {
            proof {
                lemma_pow2_strictly_increases(53, dd);
                lemma_div_pos_is_pos(m as int, pow2(dd) as int);
                assert((m as int) / (pow2(dd) as int) == 0) by {
                    lemma_basic_div(m as int, pow2(dd) as int);
                }
                if 53 + e < 1126 {
                    lemma_pow2_strictly_increases(53 + e as nat, 1126);
                }
                lemma_pow2_strictly_increases(0, 63);
                assert(pow2(1126) <= pow2(63) * pow2(1126)) by (nonlinear_arith)
                    requires
                        pow2(63) >= 1,
                        pow2(1126) > 0,
                ;
            }
            Some(0)
        } else {
            let p = pow2_u64(d);
            proof {
                lemma_pow2_strictly_increases(0, 63);
                if 53 + e < 1126 {
                    lemma_pow2_strictly_increases(53 + e as nat, 1126);
                }
                assert(pow2(1126) <= pow2(63) * pow2(1126)) by (nonlinear_arith)
                    requires
                        pow2(63) >= 1,
                        pow2(1126) > 0,
                ;
                lemma_div_is_ordered(m as int, pow2(53) as int, pow2(dd) as int);
                lemma_div_by_self(pow2(dd) as int);
                lemma_pow2_strictly_increases(0, dd);
                lemma_div_is_ordered_by_denominator(pow2(53) as int, 1, pow2(dd) as int);
            }
            Some(m / p)
        }
    }
}

} // verus!
