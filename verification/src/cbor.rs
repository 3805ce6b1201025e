//! CBOR data items, their encoding and decoding (RFC 8949, definite lengths only).
use vstd::prelude::*;
use vstd::utf8::*;
use crate::error::{DecodeError, EncodeError};
use crate::binary64::{Number, binary64_eq, number_of_bits};

verus! {

/// A generic CBOR data item.
///
/// Floating-point values are carried as the IEEE 754 binary64 bit pattern.
#[derive(Debug, PartialEq)]
pub enum Value {
    /// Major types 0 and 1: an integer in `-2^64 ..= 2^64 - 1`.
    Integer(i128),
    /// Major type 2: a byte string.
    Bytes(Vec<u8>),
    /// Major type 7, additional info 27: a double-precision float (bit pattern).
    Float(u64),
    /// Major type 3: a text string.
    Text(String),
    /// Simple values `false` / `true`.
    Bool(bool),
    /// Simple value `null`.
    Null,
    /// Major type 6: a tagged data item.
    Tag(u64, Box<Value>),
    /// Major type 4: an array.
    Array(Vec<Value>),
    /// Major type 5: a map, entries kept in their order.
    Mapping(Vec<(Value, Value)>),
}

/// Mathematical model of a [`Value`].
pub enum VModel {
    Int(int),
    Bytes(Seq<u8>),
    Float(u64),
    Text(Seq<char>),
    Bool(bool),
    Null,
    Tag(u64, Box<VModel>),
    Array(Seq<VModel>),
    Mapping(Seq<(VModel, VModel)>),
}

/// The model of a value.
pub open spec fn model(v: Value) -> VModel
    decreases v,
{
    match v {
        Value::Integer(n) => VModel::Int(n as int),
        Value::Bytes(b) => VModel::Bytes(b@),
        Value::Float(f) => VModel::Float(f),
        Value::Text(t) => VModel::Text(t@),
        Value::Bool(b) => VModel::Bool(b),
        Value::Null => VModel::Null,
        Value::Tag(t, inner) => VModel::Tag(t, Box::new(model(*inner))),
        Value::Array(a) => VModel::Array(model_list(a@)),
        Value::Mapping(m) => VModel::Mapping(model_pairs(m@)),
    }
}

/// The models of a sequence of values.
pub open spec fn model_list(s: Seq<Value>) -> Seq<VModel>
    decreases s,
{
    if s.len() == 0 {
        Seq::empty()
    } else {
        seq![model(s[0])] + model_list(s.drop_first())
    }
}

/// The models of a sequence of map entries.
pub open spec fn model_pairs(s: Seq<(Value, Value)>) -> Seq<(VModel, VModel)>
    decreases s,
{
    if s.len() == 0 {
        Seq::empty()
    } else {
        seq![(model(s[0].0), model(s[0].1))] + model_pairs(s.drop_first())
    }
}

impl View for Value {
    type V = VModel;

    open spec fn view(&self) -> VModel {
        model(*self)
    }
}

pub proof fn lemma_model_list(s: Seq<Value>)
    ensures
        model_list(s).len() == s.len(),
        forall|i: int| 0 <= i < s.len() ==> #[trigger] model_list(s)[i] == model(s[i]),
    decreases s.len(),
{
    if s.len() > 0 {
        lemma_model_list(s.drop_first());
        assert forall|i: int| 0 <= i < s.len() implies #[trigger] model_list(s)[i] == model(s[i]) by {
            if i > 0 {
                assert(s.drop_first()[i - 1] == s[i]);
            }
        }
    }
}

pub proof fn lemma_model_pairs(s: Seq<(Value, Value)>)
    ensures
        model_pairs(s).len() == s.len(),
        forall|i: int| 0 <= i < s.len() ==> #[trigger] model_pairs(s)[i] == (model(s[i].0), model(s[i].1)),
    decreases s.len(),
{
    if s.len() > 0 {
        lemma_model_pairs(s.drop_first());
        assert forall|i: int| 0 <= i < s.len() implies #[trigger] model_pairs(s)[i] == (model(s[i].0), model(s[i].1)) by {
            if i > 0 {
                assert(s.drop_first()[i - 1] == s[i]);
            }
        }
    }
}


// ---------------------------------------------------------------------------
// Well-formedness and the byte-level encoding.
// ---------------------------------------------------------------------------

/// CBOR integers range over `-2^64 ..= 2^64 - 1`.
pub open spec fn int_fits(n: int) -> bool {
    -0x1_0000_0000_0000_0000 <= n && n < 0x1_0000_0000_0000_0000
}

/// A model can be encoded: integers are in range and lengths fit in 64 bits.
pub open spec fn wf(v: VModel) -> bool
    decreases v,
{
    match v {
        VModel::Int(n) => int_fits(n),
        VModel::Bytes(b) => b.len() <= u64::MAX,
        VModel::Text(t) => encode_utf8(t).len() <= u64::MAX,
        VModel::Tag(_, inner) => wf(*inner),
        VModel::Array(s) => s.len() <= u64::MAX && wf_list(s),
        VModel::Mapping(s) => s.len() <= u64::MAX && wf_pairs(s),
        _ => true,
    }
}

pub open spec fn wf_list(s: Seq<VModel>) -> bool
    decreases s,
{
    if s.len() == 0 {
        true
    } else {
        wf_list(s.drop_last()) && wf(s.last())
    }
}

pub open spec fn wf_pairs(s: Seq<(VModel, VModel)>) -> bool
    decreases s,
{
    if s.len() == 0 {
        true
    } else {
        wf_pairs(s.drop_last()) && pair_wf(s.last())
    }
}

pub open spec fn pair_wf(p: (VModel, VModel)) -> bool
    decreases p,
{
    wf(p.0) && wf(p.1)
}

/// The initial byte of a data item: major type in the top three bits.
pub open spec fn initial_byte(major: u8, ai: u8) -> u8 {
    (major << 5u8) | ai
}

/// The initial byte(s) of a data item: major type and argument, shortest form.
pub open spec fn head(major: u8, arg: u64) -> Seq<u8> {
    if arg < 24 {
        seq![initial_byte(major, arg as u8)]
    } else if arg < 0x100 {
        seq![initial_byte(major, 24), arg as u8]
    } else if arg < 0x1_0000 {
        seq![initial_byte(major, 25), (arg >> 8u64) as u8, arg as u8]
    } else if arg < 0x1_0000_0000 {
        seq![initial_byte(major, 26)] + be_bytes4(arg)
    } else {
        seq![initial_byte(major, 27)] + be_bytes8(arg)
    }
}

pub open spec fn be_bytes4(x: u64) -> Seq<u8> {
    seq![(x >> 24u64) as u8, (x >> 16u64) as u8, (x >> 8u64) as u8, x as u8]
}

pub open spec fn be_bytes8(x: u64) -> Seq<u8> {
    seq![
        (x >> 56u64) as u8,
        (x >> 48u64) as u8,
        (x >> 40u64) as u8,
        (x >> 32u64) as u8,
        (x >> 24u64) as u8,
        (x >> 16u64) as u8,
        (x >> 8u64) as u8,
        x as u8,
    ]
}

/// The encoding of a data item.
pub open spec fn enc(v: VModel) -> Seq<u8>
    decreases v,
{
    match v {
        VModel::Int(n) => if n >= 0 {
            head(0, n as u64)
        } else {
            head(1, (-1 - n) as u64)
        },
        VModel::Bytes(b) => head(2, b.len() as u64) + b,
        VModel::Text(t) => head(3, encode_utf8(t).len() as u64) + encode_utf8(t),
        VModel::Float(f) => seq![0xfbu8] + be_bytes8(f),
        VModel::Bool(b) => if b {
            seq![0xf5u8]
        } else {
            seq![0xf4u8]
        },
        VModel::Null => seq![0xf6u8],
        VModel::Tag(t, inner) => head(6, t) + enc(*inner),
        VModel::Array(s) => head(4, s.len() as u64) + enc_list(s),
        VModel::Mapping(s) => head(5, s.len() as u64) + enc_pairs(s),
    }
}

pub open spec fn enc_list(s: Seq<VModel>) -> Seq<u8>
    decreases s,
{
    if s.len() == 0 {
        Seq::empty()
    } else {
        enc_list(s.drop_last()) + enc(s.last())
    }
}

pub open spec fn enc_pairs(s: Seq<(VModel, VModel)>) -> Seq<u8>
    decreases s,
{
    if s.len() == 0 {
        Seq::empty()
    } else {
        enc_pairs(s.drop_last()) + enc(s.last().0) + enc(s.last().1)
    }
}

// ---------------------------------------------------------------------------
// Executable encoder.
// ---------------------------------------------------------------------------

fn push_head(out: &mut Vec<u8>, major: u8, arg: u64)
    requires
        major < 8,
    ensures
        final(out)@ == old(out)@ + head(major, arg),
{
    let m: u8 = major << 5u8;
    if arg < 24 {
        out.push(m | arg as u8);
    } else if arg < 0x100 {
        out.push(m | 24);
        out.push(arg as u8);
    } else if arg < 0x1_0000 {
        out.push(m | 25);
        out.push((arg >> 8u64) as u8);
        out.push(arg as u8);
    } else if arg < 0x1_0000_0000 {
        out.push(m | 26);
        out.push((arg >> 24u64) as u8);
        out.push((arg >> 16u64) as u8);
        out.push((arg >> 8u64) as u8);
        out.push(arg as u8);
    } else {
        out.push(m | 27);
        out.push((arg >> 56u64) as u8);
        out.push((arg >> 48u64) as u8);
        out.push((arg >> 40u64) as u8);
        out.push((arg >> 32u64) as u8);
        out.push((arg >> 24u64) as u8);
        out.push((arg >> 16u64) as u8);
        out.push((arg >> 8u64) as u8);
        out.push(arg as u8);
    }
}

fn push_slice(out: &mut Vec<u8>, b: &[u8])
    ensures
        final(out)@ == old(out)@ + b@,
{
    let mut i: usize = 0;
    while i < b.len()
        invariant
            i <= b@.len(),
            out@ == old(out)@ + b@.take(i as int),
        decreases b@.len() - i,
    {
        out.push(b[i]);
        i += 1;
        assert(b@.take(i as int) == b@.take(i - 1) + seq![b@[i - 1]]);
    }
    assert(b@.take(i as int) == b@);
}

fn encode_into(v: &Value, out: &mut Vec<u8>) -> (ok: bool)
    ensures
        ok <==> wf(v@),
        ok ==> final(out)@ == old(out)@ + enc(v@),
    decreases v,
{
    match v {
        Value::Integer(n) => {
            let n = *n;
            if n >= 0 {
                if n > u64::MAX as i128 {
                    return false;
                }
                push_head(out, 0, n as u64);
            } else {
                if n < -0x1_0000_0000_0000_0000i128 {
                    return false;
                }
                push_head(out, 1, (-1 - n) as u64);
            }
            true
        },
        Value::Bytes(b) => {
            push_head(out, 2, b.len() as u64);
            push_slice(out, b.as_slice());
            true
        },
        Value::Text(t) => {
            let b = t.as_str().as_bytes();
            push_head(out, 3, b.len() as u64);
            push_slice(out, b);
            true
        },
        Value::Float(f) => {
            let f = *f;
            out.push(0xfb);
            out.push((f >> 56u64) as u8);
            out.push((f >> 48u64) as u8);
            out.push((f >> 40u64) as u8);
            out.push((f >> 32u64) as u8);
            out.push((f >> 24u64) as u8);
            out.push((f >> 16u64) as u8);
            out.push((f >> 8u64) as u8);
            out.push(f as u8);
            true
        },
        Value::Bool(b) => {
            if *b {
                out.push(0xf5);
            } else {
                out.push(0xf4);
            }
            true
        },
        Value::Null => {
            out.push(0xf6);
            true
        },
        Value::Tag(t, inner) => {
            push_head(out, 6, *t);
            encode_into(inner, out)
        },
        Value::Array(a) => {
            proof {
                lemma_model_list(a@);
            }
            push_head(out, 4, a.len() as u64);
            encode_list(a, out)
        },
        Value::Mapping(m) => {
            proof {
                lemma_model_pairs(m@);
            }
            push_head(out, 5, m.len() as u64);
            encode_entries(m, out)
        },
    }
}

fn encode_list(a: &Vec<Value>, out: &mut Vec<u8>) -> (ok: bool)
    ensures
        ok <==> wf_list(model_list(a@)),
        ok ==> final(out)@ == old(out)@ + enc_list(model_list(a@)),
    decreases a,
{
    proof {
        lemma_model_list(a@);
    }
    let ghost start = out@;
    let ghost ms = model_list(a@);
    let mut i: usize = 0;
    while i < a.len()
        invariant
            i <= a@.len(),
            ms == model_list(a@),
            ms.len() == a@.len(),
            forall|j: int| 0 <= j < a@.len() ==> #[trigger] ms[j] == model(a@[j]),
            wf_list(ms.take(i as int)),
            out@ == start + enc_list(ms.take(i as int)),
        decreases a@.len() - i,
    {
        proof {
            vstd::std_specs::vec::axiom_vec_index_decreases(*a, i as int);
        }
        let ok = encode_into(&a[i], out);
        proof {
            assert(ms.take(i + 1).drop_last() == ms.take(i as int));
            assert(ms.take(i + 1).last() == ms[i as int]);
        }
        if !ok {
            proof {
                lemma_wf_list_all(ms);
                assert(!wf(ms[i as int]));
            }
            return false;
        }
        i += 1;
    }
    proof {
        assert(ms.take(i as int) == ms);
    }
    true
}

fn encode_entries(m: &Vec<(Value, Value)>, out: &mut Vec<u8>) -> (ok: bool)
    ensures
        ok <==> wf_pairs(model_pairs(m@)),
        ok ==> final(out)@ == old(out)@ + enc_pairs(model_pairs(m@)),
    decreases m,
{
    proof {
        lemma_model_pairs(m@);
    }
    let ghost start = out@;
    let ghost ms = model_pairs(m@);
    let mut i: usize = 0;
    while i < m.len()
        invariant
            i <= m@.len(),
            ms == model_pairs(m@),
            ms.len() == m@.len(),
            forall|j: int| 0 <= j < m@.len() ==> #[trigger] ms[j] == (model(m@[j].0), model(m@[j].1)),
            wf_pairs(ms.take(i as int)),
            out@ == start + enc_pairs(ms.take(i as int)),
        decreases m@.len() - i,
    {
        proof {
            vstd::std_specs::vec::axiom_vec_index_decreases(*m, i as int);
            assert(decreases_to!(m[i as int] => m[i as int].0));
            assert(decreases_to!(m[i as int] => m[i as int].1));
        }
        let ok1 = encode_into(&m[i].0, out);
        if !ok1 {
            proof {
                lemma_wf_pairs_all(ms);
                assert(!pair_wf(ms[i as int]));
            }
            return false;
        }
        let ok2 = encode_into(&m[i].1, out);
        proof {
            assert(ms.take(i + 1).drop_last() == ms.take(i as int));
            assert(ms.take(i + 1).last() == ms[i as int]);
        }
        if !ok2 {
            proof {
                lemma_wf_pairs_all(ms);
                assert(!pair_wf(ms[i as int]));
            }
            return false;
        }
        proof {
            assert(pair_wf(ms[i as int]));
        }
        i += 1;
    }
    proof {
        assert(ms.take(i as int) == ms);
    }
    true
}

pub proof fn lemma_wf_list_all(s: Seq<VModel>)
    ensures
        wf_list(s) <==> forall|i: int| 0 <= i < s.len() ==> #[trigger] wf(s[i]),
    decreases s.len(),
{
    if s.len() > 0 {
        lemma_wf_list_all(s.drop_last());
        assert(s.last() == s[s.len() - 1]);
        assert forall|i: int| 0 <= i < s.len() - 1 implies s.drop_last()[i] == s[i] by {}
        if forall|i: int| 0 <= i < s.len() ==> #[trigger] wf(s[i]) {
            assert(wf(s[s.len() - 1]));
            assert forall|i: int| 0 <= i < s.drop_last().len() implies #[trigger] wf(s.drop_last()[i]) by {
                assert(wf(s[i]));
            }
        }
    }
}

pub proof fn lemma_wf_pairs_all(s: Seq<(VModel, VModel)>)
    ensures
        wf_pairs(s) <==> forall|i: int| 0 <= i < s.len() ==> #[trigger] pair_wf(s[i]),
    decreases s.len(),
{
    if s.len() > 0 {
        lemma_wf_pairs_all(s.drop_last());
        assert(s.last() == s[s.len() - 1]);
        assert forall|i: int| 0 <= i < s.len() - 1 implies s.drop_last()[i] == s[i] by {}
        if forall|i: int| 0 <= i < s.len() ==> #[trigger] pair_wf(s[i]) {
            assert(pair_wf(s[s.len() - 1]));
            assert forall|i: int| 0 <= i < s.drop_last().len() implies #[trigger] pair_wf(s.drop_last()[i]) by {
                assert(pair_wf(s[i]));
            }
        }
    }
}


// ---------------------------------------------------------------------------
// Decoding specification.
// ---------------------------------------------------------------------------

pub open spec fn be_u16(s: Seq<u8>, i: int) -> u64 {
    ((s[i] as u64) << 8u64) | (s[i + 1] as u64)
}

pub open spec fn be_u32(s: Seq<u8>, i: int) -> u64 {
    ((s[i] as u64) << 24u64) | ((s[i + 1] as u64) << 16u64) | ((s[i + 2] as u64) << 8u64) | (s[i
        + 3] as u64)
}

pub open spec fn be_u64(s: Seq<u8>, i: int) -> u64 {
    ((s[i] as u64) << 56u64) | ((s[i + 1] as u64) << 48u64) | ((s[i + 2] as u64) << 40u64) | ((s[i
        + 3] as u64) << 32u64) | ((s[i + 4] as u64) << 24u64) | ((s[i + 5] as u64) << 16u64) | ((s[i
        + 6] as u64) << 8u64) | (s[i + 7] as u64)
}

/// The head of the first data item in `s`: major type, additional information,
/// argument and the head's length in bytes. Indefinite lengths and reserved
/// additional-information values are rejected.
pub open spec fn parse_head(s: Seq<u8>) -> Option<(u8, u8, u64, int)> {
    if s.len() == 0 {
        None
    } else {
        let major = s[0] >> 5u8;
        let ai = s[0] & 31u8;
        if ai < 24 {
            Some((major, ai, ai as u64, 1))
        } else if ai == 24 && s.len() >= 2 {
            Some((major, ai, s[1] as u64, 2))
        } else if ai == 25 && s.len() >= 3 {
            Some((major, ai, be_u16(s, 1), 3))
        } else if ai == 26 && s.len() >= 5 {
            Some((major, ai, be_u32(s, 1), 5))
        } else if ai == 27 && s.len() >= 9 {
            Some((major, ai, be_u64(s, 1), 9))
        } else {
            None
        }
    }
}

/// The first data item of `s` and the number of bytes it occupies.
pub open spec fn parse(s: Seq<u8>) -> Option<(VModel, int)>
    decreases s.len(), 0int, 0int,
{
    match parse_head(s) {
        None => None,
        Some((major, ai, arg, h)) => {
            let rest = s.skip(h);
            if major == 0 {
                Some((VModel::Int(arg as int), h))
            } else if major == 1 {
                Some((VModel::Int(-1 - arg), h))
            } else if major == 2 {
                if arg <= rest.len() {
                    Some((VModel::Bytes(rest.take(arg as int)), h + arg))
                } else {
                    None
                }
            } else if major == 3 {
                if arg <= rest.len() && valid_utf8(rest.take(arg as int)) {
                    Some((VModel::Text(decode_utf8(rest.take(arg as int))), h + arg))
                } else {
                    None
                }
            } else if major == 4 {
                match parse_list(rest, arg as int) {
                    Some((items, u)) => Some((VModel::Array(items), h + u)),
                    None => None,
                }
            } else if major == 5 {
                match parse_pairs(rest, arg as int) {
                    Some((items, u)) => Some((VModel::Mapping(items), h + u)),
                    None => None,
                }
            } else if major == 6 {
                match parse(rest) {
                    Some((v, u)) => Some((VModel::Tag(arg, Box::new(v)), h + u)),
                    None => None,
                }
            } else if ai == 20 {
                Some((VModel::Bool(false), 1))
            } else if ai == 21 {
                Some((VModel::Bool(true), 1))
            } else if ai == 22 {
                Some((VModel::Null, 1))
            } else if ai == 27 {
                Some((VModel::Float(arg), 9))
            } else {
                None
            }
        },
    }
}

/// `n` consecutive data items at the start of `s`.
pub open spec fn parse_list(s: Seq<u8>, n: int) -> Option<(Seq<VModel>, int)>
    decreases s.len(), 1int, n,
{
    if n <= 0 {
        Some((Seq::empty(), 0))
    } else {
        match parse(s) {
            None => None,
            Some((v, u)) => if 0 <= u <= s.len() {
                match parse_list(s.skip(u), n - 1) {
                    None => None,
                    Some((vs, u2)) => Some((seq![v] + vs, u + u2)),
                }
            } else {
                None
            },
        }
    }
}

/// `n` consecutive key/value pairs at the start of `s`.
pub open spec fn parse_pairs(s: Seq<u8>, n: int) -> Option<(Seq<(VModel, VModel)>, int)>
    decreases s.len(), 1int, n,
{
    if n <= 0 {
        Some((Seq::empty(), 0))
    } else {
        match parse(s) {
            None => None,
            Some((k, u1)) => if 0 <= u1 <= s.len() {
                match parse(s.skip(u1)) {
                    None => None,
                    Some((v, u2)) => if 0 <= u2 <= s.len() - u1 {
                        match parse_pairs(s.skip(u1 + u2), n - 1) {
                            None => None,
                            Some((ps, u3)) => Some((seq![(k, v)] + ps, u1 + u2 + u3)),
                        }
                    } else {
                        None
                    },
                }
            } else {
                None
            },
        }
    }
}

/// A byte string holds exactly one well-formed data item.
pub open spec fn decode_spec(s: Seq<u8>) -> Option<VModel> {
    match parse(s) {
        Some((v, u)) => if u == s.len() {
            Some(v)
        } else {
            None
        },
        None => None,
    }
}


// ---------------------------------------------------------------------------
// Executable decoder.
// ---------------------------------------------------------------------------

/// `String::from_utf8`: the bytes become a string exactly when they are valid UTF-8.
#[verifier::external_body]
fn string_from_utf8(bytes: Vec<u8>) -> (r: Option<String>)
    ensures
        r is Some <==> valid_utf8(bytes@),
        r matches Some(s) ==> s@ == decode_utf8(bytes@),
{
    match String::from_utf8(bytes) {
        Ok(s) => Some(s),
        Err(_) => None,
    }
}

fn read_head(buf: &[u8], pos: usize) -> (r: Option<(u8, u8, u64, usize)>)
    requires
        pos <= buf@.len(),
    ensures
        match parse_head(buf@.skip(pos as int)) {
            None => r is None,
            Some((m, ai, arg, h)) => r == Some((m, ai, arg, h as usize)),
        },
        r matches Some((_, _, _, h)) ==> 1 <= h <= buf@.len() - pos,
{
    let ghost s = buf@.skip(pos as int);
    if pos >= buf.len() {
        return None;
    }
    let b = buf[pos];
    let major = b >> 5u8;
    let ai = b & 31u8;
    let avail = buf.len() - pos;
    if ai < 24 {
        Some((major, ai, ai as u64, 1))
    } else if ai == 24 && avail >= 2 {
        Some((major, ai, buf[pos + 1] as u64, 2))
    } else if ai == 25 && avail >= 3 {
        let v = ((buf[pos + 1] as u64) << 8u64) | (buf[pos + 2] as u64);
        assert(v == be_u16(s, 1));
        Some((major, ai, v, 3))
    } else if ai == 26 && avail >= 5 {
        let v = ((buf[pos + 1] as u64) << 24u64) | ((buf[pos + 2] as u64) << 16u64) | ((buf[pos
            + 3] as u64) << 8u64) | (buf[pos + 4] as u64);
        assert(v == be_u32(s, 1));
        Some((major, ai, v, 5))
    } else if ai == 27 && avail >= 9 {
        let v = ((buf[pos + 1] as u64) << 56u64) | ((buf[pos + 2] as u64) << 48u64) | ((buf[pos
            + 3] as u64) << 40u64) | ((buf[pos + 4] as u64) << 32u64) | ((buf[pos + 5] as u64)
            << 24u64) | ((buf[pos + 6] as u64) << 16u64) | ((buf[pos + 7] as u64) << 8u64) | (
        buf[pos + 8] as u64);
        assert(v == be_u64(s, 1));
        Some((major, ai, v, 9))
    } else {
        None
    }
}

pub proof fn lemma_model_list_push(s: Seq<Value>, x: Value)
    ensures
        model_list(s.push(x)) == model_list(s) + seq![model(x)],
{
    lemma_model_list(s);
    lemma_model_list(s.push(x));
    assert(model_list(s.push(x)) =~= model_list(s) + seq![model(x)]);
}

pub proof fn lemma_model_pairs_push(s: Seq<(Value, Value)>, x: (Value, Value))
    ensures
        model_pairs(s.push(x)) == model_pairs(s) + seq![(model(x.0), model(x.1))],
{
    lemma_model_pairs(s);
    lemma_model_pairs(s.push(x));
    assert(model_pairs(s.push(x)) =~= model_pairs(s) + seq![(model(x.0), model(x.1))]);
}

/// Decode the data item that starts at `pos`; on success also return where it ends.
pub fn parse_item(buf: &[u8], pos: usize) -> (r: Option<(Value, usize)>)
    requires
        pos <= buf@.len(),
    ensures
        match parse(buf@.skip(pos as int)) {
            None => r is None,
            Some((v, u)) => r matches Some((x, end)) && x@ == v && end == pos + u,
        },
        r matches Some((x, end)) ==> pos < end <= buf@.len(),
    decreases buf@.len() - pos, 0int,
{
    let ghost s = buf@.skip(pos as int);
    let hd = read_head(buf, pos);
    if hd.is_none() {
        return None;
    }
    let (major, ai, arg, h) = hd.unwrap();
    let avail0 = buf.len() - pos;
    assert(h <= avail0);
    let start = pos + h;
    let ghost rest = s.skip(h as int);
    assert(rest == buf@.skip(start as int));
    let avail = buf.len() - start;
    if major == 0 {
        Some((Value::Integer(arg as i128), start))
    } else if major == 1 {
        Some((Value::Integer(-1 - arg as i128), start))
    } else if major == 2 {
        if arg > avail as u64 {
            return None;
        }
        let end = start + arg as usize;
        let bytes = vstd::slice::slice_to_vec(vstd::slice::slice_subrange(buf, start, end));
        assert(bytes@ == rest.take(arg as int));
        Some((Value::Bytes(bytes), end))
    } else if major == 3 {
        if arg > avail as u64 {
            return None;
        }
        let end = start + arg as usize;
        let bytes = vstd::slice::slice_to_vec(vstd::slice::slice_subrange(buf, start, end));
        assert(bytes@ == rest.take(arg as int));
        match string_from_utf8(bytes) {
            None => None,
            Some(t) => Some((Value::Text(t), end)),
        }
    } else if major == 4 {
        match parse_items(buf, start, arg) {
            None => None,
            Some((items, end)) => {
                Some((Value::Array(items), end))
            },
        }
    } else if major == 5 {
        match parse_entries(buf, start, arg) {
            None => None,
            Some((items, end)) => Some((Value::Mapping(items), end)),
        }
    } else if major == 6 {
        match parse_item(buf, start) {
            None => None,
            Some((inner, end)) => Some((Value::Tag(arg, Box::new(inner)), end)),
        }
    } else if ai == 20 {
        Some((Value::Bool(false), pos + 1))
    } else if ai == 21 {
        Some((Value::Bool(true), pos + 1))
    } else if ai == 22 {
        Some((Value::Null, pos + 1))
    } else if ai == 27 {
        Some((Value::Float(arg), start))
    } else {
        None
    }
}

fn parse_items(buf: &[u8], pos: usize, n: u64) -> (r: Option<(Vec<Value>, usize)>)
    requires
        pos <= buf@.len(),
    ensures
        match parse_list(buf@.skip(pos as int), n as int) {
            None => r is None,
            Some((vs, u)) => r matches Some((xs, end)) && model_list(xs@) == vs && end == pos + u,
        },
        r matches Some((xs, end)) ==> pos <= end <= buf@.len(),
    decreases buf@.len() - pos, 1int,
{
    let mut items: Vec<Value> = Vec::new();
    let mut p = pos;
    let mut k: u64 = 0;
    let ghost s0 = buf@.skip(pos as int);
    while k < n
        invariant
            pos <= p <= buf@.len(),
            k <= n,
            s0 == buf@.skip(pos as int),
            parse_list(s0, n as int) == (match parse_list(buf@.skip(p as int), n - k) {
                Some((vs, u)) => Some((model_list(items@) + vs, (p - pos) + u)),
                None => None,
            }),
        decreases n - k,
    {
        let ghost sp = buf@.skip(p as int);
        match parse_item(buf, p) {
            None => {
                assert(parse_list(sp, n - k) is None);
                return None;
            },
            Some((x, end)) => {
                proof {
                    assert(sp.skip(end - p) == buf@.skip(end as int));
                    lemma_model_list_push(items@, x);
                    let tail = parse_list(buf@.skip(end as int), n - k - 1);
                    if let Some((vs, u)) = tail {
                        assert(model_list(items@) + (seq![x@] + vs) == (model_list(items@) + seq![x@]) + vs);
                    }
                }
                items.push(x);
                p = end;
                k += 1;
            },
        }
    }
    assert(model_list(items@) + Seq::<VModel>::empty() == model_list(items@));
    Some((items, p))
}

fn parse_entries(buf: &[u8], pos: usize, n: u64) -> (r: Option<(Vec<(Value, Value)>, usize)>)
    requires
        pos <= buf@.len(),
    ensures
        match parse_pairs(buf@.skip(pos as int), n as int) {
            None => r is None,
            Some((ps, u)) => r matches Some((xs, end)) && model_pairs(xs@) == ps && end == pos + u,
        },
        r matches Some((xs, end)) ==> pos <= end <= buf@.len(),
    decreases buf@.len() - pos, 1int,
{
    let mut items: Vec<(Value, Value)> = Vec::new();
    let mut p = pos;
    let mut k: u64 = 0;
    let ghost s0 = buf@.skip(pos as int);
    while k < n
        invariant
            pos <= p <= buf@.len(),
            k <= n,
            s0 == buf@.skip(pos as int),
            parse_pairs(s0, n as int) == (match parse_pairs(buf@.skip(p as int), n - k) {
                Some((ps, u)) => Some((model_pairs(items@) + ps, (p - pos) + u)),
                None => None,
            }),
        decreases n - k,
    {
        let ghost sp = buf@.skip(p as int);
        match parse_item(buf, p) {
            None => {
                assert(parse_pairs(sp, n - k) is None);
                return None;
            },
            Some((key, mid)) => {
                proof {
                    assert(sp.skip(mid - p) == buf@.skip(mid as int));
                }
                match parse_item(buf, mid) {
                    None => {
                        assert(parse_pairs(sp, n - k) is None);
                        return None;
                    },
                    Some((val, end)) => {
                        proof {
                            assert(sp.skip((mid - p) + (end - mid)) == buf@.skip(end as int));
                            lemma_model_pairs_push(items@, (key, val));
                            let tail = parse_pairs(buf@.skip(end as int), n - k - 1);
                            if let Some((ps, u)) = tail {
                                assert(model_pairs(items@) + (seq![(key@, val@)] + ps) == (
                                model_pairs(items@) + seq![(key@, val@)]) + ps);
                            }
                        }
                        items.push((key, val));
                        p = end;
                        k += 1;
                    },
                }
            },
        }
    }
    assert(model_pairs(items@) + Seq::<(VModel, VModel)>::empty() == model_pairs(items@));
    Some((items, p))
}


// ---------------------------------------------------------------------------
// Round trip: decoding an encoding gives back the data item.
// ---------------------------------------------------------------------------

proof fn lemma_initial_byte(major: u8, ai: u8)
    by (bit_vector)
    requires
        major < 8,
        ai < 32,
    ensures
        initial_byte(major, ai) >> 5u8 == major,
        initial_byte(major, ai) & 31u8 == ai,
{
}

proof fn lemma_byte_bits(arg: u64)
    by (bit_vector)
    ensures
        arg < 24 ==> (arg as u8) < 24 && ((arg as u8) as u64) == arg,
        arg < 0x100 ==> ((arg as u8) as u64) == arg,
        arg < 0x1_0000 ==> ((((arg >> 8u64) as u8) as u64) << 8u64) | ((arg as u8) as u64) == arg,
        arg < 0x1_0000_0000 ==> ((((arg >> 24u64) as u8) as u64) << 24u64) | ((((arg >> 16u64) as u8)
            as u64) << 16u64) | ((((arg >> 8u64) as u8) as u64) << 8u64) | ((arg as u8) as u64)
            == arg,
        ((((arg >> 56u64) as u8) as u64) << 56u64) | ((((arg >> 48u64) as u8) as u64) << 48u64) | ((((
        arg >> 40u64) as u8) as u64) << 40u64) | ((((arg >> 32u64) as u8) as u64) << 32u64) | ((((arg
            >> 24u64) as u8) as u64) << 24u64) | ((((arg >> 16u64) as u8) as u64) << 16u64) | ((((arg
            >> 8u64) as u8) as u64) << 8u64) | ((arg as u8) as u64) == arg,
{
}

/// The head of an encoding parses back to its major type and argument.
pub proof fn lemma_parse_head(major: u8, arg: u64, t: Seq<u8>)
    requires
        major < 8,
    ensures
        parse_head(head(major, arg) + t) matches Some((m, ai, a, h)) && m == major && a == arg
            && h == head(major, arg).len() && (major == 7 ==> ai == (if arg < 24 {
            arg as u8
        } else if arg < 0x100 {
            24u8
        } else if arg < 0x1_0000 {
            25u8
        } else if arg < 0x1_0000_0000 {
            26u8
        } else {
            27u8
        })),
{
    let s = head(major, arg) + t;
    lemma_byte_bits(arg);
    if arg < 24 {
        lemma_initial_byte(major, arg as u8);
    } else if arg < 0x100 {
        lemma_initial_byte(major, 24);
    } else if arg < 0x1_0000 {
        lemma_initial_byte(major, 25);
    } else if arg < 0x1_0000_0000 {
        lemma_initial_byte(major, 26);
    } else {
        lemma_initial_byte(major, 27);
    }
}

/// After the head, parsing continues with exactly the bytes that follow it.
pub proof fn lemma_after_head(major: u8, arg: u64, rest: Seq<u8>)
    requires
        major < 8,
    ensures
        parse_head(head(major, arg) + rest) matches Some((m, ai, a, h)) && m == major && a == arg
            && h == head(major, arg).len() && (head(major, arg) + rest).skip(h) == rest,
{
    lemma_parse_head(major, arg, rest);
    let h = head(major, arg).len() as int;
    assert((head(major, arg) + rest).skip(h) =~= rest);
}

pub proof fn lemma_enc_list_front(s: Seq<VModel>)
    requires
        s.len() > 0,
    ensures
        enc_list(s) == enc(s[0]) + enc_list(s.drop_first()),
    decreases s.len(),
{
    if s.len() == 1 {
        assert(s.drop_last() =~= Seq::<VModel>::empty());
        assert(s.drop_first() =~= Seq::<VModel>::empty());
        assert(s.last() == s[0]);
        assert(enc_list(s.drop_last()) == Seq::<u8>::empty());
        assert(enc_list(s) =~= enc(s[0]));
    } else {
        lemma_enc_list_front(s.drop_last());
        assert(s.drop_last().drop_first() =~= s.drop_first().drop_last());
        assert(s.drop_first().last() == s.last());
        assert(enc_list(s) =~= enc(s[0]) + enc_list(s.drop_first()));
    }
}

pub proof fn lemma_enc_pairs_front(s: Seq<(VModel, VModel)>)
    requires
        s.len() > 0,
    ensures
        enc_pairs(s) == enc(s[0].0) + enc(s[0].1) + enc_pairs(s.drop_first()),
    decreases s.len(),
{
    if s.len() == 1 {
        assert(s.drop_last() =~= Seq::<(VModel, VModel)>::empty());
        assert(s.drop_first() =~= Seq::<(VModel, VModel)>::empty());
        assert(s.last() == s[0]);
        assert(enc_pairs(s.drop_last()) == Seq::<u8>::empty());
        assert(enc_pairs(s) =~= enc(s[0].0) + enc(s[0].1));
    } else {
        lemma_enc_pairs_front(s.drop_last());
        assert(s.drop_last().drop_first() =~= s.drop_first().drop_last());
        assert(s.drop_first().last() == s.last());
        assert(enc_pairs(s) =~= enc(s[0].0) + enc(s[0].1) + enc_pairs(s.drop_first()));
    }
}

/// Prefix property: the encoding of a well-formed item, followed by anything,
/// parses back to exactly that item and its encoded length.
pub proof fn lemma_parse_enc(v: VModel, t: Seq<u8>)
    requires
        wf(v),
    ensures
        parse(enc(v) + t) == Some((v, enc(v).len() as int)),
    decreases v, 0int,
{
    match v {
        VModel::Int(n) => lemma_parse_enc_int(n, t),
        VModel::Bytes(b) => lemma_parse_enc_bytes(b, t),
        VModel::Text(x) => lemma_parse_enc_text(x, t),
        VModel::Float(f) => lemma_parse_enc_simple(v, t),
        VModel::Bool(b) => lemma_parse_enc_simple(v, t),
        VModel::Null => lemma_parse_enc_simple(v, t),
        VModel::Tag(tag, inner) => {
            let s = enc(v) + t;
            let h = head(6, tag);
            assert(s =~= h + (enc(*inner) + t));
            lemma_after_head(6, tag, enc(*inner) + t);
            lemma_parse_enc(*inner, t);
        },
        VModel::Array(items) => {
            let s = enc(v) + t;
            let h = head(4, items.len() as u64);
            assert(s =~= h + (enc_list(items) + t));
            lemma_after_head(4, items.len() as u64, enc_list(items) + t);
            lemma_wf_list_all(items);
            lemma_parse_enc_list(items, t);
        },
        VModel::Mapping(items) => {
            let s = enc(v) + t;
            let h = head(5, items.len() as u64);
            assert(s =~= h + (enc_pairs(items) + t));
            lemma_after_head(5, items.len() as u64, enc_pairs(items) + t);
            lemma_wf_pairs_all(items);
            lemma_parse_enc_pairs(items, t);
        },
    }
}

proof fn lemma_parse_enc_int(n: int, t: Seq<u8>)
    requires
        int_fits(n),
    ensures
        parse(enc(VModel::Int(n)) + t) == Some((VModel::Int(n), enc(VModel::Int(n)).len() as int)),
{
    if n >= 0 {
        lemma_after_head(0, n as u64, t);
    } else {
        lemma_after_head(1, (-1 - n) as u64, t);
    }
}

proof fn lemma_parse_enc_bytes(b: Seq<u8>, t: Seq<u8>)
    requires
        b.len() <= u64::MAX,
    ensures
        parse(enc(VModel::Bytes(b)) + t) == Some(
            (VModel::Bytes(b), enc(VModel::Bytes(b)).len() as int),
        ),
{
    let s = enc(VModel::Bytes(b)) + t;
    let h = head(2, b.len() as u64);
    assert(s =~= h + (b + t));
    lemma_after_head(2, b.len() as u64, b + t);
    assert((b + t).take(b.len() as int) =~= b);
}

proof fn lemma_parse_enc_text(x: Seq<char>, t: Seq<u8>)
    requires
        encode_utf8(x).len() <= u64::MAX,
    ensures
        parse(enc(VModel::Text(x)) + t) == Some(
            (VModel::Text(x), enc(VModel::Text(x)).len() as int),
        ),
{
    let e = encode_utf8(x);
    let s = enc(VModel::Text(x)) + t;
    let h = head(3, e.len() as u64);
    assert(s =~= h + (e + t));
    lemma_after_head(3, e.len() as u64, e + t);
    assert((e + t).take(e.len() as int) =~= e);
    encode_utf8_valid_utf8(x);
    encode_utf8_decode_utf8(x);
}

proof fn lemma_parse_enc_simple(v: VModel, t: Seq<u8>)
    requires
        v is Float || v is Bool || v is Null,
    ensures
        parse(enc(v) + t) == Some((v, enc(v).len() as int)),
{
    let s = enc(v) + t;
    assert(0xfbu8 >> 5u8 == 7u8 && 0xfbu8 & 31u8 == 27u8) by (bit_vector);
    assert(0xf5u8 >> 5u8 == 7u8 && 0xf5u8 & 31u8 == 21u8) by (bit_vector);
    assert(0xf4u8 >> 5u8 == 7u8 && 0xf4u8 & 31u8 == 20u8) by (bit_vector);
    assert(0xf6u8 >> 5u8 == 7u8 && 0xf6u8 & 31u8 == 22u8) by (bit_vector);
    if let VModel::Float(f) = v {
        lemma_byte_bits(f);
        assert(s[0] == 0xfbu8);
        assert(be_u64(s, 1) == f);
    }
}

pub proof fn lemma_parse_enc_list(items: Seq<VModel>, t: Seq<u8>)
    requires
        forall|i: int| 0 <= i < items.len() ==> #[trigger] wf(items[i]),
    ensures
        parse_list(enc_list(items) + t, items.len() as int) == Some(
            (items, enc_list(items).len() as int),
        ),
    decreases items, 1int,
{
    if items.len() == 0 {
        assert(enc_list(items) =~= Seq::<u8>::empty());
    } else {
        let rest = items.drop_first();
        lemma_enc_list_front(items);
        let s = enc_list(items) + t;
        assert(s =~= enc(items[0]) + (enc_list(rest) + t));
        assert(wf(items[0]));
        lemma_parse_enc(items[0], enc_list(rest) + t);
        assert(s.skip(enc(items[0]).len() as int) =~= enc_list(rest) + t);
        assert forall|i: int| 0 <= i < rest.len() implies #[trigger] wf(rest[i]) by {
            assert(rest[i] == items[i + 1]);
            assert(wf(items[i + 1]));
        }
        lemma_parse_enc_list(rest, t);
        assert(seq![items[0]] + rest =~= items);
    }
}

proof fn lemma_parse_pairs_step(s: Seq<u8>, n: int, k: VModel, u1: int, v: VModel, u2: int)
    requires
        n > 0,
        parse(s) == Some((k, u1)),
        0 <= u1 <= s.len(),
        parse(s.skip(u1)) == Some((v, u2)),
        0 <= u2 <= s.len() - u1,
    ensures
        parse_pairs(s, n) == (match parse_pairs(s.skip(u1 + u2), n - 1) {
            None => None,
            Some((ps, u3)) => Some((seq![(k, v)] + ps, u1 + u2 + u3)),
        }),
{
}

#[verifier::spinoff_prover]
#[verifier::rlimit(40)]
pub proof fn lemma_parse_enc_pairs(items: Seq<(VModel, VModel)>, t: Seq<u8>)
    requires
        forall|i: int| 0 <= i < items.len() ==> #[trigger] pair_wf(items[i]),
    ensures
        parse_pairs(enc_pairs(items) + t, items.len() as int) == Some(
            (items, enc_pairs(items).len() as int),
        ),
    decreases items, 1int,
{
    if items.len() == 0 {
        assert(enc_pairs(items) =~= Seq::<u8>::empty());
    } else {
        let rest = items.drop_first();
        let k = items[0].0;
        let v = items[0].1;
        let ek = enc(k);
        let ev = enc(v);
        let er = enc_pairs(rest);
        let s = enc_pairs(items) + t;
        assert(s == ek + (ev + (er + t))) by {
            lemma_enc_pairs_front(items);
            assert(s =~= ek + (ev + (er + t)));
        }
        assert(pair_wf(items[0]));
        lemma_parse_enc(k, ev + (er + t));
        assert(s.skip(ek.len() as int) == ev + (er + t)) by {
            assert(s.skip(ek.len() as int) =~= ev + (er + t));
        }
        lemma_parse_enc(v, er + t);
        assert(s.skip((ek.len() + ev.len()) as int) == er + t) by {
            assert(s.skip((ek.len() + ev.len()) as int) =~= er + t);
        }
        lemma_parse_pairs_step(s, items.len() as int, k, ek.len() as int, v, ev.len() as int);
        assert forall|i: int| 0 <= i < rest.len() implies #[trigger] pair_wf(rest[i]) by {
            assert(rest[i] == items[i + 1]);
            assert(pair_wf(items[i + 1]));
        }
        lemma_parse_enc_pairs(rest, t);
        assert(seq![(k, v)] + rest =~= items);
        assert(enc_pairs(items).len() == ek.len() + ev.len() + er.len()) by {
            lemma_enc_pairs_front(items);
        }
    }
}

/// Law: decoding the encoding of a well-formed data item yields that item.
pub proof fn lemma_decode_encode(v: VModel)
    requires
        wf(v),
    ensures
        decode_spec(enc(v)) == Some(v),
{
    lemma_parse_enc(v, Seq::empty());
    assert(enc(v) + Seq::<u8>::empty() =~= enc(v));
}


// ---------------------------------------------------------------------------
// Public entry points and value utilities.
// ---------------------------------------------------------------------------

/// Encode a data item. Fails exactly when an integer is outside the CBOR range.
pub fn encode(v: &Value) -> (r: Result<Vec<u8>, EncodeError>)
    ensures
        r is Ok <==> wf(v@),
        r matches Ok(b) ==> b@ == enc(v@),
        r matches Err(EncodeError::Serialization(m)) ==> m@ == "integer outside the CBOR range"@,
{
    let mut out: Vec<u8> = Vec::new();
    if encode_into(v, &mut out) {
        assert(out@ == Seq::<u8>::empty() + enc(v@));
        assert(Seq::<u8>::empty() + enc(v@) =~= enc(v@));
        Ok(out)
    } else {
        Err(EncodeError::Serialization(String::from_str("integer outside the CBOR range")))
    }
}

/// The message reported for bytes that do not hold exactly one data item.
pub open spec fn decode_failure_message(s: Seq<u8>) -> Seq<char> {
    if parse(s) is None {
        "malformed CBOR data item"@
    } else {
        "trailing bytes after the CBOR data item"@
    }
}

/// Decode bytes that hold exactly one data item.
pub fn decode(bytes: &[u8]) -> (r: Result<Value, DecodeError>)
    ensures
        decode_spec(bytes@) matches Some(m) ==> (r matches Ok(v) && v@ == m),
        decode_spec(bytes@) is None ==> (r matches Err(DecodeError::Deserialization(msg))
            && msg@ == decode_failure_message(bytes@)),
{
    assert(bytes@.skip(0) =~= bytes@);
    match parse_item(bytes, 0) {
        None => Err(DecodeError::Deserialization(String::from_str("malformed CBOR data item"))),
        Some((v, end)) => {
            if end == bytes.len() {
                Ok(v)
            } else {
                Err(
                    DecodeError::Deserialization(
                        String::from_str("trailing bytes after the CBOR data item"),
                    ),
                )
            }
        },
    }
}

/// Whether two byte strings are equal.
pub fn bytes_equal(a: &[u8], b: &[u8]) -> (r: bool)
    ensures
        r == (a@ == b@),
{
    if a.len() != b.len() {
        return false;
    }
    let mut i: usize = 0;
    while i < a.len()
        invariant
            a@.len() == b@.len(),
            i <= a@.len(),
            forall|j: int| 0 <= j < i ==> a@[j] == b@[j],
        decreases a@.len() - i,
    {
        if a[i] != b[i] {
            return false;
        }
        i += 1;
    }
    assert(a@ =~= b@);
    true
}

/// Equality of data items as the derived `==` on the original value type computes it:
/// structural, with floats compared as IEEE 754 numbers (`NaN` unequal to everything,
/// the two zeros equal).
pub open spec fn value_eq(a: VModel, b: VModel) -> bool
    decreases a,
{
    match (a, b) {
        (VModel::Int(x), VModel::Int(y)) => x == y,
        (VModel::Bytes(x), VModel::Bytes(y)) => x == y,
        (VModel::Float(x), VModel::Float(y)) => binary64_eq(x, y),
        (VModel::Text(x), VModel::Text(y)) => x == y,
        (VModel::Bool(x), VModel::Bool(y)) => x == y,
        (VModel::Null, VModel::Null) => true,
        (VModel::Tag(t1, x), VModel::Tag(t2, y)) => t1 == t2 && value_eq(*x, *y),
        (VModel::Array(x), VModel::Array(y)) => list_eq(x, y),
        (VModel::Mapping(x), VModel::Mapping(y)) => pairs_eq(x, y),
        _ => false,
    }
}

/// Element-wise [`value_eq`] of two sequences.
pub open spec fn list_eq(x: Seq<VModel>, y: Seq<VModel>) -> bool
    decreases x,
{
    if x.len() == 0 {
        y.len() == 0
    } else {
        y.len() > 0 && value_eq(x[0], y[0]) && list_eq(x.drop_first(), y.drop_first())
    }
}

/// Entry-wise [`value_eq`] of two entry sequences.
pub open spec fn pairs_eq(x: Seq<(VModel, VModel)>, y: Seq<(VModel, VModel)>) -> bool
    decreases x,
{
    if x.len() == 0 {
        y.len() == 0
    } else {
        y.len() > 0 && pair_eq(x[0], y[0]) && pairs_eq(x.drop_first(), y.drop_first())
    }
}

pub open spec fn pair_eq(p: (VModel, VModel), q: (VModel, VModel)) -> bool
    decreases p,
{
    value_eq(p.0, q.0) && value_eq(p.1, q.1)
}

proof fn lemma_list_eq(x: Seq<VModel>, y: Seq<VModel>)
    ensures
        list_eq(x, y) <==> (x.len() == y.len() && forall|i: int|
            0 <= i < x.len() ==> #[trigger] value_eq(x[i], y[i])),
    decreases x.len(),
{
    if x.len() > 0 && y.len() > 0 {
        lemma_list_eq(x.drop_first(), y.drop_first());
        if x.len() == y.len() && (forall|i: int| 0 <= i < x.len() ==> #[trigger] value_eq(x[i], y[i])) {
            assert(value_eq(x[0], y[0]));
            assert forall|i: int| 0 <= i < x.len() - 1 implies #[trigger] value_eq(
                x.drop_first()[i],
                y.drop_first()[i],
            ) by {
                assert(value_eq(x[i + 1], y[i + 1]));
            }
        }
        if list_eq(x, y) {
            assert forall|i: int| 0 <= i < x.len() implies #[trigger] value_eq(x[i], y[i]) by {
                if i > 0 {
                    assert(value_eq(x.drop_first()[i - 1], y.drop_first()[i - 1]));
                }
            }
        }
    }
}

proof fn lemma_pairs_eq(x: Seq<(VModel, VModel)>, y: Seq<(VModel, VModel)>)
    ensures
        pairs_eq(x, y) <==> (x.len() == y.len() && forall|i: int|
            0 <= i < x.len() ==> #[trigger] pair_eq(x[i], y[i])),
    decreases x.len(),
{
    if x.len() > 0 && y.len() > 0 {
        lemma_pairs_eq(x.drop_first(), y.drop_first());
        if x.len() == y.len() && (forall|i: int| 0 <= i < x.len() ==> #[trigger] pair_eq(x[i], y[i])) {
            assert(pair_eq(x[0], y[0]));
            assert forall|i: int| 0 <= i < x.len() - 1 implies #[trigger] pair_eq(
                x.drop_first()[i],
                y.drop_first()[i],
            ) by {
                assert(pair_eq(x[i + 1], y[i + 1]));
            }
        }
        if pairs_eq(x, y) {
            assert forall|i: int| 0 <= i < x.len() implies #[trigger] pair_eq(x[i], y[i]) by {
                if i > 0 {
                    assert(pair_eq(x.drop_first()[i - 1], y.drop_first()[i - 1]));
                }
            }
        }
    }
}

/// IEEE 754 equality of two binary64 bit patterns.
pub fn floats_equal(a: u64, b: u64) -> (r: bool)
    ensures
        r == binary64_eq(a, b),
{
    let x = number_of_bits(a);
    let y = number_of_bits(b);
    if matches!(x, Number::NaN) || matches!(y, Number::NaN) {
        return false;
    }
    if a == b {
        return true;
    }
    let za = (a / 0x10_0000_0000_0000) % 2048 == 0 && a % 0x10_0000_0000_0000 == 0;
    let zb = (b / 0x10_0000_0000_0000) % 2048 == 0 && b % 0x10_0000_0000_0000 == 0;
    za && zb
}

/// Equality of two data items, as [`value_eq`] describes it.
pub fn values_equal(a: &Value, b: &Value) -> (r: bool)
    ensures
        r == value_eq(a@, b@),
    decreases a,
{
    match (a, b) {
        (Value::Integer(x), Value::Integer(y)) => *x == *y,
        (Value::Bytes(x), Value::Bytes(y)) => bytes_equal(x.as_slice(), y.as_slice()),
        (Value::Float(x), Value::Float(y)) => floats_equal(*x, *y),
        (Value::Text(x), Value::Text(y)) => *x == *y,
        (Value::Bool(x), Value::Bool(y)) => *x == *y,
        (Value::Null, Value::Null) => true,
        (Value::Tag(t1, x), Value::Tag(t2, y)) => *t1 == *t2 && values_equal(x, y),
        (Value::Array(x), Value::Array(y)) => lists_equal(x, y),
        (Value::Mapping(x), Value::Mapping(y)) => entries_equal(x, y),
        _ => false,
    }
}

fn lists_equal(a: &Vec<Value>, b: &Vec<Value>) -> (r: bool)
    ensures
        r == list_eq(model_list(a@), model_list(b@)),
    decreases a,
{
    proof {
        lemma_model_list(a@);
        lemma_model_list(b@);
        lemma_list_eq(model_list(a@), model_list(b@));
    }
    if a.len() != b.len() {
        return false;
    }
    let mut i: usize = 0;
    while i < a.len()
        invariant
            a@.len() == b@.len(),
            i <= a@.len(),
            model_list(a@).len() == a@.len(),
            model_list(b@).len() == b@.len(),
            forall|j: int| 0 <= j < a@.len() ==> #[trigger] model_list(a@)[j] == model(a@[j]),
            forall|j: int| 0 <= j < b@.len() ==> #[trigger] model_list(b@)[j] == model(b@[j]),
            forall|j: int| 0 <= j < i ==> value_eq(#[trigger] model_list(a@)[j], model_list(b@)[j]),
        decreases a@.len() - i,
    {
        proof {
            vstd::std_specs::vec::axiom_vec_index_decreases(*a, i as int);
        }
        if !values_equal(&a[i], &b[i]) {
            proof {
                assert(!value_eq(model_list(a@)[i as int], model_list(b@)[i as int]));
                lemma_list_eq(model_list(a@), model_list(b@));
            }
            return false;
        }
        i += 1;
    }
    true
}

fn entries_equal(a: &Vec<(Value, Value)>, b: &Vec<(Value, Value)>) -> (r: bool)
    ensures
        r == pairs_eq(model_pairs(a@), model_pairs(b@)),
    decreases a,
{
    proof {
        lemma_model_pairs(a@);
        lemma_model_pairs(b@);
        lemma_pairs_eq(model_pairs(a@), model_pairs(b@));
    }
    if a.len() != b.len() {
        return false;
    }
    let mut i: usize = 0;
    while i < a.len()
        invariant
            a@.len() == b@.len(),
            i <= a@.len(),
            model_pairs(a@).len() == a@.len(),
            model_pairs(b@).len() == b@.len(),
            forall|j: int| 0 <= j < a@.len() ==> #[trigger] model_pairs(a@)[j] == (model(a@[j].0), model(a@[j].1)),
            forall|j: int| 0 <= j < b@.len() ==> #[trigger] model_pairs(b@)[j] == (model(b@[j].0), model(b@[j].1)),
            forall|j: int| 0 <= j < i ==> pair_eq(#[trigger] model_pairs(a@)[j], model_pairs(b@)[j]),
        decreases a@.len() - i,
    {
        proof {
            vstd::std_specs::vec::axiom_vec_index_decreases(*a, i as int);
            assert(decreases_to!(a[i as int] => a[i as int].0));
            assert(decreases_to!(a[i as int] => a[i as int].1));
        }
        let k_eq = values_equal(&a[i].0, &b[i].0);
        let v_eq = values_equal(&a[i].1, &b[i].1);
        if !(k_eq && v_eq) {
            proof {
                assert(!pair_eq(model_pairs(a@)[i as int], model_pairs(b@)[i as int]));
                lemma_pairs_eq(model_pairs(a@), model_pairs(b@));
            }
            return false;
        }
        i += 1;
    }
    true
}

impl Clone for Value {
    fn clone(&self) -> (r: Self)
        ensures
            r@ == self@,
    {
        clone_value(self)
    }
}

/// A copy of a byte string.
pub fn copy_bytes(b: &[u8]) -> (r: Vec<u8>)
    ensures
        r@ == b@,
{
    vstd::slice::slice_to_vec(b)
}

/// A deep copy of a data item.
pub fn clone_value(v: &Value) -> (r: Value)
    ensures
        r@ == v@,
    decreases v,
{
    match v {
        Value::Integer(n) => Value::Integer(*n),
        Value::Bytes(b) => Value::Bytes(copy_bytes(b.as_slice())),
        Value::Float(f) => Value::Float(*f),
        Value::Text(t) => Value::Text(t.clone()),
        Value::Bool(b) => Value::Bool(*b),
        Value::Null => Value::Null,
        Value::Tag(t, inner) => Value::Tag(*t, Box::new(clone_value(inner))),
        Value::Array(a) => Value::Array(clone_list(a)),
        Value::Mapping(m) => Value::Mapping(clone_entries(m)),
    }
}

/// A deep copy of a list of data items.
pub fn clone_list(a: &Vec<Value>) -> (r: Vec<Value>)
    ensures
        model_list(r@) == model_list(a@),
    decreases a,
{
    let mut out: Vec<Value> = Vec::new();
    let mut i: usize = 0;
    proof {
        lemma_model_list(a@);
    }
    while i < a.len()
        invariant
            i <= a@.len(),
            model_list(a@).len() == a@.len(),
            forall|j: int| 0 <= j < a@.len() ==> #[trigger] model_list(a@)[j] == model(a@[j]),
            model_list(out@) == model_list(a@).take(i as int),
        decreases a@.len() - i,
    {
        proof {
            vstd::std_specs::vec::axiom_vec_index_decreases(*a, i as int);
        }
        let c = clone_value(&a[i]);
        proof {
            lemma_model_list_push(out@, c);
            assert(model_list(a@).take(i + 1) =~= model_list(a@).take(i as int) + seq![model(c)]);
        }
        out.push(c);
        i += 1;
    }
    proof {
        assert(model_list(a@).take(i as int) =~= model_list(a@));
    }
    out
}

/// A deep copy of a list of map entries.
pub fn clone_entries(a: &Vec<(Value, Value)>) -> (r: Vec<(Value, Value)>)
    ensures
        model_pairs(r@) == model_pairs(a@),
    decreases a,
{
    let mut out: Vec<(Value, Value)> = Vec::new();
    let mut i: usize = 0;
    proof {
        lemma_model_pairs(a@);
    }
    while i < a.len()
        invariant
            i <= a@.len(),
            model_pairs(a@).len() == a@.len(),
            forall|j: int| 0 <= j < a@.len() ==> #[trigger] model_pairs(a@)[j] == (model(a@[j].0), model(a@[j].1)),
            model_pairs(out@) == model_pairs(a@).take(i as int),
        decreases a@.len() - i,
    {
        proof {
            vstd::std_specs::vec::axiom_vec_index_decreases(*a, i as int);
            assert(decreases_to!(a[i as int] => a[i as int].0));
            assert(decreases_to!(a[i as int] => a[i as int].1));
        }
        let k = clone_value(&a[i].0);
        let v = clone_value(&a[i].1);
        proof {
            lemma_model_pairs_push(out@, (k, v));
            assert(model_pairs(a@).take(i + 1) =~= model_pairs(a@).take(i as int) + seq![(model(k), model(v))]);
        }
        out.push((k, v));
        i += 1;
    }
    proof {
        assert(model_pairs(a@).take(i as int) =~= model_pairs(a@));
    }
    out
}


/// The value of the first entry whose key is the integer `k`.
pub open spec fn pairs_lookup(m: Seq<(VModel, VModel)>, k: int) -> Option<VModel>
    decreases m.len(),
{
    if m.len() == 0 {
        None
    } else if m[0].0 == VModel::Int(k) {
        Some(m[0].1)
    } else {
        pairs_lookup(m.drop_first(), k)
    }
}

/// The value of the first entry whose key is the integer `k`.
pub fn map_lookup(m: &Vec<(Value, Value)>, k: i128) -> (r: Option<&Value>)
    ensures
        r matches Some(v) ==> pairs_lookup(model_pairs(m@), k as int) == Some(v@),
        r is None ==> pairs_lookup(model_pairs(m@), k as int) is None,
{
    proof {
        lemma_model_pairs(m@);
    }
    let ghost ms = model_pairs(m@);
    let mut i: usize = 0;
    proof {
        assert(ms.skip(0) =~= ms);
    }
    while i < m.len()
        invariant
            i <= m@.len(),
            ms == model_pairs(m@),
            ms.len() == m@.len(),
            forall|j: int| 0 <= j < m@.len() ==> #[trigger] ms[j] == (model(m@[j].0), model(m@[j].1)),
            pairs_lookup(ms, k as int) == pairs_lookup(ms.skip(i as int), k as int),
        decreases m@.len() - i,
    {
        proof {
            assert(ms.skip(i as int)[0] == ms[i as int]);
            assert(ms.skip(i as int).drop_first() =~= ms.skip(i + 1));
        }
        if let Value::Integer(n) = &m[i].0 {
            if *n == k {
                return Some(&m[i].1);
            }
        }
        i += 1;
    }
    proof {
        assert(ms.skip(i as int).len() == 0);
    }
    None
}

/// The name of a value's kind, as used in diagnostic messages.
pub open spec fn kind_name(v: VModel) -> Seq<char> {
    match v {
        VModel::Int(_) => "integer"@,
        VModel::Bytes(_) => "bytes"@,
        VModel::Text(_) => "text"@,
        VModel::Array(_) => "array"@,
        VModel::Mapping(_) => "map"@,
        VModel::Tag(_, _) => "tag"@,
        VModel::Bool(_) => "bool"@,
        VModel::Null => "null"@,
        VModel::Float(_) => "float"@,
    }
}

/// Brief human name for a value's kind, used in error messages.
pub fn value_kind(v: &Value) -> (s: &'static str)
    ensures
        s@ == kind_name(v@),
{
    proof {
        reveal_strlit("integer");
        reveal_strlit("bytes");
        reveal_strlit("text");
        reveal_strlit("array");
        reveal_strlit("map");
        reveal_strlit("tag");
        reveal_strlit("bool");
        reveal_strlit("null");
        reveal_strlit("float");
    }
    match v {
        Value::Integer(_) => "integer",
        Value::Bytes(_) => "bytes",
        Value::Text(_) => "text",
        Value::Array(_) => "array",
        Value::Mapping(_) => "map",
        Value::Tag(_, _) => "tag",
        Value::Bool(_) => "bool",
        Value::Null => "null",
        Value::Float(_) => "float",
    }
}


/// Looking up a key in two concatenated entry lists finds it in the first when it is
/// there, and in the second otherwise.
pub proof fn lemma_pairs_lookup_concat(a: Seq<(VModel, VModel)>, b: Seq<(VModel, VModel)>, k: int)
    ensures
        pairs_lookup(a + b, k) == (if pairs_lookup(a, k) is Some {
            pairs_lookup(a, k)
        } else {
            pairs_lookup(b, k)
        }),
    decreases a.len(),
{
    if a.len() == 0 {
        assert(a + b =~= b);
    } else {
        assert((a + b).drop_first() =~= a.drop_first() + b);
        assert((a + b)[0] == a[0]);
        lemma_pairs_lookup_concat(a.drop_first(), b, k);
    }
}

}
