//! Decode-only interop relaxations applied before strict decoding, so that CoRIM files
//! produced against early drafts or the TCG Endorsement shape still decode. None of them
//! affects encoding.
//!
//! - [`peel_tcg_wrappers`]: strip legacy outer `#6.500` / `#6.502` tags.
//! - [`wrap_bare_corim_map`]: give a bare `corim-map` its `#6.501` tag.
//! - [`decode_comid_from_tcg_bstr`]: read a CoMID from `#6.506(map)` or a bare map.
use vstd::prelude::*;
use crate::cbor::{Value, VModel, decode, decode_spec, decode_failure_message, encode, enc, wf, kind_name, value_kind, lemma_decode_encode, parse_head, be_u16};
use crate::error::{DecodeError, DecodeErrorModel, EncodeError, decode_error_text, encode_error_text};
use crate::tags::{TAG_COMID, TAG_LEGACY_SIGNED, TAG_LEGACY_TOP};
use crate::text::{dec_int, push_str, push_u64};
use crate::types::comid::{ComidModel, ComidTag, comid_spec};

verus! {

/// Result of [`peel_tcg_wrappers`].
#[derive(Debug)]
pub enum PeelOutcome<'a> {
    /// The input had no legacy wrappers; the original slice.
    Unchanged(&'a [u8]),
    /// Wrappers were stripped; the encoding of the innermost item.
    Peeled(Vec<u8>),
}

impl<'a> PeelOutcome<'a> {
    /// The resulting bytes.
    pub open spec fn bytes_spec(&self) -> Seq<u8> {
        match self {
            PeelOutcome::Unchanged(b) => b@,
            PeelOutcome::Peeled(v) => v@,
        }
    }

    /// Borrow the resulting bytes (zero-copy for the `Unchanged` case).
    pub fn as_bytes(&self) -> (r: &[u8])
        ensures
            r@ == self.bytes_spec(),
    {
        match self {
            PeelOutcome::Unchanged(b) => b,
            PeelOutcome::Peeled(v) => v.as_slice(),
        }
    }

    /// True if the input carried legacy `#6.500` / `#6.502` wrappers.
    pub fn was_peeled(&self) -> (r: bool)
        ensures
            r == (self is Peeled),
    {
        match self {
            PeelOutcome::Peeled(_) => true,
            PeelOutcome::Unchanged(_) => false,
        }
    }
}

/// Whether bytes start with the head of tag 500 (`D9 01 F4`) or 502 (`D9 01 F6`).
pub open spec fn starts_with_legacy_spec(b: Seq<u8>) -> bool {
    b.len() >= 3 && b[0] == 0xD9 && b[1] == 0x01 && (b[2] == 0xF4 || b[2] == 0xF6)
}

/// A tag 500 or 502.
pub open spec fn is_legacy_tag(v: VModel) -> bool {
    v matches VModel::Tag(t, _) && (t == TAG_LEGACY_TOP || t == TAG_LEGACY_SIGNED)
}

/// The item inside any number of `#6.500` / `#6.502` layers.
pub open spec fn peel_spec(v: VModel) -> VModel
    decreases v,
{
    match v {
        VModel::Tag(t, inner) => if t == TAG_LEGACY_TOP || t == TAG_LEGACY_SIGNED {
            peel_spec(*inner)
        } else {
            v
        },
        _ => v,
    }
}

fn starts_with_legacy_tag(bytes: &[u8]) -> (r: bool)
    ensures
        r == starts_with_legacy_spec(bytes@),
{
    bytes.len() >= 3 && bytes[0] == 0xD9 && bytes[1] == 0x01 && (bytes[2] == 0xF4 || bytes[2]
        == 0xF6)
}

fn peel_value(v: Value) -> (r: Value)
    ensures
        r@ == peel_spec(v@),
    decreases v,
{
    match v {
        Value::Tag(t, inner) => {
            if t == TAG_LEGACY_TOP || t == TAG_LEGACY_SIGNED {
                peel_value(*inner)
            } else {
                Value::Tag(t, inner)
            }
        },
        other => other,
    }
}

/// The bytes (or the error) [`peel_tcg_wrappers`] gives for `b`.
pub open spec fn peel_outcome_spec(b: Seq<u8>) -> Result<Seq<u8>, DecodeErrorModel> {
    if !starts_with_legacy_spec(b) {
        Ok(b)
    } else {
        match decode_spec(b) {
            None => Err(
                DecodeErrorModel::Deserialization(
                    "peel: cannot decode CBOR: "@ + ("CBOR deserialization failed: "@
                        + decode_failure_message(b)),
                ),
            ),
            Some(v) => if !is_legacy_tag(v) {
                Ok(b)
            } else if wf(peel_spec(v)) {
                Ok(enc(peel_spec(v)))
            } else {
                Err(
                    DecodeErrorModel::InvalidStructure(
                        "peel: failed to re-encode inner CBOR: "@ + ("CBOR serialization failed: "@
                            + "integer outside the CBOR range"@),
                    ),
                )
            },
        }
    }
}

/// Bytes that start with the head of tag 500 or 502 and hold one data item hold such a tag.
proof fn lemma_legacy_prefix_tag(b: Seq<u8>)
    requires
        starts_with_legacy_spec(b),
        decode_spec(b) is Some,
    ensures
        is_legacy_tag(decode_spec(b)->0),
{
    let b0 = b[0];
    let b1 = b[1];
    let b2 = b[2];
    assert(b0 >> 5u8 == 6u8 && b0 & 31u8 == 25u8) by (bit_vector)
        requires
            b0 == 0xD9u8,
    ;
    assert((((b1 as u64) << 8u64) | (b2 as u64)) == 500u64 || (((b1 as u64) << 8u64) | (b2 as u64)) == 502u64) by (bit_vector)
        requires
            b1 == 1u8,
            b2 == 0xF4u8 || b2 == 0xF6u8,
    ;
    assert(parse_head(b) == Some((6u8, 25u8, be_u16(b, 1), 3int)));
}

/// Strip legacy outer CBOR tags (`#6.500`, `#6.502`, in any order and any number of
/// layers) that some producers wrap around an otherwise-compliant CoRIM.
///
/// Input that does not start with the head of tag 500 or 502 is returned unchanged;
/// otherwise the bytes are decoded, the legacy layers peeled, and the innermost item
/// re-encoded.
pub fn peel_tcg_wrappers(bytes: &[u8]) -> (r: Result<PeelOutcome<'_>, DecodeError>)
    ensures
        r matches Ok(o) ==> peel_outcome_spec(bytes@) == Ok::<Seq<u8>, DecodeErrorModel>(o.bytes_spec()),
        r matches Err(e) ==> peel_outcome_spec(bytes@) == Err::<Seq<u8>, DecodeErrorModel>(e@),
        !starts_with_legacy_spec(bytes@) ==> (r matches Ok(PeelOutcome::Unchanged(b)) && b@ == bytes@),
        starts_with_legacy_spec(bytes@) && decode_spec(bytes@) is None ==> (r matches Err(
            DecodeError::Deserialization(m),
        ) && m@ == "peel: cannot decode CBOR: "@ + ("CBOR deserialization failed: "@
            + decode_failure_message(bytes@))),
        starts_with_legacy_spec(bytes@) ==> (decode_spec(bytes@) matches Some(v) ==> if !is_legacy_tag(v) {
            r matches Ok(PeelOutcome::Unchanged(b)) && b@ == bytes@
        } else if wf(peel_spec(v)) {
            r matches Ok(PeelOutcome::Peeled(out)) && out@ == enc(peel_spec(v))
        } else {
            r matches Err(DecodeError::InvalidStructure(m)) && m@
                == "peel: failed to re-encode inner CBOR: "@ + ("CBOR serialization failed: "@
                + "integer outside the CBOR range"@)
        }),
        r matches Ok(o) ==> (o is Peeled <==> starts_with_legacy_spec(bytes@)),
{
    if !starts_with_legacy_tag(bytes) {
        return Ok(PeelOutcome::Unchanged(bytes));
    }
    let v = match decode(bytes) {
        Ok(v) => v,
        Err(e) => {
            proof {
                reveal_strlit("peel: cannot decode CBOR: ");
            }
            let mut m = String::from_str("peel: cannot decode CBOR: ");
            let t = e.to_text();
            push_str(&mut m, t.as_str());
            return Err(DecodeError::Deserialization(m));
        },
    };
    proof {
        lemma_legacy_prefix_tag(bytes@);
    }
    let peeled = match &v {
        Value::Tag(t, _) => *t == TAG_LEGACY_TOP || *t == TAG_LEGACY_SIGNED,
        _ => false,
    };
    if !peeled {
        return Ok(PeelOutcome::Unchanged(bytes));
    }
    let inner = peel_value(v);
    match encode(&inner) {
        Ok(out) => Ok(PeelOutcome::Peeled(out)),
        Err(e) => {
            proof {
                reveal_strlit("peel: failed to re-encode inner CBOR: ");
                reveal_strlit("CBOR serialization failed: ");
                reveal_strlit("integer outside the CBOR range");
            }
            let mut m = String::from_str("peel: failed to re-encode inner CBOR: ");
            let t = e.to_text();
            push_str(&mut m, t.as_str());
            Err(DecodeError::InvalidStructure(m))
        },
    }
}

/// Result of [`wrap_bare_corim_map`].
#[derive(Debug)]
pub enum WrapOutcome<'a> {
    /// The input was already `#6.501`-tagged or is not a CBOR map; the original slice.
    Unchanged(&'a [u8]),
    /// The input was a bare CBOR map; the `#6.501` head followed by the original bytes.
    Wrapped(Vec<u8>),
}

impl<'a> WrapOutcome<'a> {
    /// The resulting bytes.
    pub open spec fn bytes_spec(&self) -> Seq<u8> {
        match self {
            WrapOutcome::Unchanged(b) => b@,
            WrapOutcome::Wrapped(v) => v@,
        }
    }

    /// Borrow the resulting bytes (zero-copy for the `Unchanged` case).
    pub fn as_bytes(&self) -> (r: &[u8])
        ensures
            r@ == self.bytes_spec(),
    {
        match self {
            WrapOutcome::Unchanged(b) => b,
            WrapOutcome::Wrapped(v) => v.as_slice(),
        }
    }

    /// True if a synthetic `#6.501` head was prepended.
    pub fn was_wrapped(&self) -> (r: bool)
        ensures
            r == (self is Wrapped),
    {
        match self {
            WrapOutcome::Wrapped(_) => true,
            WrapOutcome::Unchanged(_) => false,
        }
    }
}

/// The head of tag 501.
pub open spec fn tag501_head() -> Seq<u8> {
    seq![0xD9u8, 0x01, 0xF5]
}

/// Whether bytes need the `#6.501` head: they start with a definite-length map head
/// (`A0..=BB`) rather than `D9 01 F5`.
pub open spec fn needs_wrap(b: Seq<u8>) -> bool {
    b.len() > 0 && !(b.len() >= 3 && b[0] == 0xD9 && b[1] == 0x01 && b[2] == 0xF5) && 0xA0 <= b[0]
        <= 0xBB
}

/// Wrap a bare CBOR map in a synthetic `#6.501` tag if it is not already tagged.
pub fn wrap_bare_corim_map<'a>(bytes: &'a [u8]) -> (r: WrapOutcome<'a>)
    ensures
        needs_wrap(bytes@) ==> (r matches WrapOutcome::Wrapped(out) && out@ == tag501_head()
            + bytes@),
        !needs_wrap(bytes@) ==> (r matches WrapOutcome::Unchanged(b) && b@ == bytes@),
{
    if bytes.len() == 0 {
        return WrapOutcome::Unchanged(bytes);
    }
    if bytes.len() >= 3 && bytes[0] == 0xD9 && bytes[1] == 0x01 && bytes[2] == 0xF5 {
        return WrapOutcome::Unchanged(bytes);
    }
    let first = bytes[0];
    if 0xA0 <= first && first <= 0xBB {
        let mut out: Vec<u8> = Vec::new();
        out.push(0xD9);
        out.push(0x01);
        out.push(0xF5);
        let mut i: usize = 0;
        while i < bytes.len()
            invariant
                i <= bytes@.len(),
                out@ == tag501_head() + bytes@.take(i as int),
            decreases bytes@.len() - i,
        {
            out.push(bytes[i]);
            i += 1;
            assert(bytes@.take(i as int) =~= bytes@.take(i - 1).push(bytes@[i - 1]));
        }
        assert(bytes@.take(i as int) =~= bytes@);
        return WrapOutcome::Wrapped(out);
    }
    WrapOutcome::Unchanged(bytes)
}

/// The message for a decoded item that is neither `#6.506(map)` nor a bare map.
pub open spec fn comid_shape_error(v: VModel) -> Seq<char> {
    match v {
        VModel::Tag(t, inner) => if t == TAG_COMID {
            "expected #6.506(map), got #6.506("@ + kind_name(*inner) + ")"@
        } else {
            "expected bare map or #6.506(map), got unrelated tag #6."@ + dec_int(t as int)
        },
        _ => "expected bare map or #6.506(map), got "@ + kind_name(v),
    }
}

/// The map inside `#6.506(map)`, or a bare map itself.
pub open spec fn comid_map_spec(v: VModel) -> Option<VModel> {
    match v {
        VModel::Tag(t, inner) => if t == TAG_COMID && *inner is Mapping {
            Some(*inner)
        } else {
            None
        },
        VModel::Mapping(_) => Some(v),
        _ => None,
    }
}

/// What [`decode_comid_from_tcg_bstr`] gives for the bytes `b`.
pub open spec fn tcg_comid_spec(b: Seq<u8>) -> Result<ComidModel, DecodeErrorModel> {
    match decode_spec(b) {
        None => Err(
            DecodeErrorModel::Deserialization(
                "decode_comid_from_tcg_bstr: "@ + ("CBOR deserialization failed: "@
                    + decode_failure_message(b)),
            ),
        ),
        Some(v) => match comid_map_spec(v) {
            None => Err(DecodeErrorModel::InvalidStructure(comid_shape_error(v))),
            Some(map) => if !wf(map) {
                Err(
                    DecodeErrorModel::InvalidStructure(
                        "decode_comid_from_tcg_bstr: re-encode failed: "@ + (
                        "CBOR serialization failed: "@ + "integer outside the CBOR range"@),
                    ),
                )
            } else {
                match comid_spec(map) {
                    Ok(c) => Ok(c),
                    Err(e) => Err(
                        DecodeErrorModel::Deserialization(
                            "decode_comid_from_tcg_bstr: ComidTag decode: "@ + (
                            "CBOR deserialization failed: "@ + e),
                        ),
                    ),
                }
            },
        },
    }
}

/// Decode a CoMID from bytes holding either `#6.506(map)` (the TCG-style nesting) or a
/// bare `concise-mid-tag` map.
pub fn decode_comid_from_tcg_bstr(bytes: &[u8]) -> (r: Result<ComidTag, DecodeError>)
    ensures
        r matches Ok(x) ==> tcg_comid_spec(bytes@) == Ok::<ComidModel, DecodeErrorModel>(x@),
        r matches Err(e) ==> tcg_comid_spec(bytes@) == Err::<ComidModel, DecodeErrorModel>(e@),
        decode_spec(bytes@) is None ==> (r matches Err(DecodeError::Deserialization(m)) && m@
            == "decode_comid_from_tcg_bstr: "@ + ("CBOR deserialization failed: "@
            + decode_failure_message(bytes@))),
        decode_spec(bytes@) matches Some(v) ==> (match comid_map_spec(v) {
            None => r matches Err(DecodeError::InvalidStructure(m)) && m@ == comid_shape_error(v),
            Some(map) => if !wf(map) {
                r matches Err(DecodeError::InvalidStructure(m)) && m@
                    == "decode_comid_from_tcg_bstr: re-encode failed: "@ + (
                "CBOR serialization failed: "@ + "integer outside the CBOR range"@)
            } else {
                match comid_spec(map) {
                    Ok(c) => r matches Ok(x) && x@ == c,
                    Err(e) => r matches Err(DecodeError::Deserialization(m)) && m@
                        == "decode_comid_from_tcg_bstr: ComidTag decode: "@ + (
                    "CBOR deserialization failed: "@ + e),
                }
            },
        }),
{
    proof {
        reveal_strlit("decode_comid_from_tcg_bstr: ");
        reveal_strlit("expected #6.506(map), got #6.506(");
        reveal_strlit(")");
        reveal_strlit("expected bare map or #6.506(map), got unrelated tag #6.");
        reveal_strlit("expected bare map or #6.506(map), got ");
        reveal_strlit("decode_comid_from_tcg_bstr: re-encode failed: ");
        reveal_strlit("CBOR serialization failed: ");
        reveal_strlit("integer outside the CBOR range");
        reveal_strlit("decode_comid_from_tcg_bstr: ComidTag decode: ");
        reveal_strlit("CBOR deserialization failed: ");
    }
    let v = match decode(bytes) {
        Ok(v) => v,
        Err(e) => {
            let mut m = String::from_str("decode_comid_from_tcg_bstr: ");
            let t = e.to_text();
            push_str(&mut m, t.as_str());
            return Err(DecodeError::Deserialization(m));
        },
    };
    let map_value = match v {
        Value::Tag(t, boxed) => {
            if t == TAG_COMID {
                match *boxed {
                    Value::Mapping(m) => Value::Mapping(m),
                    other => {
                        let mut m = String::from_str("expected #6.506(map), got #6.506(");
                        push_str(&mut m, value_kind(&other));
                        push_str(&mut m, ")");
                        return Err(DecodeError::InvalidStructure(m));
                    },
                }
            } else {
                let mut m = String::from_str(
                    "expected bare map or #6.506(map), got unrelated tag #6.",
                );
                push_u64(&mut m, t);
                return Err(DecodeError::InvalidStructure(m));
            }
        },
        Value::Mapping(m) => Value::Mapping(m),
        other => {
            let mut m = String::from_str("expected bare map or #6.506(map), got ");
            push_str(&mut m, value_kind(&other));
            return Err(DecodeError::InvalidStructure(m));
        },
    };
    let map_bytes = match encode(&map_value) {
        Ok(b) => b,
        Err(e) => {
            let mut m = String::from_str("decode_comid_from_tcg_bstr: re-encode failed: ");
            let t = e.to_text();
            push_str(&mut m, t.as_str());
            return Err(DecodeError::InvalidStructure(m));
        },
    };
    proof {
        lemma_decode_encode(map_value@);
    }
    let reparsed = match decode(map_bytes.as_slice()) {
        Ok(x) => x,
        Err(e) => {
            let mut m = String::from_str("decode_comid_from_tcg_bstr: ComidTag decode: ");
            let t = e.to_text();
            push_str(&mut m, t.as_str());
            return Err(DecodeError::Deserialization(m));
        },
    };
    match ComidTag::from_value(&reparsed) {
        Ok(c) => Ok(c),
        Err(e) => {
            let mut m = String::from_str("decode_comid_from_tcg_bstr: ComidTag decode: ");
            let t = e.to_text();
            push_str(&mut m, t.as_str());
            Err(DecodeError::Deserialization(m))
        },
    }
}

} // verus!
