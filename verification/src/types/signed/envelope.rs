//! The `COSE_Sign1` envelope of a signed CoRIM: `#6.18([protected, unprotected, payload,
//! signature])` (RFC 9052 §4), its to-be-signed structure, and its encoding and decoding.
//!
//! No cryptographic operation happens here: the caller signs the to-be-signed bytes and
//! checks signatures with the algorithm named in the protected header.
use vstd::prelude::*;
use crate::cbor::{
    Value, VModel, model_pairs, wf, wf_list, enc, encode, decode, decode_spec,
    decode_failure_message, copy_bytes, clone_entries, lemma_model_list, lemma_decode_encode, head,
    initial_byte,
};
use crate::compat::{peel_tcg_wrappers, peel_outcome_spec, starts_with_legacy_spec};
use crate::error::{DecodeError, DecodeErrorModel, EncodeError};
use crate::tags::TAG_SIGNED_CORIM;
use crate::text::{dec_int, push_str, push_usize};
use super::header::{ProtectedCorimHeaderMap, HeaderModel, header_spec};

verus! {

/// The largest input, in bytes, that the decoder accepts.
pub const MAX_PAYLOAD_SIZE: usize = 16777216;

/// A decoded `COSE_Sign1-corim` structure.
#[derive(Clone, Debug, PartialEq)]
pub struct CoseSign1Corim {
    /// The protected header exactly as carried (it is signed as-is).
    pub protected_header_bytes: Vec<u8>,
    /// The decoded protected header.
    pub protected: ProtectedCorimHeaderMap,
    /// The unprotected header map, entries in their order.
    pub unprotected: Vec<(Value, Value)>,
    /// The payload, or `None` when it is detached (`nil`).
    pub payload: Option<Vec<u8>>,
    /// The signature bytes.
    pub signature: Vec<u8>,
}

/// Mathematical form of a [`CoseSign1Corim`].
pub struct EnvelopeModel {
    pub protected_header_bytes: Seq<u8>,
    pub protected: HeaderModel,
    pub unprotected: Seq<(VModel, VModel)>,
    pub payload: Option<Seq<u8>>,
    pub signature: Seq<u8>,
}

pub open spec fn opt_payload(o: Option<Vec<u8>>) -> Option<Seq<u8>> {
    match o {
        Some(b) => Some(b@),
        None => None,
    }
}

impl View for CoseSign1Corim {
    type V = EnvelopeModel;

    open spec fn view(&self) -> EnvelopeModel {
        EnvelopeModel {
            protected_header_bytes: self.protected_header_bytes@,
            protected: self.protected@,
            unprotected: model_pairs(self.unprotected@),
            payload: opt_payload(self.payload),
            signature: self.signature@,
        }
    }
}

/// The context string of `Sig_structure1`.
pub open spec fn sig_context() -> Seq<char> {
    "Signature1"@
}

/// `Sig_structure1 = ["Signature1", body_protected, external_aad, payload]` (RFC 9052 §4.4).
pub open spec fn sig_structure1(protected: Seq<u8>, aad: Seq<u8>, payload: Seq<u8>) -> VModel {
    VModel::Array(
        seq![
            VModel::Text(sig_context()),
            VModel::Bytes(protected),
            VModel::Bytes(aad),
            VModel::Bytes(payload),
        ],
    )
}

/// The payload element: the bytes, or `nil` when detached.
pub open spec fn payload_item(p: Option<Seq<u8>>) -> VModel {
    match p {
        Some(b) => VModel::Bytes(b),
        None => VModel::Null,
    }
}

/// The four elements of an envelope's array.
pub open spec fn envelope_items(e: EnvelopeModel) -> Seq<VModel> {
    seq![
        VModel::Bytes(e.protected_header_bytes),
        VModel::Mapping(e.unprotected),
        payload_item(e.payload),
        VModel::Bytes(e.signature),
    ]
}

/// The data item of an envelope: `#6.18([protected, unprotected, payload / nil, signature])`.
pub open spec fn envelope_value(e: EnvelopeModel) -> VModel {
    VModel::Tag(TAG_SIGNED_CORIM, Box::new(VModel::Array(envelope_items(e))))
}

proof fn lemma_wf_four(s: Seq<VModel>)
    requires
        s.len() == 4,
    ensures
        wf_list(s) == (wf(s[0]) && wf(s[1]) && wf(s[2]) && wf(s[3])),
{
    let s3 = s.drop_last();
    let s2 = s3.drop_last();
    let s1 = s2.drop_last();
    let s0 = s1.drop_last();
    assert(s0.len() == 0);
    assert(wf_list(s1) == (wf_list(s0) && wf(s1.last())));
    assert(wf_list(s2) == (wf_list(s1) && wf(s2.last())));
    assert(wf_list(s3) == (wf_list(s2) && wf(s3.last())));
    assert(wf_list(s) == (wf_list(s3) && wf(s.last())));
}

/// `Sig_structure1` can always be encoded.
proof fn lemma_sig_structure1_wf(protected: Seq<u8>, aad: Seq<u8>, payload: Seq<u8>)
    requires
        protected.len() <= u64::MAX,
        aad.len() <= u64::MAX,
        payload.len() <= u64::MAX,
    ensures
        wf(sig_structure1(protected, aad, payload)),
{
    reveal_strlit("Signature1");
    vstd::utf8::is_ascii_chars_encode_utf8(sig_context());
    if let VModel::Array(s) = sig_structure1(protected, aad, payload) {
        lemma_wf_four(s);
    }
}

/// Encode the `Sig_structure1` to-be-signed bytes for the given protected header bytes,
/// external additional authenticated data and payload.
pub fn build_sig_structure1(protected_header_bytes: &[u8], external_aad: &[u8], payload: &[u8]) -> (r:
    Result<Vec<u8>, EncodeError>)
    ensures
        r matches Ok(b) && b@ == enc(sig_structure1(protected_header_bytes@, external_aad@, payload@)),
{
    let sig = Value::Array(
        vec![
            Value::Text(String::from_str("Signature1")),
            Value::Bytes(copy_bytes(protected_header_bytes)),
            Value::Bytes(copy_bytes(external_aad)),
            Value::Bytes(copy_bytes(payload)),
        ],
    );
    proof {
        reveal_strlit("Signature1");
        let items = sig->Array_0@;
        lemma_model_list(items);
        assert(crate::cbor::model_list(items) =~= seq![
            VModel::Text(sig_context()),
            VModel::Bytes(protected_header_bytes@),
            VModel::Bytes(external_aad@),
            VModel::Bytes(payload@),
        ]);
        assert(protected_header_bytes@.len() == protected_header_bytes.len());
        assert(external_aad@.len() == external_aad.len());
        assert(payload@.len() == payload.len());
        lemma_sig_structure1_wf(protected_header_bytes@, external_aad@, payload@);
    }
    encode(&sig)
}

impl CoseSign1Corim {
    /// The to-be-signed bytes over the embedded payload; fails when the payload is detached.
    pub fn to_be_signed(&self, external_aad: &[u8]) -> (r: Result<Vec<u8>, EncodeError>)
        ensures
            self.payload is None <==> r is Err,
            r matches Err(e) ==> e@
                == "payload is detached (nil); use to_be_signed_detached() with the payload"@,
            r matches Ok(b) ==> b@ == enc(
                sig_structure1(self.protected_header_bytes@, external_aad@, self.payload->0@),
            ),
    {
        match &self.payload {
            None => Err(
                EncodeError::Serialization(
                    String::from_str(
                        "payload is detached (nil); use to_be_signed_detached() with the payload",
                    ),
                ),
            ),
            Some(p) => build_sig_structure1(
                self.protected_header_bytes.as_slice(),
                external_aad,
                p.as_slice(),
            ),
        }
    }

    /// The to-be-signed bytes over a payload supplied by the caller (a detached payload, or
    /// one that takes the place of the embedded one).
    pub fn to_be_signed_detached(&self, detached_payload: &[u8], external_aad: &[u8]) -> (r:
        Result<Vec<u8>, EncodeError>)
        ensures
            r matches Ok(b) && b@ == enc(
                sig_structure1(self.protected_header_bytes@, external_aad@, detached_payload@),
            ),
    {
        build_sig_structure1(self.protected_header_bytes.as_slice(), external_aad, detached_payload)
    }

    /// Whether the payload is detached (`nil`).
    pub fn is_detached(&self) -> (r: bool)
        ensures
            r == (self.payload is None),
    {
        self.payload.is_none()
    }
}

/// Encode an envelope as `#6.18([protected, unprotected, payload / nil, signature])`.
/// Fails exactly when an integer in the unprotected header is outside the CBOR range.
pub fn encode_signed_corim(signed: &CoseSign1Corim) -> (r: Result<Vec<u8>, EncodeError>)
    ensures
        r is Ok <==> wf(VModel::Mapping(signed@.unprotected)),
        r matches Ok(b) ==> b@ == enc(envelope_value(signed@)),
        r matches Err(e) ==> e@ == "integer outside the CBOR range"@,
{
    let payload_val = match &signed.payload {
        Some(p) => Value::Bytes(copy_bytes(p.as_slice())),
        None => Value::Null,
    };
    let arr = Value::Array(
        vec![
            Value::Bytes(copy_bytes(signed.protected_header_bytes.as_slice())),
            Value::Mapping(clone_entries(&signed.unprotected)),
            payload_val,
            Value::Bytes(copy_bytes(signed.signature.as_slice())),
        ],
    );
    let ghost items = arr->Array_0@;
    let ghost ms = envelope_items(signed@);
    proof {
        lemma_model_list(items);
        assert(crate::cbor::model_list(items) =~= ms);
        assert(arr@ == VModel::Array(ms));
        lemma_wf_four(ms);
        let ps = signed.protected_header_bytes@;
        let ss = signed.signature@;
        assert(ps.len() == signed.protected_header_bytes.len());
        assert(ss.len() == signed.signature.len());
        assert(signed.payload matches Some(p) ==> p@.len() == p.len());
        assert(usize::MAX <= u64::MAX);
        assert(wf(ms[0]));
        assert(wf(ms[2]));
        assert(wf(ms[3]));
        assert(wf(VModel::Array(ms)) == wf(VModel::Mapping(signed@.unprotected)));
    }
    let tagged = Value::Tag(TAG_SIGNED_CORIM, Box::new(arr));
    proof {
        assert(tagged@ == VModel::Tag(TAG_SIGNED_CORIM, Box::new(arr@)));
        assert(envelope_value(signed@) == VModel::Tag(TAG_SIGNED_CORIM, Box::new(VModel::Array(ms))));
        assert(tagged@ == envelope_value(signed@));
    }
    encode(&tagged)
}

/// The message for an input over the size limit.
pub open spec fn too_large_message(n: int) -> Seq<char> {
    "payload too large: "@ + dec_int(n) + " bytes (max "@ + dec_int(MAX_PAYLOAD_SIZE as int)
        + ")"@
}

/// The message for a protected header that does not decode.
pub open spec fn protected_message(m: Seq<char>) -> Seq<char> {
    "protected header decode: "@ + ("CBOR deserialization failed: "@ + m)
}

/// The envelope fields read from the four array elements, given the decoded header.
/// A non-map unprotected header reads as empty, a non-bytes payload as detached and a
/// non-bytes signature as empty.
pub open spec fn cose_fields(a: Seq<VModel>, h: HeaderModel, p: Seq<u8>) -> EnvelopeModel {
    EnvelopeModel {
        protected_header_bytes: p,
        protected: h,
        unprotected: match a[1] {
            VModel::Mapping(m) => m,
            _ => Seq::empty(),
        },
        payload: match a[2] {
            VModel::Bytes(b) => Some(b),
            _ => None,
        },
        signature: match a[3] {
            VModel::Bytes(b) => b,
            _ => Seq::empty(),
        },
    }
}

/// The envelope a decoded data item denotes, or the error for it.
pub open spec fn signed_item_spec(v: VModel) -> Result<EnvelopeModel, DecodeErrorModel> {
    match v {
        VModel::Tag(t, inner) => if t != TAG_SIGNED_CORIM {
            Err(DecodeErrorModel::UnexpectedTag { expected: TAG_SIGNED_CORIM, found: t })
        } else {
            match *inner {
                VModel::Array(a) => if a.len() != 4 {
                    Err(
                        DecodeErrorModel::InvalidStructure(
                            "COSE_Sign1 must be a 4-element array, got "@ + dec_int(a.len() as int),
                        ),
                    )
                } else {
                    match a[0] {
                        VModel::Bytes(p) => match decode_spec(p) {
                            None => Err(
                                DecodeErrorModel::InvalidStructure(
                                    protected_message(decode_failure_message(p)),
                                ),
                            ),
                            Some(hv) => match header_spec(hv) {
                                Err(m) => Err(
                                    DecodeErrorModel::InvalidStructure(protected_message(m)),
                                ),
                                Ok(h) => Ok(cose_fields(a, h, p)),
                            },
                        },
                        _ => Err(
                            DecodeErrorModel::InvalidStructure(
                                "COSE_Sign1 protected must be bstr"@,
                            ),
                        ),
                    }
                },
                _ => Err(DecodeErrorModel::InvalidStructure("COSE_Sign1 must be an array"@)),
            }
        },
        _ => Err(DecodeErrorModel::InvalidStructure("expected CBOR tag 18 for signed-corim"@)),
    }
}

/// What [`decode_signed_corim`] gives for the bytes `b`: the size check, then the legacy
/// wrappers are peeled, then the data item is read as an envelope.
pub open spec fn decode_signed_spec(b: Seq<u8>) -> Result<EnvelopeModel, DecodeErrorModel> {
    if b.len() > MAX_PAYLOAD_SIZE {
        Err(DecodeErrorModel::InvalidStructure(too_large_message(b.len() as int)))
    } else {
        match peel_outcome_spec(b) {
            Err(e) => Err(e),
            Ok(p) => match decode_spec(p) {
                None => Err(
                    DecodeErrorModel::Deserialization(
                        "cannot decode CBOR: "@ + ("CBOR deserialization failed: "@
                            + decode_failure_message(p)),
                    ),
                ),
                Some(v) => signed_item_spec(v),
            },
        }
    }
}

/// Decoding gives back an encoded envelope: when the envelope can be encoded, its encoding
/// is within the size limit, and its protected header bytes decode to its protected header,
/// [`decode_signed_corim`] of the bytes that [`encode_signed_corim`] writes yields the same
/// envelope.
pub proof fn lemma_decode_encode_signed(e: EnvelopeModel)
    requires
        wf(envelope_value(e)),
        enc(envelope_value(e)).len() <= MAX_PAYLOAD_SIZE,
        decode_spec(e.protected_header_bytes) matches Some(hv) && header_spec(hv) == Ok::<
            HeaderModel,
            Seq<char>,
        >(e.protected),
    ensures
        decode_signed_spec(enc(envelope_value(e))) == Ok::<EnvelopeModel, DecodeErrorModel>(e),
{
    let v = envelope_value(e);
    let b = enc(v);
    let inner = VModel::Array(envelope_items(e));
    assert(initial_byte(6, 18) == 0xD2u8) by (bit_vector);
    assert(b == head(6, TAG_SIGNED_CORIM) + enc(inner));
    assert(b[0] == 0xD2u8);
    assert(!starts_with_legacy_spec(b));
    assert(peel_outcome_spec(b) == Ok::<Seq<u8>, DecodeErrorModel>(b));
    lemma_decode_encode(v);
    let a = envelope_items(e);
    assert(cose_fields(a, e.protected, e.protected_header_bytes) == e);
}

fn invalid(m: String) -> (e: DecodeError)
    ensures
        e == DecodeError::InvalidStructure(m),
{
    DecodeError::InvalidStructure(m)
}

/// Read the four array elements of an envelope.
fn envelope_from_items(a: &Vec<Value>) -> (r: Result<CoseSign1Corim, DecodeError>)
    requires
        a@.len() == 4,
    ensures
        r matches Ok(e) ==> signed_item_spec(
            VModel::Tag(TAG_SIGNED_CORIM, Box::new(VModel::Array(crate::cbor::model_list(a@)))),
        ) == Ok::<EnvelopeModel, DecodeErrorModel>(e@) && e.protected.wf(),
        r matches Err(e) ==> signed_item_spec(
            VModel::Tag(TAG_SIGNED_CORIM, Box::new(VModel::Array(crate::cbor::model_list(a@)))),
        ) == Err::<EnvelopeModel, DecodeErrorModel>(e@),
{
    proof {
        lemma_model_list(a@);
        reveal_strlit("COSE_Sign1 protected must be bstr");
        reveal_strlit("protected header decode: ");
        reveal_strlit("CBOR deserialization failed: ");
    }
    let ghost ms = crate::cbor::model_list(a@);
    let protected_header_bytes = match &a[0] {
        Value::Bytes(b) => copy_bytes(b.as_slice()),
        _ => {
            return Err(invalid(String::from_str("COSE_Sign1 protected must be bstr")));
        },
    };
    let hv = match decode(protected_header_bytes.as_slice()) {
        Ok(v) => v,
        Err(e) => {
            let mut m = String::from_str("protected header decode: ");
            let t = e.to_text();
            push_str(&mut m, t.as_str());
            return Err(invalid(m));
        },
    };
    let protected = match ProtectedCorimHeaderMap::from_value(&hv) {
        Ok(h) => h,
        Err(msg) => {
            let mut m = String::from_str("protected header decode: ");
            push_str(&mut m, "CBOR deserialization failed: ");
            push_str(&mut m, msg.as_str());
            proof {
                assert(m@ == protected_message(msg@));
            }
            return Err(invalid(m));
        },
    };
    let unprotected = match &a[1] {
        Value::Mapping(m) => clone_entries(m),
        _ => Vec::new(),
    };
    let payload = match &a[2] {
        Value::Bytes(b) => Some(copy_bytes(b.as_slice())),
        _ => None,
    };
    let signature = match &a[3] {
        Value::Bytes(b) => copy_bytes(b.as_slice()),
        _ => Vec::new(),
    };
    let e = CoseSign1Corim { protected_header_bytes, protected, unprotected, payload, signature };
    proof {
        crate::cbor::lemma_model_pairs(Seq::<(Value, Value)>::empty());
        assert(e@ == cose_fields(ms, protected@, protected_header_bytes@));
    }
    Ok(e)
}

/// Decode a signed CoRIM `#6.18(COSE_Sign1-corim)`, after peeling legacy `#6.500` /
/// `#6.502` wrappers. The signature is not checked.
pub fn decode_signed_corim(bytes: &[u8]) -> (r: Result<CoseSign1Corim, DecodeError>)
    ensures
        r matches Ok(e) ==> decode_signed_spec(bytes@) == Ok::<EnvelopeModel, DecodeErrorModel>(e@)
            && e.protected.wf(),
        r matches Err(e) ==> decode_signed_spec(bytes@) == Err::<EnvelopeModel, DecodeErrorModel>(e@),
{
    proof {
        reveal_strlit("payload too large: ");
        reveal_strlit(" bytes (max ");
        reveal_strlit(")");
        reveal_strlit("cannot decode CBOR: ");
        reveal_strlit("CBOR deserialization failed: ");
        reveal_strlit("expected CBOR tag 18 for signed-corim");
        reveal_strlit("COSE_Sign1 must be a 4-element array, got ");
        reveal_strlit("COSE_Sign1 must be an array");
    }
    if bytes.len() > MAX_PAYLOAD_SIZE {
        let mut m = String::from_str("payload too large: ");
        push_usize(&mut m, bytes.len());
        push_str(&mut m, " bytes (max ");
        push_usize(&mut m, MAX_PAYLOAD_SIZE);
        push_str(&mut m, ")");
        return Err(invalid(m));
    }
    let peeled = match peel_tcg_wrappers(bytes) {
        Ok(o) => o,
        Err(e) => {
            return Err(e);
        },
    };
    let b = peeled.as_bytes();
    let v = match decode(b) {
        Ok(v) => v,
        Err(e) => {
            let mut m = String::from_str("cannot decode CBOR: ");
            let t = e.to_text();
            push_str(&mut m, t.as_str());
            return Err(DecodeError::Deserialization(m));
        },
    };
    let ghost vm = v@;
    match v {
        Value::Tag(t, inner) => {
            let ghost im = (*inner)@;
            assert(vm == VModel::Tag(t, Box::new(im)));
            if t != TAG_SIGNED_CORIM {
                return Err(DecodeError::UnexpectedTag { expected: TAG_SIGNED_CORIM, found: t });
            }
            match *inner {
                Value::Array(a) => {
                    assert(im == VModel::Array(crate::cbor::model_list(a@)));
                    if a.len() != 4 {
                        let mut m = String::from_str("COSE_Sign1 must be a 4-element array, got ");
                        push_usize(&mut m, a.len());
                        proof {
                            lemma_model_list(a@);
                        }
                        return Err(invalid(m));
                    }
                    envelope_from_items(&a)
                },
                _ => Err(invalid(String::from_str("COSE_Sign1 must be an array"))),
            }
        },
        _ => Err(invalid(String::from_str("expected CBOR tag 18 for signed-corim"))),
    }
}


/// An envelope whose encoding is within the size limit has byte strings short enough to
/// be encoded, so it is well formed exactly when its unprotected header is.
pub(crate) proof fn lemma_envelope_wf(e: EnvelopeModel)
    requires
        wf(VModel::Mapping(e.unprotected)),
        enc(envelope_value(e)).len() <= MAX_PAYLOAD_SIZE,
    ensures
        wf(envelope_value(e)),
{
    let s = envelope_items(e);
    let l3 = s.drop_last();
    let l2 = l3.drop_last();
    let l1 = l2.drop_last();
    let l0 = l1.drop_last();
    assert(l0.len() == 0);
    assert(crate::cbor::enc_list(s) == crate::cbor::enc_list(l3) + enc(s[3]));
    assert(crate::cbor::enc_list(l3) == crate::cbor::enc_list(l2) + enc(s[2]));
    assert(crate::cbor::enc_list(l2) == crate::cbor::enc_list(l1) + enc(s[1]));
    assert(crate::cbor::enc_list(l1) == crate::cbor::enc_list(l0) + enc(s[0]));
    let total = enc(envelope_value(e));
    let arr = VModel::Array(s);
    assert(s.len() == 4);
    assert(enc(arr) == head(4, s.len() as u64) + crate::cbor::enc_list(s));
    assert(total == head(6, TAG_SIGNED_CORIM) + enc(arr));
    assert(enc(s[0]).len() <= total.len());
    assert(enc(s[2]).len() <= total.len());
    assert(enc(s[3]).len() <= total.len());
    assert(e.protected_header_bytes.len() <= enc(s[0]).len());
    assert(e.signature.len() <= enc(s[3]).len());
    assert(e.payload matches Some(p) ==> p.len() <= enc(s[2]).len());
    assert(wf(s[0]));
    assert(wf(s[1]));
    assert(wf(s[2]));
    assert(wf(s[3]));
    lemma_wf_four(s);
    assert(wf(arr));
}

} // verus!
