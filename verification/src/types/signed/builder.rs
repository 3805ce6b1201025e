//! Building signed CoRIMs: the protected header is assembled from the builder's settings,
//! the caller signs the to-be-signed bytes externally and hands the signature back.
use vstd::prelude::*;
use crate::cbor::{Value, VModel, model_pairs, wf, enc, encode, copy_bytes, lemma_model_pairs_push};
use crate::error::EncodeError;
use crate::intmap::{IntMap, insert_spec};
use crate::types::corim::{CorimMetaMap, meta_model};
use super::algorithm::CoseAlgorithm;
use super::cwt::CwtClaims;
use crate::error::DecodeErrorModel;
use super::envelope::{
    CoseSign1Corim, EnvelopeModel, MAX_PAYLOAD_SIZE, build_sig_structure1, decode_signed_spec,
    encode_signed_corim, envelope_value, lemma_decode_encode_signed, lemma_envelope_wf,
    sig_structure1,
};
use super::header::{
    ProtectedCorimHeaderMap, HeaderModel, header_entries, header_reserved, header_writable,
    corim_content_type, corim_content_type_str, lemma_header_round_trip, opt_meta, opt_cwt,
};

verus! {

/// Builder of a signed CoRIM (`#6.18` COSE_Sign1) around an encoded CoRIM payload.
pub struct SignedCorimBuilder {
    alg: CoseAlgorithm,
    content_type: String,
    corim_meta: Option<CorimMetaMap>,
    cwt_claims: Option<CwtClaims>,
    payload: Vec<u8>,
    unprotected: Vec<(Value, Value)>,
    extra_protected: IntMap,
    cached_protected_bytes: Option<Vec<u8>>,
}

/// Mathematical form of a [`SignedCorimBuilder`]: the protected header it will write, the
/// payload, and the unprotected header entries.
pub struct SignedBuilderModel {
    pub header: HeaderModel,
    pub payload: Seq<u8>,
    pub unprotected: Seq<(VModel, VModel)>,
}

/// The protected header bytes for a header, or the message of the error.
pub open spec fn protected_bytes_spec(h: HeaderModel) -> Result<Seq<u8>, Seq<char>> {
    if h.corim_meta is None && h.cwt_claims is None {
        Err("at least one of corim-meta or cwt-claims must be set"@)
    } else if !header_writable(h) || !wf(VModel::Mapping(header_entries(h))) {
        Err("integer outside the CBOR range"@)
    } else {
        Ok(enc(VModel::Mapping(header_entries(h))))
    }
}

/// The signed CoRIM bytes a builder writes with the given payload element and signature,
/// or the message of the error.
pub open spec fn signed_bytes_spec(b: SignedBuilderModel, payload: Option<Seq<u8>>, sig: Seq<u8>) -> Result<
    Seq<u8>,
    Seq<char>,
> {
    match protected_bytes_spec(b.header) {
        Err(m) => Err(m),
        Ok(pb) => if wf(VModel::Mapping(b.unprotected)) {
            Ok(
                enc(
                    envelope_value(
                        EnvelopeModel {
                            protected_header_bytes: pb,
                            protected: b.header,
                            unprotected: b.unprotected,
                            payload,
                            signature: sig,
                        },
                    ),
                ),
            )
        } else {
            Err("integer outside the CBOR range"@)
        },
    }
}

impl SignedCorimBuilder {
    /// The protected header this builder writes (inline mode, no X.509 parameters).
    pub closed spec fn header(&self) -> HeaderModel {
        HeaderModel {
            alg: self.alg,
            content_type: Some(self.content_type@),
            payload_hash_alg: None,
            payload_preimage_content_type: None,
            payload_location: None,
            corim_meta: opt_meta(self.corim_meta),
            cwt_claims: opt_cwt(self.cwt_claims),
            kid: None,
            x5bag: None,
            x5chain: None,
            x5t: None,
            x5u: None,
            extra: self.extra_protected.entries_spec(),
        }
    }

    /// The integer-keyed maps are in key order and any cached protected header bytes are
    /// those of the current header.
    pub closed spec fn wf(&self) -> bool {
        &&& self.extra_protected.wf()
        &&& (self.cwt_claims matches Some(c) ==> c.extra.wf())
        &&& (self.cached_protected_bytes matches Some(b) ==> protected_bytes_spec(self.header())
            == Ok::<Seq<u8>, Seq<char>>(b@))
    }
}

impl View for SignedCorimBuilder {
    type V = SignedBuilderModel;

    closed spec fn view(&self) -> SignedBuilderModel {
        SignedBuilderModel {
            header: self.header(),
            payload: self.payload@,
            unprotected: model_pairs(self.unprotected@),
        }
    }
}

impl SignedCorimBuilder {
    /// A builder for the given algorithm and encoded `tagged-unsigned-corim-map` payload, with
    /// content type `application/rim+cbor` and no signer metadata yet.
    pub fn new(alg: CoseAlgorithm, corim_payload: Vec<u8>) -> (b: Self)
        ensures
            b.wf(),
            b@.header.alg == alg,
            b@.header.content_type == Some(corim_content_type()),
            b@.header.corim_meta is None,
            b@.header.cwt_claims is None,
            b@.header.extra.len() == 0,
            b@.header.kid is None && b@.header.x5bag is None && b@.header.x5chain is None,
            b@.header.x5t is None && b@.header.x5u is None,
            b@.header.payload_hash_alg is None && b@.header.payload_preimage_content_type is None,
            b@.header.payload_location is None,
            b@.payload == corim_payload@,
            b@.unprotected.len() == 0,
    {
        let b = SignedCorimBuilder {
            alg,
            content_type: String::from_str(corim_content_type_str()),
            corim_meta: None,
            cwt_claims: None,
            payload: corim_payload,
            unprotected: Vec::new(),
            extra_protected: IntMap::new(),
            cached_protected_bytes: None,
        };
        proof {
            crate::cbor::lemma_model_pairs(b.unprotected@);
        }
        b
    }

    /// Set `corim-meta` (key 8) in the protected header.
    pub fn set_corim_meta(self, meta: CorimMetaMap) -> (b: Self)
        requires
            self.wf(),
        ensures
            b.wf(),
            b@ == (SignedBuilderModel {
                header: HeaderModel { corim_meta: Some(meta_model(meta)), ..self@.header },
                ..self@
            }),
    {
        SignedCorimBuilder { corim_meta: Some(meta), cached_protected_bytes: None, ..self }
    }

    /// Set the `CWT-Claims` (key 15) in the protected header.
    pub fn set_cwt_claims(self, claims: CwtClaims) -> (b: Self)
        requires
            self.wf(),
            claims.extra.wf(),
        ensures
            b.wf(),
            b@ == (SignedBuilderModel {
                header: HeaderModel { cwt_claims: Some(claims@), ..self@.header },
                ..self@
            }),
    {
        SignedCorimBuilder { cwt_claims: Some(claims), cached_protected_bytes: None, ..self }
    }

    /// Replace the content type (default `application/rim+cbor`).
    pub fn set_content_type(self, ct: &str) -> (b: Self)
        requires
            self.wf(),
        ensures
            b.wf(),
            b@ == (SignedBuilderModel {
                header: HeaderModel { content_type: Some(ct@), ..self@.header },
                ..self@
            }),
    {
        SignedCorimBuilder {
            content_type: String::from_str(ct),
            cached_protected_bytes: None,
            ..self
        }
    }

    /// Append an entry to the unprotected header.
    pub fn add_unprotected(self, key: Value, value: Value) -> (b: Self)
        requires
            self.wf(),
        ensures
            b.wf(),
            b@ == (SignedBuilderModel {
                unprotected: self@.unprotected + seq![(key@, value@)],
                ..self@
            }),
    {
        let mut b = self;
        let ghost prev = b.unprotected@;
        b.unprotected.push((key, value));
        proof {
            lemma_model_pairs_push(prev, (key, value));
        }
        b
    }

    /// Add (or replace) a further integer-labelled protected header parameter.
    pub fn add_protected(self, key: i64, value: Value) -> (b: Self)
        requires
            self.wf(),
        ensures
            b.wf(),
            b@ == (SignedBuilderModel {
                header: HeaderModel {
                    extra: insert_spec(self@.header.extra, key, value@),
                    ..self@.header
                },
                ..self@
            }),
    {
        let mut b = self;
        b.extra_protected.insert(key, value);
        b.cached_protected_bytes = None;
        b
    }

    /// The protected header assembled from the settings; fails when neither `corim-meta`
    /// nor CWT claims are set.
    fn build_protected_header(&self) -> (r: Result<ProtectedCorimHeaderMap, EncodeError>)
        requires
            self.wf(),
        ensures
            r is Err <==> (self.corim_meta is None && self.cwt_claims is None),
            r matches Ok(h) ==> h@ == self.header() && h.wf(),
            r matches Err(e) ==> e@ == "at least one of corim-meta or cwt-claims must be set"@,
    {
        if self.corim_meta.is_none() && self.cwt_claims.is_none() {
            return Err(
                EncodeError::Serialization(
                    String::from_str("at least one of corim-meta or cwt-claims must be set"),
                ),
            );
        }
        let h = ProtectedCorimHeaderMap {
            alg: self.alg,
            content_type: Some(self.content_type.clone()),
            payload_hash_alg: None,
            payload_preimage_content_type: None,
            payload_location: None,
            corim_meta: match &self.corim_meta {
                Some(m) => Some(m.copy()),
                None => None,
            },
            cwt_claims: match &self.cwt_claims {
                Some(c) => Some(c.copy()),
                None => None,
            },
            kid: None,
            x5bag: None,
            x5chain: None,
            x5t: None,
            x5u: None,
            extra: self.extra_protected.clone_map(),
        };
        Ok(h)
    }

    /// The encoded protected header, from the cache when it holds one.
    fn build_protected_bytes(&mut self) -> (r: Result<Vec<u8>, EncodeError>)
        requires
            old(self).wf(),
        ensures
            final(self).wf(),
            final(self)@ == old(self)@,
            r matches Ok(b) ==> protected_bytes_spec(old(self)@.header) == Ok::<Seq<u8>, Seq<char>>(
                b@,
            ),
            r matches Err(e) ==> protected_bytes_spec(old(self)@.header) == Err::<Seq<u8>, Seq<char>>(
                e@,
            ),
    {
        proof {
            reveal_strlit("at least one of corim-meta or cwt-claims must be set");
            reveal_strlit("integer outside the CBOR range");
        }
        if let Some(cached) = &self.cached_protected_bytes {
            return Ok(copy_bytes(cached.as_slice()));
        }
        let header = match self.build_protected_header() {
            Ok(h) => h,
            Err(e) => return Err(e),
        };
        let hv = match header.to_value() {
            Ok(v) => v,
            Err(e) => return Err(e),
        };
        let bytes = match encode(&hv) {
            Ok(b) => b,
            Err(e) => return Err(e),
        };
        self.cached_protected_bytes = Some(copy_bytes(bytes.as_slice()));
        Ok(bytes)
    }

    /// The to-be-signed bytes: `Sig_structure1` over the protected header, the external
    /// additional authenticated data and the payload.
    pub fn to_be_signed(&mut self, external_aad: &[u8]) -> (r: Result<Vec<u8>, EncodeError>)
        requires
            old(self).wf(),
        ensures
            final(self).wf(),
            final(self)@ == old(self)@,
            match protected_bytes_spec(old(self)@.header) {
                Ok(pb) => r matches Ok(b) && b@ == enc(
                    sig_structure1(pb, external_aad@, old(self)@.payload),
                ),
                Err(m) => r matches Err(e) && e@ == m,
            },
    {
        let protected_bytes = match self.build_protected_bytes() {
            Ok(b) => b,
            Err(e) => return Err(e),
        };
        build_sig_structure1(protected_bytes.as_slice(), external_aad, self.payload.as_slice())
    }

    fn build_envelope(self, signature: Vec<u8>, attached: bool) -> (r: Result<Vec<u8>, EncodeError>)
        requires
            self.wf(),
        ensures
            match signed_bytes_spec(
                self@,
                if attached {
                    Some(self@.payload)
                } else {
                    None
                },
                signature@,
            ) {
                Ok(bytes) => r matches Ok(b) && b@ == bytes,
                Err(m) => r matches Err(e) && e@ == m,
            },
    {
        let ghost model = self@;
        let mut this = self;
        let protected_bytes = match this.build_protected_bytes() {
            Ok(b) => b,
            Err(e) => return Err(e),
        };
        let protected = match this.build_protected_header() {
            Ok(h) => h,
            Err(e) => return Err(e),
        };
        let signed = CoseSign1Corim {
            protected_header_bytes: protected_bytes,
            protected,
            unprotected: this.unprotected,
            payload: if attached {
                Some(this.payload)
            } else {
                None
            },
            signature,
        };
        proof {
            assert(signed@.protected == model.header);
        }
        encode_signed_corim(&signed)
    }

    /// The signed CoRIM with the payload attached: `#6.18([protected, unprotected, payload,
    /// signature])`.
    pub fn build_with_signature(self, signature: Vec<u8>) -> (r: Result<Vec<u8>, EncodeError>)
        requires
            self.wf(),
        ensures
            match signed_bytes_spec(self@, Some(self@.payload), signature@) {
                Ok(bytes) => r matches Ok(b) && b@ == bytes,
                Err(m) => r matches Err(e) && e@ == m,
            },
    {
        self.build_envelope(signature, true)
    }

    /// The signed CoRIM with a detached payload: `#6.18([protected, unprotected, nil,
    /// signature])`. The signature still covers the payload.
    pub fn build_detached_with_signature(self, signature: Vec<u8>) -> (r: Result<
        Vec<u8>,
        EncodeError,
    >)
        requires
            self.wf(),
        ensures
            match signed_bytes_spec(self@, None, signature@) {
                Ok(bytes) => r matches Ok(b) && b@ == bytes,
                Err(m) => r matches Err(e) && e@ == m,
            },
    {
        self.build_envelope(signature, false)
    }
}


/// Decoding what the builder writes gives back what was set: when the signed bytes are
/// produced and within the decoder's size limit, and the header meets the conditions of
/// [`lemma_header_round_trip`], [`decode_signed_corim`] of those bytes yields the builder's
/// protected header (over the protected bytes written), its unprotected entries, the
/// payload element and the signature. The protected bytes it carries are those that
/// [`SignedCorimBuilder::to_be_signed`] signs over, so the decoded envelope's to-be-signed
/// bytes (with the payload, attached or given back when detached) are the builder's.
pub proof fn lemma_build_decode(b: SignedCorimBuilder, payload: Option<Seq<u8>>, sig: Seq<u8>)
    requires
        b.wf(),
        signed_bytes_spec(b@, payload, sig) is Ok,
        signed_bytes_spec(b@, payload, sig)->Ok_0.len() <= MAX_PAYLOAD_SIZE,
        !(b@.header.alg is Unknown) || super::algorithm::alg_of(b@.header.alg->Unknown_0) is Unknown,
        forall|j: int| 0 <= j < b@.header.extra.len() ==> !header_reserved(#[trigger] b@.header.extra[j].0),
        b@.header.cwt_claims matches Some(c) ==> forall|j: int|
            0 <= j < c.extra.len() ==> !super::cwt::cwt_reserved(#[trigger] c.extra[j].0),
    ensures
        protected_bytes_spec(b@.header) == Ok::<Seq<u8>, Seq<char>>(enc(VModel::Mapping(header_entries(b@.header)))),
        decode_signed_spec(signed_bytes_spec(b@, payload, sig)->Ok_0) == Ok::<EnvelopeModel, DecodeErrorModel>(
            EnvelopeModel {
                protected_header_bytes: enc(VModel::Mapping(header_entries(b@.header))),
                protected: b@.header,
                unprotected: b@.unprotected,
                payload,
                signature: sig,
            },
        ),
{
    let h = ProtectedCorimHeaderMap {
        alg: b.alg,
        content_type: Some(b.content_type),
        payload_hash_alg: None,
        payload_preimage_content_type: None,
        payload_location: None,
        corim_meta: b.corim_meta,
        cwt_claims: b.cwt_claims,
        kid: None,
        x5bag: None,
        x5chain: None,
        x5t: None,
        x5u: None,
        extra: b.extra_protected,
    };
    assert(h@ == b@.header);
    lemma_header_round_trip(h);
    let hv = VModel::Mapping(header_entries(b@.header));
    crate::cbor::lemma_decode_encode(hv);
    let e = EnvelopeModel {
        protected_header_bytes: enc(hv),
        protected: b@.header,
        unprotected: b@.unprotected,
        payload,
        signature: sig,
    };
    lemma_envelope_wf(e);
    lemma_decode_encode_signed(e);
}

} // verus!
