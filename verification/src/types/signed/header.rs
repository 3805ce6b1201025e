//! The protected COSE_Sign1 header of a signed CoRIM (draft-ietf-rats-corim-10 §4.2.1),
//! with the hash-envelope parameters and the X.509 parameters of RFC 9360.
//!
//! ```text
//! protected-corim-header-map-inline = {
//!   &(alg: 1) => int,
//!   &(content-type: 3) => "application/rim+cbor",
//!   meta-group,
//!   * cose-label => cose-value,
//! }
//! ```
use vstd::prelude::*;
use crate::cbor::{Value, VModel, model, model_pairs, lemma_model_pairs, clone_value, decode, decode_spec, encode, enc, wf, copy_bytes};
use crate::error::EncodeError;
use crate::intmap::{IntMap, insert_spec};
use crate::types::corim::{CorimMetaMap, MetaModel, meta_model, meta_spec, meta_value};
use crate::types::measurement::DigestAlgModel;
use super::algorithm::{CoseAlgorithm, alg_id, alg_of};
use super::cwt::{
    CwtClaims, CwtModel, CWT_CLAIM_EXP, CWT_CLAIM_NBF, CWT_CLAIM_SUB, cwt_spec, cwt_value,
    epoch_spec, extra_entries, opt_i64, opt_text, push_extra, value_to_epoch,
};
use super::x509::{
    CoseCertHash, CoseX509, X509Model, COSE_HEADER_KID, COSE_HEADER_X5BAG, COSE_HEADER_X5CHAIN,
    COSE_HEADER_X5T, COSE_HEADER_X5U, cert_hash_spec, cert_hash_value, deserialize_cose_cert_hash,
    deserialize_cose_x509, serialize_cose_x509, x509_spec, x509_value,
};

verus! {

/// COSE header `alg` (key 1).
pub const COSE_HEADER_ALG: i64 = 1;
/// COSE header `content-type` (key 3).
pub const COSE_HEADER_CONTENT_TYPE: i64 = 3;
/// CoRIM protected header `corim-meta` (key 8).
pub const COSE_HEADER_CORIM_META: i64 = 8;
/// CoRIM protected header `CWT-Claims` (key 15, RFC 9597).
pub const COSE_HEADER_CWT_CLAIMS: i64 = 15;
/// COSE hash envelope `payload_hash_alg` (key 258).
pub const COSE_HEADER_PAYLOAD_HASH_ALG: i64 = 258;
/// COSE hash envelope `payload_preimage_content_type` (key 259).
pub const COSE_HEADER_PAYLOAD_PREIMAGE_CT: i64 = 259;
/// COSE hash envelope `payload_location` (key 260).
pub const COSE_HEADER_PAYLOAD_LOCATION: i64 = 260;

/// The `content-type` of an inline-signed CoRIM.
pub open spec fn corim_content_type() -> Seq<char> {
    "application/rim+cbor"@
}

/// The `content-type` of an inline-signed CoRIM, `application/rim+cbor`.
pub fn corim_content_type_str() -> (s: &'static str)
    ensures
        s@ == corim_content_type(),
{
    proof {
        reveal_strlit("application/rim+cbor");
    }
    "application/rim+cbor"
}

/// The protected CoRIM header map: algorithm, content type (inline mode) or hash-envelope
/// parameters, signer metadata (`corim-meta` and/or CWT claims), X.509 parameters, and any
/// further integer-labelled parameters.
#[derive(Clone, Debug, PartialEq)]
pub struct ProtectedCorimHeaderMap {
    /// COSE algorithm identifier (key 1).
    pub alg: CoseAlgorithm,
    /// Content type (key 3), for inline signing.
    pub content_type: Option<String>,
    /// `payload_hash_alg` (key 258), hash-envelope mode.
    pub payload_hash_alg: Option<i64>,
    /// `payload_preimage_content_type` (key 259), hash-envelope mode.
    pub payload_preimage_content_type: Option<String>,
    /// `payload_location` (key 260), hash-envelope mode.
    pub payload_location: Option<String>,
    /// `corim-meta` (key 8): signer metadata.
    pub corim_meta: Option<CorimMetaMap>,
    /// `CWT-Claims` (key 15): claims identifying the signer.
    pub cwt_claims: Option<CwtClaims>,
    /// `kid` (key 4).
    pub kid: Option<Vec<u8>>,
    /// `x5bag` (key 32).
    pub x5bag: Option<CoseX509>,
    /// `x5chain` (key 33).
    pub x5chain: Option<CoseX509>,
    /// `x5t` (key 34).
    pub x5t: Option<CoseCertHash>,
    /// `x5u` (key 35).
    pub x5u: Option<String>,
    /// Further COSE header parameters, by integer label.
    pub extra: IntMap,
}

/// Mathematical form of a [`ProtectedCorimHeaderMap`].
pub struct HeaderModel {
    pub alg: CoseAlgorithm,
    pub content_type: Option<Seq<char>>,
    pub payload_hash_alg: Option<int>,
    pub payload_preimage_content_type: Option<Seq<char>>,
    pub payload_location: Option<Seq<char>>,
    pub corim_meta: Option<MetaModel>,
    pub cwt_claims: Option<CwtModel>,
    pub kid: Option<Seq<u8>>,
    pub x5bag: Option<X509Model>,
    pub x5chain: Option<X509Model>,
    pub x5t: Option<(DigestAlgModel, Seq<u8>)>,
    pub x5u: Option<Seq<char>>,
    pub extra: Seq<(i64, VModel)>,
}

pub open spec fn opt_meta(o: Option<CorimMetaMap>) -> Option<MetaModel> {
    match o {
        Some(m) => Some(meta_model(m)),
        None => None,
    }
}

pub open spec fn opt_cwt(o: Option<CwtClaims>) -> Option<CwtModel> {
    match o {
        Some(c) => Some(c@),
        None => None,
    }
}

pub open spec fn opt_bytes(o: Option<Vec<u8>>) -> Option<Seq<u8>> {
    match o {
        Some(b) => Some(b@),
        None => None,
    }
}

pub open spec fn opt_x509(o: Option<CoseX509>) -> Option<X509Model> {
    match o {
        Some(x) => Some(x@),
        None => None,
    }
}

pub open spec fn opt_cert_hash(o: Option<CoseCertHash>) -> Option<(DigestAlgModel, Seq<u8>)> {
    match o {
        Some(h) => Some((h.hash_alg@, h.hash_value@)),
        None => None,
    }
}

impl View for ProtectedCorimHeaderMap {
    type V = HeaderModel;

    open spec fn view(&self) -> HeaderModel {
        HeaderModel {
            alg: self.alg,
            content_type: opt_text(self.content_type),
            payload_hash_alg: opt_i64(self.payload_hash_alg),
            payload_preimage_content_type: opt_text(self.payload_preimage_content_type),
            payload_location: opt_text(self.payload_location),
            corim_meta: opt_meta(self.corim_meta),
            cwt_claims: opt_cwt(self.cwt_claims),
            kid: opt_bytes(self.kid),
            x5bag: opt_x509(self.x5bag),
            x5chain: opt_x509(self.x5chain),
            x5t: opt_cert_hash(self.x5t),
            x5u: opt_text(self.x5u),
            extra: self.extra.entries_spec(),
        }
    }
}

impl ProtectedCorimHeaderMap {
    /// The integer-keyed maps are in key order.
    pub open spec fn wf(&self) -> bool {
        &&& self.extra.wf()
        &&& (self.cwt_claims matches Some(c) ==> c.extra.wf())
    }

    /// Whether this header uses hash-envelope mode (`payload_hash_alg` present).
    pub fn is_hash_envelope(&self) -> (b: bool)
        ensures
            b == (self.payload_hash_alg is Some),
    {
        self.payload_hash_alg.is_some()
    }
}

// ---------------------------------------------------------------------------
// Writing.
// ---------------------------------------------------------------------------

pub open spec fn text_entry(k: int, o: Option<Seq<char>>) -> Seq<(VModel, VModel)> {
    match o {
        Some(t) => seq![(VModel::Int(k), VModel::Text(t))],
        None => Seq::empty(),
    }
}

pub open spec fn bytes_entry(k: int, o: Option<Seq<u8>>) -> Seq<(VModel, VModel)> {
    match o {
        Some(b) => seq![(VModel::Int(k), VModel::Bytes(b))],
        None => Seq::empty(),
    }
}

pub open spec fn int_entry(k: int, o: Option<int>) -> Seq<(VModel, VModel)> {
    match o {
        Some(n) => seq![(VModel::Int(k), VModel::Int(n))],
        None => Seq::empty(),
    }
}

pub open spec fn meta_entry(o: Option<MetaModel>) -> Seq<(VModel, VModel)> {
    match o {
        Some(m) => seq![(VModel::Int(8), VModel::Bytes(enc(meta_value(m))))],
        None => Seq::empty(),
    }
}

pub open spec fn cwt_entry(o: Option<CwtModel>) -> Seq<(VModel, VModel)> {
    match o {
        Some(c) => seq![(VModel::Int(15), cwt_value(c))],
        None => Seq::empty(),
    }
}

pub open spec fn x509_entry(k: int, o: Option<X509Model>) -> Seq<(VModel, VModel)> {
    match o {
        Some(x) => seq![(VModel::Int(k), x509_value(x))],
        None => Seq::empty(),
    }
}

pub open spec fn x5t_entry(o: Option<(DigestAlgModel, Seq<u8>)>) -> Seq<(VModel, VModel)> {
    match o {
        Some(x) => seq![(VModel::Int(34), cert_hash_value(x))],
        None => Seq::empty(),
    }
}

/// The entries a header is written as, in the order `alg`, `content-type`, `corim-meta`
/// (as `bstr .cbor corim-meta-map`), `CWT-Claims`, `kid`, `x5bag`, `x5chain`, `x5t`, `x5u`,
/// `payload_hash_alg`, `payload_preimage_content_type`, `payload_location`, then the
/// further parameters in label order.
pub open spec fn header_entries(h: HeaderModel) -> Seq<(VModel, VModel)> {
    seq![(VModel::Int(1), VModel::Int(alg_id(h.alg) as int))] + text_entry(3, h.content_type)
        + meta_entry(h.corim_meta) + cwt_entry(h.cwt_claims) + bytes_entry(4, h.kid) + x509_entry(
        32,
        h.x5bag,
    ) + x509_entry(33, h.x5chain) + x5t_entry(h.x5t) + text_entry(35, h.x5u) + int_entry(
        258,
        h.payload_hash_alg,
    ) + text_entry(259, h.payload_preimage_content_type) + text_entry(260, h.payload_location)
        + extra_entries(h.extra)
}

/// Whether the header can be written: its `corim-meta` (if any) encodes.
pub open spec fn header_writable(h: HeaderModel) -> bool {
    h.corim_meta matches Some(m) ==> wf(meta_value(m))
}

fn push_entry(entries: &mut Vec<(Value, Value)>, k: i64, v: Value)
    ensures
        model_pairs(final(entries)@) == model_pairs(old(entries)@) + seq![(VModel::Int(k as int), v@)],
{
    let ghost prev = entries@;
    entries.push((Value::Integer(k as i128), v));
    proof {
        crate::cbor::lemma_model_pairs_push(prev, (Value::Integer(k as i128), v));
    }
}

impl ProtectedCorimHeaderMap {
    /// Write the header as a CBOR map; fails only when `corim-meta` cannot be encoded.
    #[verifier::rlimit(40)]
    pub fn to_value(&self) -> (r: Result<Value, EncodeError>)
        ensures
            r is Ok <==> header_writable(self@),
            r matches Ok(v) ==> v@ == VModel::Mapping(header_entries(self@)),
            r matches Err(e) ==> e@ == "integer outside the CBOR range"@,
    {
        let meta_bytes: Option<Vec<u8>> = match &self.corim_meta {
            Some(meta) => match encode(&meta.to_value()) {
                Ok(b) => Some(b),
                Err(e) => return Err(e),
            },
            None => None,
        };
        Ok(self.entries_value(meta_bytes))
    }

    /// The header map, given the encoded `corim-meta` (if any).
    fn entries_value(&self, meta_bytes: Option<Vec<u8>>) -> (v: Value)
        requires
            meta_bytes matches Some(b) ==> self@.corim_meta matches Some(m) && b@ == enc(meta_value(m)),
            meta_bytes is None ==> self@.corim_meta is None,
        ensures
            v@ == VModel::Mapping(header_entries(self@)),
    {
        let ghost h = self@;
        let mut entries: Vec<(Value, Value)> = Vec::new();
        proof {
            lemma_model_pairs(entries@);
            assert(model_pairs(entries@) =~= Seq::<(VModel, VModel)>::empty());
        }
        push_entry(&mut entries, COSE_HEADER_ALG, Value::Integer(self.alg.to_i64() as i128));
        let ghost p0 = seq![(VModel::Int(1), VModel::Int(alg_id(h.alg) as int))];
        assert(model_pairs(entries@) =~= p0);
        push_text_opt(&mut entries, COSE_HEADER_CONTENT_TYPE, &self.content_type);
        match meta_bytes {
            Some(b) => push_entry(&mut entries, COSE_HEADER_CORIM_META, Value::Bytes(b)),
            None => {
                assert(model_pairs(entries@) + meta_entry(h.corim_meta) =~= model_pairs(entries@));
            },
        }
        match &self.cwt_claims {
            Some(claims) => push_entry(&mut entries, COSE_HEADER_CWT_CLAIMS, claims.to_value()),
            None => {
                assert(model_pairs(entries@) + cwt_entry(h.cwt_claims) =~= model_pairs(entries@));
            },
        }
        push_bytes_opt(&mut entries, COSE_HEADER_KID, &self.kid);
        push_x509_opt(&mut entries, COSE_HEADER_X5BAG, &self.x5bag);
        push_x509_opt(&mut entries, COSE_HEADER_X5CHAIN, &self.x5chain);
        match &self.x5t {
            Some(x) => push_entry(&mut entries, COSE_HEADER_X5T, x.to_value()),
            None => {
                assert(model_pairs(entries@) + x5t_entry(h.x5t) =~= model_pairs(entries@));
            },
        }
        push_text_opt(&mut entries, COSE_HEADER_X5U, &self.x5u);
        match self.payload_hash_alg {
            Some(a) => push_entry(&mut entries, COSE_HEADER_PAYLOAD_HASH_ALG, Value::Integer(a as i128)),
            None => {
                assert(model_pairs(entries@) + int_entry(258, h.payload_hash_alg) =~= model_pairs(entries@));
            },
        }
        push_text_opt(&mut entries, COSE_HEADER_PAYLOAD_PREIMAGE_CT, &self.payload_preimage_content_type);
        push_text_opt(&mut entries, COSE_HEADER_PAYLOAD_LOCATION, &self.payload_location);
        push_extra(&mut entries, &self.extra);
        Value::Mapping(entries)
    }
}

fn push_text_opt(entries: &mut Vec<(Value, Value)>, k: i64, o: &Option<String>)
    ensures
        model_pairs(final(entries)@) == model_pairs(old(entries)@) + text_entry(k as int, opt_text(*o)),
{
    match o {
        Some(t) => push_entry(entries, k, Value::Text(t.clone())),
        None => {
            assert(model_pairs(entries@) + text_entry(k as int, opt_text(*o)) =~= model_pairs(entries@));
        },
    }
}

fn push_bytes_opt(entries: &mut Vec<(Value, Value)>, k: i64, o: &Option<Vec<u8>>)
    ensures
        model_pairs(final(entries)@) == model_pairs(old(entries)@) + bytes_entry(k as int, opt_bytes(*o)),
{
    match o {
        Some(b) => push_entry(entries, k, Value::Bytes(copy_bytes(b.as_slice()))),
        None => {
            assert(model_pairs(entries@) + bytes_entry(k as int, opt_bytes(*o)) =~= model_pairs(entries@));
        },
    }
}

fn push_x509_opt(entries: &mut Vec<(Value, Value)>, k: i64, o: &Option<CoseX509>)
    ensures
        model_pairs(final(entries)@) == model_pairs(old(entries)@) + x509_entry(k as int, opt_x509(*o)),
{
    match o {
        Some(x) => push_entry(entries, k, serialize_cose_x509(x)),
        None => {
            assert(model_pairs(entries@) + x509_entry(k as int, opt_x509(*o)) =~= model_pairs(entries@));
        },
    }
}

// ---------------------------------------------------------------------------
// Reading.
// ---------------------------------------------------------------------------

/// Parameters read so far from a header map (flat CWT claims kept apart).
pub struct HState {
    pub alg: Option<int>,
    pub content_type: Option<Seq<char>>,
    pub payload_hash_alg: Option<int>,
    pub payload_preimage_content_type: Option<Seq<char>>,
    pub payload_location: Option<Seq<char>>,
    pub corim_meta: Option<MetaModel>,
    pub cwt_claims: Option<CwtModel>,
    pub kid: Option<Seq<u8>>,
    pub x5bag: Option<X509Model>,
    pub x5chain: Option<X509Model>,
    pub x5t: Option<(DigestAlgModel, Seq<u8>)>,
    pub x5u: Option<Seq<char>>,
    pub extra: Seq<(i64, VModel)>,
    pub iss: Option<Seq<char>>,
    pub sub: Option<Seq<char>>,
    pub exp: Option<int>,
    pub nbf: Option<int>,
}

pub open spec fn hstate_init() -> HState {
    HState {
        alg: None,
        content_type: None,
        payload_hash_alg: None,
        payload_preimage_content_type: None,
        payload_location: None,
        corim_meta: None,
        cwt_claims: None,
        kid: None,
        x5bag: None,
        x5chain: None,
        x5t: None,
        x5u: None,
        extra: Seq::empty(),
        iss: None,
        sub: None,
        exp: None,
        nbf: None,
    }
}

/// One entry of a header map. Labels that are not integers are skipped; later entries
/// replace earlier ones. Label 1 holds `alg` (an integer) or a flat CWT `iss` (a text);
/// labels 2, 4 and 5 may hold flat CWT `sub`, `exp`, `nbf` (label 4 a `kid` when it is a
/// byte string); a `corim-meta` that does not decode is kept as a further parameter.
pub open spec fn hstep(s: HState, k: VModel, v: VModel) -> Result<HState, Seq<char>> {
    match k {
        VModel::Int(n) => if !(i64::MIN <= n <= i64::MAX) {
            Err("header key out of range"@)
        } else if n == COSE_HEADER_ALG {
            match v {
                VModel::Int(a) => if i64::MIN <= a <= i64::MAX {
                    Ok(HState { alg: Some(a), ..s })
                } else {
                    Err("alg out of range"@)
                },
                VModel::Text(t) => Ok(HState { iss: Some(t), ..s }),
                _ => Err("key 1 must be int (alg) or tstr (iss)"@),
            }
        } else if n == CWT_CLAIM_SUB {
            match v {
                VModel::Text(t) => Ok(HState { sub: Some(t), ..s }),
                _ => Ok(HState { extra: insert_spec(s.extra, n as i64, v), ..s }),
            }
        } else if n == COSE_HEADER_CONTENT_TYPE {
            match v {
                VModel::Text(t) => Ok(HState { content_type: Some(t), ..s }),
                _ => Err("content-type must be tstr"@),
            }
        } else if n == CWT_CLAIM_EXP {
            match v {
                VModel::Int(_) => match epoch_spec(v) {
                    Ok(e) => Ok(HState { exp: Some(e), ..s }),
                    Err(m) => Err(m),
                },
                VModel::Float(_) => match epoch_spec(v) {
                    Ok(e) => Ok(HState { exp: Some(e), ..s }),
                    Err(m) => Err(m),
                },
                VModel::Bytes(b) => Ok(HState { kid: Some(b), ..s }),
                _ => Ok(HState { extra: insert_spec(s.extra, n as i64, v), ..s }),
            }
        } else if n == CWT_CLAIM_NBF {
            match v {
                VModel::Int(_) => match epoch_spec(v) {
                    Ok(e) => Ok(HState { nbf: Some(e), ..s }),
                    Err(m) => Err(m),
                },
                VModel::Float(_) => match epoch_spec(v) {
                    Ok(e) => Ok(HState { nbf: Some(e), ..s }),
                    Err(m) => Err(m),
                },
                _ => Ok(HState { extra: insert_spec(s.extra, n as i64, v), ..s }),
            }
        } else if n == COSE_HEADER_CORIM_META {
            match v {
                VModel::Bytes(b) => match decode_spec(b) {
                    Some(x) => match meta_spec(x) {
                        Ok(meta) => Ok(HState { corim_meta: Some(meta), ..s }),
                        Err(_) => Ok(HState { extra: insert_spec(s.extra, n as i64, v), ..s }),
                    },
                    None => Ok(HState { extra: insert_spec(s.extra, n as i64, v), ..s }),
                },
                _ => Ok(HState { extra: insert_spec(s.extra, n as i64, v), ..s }),
            }
        } else if n == COSE_HEADER_CWT_CLAIMS {
            match cwt_spec(v) {
                Ok(c) => Ok(HState { cwt_claims: Some(c), ..s }),
                Err(m) => Err("cwt-claims decode: "@ + m),
            }
        } else if n == COSE_HEADER_PAYLOAD_HASH_ALG {
            match v {
                VModel::Int(a) => if i64::MIN <= a <= i64::MAX {
                    Ok(HState { payload_hash_alg: Some(a), ..s })
                } else {
                    Err("payload_hash_alg out of range"@)
                },
                _ => Err("payload_hash_alg must be int"@),
            }
        } else if n == COSE_HEADER_PAYLOAD_PREIMAGE_CT {
            match v {
                VModel::Text(t) => Ok(HState { payload_preimage_content_type: Some(t), ..s }),
                _ => Err("payload_preimage_content_type must be tstr"@),
            }
        } else if n == COSE_HEADER_PAYLOAD_LOCATION {
            match v {
                VModel::Text(t) => Ok(HState { payload_location: Some(t), ..s }),
                _ => Err("payload_location must be tstr"@),
            }
        } else if n == COSE_HEADER_X5BAG {
            match x509_spec(v) {
                Ok(x) => Ok(HState { x5bag: Some(x), ..s }),
                Err(m) => Err(m),
            }
        } else if n == COSE_HEADER_X5CHAIN {
            match x509_spec(v) {
                Ok(x) => Ok(HState { x5chain: Some(x), ..s }),
                Err(m) => Err(m),
            }
        } else if n == COSE_HEADER_X5T {
            match cert_hash_spec(v) {
                Ok(x) => Ok(HState { x5t: Some(x), ..s }),
                Err(m) => Err(m),
            }
        } else if n == COSE_HEADER_X5U {
            match v {
                VModel::Text(t) => Ok(HState { x5u: Some(t), ..s }),
                _ => Err("x5u must be tstr"@),
            }
        } else {
            Ok(HState { extra: insert_spec(s.extra, n as i64, v), ..s })
        },
        _ => Ok(s),
    }
}

/// The parameters read from the first entries of a header map.
pub open spec fn hfold(m: Seq<(VModel, VModel)>) -> Result<HState, Seq<char>>
    decreases m.len(),
{
    if m.len() == 0 {
        Ok(hstate_init())
    } else {
        match hfold(m.drop_last()) {
            Ok(s) => hstep(s, m.last().0, m.last().1),
            Err(e) => Err(e),
        }
    }
}

/// Once reading fails, it fails with the same message on any longer prefix.
pub proof fn lemma_hfold_err(m: Seq<(VModel, VModel)>, i: int)
    requires
        0 <= i <= m.len(),
        hfold(m.take(i)) is Err,
    ensures
        hfold(m) == hfold(m.take(i)),
    decreases m.len() - i,
{
    if i < m.len() {
        assert(m.take(i + 1).drop_last() =~= m.take(i));
        lemma_hfold_err(m, i + 1);
    } else {
        assert(m.take(i) =~= m);
    }
}

/// The header a read state finishes as: `alg` is required; flat CWT claims with an `iss`
/// stand in for a missing `CWT-Claims`; one of `corim-meta` and CWT claims is required.
pub open spec fn hfinish(s: HState) -> Result<HeaderModel, Seq<char>> {
    match s.alg {
        None => Err("protected header: missing alg (key 1)"@),
        Some(a) => {
            let cwt = if s.cwt_claims is None && s.iss is Some {
                Some(CwtModel { iss: s.iss->0, sub: s.sub, exp: s.exp, nbf: s.nbf, extra: Seq::empty() })
            } else {
                s.cwt_claims
            };
            if s.corim_meta is None && cwt is None {
                Err("protected header: at least one of corim-meta (8) or CWT-Claims (15) must be present"@)
            } else {
                Ok(
                    HeaderModel {
                        alg: alg_of(a as i64),
                        content_type: s.content_type,
                        payload_hash_alg: s.payload_hash_alg,
                        payload_preimage_content_type: s.payload_preimage_content_type,
                        payload_location: s.payload_location,
                        corim_meta: s.corim_meta,
                        cwt_claims: cwt,
                        kid: s.kid,
                        x5bag: s.x5bag,
                        x5chain: s.x5chain,
                        x5t: s.x5t,
                        x5u: s.x5u,
                        extra: s.extra,
                    },
                )
            }
        },
    }
}

/// The header a data item denotes, or why it does not denote one.
pub open spec fn header_spec(v: VModel) -> Result<HeaderModel, Seq<char>> {
    match v {
        VModel::Mapping(m) => match hfold(m) {
            Err(e) => Err(e),
            Ok(s) => hfinish(s),
        },
        _ => Err("protected header must be a CBOR map"@),
    }
}

/// Header parameters read so far (executable form of [`HState`]).
struct HeaderState {
    alg: Option<i64>,
    content_type: Option<String>,
    payload_hash_alg: Option<i64>,
    payload_preimage_content_type: Option<String>,
    payload_location: Option<String>,
    corim_meta: Option<CorimMetaMap>,
    cwt_claims: Option<CwtClaims>,
    kid: Option<Vec<u8>>,
    x5bag: Option<CoseX509>,
    x5chain: Option<CoseX509>,
    x5t: Option<CoseCertHash>,
    x5u: Option<String>,
    extra: IntMap,
    iss: Option<String>,
    sub: Option<String>,
    exp: Option<i64>,
    nbf: Option<i64>,
}

impl HeaderState {
    spec fn model(&self) -> HState {
        HState {
            alg: opt_i64(self.alg),
            content_type: opt_text(self.content_type),
            payload_hash_alg: opt_i64(self.payload_hash_alg),
            payload_preimage_content_type: opt_text(self.payload_preimage_content_type),
            payload_location: opt_text(self.payload_location),
            corim_meta: opt_meta(self.corim_meta),
            cwt_claims: opt_cwt(self.cwt_claims),
            kid: opt_bytes(self.kid),
            x5bag: opt_x509(self.x5bag),
            x5chain: opt_x509(self.x5chain),
            x5t: opt_cert_hash(self.x5t),
            x5u: opt_text(self.x5u),
            extra: self.extra.entries_spec(),
            iss: opt_text(self.iss),
            sub: opt_text(self.sub),
            exp: opt_i64(self.exp),
            nbf: opt_i64(self.nbf),
        }
    }

    spec fn inv(&self) -> bool {
        &&& self.extra.wf()
        &&& (self.cwt_claims matches Some(c) ==> c.extra.wf())
    }

    /// Read one entry, as [`hstep`] describes.
    fn step(&mut self, k: &Value, v: &Value) -> (r: Result<(), String>)
        requires
            old(self).inv(),
        ensures
            final(self).inv(),
            r is Ok ==> hstep(old(self).model(), k@, v@) == Ok::<HState, Seq<char>>(final(self).model()),
            r matches Err(m) ==> hstep(old(self).model(), k@, v@) == Err::<HState, Seq<char>>(m@),
    {
        proof {
            reveal_strlit("header key out of range");
            reveal_strlit("alg out of range");
            reveal_strlit("key 1 must be int (alg) or tstr (iss)");
            reveal_strlit("content-type must be tstr");
            reveal_strlit("cwt-claims decode: ");
            reveal_strlit("payload_hash_alg out of range");
            reveal_strlit("payload_hash_alg must be int");
            reveal_strlit("payload_preimage_content_type must be tstr");
            reveal_strlit("payload_location must be tstr");
            reveal_strlit("x5u must be tstr");
        }
        let key: i64 = match k {
            Value::Integer(n) => {
                if *n >= -0x8000_0000_0000_0000i128 && *n <= 0x7fff_ffff_ffff_ffffi128 {
                    *n as i64
                } else {
                    return Err(String::from_str("header key out of range"));
                }
            },
            _ => return Ok(()),
        };
        if key == COSE_HEADER_ALG {
            match v {
                Value::Integer(a) => {
                    if *a >= -0x8000_0000_0000_0000i128 && *a <= 0x7fff_ffff_ffff_ffffi128 {
                        self.alg = Some(*a as i64);
                    } else {
                        return Err(String::from_str("alg out of range"));
                    }
                },
                Value::Text(t) => {
                    self.iss = Some(t.clone());
                },
                _ => return Err(String::from_str("key 1 must be int (alg) or tstr (iss)")),
            }
        } else if key == CWT_CLAIM_SUB {
            match v {
                Value::Text(t) => {
                    self.sub = Some(t.clone());
                },
                _ => {
                    self.extra.insert(key, clone_value(v));
                },
            }
        } else if key == COSE_HEADER_CONTENT_TYPE {
            match v {
                Value::Text(t) => {
                    self.content_type = Some(t.clone());
                },
                _ => return Err(String::from_str("content-type must be tstr")),
            }
        } else if key == CWT_CLAIM_EXP {
            match v {
                Value::Integer(_) | Value::Float(_) => match value_to_epoch(v) {
                    Ok(e) => {
                        self.exp = Some(e);
                    },
                    Err(m) => return Err(m),
                },
                Value::Bytes(b) => {
                    self.kid = Some(copy_bytes(b.as_slice()));
                },
                _ => {
                    self.extra.insert(key, clone_value(v));
                },
            }
        } else if key == CWT_CLAIM_NBF {
            match v {
                Value::Integer(_) | Value::Float(_) => match value_to_epoch(v) {
                    Ok(e) => {
                        self.nbf = Some(e);
                    },
                    Err(m) => return Err(m),
                },
                _ => {
                    self.extra.insert(key, clone_value(v));
                },
            }
        } else if key == COSE_HEADER_CORIM_META {
            match v {
                Value::Bytes(b) => {
                    let parsed = match decode(b.as_slice()) {
                        Ok(x) => match CorimMetaMap::from_value(&x) {
                            Ok(meta) => Some(meta),
                            Err(_) => None,
                        },
                        Err(_) => None,
                    };
                    match parsed {
                        Some(meta) => {
                            self.corim_meta = Some(meta);
                        },
                        None => {
                            self.extra.insert(key, clone_value(v));
                        },
                    }
                },
                _ => {
                    self.extra.insert(key, clone_value(v));
                },
            }
        } else if key == COSE_HEADER_CWT_CLAIMS {
            match CwtClaims::from_value(v) {
                Ok(c) => {
                    self.cwt_claims = Some(c);
                },
                Err(m) => {
                    let mut msg = String::from_str("cwt-claims decode: ");
                    msg.append(m.as_str());
                    return Err(msg);
                },
            }
        } else if key == COSE_HEADER_PAYLOAD_HASH_ALG {
            match v {
                Value::Integer(a) => {
                    if *a >= -0x8000_0000_0000_0000i128 && *a <= 0x7fff_ffff_ffff_ffffi128 {
                        self.payload_hash_alg = Some(*a as i64);
                    } else {
                        return Err(String::from_str("payload_hash_alg out of range"));
                    }
                },
                _ => return Err(String::from_str("payload_hash_alg must be int")),
            }
        } else if key == COSE_HEADER_PAYLOAD_PREIMAGE_CT {
            match v {
                Value::Text(t) => {
                    self.payload_preimage_content_type = Some(t.clone());
                },
                _ => return Err(String::from_str("payload_preimage_content_type must be tstr")),
            }
        } else if key == COSE_HEADER_PAYLOAD_LOCATION {
            match v {
                Value::Text(t) => {
                    self.payload_location = Some(t.clone());
                },
                _ => return Err(String::from_str("payload_location must be tstr")),
            }
        } else if key == COSE_HEADER_X5BAG {
            match deserialize_cose_x509(v) {
                Ok(x) => {
                    self.x5bag = Some(x);
                },
                Err(m) => return Err(m),
            }
        } else if key == COSE_HEADER_X5CHAIN {
            match deserialize_cose_x509(v) {
                Ok(x) => {
                    self.x5chain = Some(x);
                },
                Err(m) => return Err(m),
            }
        } else if key == COSE_HEADER_X5T {
            match deserialize_cose_cert_hash(v) {
                Ok(x) => {
                    self.x5t = Some(x);
                },
                Err(m) => return Err(m),
            }
        } else if key == COSE_HEADER_X5U {
            match v {
                Value::Text(t) => {
                    self.x5u = Some(t.clone());
                },
                _ => return Err(String::from_str("x5u must be tstr")),
            }
        } else {
            self.extra.insert(key, clone_value(v));
        }
        Ok(())
    }
}

impl ProtectedCorimHeaderMap {
    /// Read a header from a CBOR map (see [`hstep`] and [`hfinish`]).
    pub fn from_value(v: &Value) -> (r: Result<ProtectedCorimHeaderMap, String>)
        ensures
            r matches Ok(h) ==> header_spec(v@) == Ok::<HeaderModel, Seq<char>>(h@) && h.wf(),
            r matches Err(m) ==> header_spec(v@) == Err::<HeaderModel, Seq<char>>(m@),
    {
        proof {
            reveal_strlit("protected header must be a CBOR map");
            reveal_strlit("protected header: missing alg (key 1)");
            reveal_strlit(
                "protected header: at least one of corim-meta (8) or CWT-Claims (15) must be present",
            );
        }
        let map = match v {
            Value::Mapping(m) => m,
            _ => return Err(String::from_str("protected header must be a CBOR map")),
        };
        proof {
            lemma_model_pairs(map@);
        }
        let ghost ms = model_pairs(map@);
        let mut st = HeaderState {
            alg: None,
            content_type: None,
            payload_hash_alg: None,
            payload_preimage_content_type: None,
            payload_location: None,
            corim_meta: None,
            cwt_claims: None,
            kid: None,
            x5bag: None,
            x5chain: None,
            x5t: None,
            x5u: None,
            extra: IntMap::new(),
            iss: None,
            sub: None,
            exp: None,
            nbf: None,
        };
        proof {
            assert(ms.take(0) =~= Seq::<(VModel, VModel)>::empty());
            assert(st.extra.entries_spec() =~= Seq::<(i64, VModel)>::empty());
            assert(st.model() == hstate_init());
        }
        let mut i: usize = 0;
        while i < map.len()
            invariant
                i <= map@.len(),
                ms == model_pairs(map@),
                ms.len() == map@.len(),
                v@ == VModel::Mapping(ms),
                forall|j: int| 0 <= j < map@.len() ==> #[trigger] ms[j] == (model(map@[j].0), model(map@[j].1)),
                st.inv(),
                hfold(ms.take(i as int)) == Ok::<HState, Seq<char>>(st.model()),
            decreases map@.len() - i,
        {
            proof {
                assert(ms.take(i + 1).drop_last() =~= ms.take(i as int));
                assert(ms.take(i + 1).last() == ms[i as int]);
            }
            match st.step(&map[i].0, &map[i].1) {
                Ok(()) => {},
                Err(m) => {
                    proof {
                        lemma_hfold_err(ms, i + 1);
                    }
                    return Err(m);
                },
            }
            i += 1;
        }
        proof {
            assert(ms.take(i as int) =~= ms);
        }
        let alg = match st.alg {
            Some(a) => CoseAlgorithm::from_i64(a),
            None => return Err(String::from_str("protected header: missing alg (key 1)")),
        };
        let mut cwt_claims = st.cwt_claims;
        if cwt_claims.is_none() {
            if let Some(iss) = st.iss {
                let ghost before = cwt_claims;
                let extra = IntMap::new();
                proof {
                    assert(extra.entries_spec() =~= Seq::<(i64, VModel)>::empty());
                }
                cwt_claims = Some(CwtClaims { iss, sub: st.sub, exp: st.exp, nbf: st.nbf, extra });
            }
        }
        if st.corim_meta.is_none() && cwt_claims.is_none() {
            return Err(
                String::from_str(
                    "protected header: at least one of corim-meta (8) or CWT-Claims (15) must be present",
                ),
            );
        }
        Ok(
            ProtectedCorimHeaderMap {
                alg,
                content_type: st.content_type,
                payload_hash_alg: st.payload_hash_alg,
                payload_preimage_content_type: st.payload_preimage_content_type,
                payload_location: st.payload_location,
                corim_meta: st.corim_meta,
                cwt_claims,
                kid: st.kid,
                x5bag: st.x5bag,
                x5chain: st.x5chain,
                x5t: st.x5t,
                x5u: st.x5u,
                extra: st.extra,
            },
        )
    }
}

/// The signer name of a meta map.
pub open spec fn signer_name_of(m: MetaModel) -> Seq<char> {
    let (signer, _validity) = m;
    let (name, _uri) = signer;
    name
}

/// Why a header fails the structural rules of §4.2.1, if it does.
pub open spec fn header_valid_spec(h: HeaderModel) -> Result<(), Seq<char>> {
    if h.corim_meta is None && h.cwt_claims is None {
        Err("protected header: at least one of corim-meta or CWT-Claims required"@)
    } else if h.payload_hash_alg is None && h.content_type is None {
        Err("inline mode: content-type (key 3) is required"@)
    } else if h.payload_hash_alg is Some && h.payload_preimage_content_type is None {
        Err("hash-envelope mode: payload_preimage_content_type (key 259) is required"@)
    } else if h.corim_meta is Some && h.cwt_claims is Some && signer_name_of(h.corim_meta->0)
        != h.cwt_claims->0.iss {
        Err(
            "corim-meta signer-name '"@ + signer_name_of(h.corim_meta->0) + "' != cwt-claims iss '"@
                + h.cwt_claims->0.iss + "'"@,
        )
    } else {
        Ok(())
    }
}

/// A protected header passes its check exactly when it carries signer metadata, the
/// content type its mode needs, and, when it carries both `corim-meta` and CWT claims, a
/// signer name equal to the CWT issuer.
pub proof fn lemma_header_valid_iff(h: HeaderModel)
    ensures
        header_valid_spec(h) is Ok <==> ((h.corim_meta is Some || h.cwt_claims is Some) && (h.payload_hash_alg is None
            ==> h.content_type is Some) && (h.payload_hash_alg is Some ==> h.payload_preimage_content_type is Some) && (
        h.corim_meta is Some && h.cwt_claims is Some ==> signer_name_of(h.corim_meta->0) == h.cwt_claims->0.iss)),
        header_valid_spec(h) is Ok && h.corim_meta is Some && h.cwt_claims is Some ==> signer_name_of(h.corim_meta->0)
            == h.cwt_claims->0.iss,
{
}

impl ProtectedCorimHeaderMap {
    /// Check the structural rules of §4.2.1: signer metadata present, the mode's content
    /// type present, and a `corim-meta` signer name equal to the CWT issuer.
    pub fn valid(&self) -> (r: Result<(), String>)
        ensures
            r is Ok <==> header_valid_spec(self@) is Ok,
            r matches Err(m) ==> header_valid_spec(self@) == Err::<(), Seq<char>>(m@),
    {
        proof {
            reveal_strlit("protected header: at least one of corim-meta or CWT-Claims required");
            reveal_strlit("inline mode: content-type (key 3) is required");
            reveal_strlit("hash-envelope mode: payload_preimage_content_type (key 259) is required");
            reveal_strlit("corim-meta signer-name '");
            reveal_strlit("' != cwt-claims iss '");
            reveal_strlit("'");
        }
        if self.corim_meta.is_none() && self.cwt_claims.is_none() {
            return Err(String::from_str("protected header: at least one of corim-meta or CWT-Claims required"));
        }
        if !self.is_hash_envelope() && self.content_type.is_none() {
            return Err(String::from_str("inline mode: content-type (key 3) is required"));
        }
        if self.is_hash_envelope() && self.payload_preimage_content_type.is_none() {
            return Err(
                String::from_str("hash-envelope mode: payload_preimage_content_type (key 259) is required"),
            );
        }
        if let (Some(meta), Some(cwt)) = (&self.corim_meta, &self.cwt_claims) {
            if meta.signer.signer_name != cwt.iss {
                let mut m = String::from_str("corim-meta signer-name '");
                m.append(meta.signer.signer_name.as_str());
                m.append("' != cwt-claims iss '");
                m.append(cwt.iss.as_str());
                m.append("'");
                return Err(m);
            }
        }
        Ok(())
    }
}

/// Builder for [`ProtectedCorimHeaderMap`]; only the algorithm is required.
#[must_use]
pub struct ProtectedCorimHeaderMapBuilder {
    inner: ProtectedCorimHeaderMap,
}

impl ProtectedCorimHeaderMapBuilder {
    /// The header built so far.
    pub closed spec fn header(&self) -> HeaderModel {
        self.inner@
    }

    /// The integer-keyed maps are in key order.
    pub closed spec fn wf(&self) -> bool {
        self.inner.wf()
    }

    /// A builder for a header with algorithm `alg` and nothing else.
    pub fn new(alg: CoseAlgorithm) -> (b: Self)
        ensures
            b.wf(),
            b.header() == (HeaderModel {
                alg,
                content_type: None,
                payload_hash_alg: None,
                payload_preimage_content_type: None,
                payload_location: None,
                corim_meta: None,
                cwt_claims: None,
                kid: None,
                x5bag: None,
                x5chain: None,
                x5t: None,
                x5u: None,
                extra: Seq::empty(),
            }),
    {
        let extra = IntMap::new();
        proof {
            assert(extra.entries_spec() =~= Seq::<(i64, VModel)>::empty());
        }
        ProtectedCorimHeaderMapBuilder {
            inner: ProtectedCorimHeaderMap {
                alg,
                content_type: None,
                payload_hash_alg: None,
                payload_preimage_content_type: None,
                payload_location: None,
                corim_meta: None,
                cwt_claims: None,
                kid: None,
                x5bag: None,
                x5chain: None,
                x5t: None,
                x5u: None,
                extra,
            },
        }
    }

    /// Set the content type (key 3), for inline signing.
    pub fn content_type(self, ct: &str) -> (b: Self)
        requires
            self.wf(),
        ensures
            b.wf(),
            b.header() == (HeaderModel { content_type: Some(ct@), ..self.header() }),
    {
        let mut inner = self.inner;
        inner.content_type = Some(String::from_str(ct));
        ProtectedCorimHeaderMapBuilder { inner }
    }

    /// Set `corim-meta` (key 8).
    pub fn corim_meta(self, meta: CorimMetaMap) -> (b: Self)
        requires
            self.wf(),
        ensures
            b.wf(),
            b.header() == (HeaderModel { corim_meta: Some(meta_model(meta)), ..self.header() }),
    {
        let mut inner = self.inner;
        inner.corim_meta = Some(meta);
        ProtectedCorimHeaderMapBuilder { inner }
    }

    /// Set the CWT claims (key 15).
    pub fn cwt_claims(self, claims: CwtClaims) -> (b: Self)
        requires
            self.wf(),
            claims.extra.wf(),
        ensures
            b.wf(),
            b.header() == (HeaderModel { cwt_claims: Some(claims@), ..self.header() }),
    {
        let mut inner = self.inner;
        inner.cwt_claims = Some(claims);
        ProtectedCorimHeaderMapBuilder { inner }
    }

    /// Set the key identifier (key 4).
    pub fn kid(self, kid: Vec<u8>) -> (b: Self)
        requires
            self.wf(),
        ensures
            b.wf(),
            b.header() == (HeaderModel { kid: Some(kid@), ..self.header() }),
    {
        let mut inner = self.inner;
        inner.kid = Some(kid);
        ProtectedCorimHeaderMapBuilder { inner }
    }

    /// Set the X.509 certificate bag (key 32).
    pub fn x5bag(self, bag: CoseX509) -> (b: Self)
        requires
            self.wf(),
        ensures
            b.wf(),
            b.header() == (HeaderModel { x5bag: Some(bag@), ..self.header() }),
    {
        let mut inner = self.inner;
        inner.x5bag = Some(bag);
        ProtectedCorimHeaderMapBuilder { inner }
    }

    /// Set the X.509 certificate chain (key 33).
    pub fn x5chain(self, chain: CoseX509) -> (b: Self)
        requires
            self.wf(),
        ensures
            b.wf(),
            b.header() == (HeaderModel { x5chain: Some(chain@), ..self.header() }),
    {
        let mut inner = self.inner;
        inner.x5chain = Some(chain);
        ProtectedCorimHeaderMapBuilder { inner }
    }

    /// Set the X.509 certificate thumbprint (key 34).
    pub fn x5t(self, hash: CoseCertHash) -> (b: Self)
        requires
            self.wf(),
        ensures
            b.wf(),
            b.header() == (HeaderModel { x5t: Some((hash.hash_alg@, hash.hash_value@)), ..self.header() }),
    {
        let mut inner = self.inner;
        inner.x5t = Some(hash);
        ProtectedCorimHeaderMapBuilder { inner }
    }

    /// Set the X.509 certificate URI (key 35).
    pub fn x5u(self, uri: &str) -> (b: Self)
        requires
            self.wf(),
        ensures
            b.wf(),
            b.header() == (HeaderModel { x5u: Some(uri@), ..self.header() }),
    {
        let mut inner = self.inner;
        inner.x5u = Some(String::from_str(uri));
        ProtectedCorimHeaderMapBuilder { inner }
    }

    /// Set the hash-envelope payload hash algorithm (key 258).
    pub fn payload_hash_alg(self, alg: i64) -> (b: Self)
        requires
            self.wf(),
        ensures
            b.wf(),
            b.header() == (HeaderModel { payload_hash_alg: Some(alg as int), ..self.header() }),
    {
        let mut inner = self.inner;
        inner.payload_hash_alg = Some(alg);
        ProtectedCorimHeaderMapBuilder { inner }
    }

    /// Set the hash-envelope payload preimage content type (key 259).
    pub fn payload_preimage_content_type(self, ct: &str) -> (b: Self)
        requires
            self.wf(),
        ensures
            b.wf(),
            b.header() == (HeaderModel { payload_preimage_content_type: Some(ct@), ..self.header() }),
    {
        let mut inner = self.inner;
        inner.payload_preimage_content_type = Some(String::from_str(ct));
        ProtectedCorimHeaderMapBuilder { inner }
    }

    /// Set the hash-envelope payload location (key 260).
    pub fn payload_location(self, loc: &str) -> (b: Self)
        requires
            self.wf(),
        ensures
            b.wf(),
            b.header() == (HeaderModel { payload_location: Some(loc@), ..self.header() }),
    {
        let mut inner = self.inner;
        inner.payload_location = Some(String::from_str(loc));
        ProtectedCorimHeaderMapBuilder { inner }
    }

    /// Add a further COSE header parameter (replacing one with the same label).
    pub fn extra(self, key: i64, value: Value) -> (b: Self)
        requires
            self.wf(),
        ensures
            b.wf(),
            b.header() == (HeaderModel { extra: insert_spec(self.header().extra, key, value@), ..self.header() }),
    {
        let mut inner = self.inner;
        inner.extra.insert(key, value);
        ProtectedCorimHeaderMapBuilder { inner }
    }

    /// The header.
    pub fn build(self) -> (h: ProtectedCorimHeaderMap)
        requires
            self.wf(),
        ensures
            h@ == self.header(),
            h.wf(),
    {
        self.inner
    }
}


// ---------------------------------------------------------------------------
// Reading back what was written.
// ---------------------------------------------------------------------------

/// Labels that the reader gives a meaning of their own (header parameters, and the CWT
/// claim labels it accepts flat in the header).
pub open spec fn header_reserved(k: i64) -> bool {
    k == 1 || k == 2 || k == 3 || k == 4 || k == 5 || k == 8 || k == 15 || k == 32 || k == 33
        || k == 34 || k == 35 || k == 258 || k == 259 || k == 260
}

proof fn lemma_hfold_opt(pre: Seq<(VModel, VModel)>, q: Seq<(VModel, VModel)>, s: HState, t: HState)
    requires
        hfold(pre) == Ok::<HState, Seq<char>>(s),
        (q.len() == 0 && t == s) || (q.len() == 1 && hstep(s, q[0].0, q[0].1) == Ok::<HState, Seq<char>>(t)),
    ensures
        hfold(pre + q) == Ok::<HState, Seq<char>>(t),
{
    if q.len() == 0 {
        assert(pre + q =~= pre);
    } else {
        assert((pre + q).drop_last() =~= pre);
        assert((pre + q).last() == q[0]);
    }
}

proof fn lemma_hfold_extra(head: Seq<(VModel, VModel)>, s0: HState, x: Seq<(i64, VModel)>, n: int)
    requires
        hfold(head) == Ok::<HState, Seq<char>>(s0),
        s0.extra.len() == 0,
        crate::intmap::ascending(x),
        forall|j: int| 0 <= j < x.len() ==> !header_reserved(#[trigger] x[j].0),
        0 <= n <= x.len(),
    ensures
        hfold(head + extra_entries(x.take(n))) == Ok::<HState, Seq<char>>(HState { extra: x.take(n), ..s0 }),
    decreases n,
{
    if n == 0 {
        assert(head + extra_entries(x.take(0)) =~= head);
        assert(x.take(0) =~= s0.extra);
    } else {
        lemma_hfold_extra(head, s0, x, n - 1);
        let pre = head + extra_entries(x.take(n - 1));
        let e = (VModel::Int(x[n - 1].0 as int), x[n - 1].1);
        assert(head + extra_entries(x.take(n)) =~= pre.push(e));
        assert(pre.push(e).drop_last() =~= pre);
        assert(!header_reserved(x[n - 1].0));
        let t = x.take(n - 1);
        assert(crate::intmap::ascending(t));
        assert forall|j: int| 0 <= j < t.len() implies #[trigger] t[j].0 < x[n - 1].0 by {
            assert(t[j] == x[j]);
        }
        crate::intmap::lemma_insert_last(t, x[n - 1].0, x[n - 1].1);
        assert(t.push((x[n - 1].0, x[n - 1].1)) =~= x.take(n));
    }
}

/// Reading back a written protected header gives it back, when it can be written, carries
/// `corim-meta` or CWT claims, its algorithm is not an unlisted identifier spelled with a
/// listed number, its further parameters avoid the labels the reader interprets, and its
/// further CWT claims avoid the claim keys.
pub proof fn lemma_header_round_trip(h: ProtectedCorimHeaderMap)
    requires
        h.wf(),
        header_writable(h@),
        h.corim_meta is Some || h.cwt_claims is Some,
        !(h.alg is Unknown) || alg_of(h.alg->Unknown_0) is Unknown,
        forall|j: int| 0 <= j < h@.extra.len() ==> !header_reserved(#[trigger] h@.extra[j].0),
        h.cwt_claims matches Some(c) ==> forall|j: int|
            0 <= j < c@.extra.len() ==> !super::cwt::cwt_reserved(#[trigger] c@.extra[j].0),
    ensures
        header_spec(VModel::Mapping(header_entries(h@))) == Ok::<HeaderModel, Seq<char>>(h@),
{
    let m = h@;
    super::algorithm::lemma_alg_round_trip(h.alg);
    let p0 = seq![(VModel::Int(1), VModel::Int(alg_id(m.alg) as int))];
    let s1 = HState { alg: Some(alg_id(m.alg) as int), ..hstate_init() };
    assert(hfold(Seq::<(VModel, VModel)>::empty()) == Ok::<HState, Seq<char>>(hstate_init()));
    lemma_hfold_opt(Seq::empty(), p0, hstate_init(), s1);
    assert(Seq::<(VModel, VModel)>::empty() + p0 =~= p0);

    let q1 = text_entry(3, m.content_type);
    let s2 = HState { content_type: m.content_type, ..s1 };
    lemma_hfold_opt(p0, q1, s1, s2);
    let a1 = p0 + q1;

    let q2 = meta_entry(m.corim_meta);
    let s3 = HState { corim_meta: m.corim_meta, ..s2 };
    if let Some(x) = h.corim_meta {
        let mv = meta_value(meta_model(x));
        crate::cbor::lemma_decode_encode(mv);
        crate::types::corim::lemma_meta_round_trip(x);
    }
    lemma_hfold_opt(a1, q2, s2, s3);
    let a2 = a1 + q2;

    let q3 = cwt_entry(m.cwt_claims);
    let s4 = HState { cwt_claims: m.cwt_claims, ..s3 };
    if let Some(c) = h.cwt_claims {
        super::cwt::lemma_cwt_round_trip(c);
    }
    lemma_hfold_opt(a2, q3, s3, s4);
    let a3 = a2 + q3;

    let q4 = bytes_entry(4, m.kid);
    let s5 = HState { kid: m.kid, ..s4 };
    lemma_hfold_opt(a3, q4, s4, s5);
    let a4 = a3 + q4;

    let q5 = x509_entry(32, m.x5bag);
    let s6 = HState { x5bag: m.x5bag, ..s5 };
    if let Some(x) = h.x5bag {
        super::x509::lemma_x509_round_trip(x);
    }
    lemma_hfold_opt(a4, q5, s5, s6);
    let a5 = a4 + q5;

    let q6 = x509_entry(33, m.x5chain);
    let s7 = HState { x5chain: m.x5chain, ..s6 };
    if let Some(x) = h.x5chain {
        super::x509::lemma_x509_round_trip(x);
    }
    lemma_hfold_opt(a5, q6, s6, s7);
    let a6 = a5 + q6;

    let q7 = x5t_entry(m.x5t);
    let s8 = HState { x5t: m.x5t, ..s7 };
    if let Some(x) = h.x5t {
        super::x509::lemma_cert_hash_round_trip(x);
    }
    lemma_hfold_opt(a6, q7, s7, s8);
    let a7 = a6 + q7;

    let q8 = text_entry(35, m.x5u);
    let s9 = HState { x5u: m.x5u, ..s8 };
    lemma_hfold_opt(a7, q8, s8, s9);
    let a8 = a7 + q8;

    let q9 = int_entry(258, m.payload_hash_alg);
    let s10 = HState { payload_hash_alg: m.payload_hash_alg, ..s9 };
    lemma_hfold_opt(a8, q9, s9, s10);
    let a9 = a8 + q9;

    let q10 = text_entry(259, m.payload_preimage_content_type);
    let s11 = HState { payload_preimage_content_type: m.payload_preimage_content_type, ..s10 };
    lemma_hfold_opt(a9, q10, s10, s11);
    let a10 = a9 + q10;

    let q11 = text_entry(260, m.payload_location);
    let s12 = HState { payload_location: m.payload_location, ..s11 };
    lemma_hfold_opt(a10, q11, s11, s12);
    let a11 = a10 + q11;

    lemma_hfold_extra(a11, s12, m.extra, m.extra.len() as int);
    assert(m.extra.take(m.extra.len() as int) =~= m.extra);
    assert(header_entries(m) =~= a11 + extra_entries(m.extra));
}

} // verus!
