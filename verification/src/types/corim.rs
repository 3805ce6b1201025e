//! Top-level `corim-map` and related types.
use vstd::prelude::*;
use vstd::utf8::*;
use crate::cbor::{
    Value, VModel, bytes_equal, copy_bytes, decode, decode_spec, decode_failure_message, encode, enc,
    wf, pairs_lookup, map_lookup, model_pairs, lemma_model_pairs,
};
use crate::compat::{decode_comid_from_tcg_bstr, tcg_comid_spec};
use crate::error::{DecodeError, DecodeErrorModel};
use crate::tags::{TAG_COMID, TAG_COSWID, TAG_COTL, TAG_OID, TAG_UUID};
use crate::text::{dec_int, hex, hex_text, push_str, push_u64};
use crate::types::comid::{ComidModel, ComidTag, comid_spec};
use crate::types::measurement::{Digest, DigestAlg, DigestAlgModel, digest_alg_value};
use crate::types::common::{
    EntityMap, EntityModel, entity_spec, entity_value, TagIdModel, TagIdentity, ValidityMap, tag_identity_model, tag_identity_spec, tag_identity_value,
    validity_model, validity_spec, validity_value,
};

use crate::value_text::{push_value_debug, value_debug};

verus! {

/// `$profile-type-choice` — URI or OID.
#[derive(Clone, Debug, PartialEq, Eq, PartialOrd, Ord, Hash)]
#[non_exhaustive]
pub enum ProfileChoice {
    /// A URI profile identifier.
    Uri(String),
    /// An OID profile identifier (CBOR tag 111), DER content octets.
    Oid(Vec<u8>),
}

/// Mathematical form of a [`ProfileChoice`].
pub enum ProfileChoiceModel {
    Uri(Seq<char>),
    Oid(Seq<u8>),
}

impl View for ProfileChoice {
    type V = ProfileChoiceModel;

    open spec fn view(&self) -> ProfileChoiceModel {
        match self {
            ProfileChoice::Uri(u) => ProfileChoiceModel::Uri(u@),
            ProfileChoice::Oid(b) => ProfileChoiceModel::Oid(b@),
        }
    }
}

/// Lexicographic order of byte strings (a proper prefix comes first).
pub open spec fn bytes_lt(a: Seq<u8>, b: Seq<u8>) -> bool
    decreases a.len(),
{
    if a.len() == 0 {
        b.len() > 0
    } else if b.len() == 0 {
        false
    } else if a[0] != b[0] {
        a[0] < b[0]
    } else {
        bytes_lt(a.drop_first(), b.drop_first())
    }
}

/// The order of identifiers: every URI before every OID; URIs by their UTF-8 bytes, OIDs
/// by their bytes.
pub open spec fn choice_lt(a: ProfileChoiceModel, b: ProfileChoiceModel) -> bool {
    match (a, b) {
        (ProfileChoiceModel::Uri(x), ProfileChoiceModel::Uri(y)) => bytes_lt(
            encode_utf8(x),
            encode_utf8(y),
        ),
        (ProfileChoiceModel::Uri(_), ProfileChoiceModel::Oid(_)) => true,
        (ProfileChoiceModel::Oid(_), ProfileChoiceModel::Uri(_)) => false,
        (ProfileChoiceModel::Oid(x), ProfileChoiceModel::Oid(y)) => bytes_lt(x, y),
    }
}

/// `bytes_lt` is a strict total order.
pub proof fn lemma_bytes_lt_order(a: Seq<u8>, b: Seq<u8>, c: Seq<u8>)
    ensures
        !bytes_lt(a, a),
        a != b ==> bytes_lt(a, b) || bytes_lt(b, a),
        !(bytes_lt(a, b) && bytes_lt(b, a)),
        bytes_lt(a, b) && bytes_lt(b, c) ==> bytes_lt(a, c),
    decreases a.len(),
{
    if a.len() > 0 && b.len() > 0 {
        if c.len() > 0 {
            lemma_bytes_lt_order(a.drop_first(), b.drop_first(), c.drop_first());
        } else {
            lemma_bytes_lt_order(a.drop_first(), b.drop_first(), c);
        }
        if a != b && a[0] == b[0] {
            assert(a.drop_first() != b.drop_first()) by {
                if a.drop_first() == b.drop_first() {
                    assert(a =~= seq![a[0]] + a.drop_first());
                    assert(b =~= seq![b[0]] + b.drop_first());
                }
            }
        }
    } else if a.len() > 0 {
        lemma_bytes_lt_order(a.drop_first(), a.drop_first(), a.drop_first());
    } else if b.len() == 0 {
        assert(a =~= b);
    }
}

/// `choice_lt` is a strict total order on identifiers.
pub proof fn lemma_choice_lt_order(a: ProfileChoiceModel, b: ProfileChoiceModel, c: ProfileChoiceModel)
    ensures
        !choice_lt(a, a),
        a != b ==> choice_lt(a, b) || choice_lt(b, a),
        !(choice_lt(a, b) && choice_lt(b, a)),
        choice_lt(a, b) && choice_lt(b, c) ==> choice_lt(a, c),
{
    let ea = match a {
        ProfileChoiceModel::Uri(x) => encode_utf8(x),
        ProfileChoiceModel::Oid(x) => x,
    };
    let eb = match b {
        ProfileChoiceModel::Uri(x) => encode_utf8(x),
        ProfileChoiceModel::Oid(x) => x,
    };
    let ec = match c {
        ProfileChoiceModel::Uri(x) => encode_utf8(x),
        ProfileChoiceModel::Oid(x) => x,
    };
    lemma_bytes_lt_order(ea, eb, ec);
    if let (ProfileChoiceModel::Uri(x), ProfileChoiceModel::Uri(y)) = (a, b) {
        if x != y {
            encode_utf8_decode_utf8(x);
            encode_utf8_decode_utf8(y);
        }
    }
}

fn bytes_less(a: &[u8], b: &[u8]) -> (r: bool)
    ensures
        r == bytes_lt(a@, b@),
{
    let mut i: usize = 0;
    assert(a@.skip(0) =~= a@);
    assert(b@.skip(0) =~= b@);
    assert(a@.take(0) =~= b@.take(0));
    while i < a.len() && i < b.len()
        invariant
            i <= a@.len(),
            i <= b@.len(),
            a@.take(i as int) == b@.take(i as int),
            bytes_lt(a@, b@) == bytes_lt(a@.skip(i as int), b@.skip(i as int)),
        decreases a@.len() - i,
    {
        proof {
            assert(a@.skip(i as int)[0] == a@[i as int]);
            assert(b@.skip(i as int)[0] == b@[i as int]);
            assert(a@.skip(i as int).drop_first() =~= a@.skip(i + 1));
            assert(b@.skip(i as int).drop_first() =~= b@.skip(i + 1));
        }
        if a[i] != b[i] {
            return a[i] < b[i];
        }
        proof {
            assert(a@.take(i + 1) =~= a@.take(i as int).push(a@[i as int]));
            assert(b@.take(i + 1) =~= b@.take(i as int).push(b@[i as int]));
        }
        i += 1;
    }
    i < b.len()
}

/// Whether identifier `a` orders before `b`.
pub fn choice_less(a: &ProfileChoice, b: &ProfileChoice) -> (r: bool)
    ensures
        r == choice_lt(a@, b@),
{
    proof {
        assert(a@ is Uri ==> true);
    }
    match (a, b) {
        (ProfileChoice::Uri(x), ProfileChoice::Uri(y)) => bytes_less(
            x.as_str().as_bytes(),
            y.as_str().as_bytes(),
        ),
        (ProfileChoice::Uri(_), ProfileChoice::Oid(_)) => true,
        (ProfileChoice::Oid(_), ProfileChoice::Uri(_)) => false,
        (ProfileChoice::Oid(x), ProfileChoice::Oid(y)) => bytes_less(x.as_slice(), y.as_slice()),
    }
}

/// Whether two identifiers are equal.
pub fn choice_equal(a: &ProfileChoice, b: &ProfileChoice) -> (r: bool)
    ensures
        r == (a@ == b@),
{
    match (a, b) {
        (ProfileChoice::Uri(x), ProfileChoice::Uri(y)) => *x == *y,
        (ProfileChoice::Oid(x), ProfileChoice::Oid(y)) => bytes_equal(x.as_slice(), y.as_slice()),
        _ => false,
    }
}

/// A copy of an identifier.
pub fn clone_choice(a: &ProfileChoice) -> (r: ProfileChoice)
    ensures
        r@ == a@,
{
    match a {
        ProfileChoice::Uri(x) => ProfileChoice::Uri(x.clone()),
        ProfileChoice::Oid(b) => ProfileChoice::Oid(crate::cbor::copy_bytes(b.as_slice())),
    }
}

/// `corim-signer-map` — `{ 0: signer-name, ? 1: signer-uri }`.
#[derive(Clone, Debug, PartialEq)]
pub struct CorimSignerMap {
    /// `signer-name` (key 0).
    pub signer_name: String,
    /// `signer-uri` (key 1).
    pub signer_uri: Option<String>,
}

/// Mathematical form of a [`CorimSignerMap`].
pub open spec fn signer_model(s: CorimSignerMap) -> (Seq<char>, Option<Seq<char>>) {
    (s.signer_name@, match s.signer_uri {
        Some(u) => Some(u@),
        None => None,
    })
}

/// The signer map a data item denotes, or why it does not denote one.
pub open spec fn signer_spec(v: VModel) -> Result<(Seq<char>, Option<Seq<char>>), Seq<char>> {
    match v {
        VModel::Mapping(m) => match pairs_lookup(m, 0) {
            Some(VModel::Text(name)) => match pairs_lookup(m, 1) {
                None => Ok((name, None)),
                Some(VModel::Text(uri)) => Ok((name, Some(uri))),
                Some(_) => Err("corim-signer-map: signer-uri must be text"@),
            },
            Some(_) => Err("corim-signer-map: signer-name must be text"@),
            None => Err("corim-signer-map: missing signer-name (key 0)"@),
        },
        _ => Err("corim-signer-map must be a map"@),
    }
}

/// The item a signer map is written as.
pub open spec fn signer_value(s: (Seq<char>, Option<Seq<char>>)) -> VModel {
    match s.1 {
        Some(u) => VModel::Mapping(seq![(VModel::Int(0), VModel::Text(s.0)), (VModel::Int(1), VModel::Text(u))]),
        None => VModel::Mapping(seq![(VModel::Int(0), VModel::Text(s.0))]),
    }
}

impl CorimSignerMap {
    /// Read a signer map.
    pub fn from_value(v: &Value) -> (r: Result<CorimSignerMap, String>)
        ensures
            r matches Ok(x) ==> signer_spec(v@) == Ok::<(Seq<char>, Option<Seq<char>>), Seq<char>>(signer_model(x)),
            r matches Err(m) ==> signer_spec(v@) == Err::<(Seq<char>, Option<Seq<char>>), Seq<char>>(m@),
    {
        proof {
            reveal_strlit("corim-signer-map: signer-uri must be text");
            reveal_strlit("corim-signer-map: signer-name must be text");
            reveal_strlit("corim-signer-map: missing signer-name (key 0)");
            reveal_strlit("corim-signer-map must be a map");
        }
        let m = match v {
            Value::Mapping(m) => m,
            _ => return Err(String::from_str("corim-signer-map must be a map")),
        };
        let signer_name = match map_lookup(m, 0) {
            Some(Value::Text(n)) => n.clone(),
            Some(_) => return Err(String::from_str("corim-signer-map: signer-name must be text")),
            None => return Err(String::from_str("corim-signer-map: missing signer-name (key 0)")),
        };
        let signer_uri = match map_lookup(m, 1) {
            None => None,
            Some(Value::Text(u)) => Some(u.clone()),
            Some(_) => return Err(String::from_str("corim-signer-map: signer-uri must be text")),
        };
        Ok(CorimSignerMap { signer_name, signer_uri })
    }

    /// The item the signer map is written as.
    pub fn to_value(&self) -> (r: Value)
        ensures
            r@ == signer_value(signer_model(*self)),
    {
        let mut entries: Vec<(Value, Value)> = Vec::new();
        entries.push((Value::Integer(0), Value::Text(self.signer_name.clone())));
        if let Some(u) = &self.signer_uri {
            entries.push((Value::Integer(1), Value::Text(u.clone())));
        }
        proof {
            lemma_model_pairs(entries@);
            assert(model_pairs(entries@) =~= signer_value(signer_model(*self))->Mapping_0);
        }
        Value::Mapping(entries)
    }
}

/// `corim-meta-map` — `{ 0: signer, ? 1: signature-validity }`.
#[derive(Clone, Debug, PartialEq)]
pub struct CorimMetaMap {
    /// `signer` (key 0).
    pub signer: CorimSignerMap,
    /// `signature-validity` (key 1).
    pub signature_validity: Option<ValidityMap>,
}

/// Mathematical form of a [`CorimMetaMap`].
pub type MetaModel = ((Seq<char>, Option<Seq<char>>), Option<(Option<int>, int)>);

pub open spec fn meta_model(m: CorimMetaMap) -> MetaModel {
    (signer_model(m.signer), match m.signature_validity {
        Some(v) => Some(validity_model(v)),
        None => None,
    })
}

/// The meta map a data item denotes, or why it does not denote one.
pub open spec fn meta_spec(v: VModel) -> Result<MetaModel, Seq<char>> {
    match v {
        VModel::Mapping(m) => match pairs_lookup(m, 0) {
            None => Err("corim-meta-map: missing signer (key 0)"@),
            Some(sv) => match signer_spec(sv) {
                Err(e) => Err(e),
                Ok(signer) => match pairs_lookup(m, 1) {
                    None => Ok((signer, None)),
                    Some(vv) => match validity_spec(vv) {
                        Err(e) => Err(e),
                        Ok(validity) => Ok((signer, Some(validity))),
                    },
                },
            },
        },
        _ => Err("corim-meta-map must be a map"@),
    }
}

/// The item a meta map is written as.
pub open spec fn meta_value(m: MetaModel) -> VModel {
    match m.1 {
        Some(v) => VModel::Mapping(seq![(VModel::Int(0), signer_value(m.0)), (VModel::Int(1), validity_value(v))]),
        None => VModel::Mapping(seq![(VModel::Int(0), signer_value(m.0))]),
    }
}

impl CorimMetaMap {
    /// A copy of the meta map.
    pub fn copy(&self) -> (r: CorimMetaMap)
        ensures
            meta_model(r) == meta_model(*self),
    {
        CorimMetaMap {
            signer: CorimSignerMap {
                signer_name: self.signer.signer_name.clone(),
                signer_uri: match &self.signer.signer_uri {
                    Some(u) => Some(u.clone()),
                    None => None,
                },
            },
            signature_validity: self.signature_validity,
        }
    }

    /// Read a meta map.
    pub fn from_value(v: &Value) -> (r: Result<CorimMetaMap, String>)
        ensures
            r matches Ok(x) ==> meta_spec(v@) == Ok::<MetaModel, Seq<char>>(meta_model(x)),
            r matches Err(m) ==> meta_spec(v@) == Err::<MetaModel, Seq<char>>(m@),
    {
        proof {
            reveal_strlit("corim-meta-map: missing signer (key 0)");
            reveal_strlit("corim-meta-map must be a map");
        }
        let m = match v {
            Value::Mapping(m) => m,
            _ => return Err(String::from_str("corim-meta-map must be a map")),
        };
        let sv = match map_lookup(m, 0) {
            Some(x) => x,
            None => return Err(String::from_str("corim-meta-map: missing signer (key 0)")),
        };
        let signer = match CorimSignerMap::from_value(sv) {
            Ok(s) => s,
            Err(e) => return Err(e),
        };
        let signature_validity = match map_lookup(m, 1) {
            None => None,
            Some(vv) => match ValidityMap::from_value(vv) {
                Ok(x) => Some(x),
                Err(e) => return Err(e),
            },
        };
        Ok(CorimMetaMap { signer, signature_validity })
    }

    /// The item the meta map is written as.
    pub fn to_value(&self) -> (r: Value)
        ensures
            r@ == meta_value(meta_model(*self)),
    {
        let mut entries: Vec<(Value, Value)> = Vec::new();
        entries.push((Value::Integer(0), self.signer.to_value()));
        if let Some(v) = &self.signature_validity {
            entries.push((Value::Integer(1), v.to_value()));
        }
        proof {
            lemma_model_pairs(entries@);
            assert(model_pairs(entries@) =~= meta_value(meta_model(*self))->Mapping_0);
        }
        Value::Mapping(entries)
    }
}


/// Reading back a written signer map gives it back.
pub proof fn lemma_signer_round_trip(x: CorimSignerMap)
    ensures
        signer_spec(signer_value(signer_model(x))) == Ok::<(Seq<char>, Option<Seq<char>>), Seq<char>>(signer_model(x)),
{
    let m = signer_model(x);
    match m.1 {
        Some(u) => {
            let s = seq![(VModel::Int(0), VModel::Text(m.0)), (VModel::Int(1), VModel::Text(u))];
            assert(s.drop_first().drop_first() =~= Seq::<(VModel, VModel)>::empty());
            assert(pairs_lookup(s.drop_first(), 1) == Some(VModel::Text(u)));
        },
        None => {
            let s = seq![(VModel::Int(0), VModel::Text(m.0))];
            assert(s.drop_first() =~= Seq::<(VModel, VModel)>::empty());
            assert(pairs_lookup(s.drop_first(), 1) is None);
        },
    }
}

/// Reading back a written meta map gives it back.
pub proof fn lemma_meta_round_trip(x: CorimMetaMap)
    ensures
        meta_spec(meta_value(meta_model(x))) == Ok::<MetaModel, Seq<char>>(meta_model(x)),
{
    lemma_signer_round_trip(x.signer);
    let m = meta_model(x);
    match x.signature_validity {
        Some(v) => {
            crate::types::common::lemma_validity_round_trip(v);
            let s = seq![(VModel::Int(0), signer_value(m.0)), (VModel::Int(1), validity_value(m.1->0))];
            assert(s.drop_first().drop_first() =~= Seq::<(VModel, VModel)>::empty());
            assert(pairs_lookup(s.drop_first(), 1) == Some(validity_value(m.1->0)));
        },
        None => {
            let s = seq![(VModel::Int(0), signer_value(m.0))];
            assert(s.drop_first() =~= Seq::<(VModel, VModel)>::empty());
            assert(pairs_lookup(s.drop_first(), 1) is None);
        },
    }
}


// ---------------------------------------------------------------------------
// corim-id
// ---------------------------------------------------------------------------

/// `$corim-id-type-choice` — text or UUID.
#[derive(Clone, Debug, PartialEq, Eq)]
#[non_exhaustive]
pub enum CorimId {
    /// A text CoRIM identifier.
    Text(String),
    /// A UUID CoRIM identifier (CBOR tag 37).
    Uuid([u8; 16]),
}

/// Mathematical form of a [`CorimId`].
pub enum CorimIdModel {
    Text(Seq<char>),
    Uuid(Seq<u8>),
}

impl View for CorimId {
    type V = CorimIdModel;

    open spec fn view(&self) -> CorimIdModel {
        match self {
            CorimId::Text(t) => CorimIdModel::Text(t@),
            CorimId::Uuid(u) => CorimIdModel::Uuid(u@),
        }
    }
}

/// The identifier a data item denotes: a text, `#6.37` around 16 bytes, or 16 bare bytes.
pub open spec fn corim_id_spec(v: VModel) -> Result<CorimIdModel, Seq<char>> {
    match v {
        VModel::Text(t) => Ok(CorimIdModel::Text(t)),
        VModel::Tag(t, inner) if t == TAG_UUID => match *inner {
            VModel::Bytes(b) => if b.len() == 16 {
                Ok(CorimIdModel::Uuid(b))
            } else {
                Err("UUID must be 16 bytes"@)
            },
            _ => Err("tag 37 must wrap bytes"@),
        },
        VModel::Bytes(b) if b.len() == 16 => Ok(CorimIdModel::Uuid(b)),
        _ => Err("expected text or tagged UUID"@),
    }
}

/// The item an identifier is written as.
pub open spec fn corim_id_value(id: CorimIdModel) -> VModel {
    match id {
        CorimIdModel::Text(t) => VModel::Text(t),
        CorimIdModel::Uuid(u) => VModel::Tag(TAG_UUID, Box::new(VModel::Bytes(u))),
    }
}

/// The display form of an identifier: the text, or the UUID as `8-4-4-4-12` hex digits.
pub open spec fn corim_id_text(id: CorimIdModel) -> Seq<char> {
    match id {
        CorimIdModel::Text(t) => t,
        CorimIdModel::Uuid(u) => hex_text(u.subrange(0, 4)) + "-"@ + hex_text(u.subrange(4, 6))
            + "-"@ + hex_text(u.subrange(6, 8)) + "-"@ + hex_text(u.subrange(8, 10)) + "-"@
            + hex_text(u.subrange(10, 16)),
    }
}

fn bytes16(b: &[u8]) -> (r: [u8; 16])
    requires
        b@.len() == 16,
    ensures
        r@ == b@,
{
    let mut r = [0u8; 16];
    let mut i: usize = 0;
    while i < 16
        invariant
            b@.len() == 16,
            i <= 16,
            r@.len() == 16,
            forall|j: int| 0 <= j < i ==> r@[j] == b@[j],
        decreases 16 - i,
    {
        r.set(i, b[i]);
        i = i + 1;
    }
    proof {
        assert(r@ =~= b@);
    }
    r
}

impl CorimId {
    /// Read an identifier.
    pub fn from_value(v: &Value) -> (r: Result<CorimId, String>)
        ensures
            r matches Ok(x) ==> corim_id_spec(v@) == Ok::<CorimIdModel, Seq<char>>(x@),
            r matches Err(m) ==> corim_id_spec(v@) == Err::<CorimIdModel, Seq<char>>(m@),
    {
        match v {
            Value::Text(t) => Ok(CorimId::Text(t.clone())),
            Value::Tag(t, inner) if *t == TAG_UUID => {
                let iv: &Value = inner;
                assert(v@ == VModel::Tag(*t, Box::new(iv@)));
                match iv {
                    Value::Bytes(b) => {
                        if b.len() == 16 {
                            Ok(CorimId::Uuid(bytes16(b.as_slice())))
                        } else {
                            Err(String::from_str("UUID must be 16 bytes"))
                        }
                    },
                    _ => Err(String::from_str("tag 37 must wrap bytes")),
                }
            },
            Value::Bytes(b) if b.len() == 16 => Ok(CorimId::Uuid(bytes16(b.as_slice()))),
            _ => Err(String::from_str("expected text or tagged UUID")),
        }
    }

    /// The item the identifier is written as.
    pub fn to_value(&self) -> (r: Value)
        ensures
            r@ == corim_id_value(self@),
    {
        match self {
            CorimId::Text(t) => Value::Text(t.clone()),
            CorimId::Uuid(u) => {
                let inner = Value::Bytes(copy_bytes(u.as_slice()));
                let r = Value::Tag(TAG_UUID, Box::new(inner));
                assert(r@ == VModel::Tag(TAG_UUID, Box::new(inner@)));
                r
            },
        }
    }

    /// The display form of the identifier.
    pub fn to_text(&self) -> (s: String)
        ensures
            s@ == corim_id_text(self@),
    {
        match self {
            CorimId::Text(t) => t.clone(),
            CorimId::Uuid(u) => {
                let b = u.as_slice();
                let mut s = hex(slice_range(b, 0, 4).as_slice());
                push_str(&mut s, "-");
                let h = hex(slice_range(b, 4, 6).as_slice());
                push_str(&mut s, h.as_str());
                push_str(&mut s, "-");
                let h = hex(slice_range(b, 6, 8).as_slice());
                push_str(&mut s, h.as_str());
                push_str(&mut s, "-");
                let h = hex(slice_range(b, 8, 10).as_slice());
                push_str(&mut s, h.as_str());
                push_str(&mut s, "-");
                let h = hex(slice_range(b, 10, 16).as_slice());
                push_str(&mut s, h.as_str());
                s
            },
        }
    }
}

/// The bytes `b[start..end]`.
fn slice_range(b: &[u8], start: usize, end: usize) -> (r: Vec<u8>)
    requires
        start <= end <= b@.len(),
    ensures
        r@ == b@.subrange(start as int, end as int),
{
    let mut r: Vec<u8> = Vec::new();
    let mut i = start;
    while i < end
        invariant
            start <= i <= end <= b@.len(),
            r@ == b@.subrange(start as int, i as int),
        decreases end - i,
    {
        r.push(b[i]);
        proof {
            assert(r@ =~= b@.subrange(start as int, i + 1));
        }
        i = i + 1;
    }
    r
}


// ---------------------------------------------------------------------------
// Concise tag choice
// ---------------------------------------------------------------------------

/// An entry of the CoRIM `tags` array. The tag bytes are kept as they are; a CoMID is
/// decoded on demand with [`ConciseTagChoice::as_comid`].
#[derive(Clone, Debug, PartialEq, Eq)]
#[non_exhaustive]
pub enum ConciseTagChoice {
    /// CoMID (`#6.506` around bytes).
    Comid(Vec<u8>),
    /// CoSWID (`#6.505` around bytes).
    Coswid(Vec<u8>),
    /// CoTL (`#6.508` around bytes).
    Cotl(Vec<u8>),
    /// Another tag, with the encoding of the item it wraps.
    Unknown(u64, Vec<u8>),
    /// A bare byte string with no tag (accepted when reading, as some producers emit it).
    BareBstr(Vec<u8>),
}

/// Mathematical form of a [`ConciseTagChoice`].
pub enum TagChoiceModel {
    Comid(Seq<u8>),
    Coswid(Seq<u8>),
    Cotl(Seq<u8>),
    Unknown(u64, Seq<u8>),
    BareBstr(Seq<u8>),
}

impl View for ConciseTagChoice {
    type V = TagChoiceModel;

    open spec fn view(&self) -> TagChoiceModel {
        match self {
            ConciseTagChoice::Comid(b) => TagChoiceModel::Comid(b@),
            ConciseTagChoice::Coswid(b) => TagChoiceModel::Coswid(b@),
            ConciseTagChoice::Cotl(b) => TagChoiceModel::Cotl(b@),
            ConciseTagChoice::Unknown(t, b) => TagChoiceModel::Unknown(*t, b@),
            ConciseTagChoice::BareBstr(b) => TagChoiceModel::BareBstr(b@),
        }
    }
}

/// The tag entry a data item denotes.
pub open spec fn tag_choice_spec(v: VModel) -> Result<TagChoiceModel, Seq<char>> {
    match v {
        VModel::Tag(t, inner) => if t == TAG_COMID {
            match *inner {
                VModel::Bytes(b) => Ok(TagChoiceModel::Comid(b)),
                _ => Err("tag 506 must wrap bytes"@),
            }
        } else if t == TAG_COSWID {
            match *inner {
                VModel::Bytes(b) => Ok(TagChoiceModel::Coswid(b)),
                _ => Err("tag 505 must wrap bytes"@),
            }
        } else if t == TAG_COTL {
            match *inner {
                VModel::Bytes(b) => Ok(TagChoiceModel::Cotl(b)),
                _ => Err("tag 508 must wrap bytes"@),
            }
        } else if wf(*inner) {
            Ok(TagChoiceModel::Unknown(t, enc(*inner)))
        } else {
            Err("CBOR serialization failed: "@ + "integer outside the CBOR range"@)
        },
        VModel::Bytes(b) => Ok(TagChoiceModel::BareBstr(b)),
        _ => Err("expected a tagged concise tag or a bare bstr (TCG-style)"@),
    }
}

/// The item a tag entry is written as (the bytes of `Unknown` go inside its tag).
pub open spec fn tag_choice_value(t: TagChoiceModel) -> VModel {
    match t {
        TagChoiceModel::Comid(b) => VModel::Tag(TAG_COMID, Box::new(VModel::Bytes(b))),
        TagChoiceModel::Coswid(b) => VModel::Tag(TAG_COSWID, Box::new(VModel::Bytes(b))),
        TagChoiceModel::Cotl(b) => VModel::Tag(TAG_COTL, Box::new(VModel::Bytes(b))),
        TagChoiceModel::Unknown(t, b) => VModel::Tag(t, Box::new(VModel::Bytes(b))),
        TagChoiceModel::BareBstr(b) => VModel::Bytes(b),
    }
}

/// What [`ConciseTagChoice::as_comid`] gives for an entry.
pub open spec fn as_comid_spec(t: TagChoiceModel) -> Result<ComidModel, DecodeErrorModel> {
    match t {
        TagChoiceModel::Comid(b) => match decode_spec(b) {
            None => Err(
                DecodeErrorModel::Deserialization(
                    "as_comid: ComidTag decode: "@ + ("CBOR deserialization failed: "@
                        + decode_failure_message(b)),
                ),
            ),
            Some(v) => match comid_spec(v) {
                Ok(c) => Ok(c),
                Err(m) => Err(
                    DecodeErrorModel::Deserialization(
                        "as_comid: ComidTag decode: "@ + ("CBOR deserialization failed: "@ + m),
                    ),
                ),
            },
        },
        TagChoiceModel::BareBstr(b) => tcg_comid_spec(b),
        TagChoiceModel::Coswid(_) => Err(
            DecodeErrorModel::InvalidStructure("as_comid: tag is CoSWID (#6.505), not CoMID"@),
        ),
        TagChoiceModel::Cotl(_) => Err(
            DecodeErrorModel::InvalidStructure("as_comid: tag is CoTL (#6.508), not CoMID"@),
        ),
        TagChoiceModel::Unknown(t, _) => Err(
            DecodeErrorModel::InvalidStructure(
                "as_comid: tag is unknown (#6."@ + dec_int(t as int) + "), not CoMID"@,
            ),
        ),
    }
}

/// How reading an entry as a CoMID splits by its kind: CoSWID, CoTL and unknown tags are
/// not CoMIDs (an unknown one is named by `#6.<tag>`), a bare byte string is read the TCG
/// way, and a CoMID entry succeeds exactly when its bytes hold one data item that is a
/// CoMID, failing otherwise with a deserialization error.
pub proof fn lemma_as_comid_cases(t: TagChoiceModel)
    ensures
        (t is Coswid || t is Cotl) ==> as_comid_spec(t) matches Err(DecodeErrorModel::InvalidStructure(_)),
        t matches TagChoiceModel::Unknown(n, _) ==> (as_comid_spec(t) matches Err(DecodeErrorModel::InvalidStructure(m))
            && m.subrange(26, 26 + ("#6."@ + dec_int(n as int)).len() as int) == "#6."@ + dec_int(n as int)),
        t matches TagChoiceModel::BareBstr(b) ==> as_comid_spec(t) == tcg_comid_spec(b),
        t matches TagChoiceModel::Comid(b) ==> ((as_comid_spec(t) is Ok) <==> (decode_spec(b) matches Some(v) && comid_spec(v) is Ok)),
        t matches TagChoiceModel::Comid(b) ==> (as_comid_spec(t) is Err ==> as_comid_spec(t) matches Err(DecodeErrorModel::Deserialization(_))),
{
    if let TagChoiceModel::Unknown(n, _) = t {
        reveal_strlit("as_comid: tag is unknown (#6.");
        reveal_strlit("as_comid: tag is unknown (");
        reveal_strlit("#6.");
        let pre = "as_comid: tag is unknown ("@;
        let needle = "#6."@ + dec_int(n as int);
        assert("as_comid: tag is unknown (#6."@ =~= pre + "#6."@);
        let m = "as_comid: tag is unknown (#6."@ + dec_int(n as int) + "), not CoMID"@;
        assert(m =~= pre + needle + "), not CoMID"@);
        assert(m.subrange(26, 26 + needle.len() as int) =~= needle);
    }
}

fn tagged_bytes(t: u64, b: &[u8]) -> (r: Value)
    ensures
        r@ == VModel::Tag(t, Box::new(VModel::Bytes(b@))),
{
    let inner = Value::Bytes(copy_bytes(b));
    let r = Value::Tag(t, Box::new(inner));
    assert(r@ == VModel::Tag(t, Box::new(inner@)));
    r
}

impl ConciseTagChoice {
    /// Read a tag entry.
    pub fn from_value(v: &Value) -> (r: Result<ConciseTagChoice, String>)
        ensures
            r matches Ok(x) ==> tag_choice_spec(v@) == Ok::<TagChoiceModel, Seq<char>>(x@),
            r matches Err(m) ==> tag_choice_spec(v@) == Err::<TagChoiceModel, Seq<char>>(m@),
    {
        match v {
            Value::Tag(t, inner) => {
                let iv: &Value = inner;
                assert(v@ == VModel::Tag(*t, Box::new(iv@)));
                if *t == TAG_COMID {
                    match iv {
                        Value::Bytes(b) => Ok(ConciseTagChoice::Comid(copy_bytes(b.as_slice()))),
                        _ => Err(String::from_str("tag 506 must wrap bytes")),
                    }
                } else if *t == TAG_COSWID {
                    match iv {
                        Value::Bytes(b) => Ok(ConciseTagChoice::Coswid(copy_bytes(b.as_slice()))),
                        _ => Err(String::from_str("tag 505 must wrap bytes")),
                    }
                } else if *t == TAG_COTL {
                    match iv {
                        Value::Bytes(b) => Ok(ConciseTagChoice::Cotl(copy_bytes(b.as_slice()))),
                        _ => Err(String::from_str("tag 508 must wrap bytes")),
                    }
                } else {
                    match encode(iv) {
                        Ok(raw) => Ok(ConciseTagChoice::Unknown(*t, raw)),
                        Err(e) => {
                            let m = e.to_text();
                            Err(m)
                        },
                    }
                }
            },
            Value::Bytes(b) => Ok(ConciseTagChoice::BareBstr(copy_bytes(b.as_slice()))),
            _ => Err(String::from_str("expected a tagged concise tag or a bare bstr (TCG-style)")),
        }
    }

    /// The item the entry is written as.
    pub fn to_value(&self) -> (r: Value)
        ensures
            r@ == tag_choice_value(self@),
    {
        match self {
            ConciseTagChoice::Comid(b) => tagged_bytes(TAG_COMID, b.as_slice()),
            ConciseTagChoice::Coswid(b) => tagged_bytes(TAG_COSWID, b.as_slice()),
            ConciseTagChoice::Cotl(b) => tagged_bytes(TAG_COTL, b.as_slice()),
            ConciseTagChoice::Unknown(t, b) => tagged_bytes(*t, b.as_slice()),
            ConciseTagChoice::BareBstr(b) => Value::Bytes(copy_bytes(b.as_slice())),
        }
    }

    /// Decode the entry as a CoMID: a `Comid` entry's bytes, or a bare byte string read the
    /// TCG way (see [`decode_comid_from_tcg_bstr`]); other entries are not CoMIDs.
    pub fn as_comid(&self) -> (r: Result<ComidTag, DecodeError>)
        ensures
            r matches Ok(c) ==> as_comid_spec(self@) == Ok::<ComidModel, DecodeErrorModel>(c@),
            r matches Err(e) ==> as_comid_spec(self@) == Err::<ComidModel, DecodeErrorModel>(e@),
    {
        match self {
            ConciseTagChoice::Comid(bytes) => {
                let v = match decode(bytes.as_slice()) {
                    Ok(v) => v,
                    Err(e) => {
                        let mut m = String::from_str("as_comid: ComidTag decode: ");
                        let t = e.to_text();
                        push_str(&mut m, t.as_str());
                        return Err(DecodeError::Deserialization(m));
                    },
                };
                match ComidTag::from_value(&v) {
                    Ok(c) => Ok(c),
                    Err(e) => {
                        let mut m = String::from_str("as_comid: ComidTag decode: ");
                        let t = e.to_text();
                        push_str(&mut m, t.as_str());
                        Err(DecodeError::Deserialization(m))
                    },
                }
            },
            ConciseTagChoice::BareBstr(bytes) => decode_comid_from_tcg_bstr(bytes.as_slice()),
            ConciseTagChoice::Coswid(_) => Err(
                DecodeError::InvalidStructure(
                    String::from_str("as_comid: tag is CoSWID (#6.505), not CoMID"),
                ),
            ),
            ConciseTagChoice::Cotl(_) => Err(
                DecodeError::InvalidStructure(String::from_str("as_comid: tag is CoTL (#6.508), not CoMID")),
            ),
            ConciseTagChoice::Unknown(t, _) => {
                let mut m = String::from_str("as_comid: tag is unknown (#6.");
                push_u64(&mut m, *t);
                push_str(&mut m, "), not CoMID");
                Err(DecodeError::InvalidStructure(m))
            },
        }
    }
}

/// Reading back a written tag entry gives it back, except for `Unknown`, whose bytes are
/// written inside its tag and read back as the encoding of that byte string.
pub proof fn lemma_tag_choice_round_trip(t: ConciseTagChoice)
    requires
        !(t is Unknown),
    ensures
        tag_choice_spec(tag_choice_value(t@)) == Ok::<TagChoiceModel, Seq<char>>(t@),
{
}


// ---------------------------------------------------------------------------
// corim-locator-map
// ---------------------------------------------------------------------------


/// `href` of a locator: one URI or several.
#[derive(Clone, Debug, PartialEq, Eq)]
#[non_exhaustive]
pub enum CorimLocatorHref {
    /// A single URI.
    Single(String),
    /// Several URIs.
    Multiple(Vec<String>),
}

/// Mathematical form of a [`CorimLocatorHref`].
pub enum HrefModel {
    Single(Seq<char>),
    Multiple(Seq<Seq<char>>),
}

impl View for CorimLocatorHref {
    type V = HrefModel;

    open spec fn view(&self) -> HrefModel {
        match self {
            CorimLocatorHref::Single(u) => HrefModel::Single(u@),
            CorimLocatorHref::Multiple(us) => HrefModel::Multiple(us@.map_values(|u: String| u@)),
        }
    }
}

/// A URI item: a text, or `#6.32` around a text.
pub open spec fn uri_spec(v: VModel) -> Result<Seq<char>, Seq<char>> {
    match v {
        VModel::Text(t) => Ok(t),
        VModel::Tag(t, inner) if t == 32 => match *inner {
            VModel::Text(u) => Ok(u),
            o => Err("URI tag #6.32 must wrap text, got "@ + value_debug(o)),
        },
        _ => Err("expected text or #6.32(text) for URI, got "@ + value_debug(v)),
    }
}

/// The URIs of the first `n` items, or the error of the first item that is not one.
pub open spec fn uris_spec(a: Seq<VModel>, n: int) -> Result<Seq<Seq<char>>, Seq<char>>
    decreases n,
{
    if n <= 0 {
        Ok(Seq::empty())
    } else {
        match uris_spec(a, n - 1) {
            Err(e) => Err(e),
            Ok(s) => match uri_spec(a[n - 1]) {
                Err(e) => Err(e),
                Ok(u) => Ok(s.push(u)),
            },
        }
    }
}

/// The `href` a data item denotes: an array of URIs, or one URI.
pub open spec fn href_spec(v: VModel) -> Result<HrefModel, Seq<char>> {
    match v {
        VModel::Array(a) => match uris_spec(a, a.len() as int) {
            Ok(us) => Ok(HrefModel::Multiple(us)),
            Err(e) => Err(e),
        },
        _ => match uri_spec(v) {
            Ok(u) => Ok(HrefModel::Single(u)),
            Err(e) => Err(e),
        },
    }
}

/// The item an `href` is written as (bare texts).
pub open spec fn href_value(h: HrefModel) -> VModel {
    match h {
        HrefModel::Single(u) => VModel::Text(u),
        HrefModel::Multiple(us) => VModel::Array(us.map_values(|u: Seq<char>| VModel::Text(u))),
    }
}

fn uri_of(v: &Value) -> (r: Result<String, String>)
    ensures
        r matches Ok(u) ==> uri_spec(v@) == Ok::<Seq<char>, Seq<char>>(u@),
        r matches Err(m) ==> uri_spec(v@) == Err::<Seq<char>, Seq<char>>(m@),
{
    match v {
        Value::Text(t) => Ok(t.clone()),
        Value::Tag(t, inner) if *t == 32 => {
            let iv: &Value = inner;
            assert(v@ == VModel::Tag(*t, Box::new(iv@)));
            match iv {
                Value::Text(u) => Ok(u.clone()),
                o => {
                    let mut m = String::from_str("URI tag #6.32 must wrap text, got ");
                    push_value_debug(&mut m, o);
                    Err(m)
                },
            }
        },
        _ => {
            let mut m = String::from_str("expected text or #6.32(text) for URI, got ");
            push_value_debug(&mut m, v);
            Err(m)
        },
    }
}

impl CorimLocatorHref {
    /// Read an `href`.
    pub fn from_value(v: &Value) -> (r: Result<CorimLocatorHref, String>)
        ensures
            r matches Ok(h) ==> href_spec(v@) == Ok::<HrefModel, Seq<char>>(h@),
            r matches Err(m) ==> href_spec(v@) == Err::<HrefModel, Seq<char>>(m@),
    {
        match v {
            Value::Array(a) => {
                let ghost ms = crate::cbor::model_list(a@);
                proof {
                    crate::cbor::lemma_model_list(a@);
                }
                let mut uris: Vec<String> = Vec::new();
                let mut i: usize = 0;
                assert(uris@.map_values(|u: String| u@) =~= Seq::<Seq<char>>::empty());
                assert(v@ == VModel::Array(ms));
                while i < a.len()
                    invariant
                        i <= a@.len(),
                        ms == crate::cbor::model_list(a@),
                        ms.len() == a@.len(),
                        forall|j: int| 0 <= j < a@.len() ==> #[trigger] ms[j] == a@[j]@,
                        uris_spec(ms, i as int) == Ok::<Seq<Seq<char>>, Seq<char>>(uris@.map_values(|u: String| u@)),
                        v@ == VModel::Array(ms),
                    decreases a@.len() - i,
                {
                    match uri_of(&a[i]) {
                        Ok(u) => {
                            let ghost prev = uris@;
                            uris.push(u);
                            proof {
                                assert(uris@.map_values(|u: String| u@) =~= prev.map_values(|u: String| u@).push(u@));
                            }
                        },
                        Err(m) => {
                            proof {
                                assert(uri_spec(ms[i as int]) == Err::<Seq<char>, Seq<char>>(m@));
                                assert(uris_spec(ms, i as int + 1) == Err::<Seq<Seq<char>>, Seq<char>>(m@));
                                lemma_uris_err(ms, i as int + 1, a@.len() as int);
                            }
                            return Err(m);
                        },
                    }
                    i = i + 1;
                }
                Ok(CorimLocatorHref::Multiple(uris))
            },
            _ => match uri_of(v) {
                Ok(u) => Ok(CorimLocatorHref::Single(u)),
                Err(m) => Err(m),
            },
        }
    }

    /// The item the `href` is written as.
    pub fn to_value(&self) -> (r: Value)
        ensures
            r@ == href_value(self@),
    {
        match self {
            CorimLocatorHref::Single(u) => Value::Text(u.clone()),
            CorimLocatorHref::Multiple(us) => {
                let mut items: Vec<Value> = Vec::new();
                let mut i: usize = 0;
                let ghost target = us@.map_values(|u: String| u@).map_values(|u: Seq<char>| VModel::Text(u));
                while i < us.len()
                    invariant
                        i <= us@.len(),
                        target == us@.map_values(|u: String| u@).map_values(|u: Seq<char>| VModel::Text(u)),
                        crate::cbor::model_list(items@) == target.take(i as int),
                    decreases us@.len() - i,
                {
                    let x = Value::Text(us[i].clone());
                    proof {
                        crate::cbor::lemma_model_list_push(items@, x);
                        assert(target.take(i + 1) =~= target.take(i as int).push(x@));
                    }
                    items.push(x);
                    i = i + 1;
                }
                proof {
                    assert(target.take(i as int) =~= target);
                }
                Value::Array(items)
            },
        }
    }
}

proof fn lemma_uris_err(a: Seq<VModel>, i: int, n: int)
    requires
        0 < i <= n,
        uris_spec(a, i) is Err,
    ensures
        uris_spec(a, n) == uris_spec(a, i),
    decreases n - i,
{
    if i < n {
        lemma_uris_err(a, i + 1, n);
    }
}


/// `thumbprint` of a locator: one digest or several.
#[derive(Clone, Debug, PartialEq, Eq)]
#[non_exhaustive]
pub enum CorimLocatorThumbprint {
    /// A single digest.
    Single(Digest),
    /// Several digests.
    Multiple(Vec<Digest>),
}

/// Mathematical form of a digest: the algorithm and the value.
pub type DigestModel = (DigestAlgModel, Seq<u8>);

pub open spec fn digest_model(d: Digest) -> DigestModel {
    (d.0@, d.1@)
}

/// Mathematical form of a [`CorimLocatorThumbprint`].
pub enum ThumbModel {
    Single(DigestModel),
    Multiple(Seq<DigestModel>),
}

impl View for CorimLocatorThumbprint {
    type V = ThumbModel;

    open spec fn view(&self) -> ThumbModel {
        match self {
            CorimLocatorThumbprint::Single(d) => ThumbModel::Single(digest_model(*d)),
            CorimLocatorThumbprint::Multiple(ds) => ThumbModel::Multiple(ds@.map_values(|d: Digest| digest_model(d))),
        }
    }
}

/// The digest a data item denotes: `[alg, value]` with an integer (in 64 bits) or text
/// algorithm and a byte-string value.
pub open spec fn digest_spec(v: VModel) -> Result<DigestModel, Seq<char>> {
    match v {
        VModel::Array(p) => if p.len() == 2 {
            match p[0] {
                VModel::Int(n) => if !(i64::MIN <= n <= i64::MAX) {
                    Err("digest alg out of i64 range"@)
                } else {
                    match p[1] {
                        VModel::Bytes(b) => Ok((DigestAlgModel::Int(n), b)),
                        _ => Err("digest val must be bytes"@),
                    }
                },
                VModel::Text(t) => match p[1] {
                    VModel::Bytes(b) => Ok((DigestAlgModel::Text(t), b)),
                    _ => Err("digest val must be bytes"@),
                },
                _ => Err("digest alg must be int or text"@),
            }
        } else {
            Err("digest must be [alg, val]"@)
        },
        _ => Err("digest must be [alg, val]"@),
    }
}

/// The digests of the first `n` items, or the error of the first item that is not one.
pub open spec fn digests_spec(a: Seq<VModel>, n: int) -> Result<Seq<DigestModel>, Seq<char>>
    decreases n,
{
    if n <= 0 {
        Ok(Seq::empty())
    } else {
        match digests_spec(a, n - 1) {
            Err(e) => Err(e),
            Ok(s) => match digest_spec(a[n - 1]) {
                Err(e) => Err(e),
                Ok(d) => Ok(s.push(d)),
            },
        }
    }
}

/// The thumbprint a data item denotes: a non-empty array whose first element is an array
/// is a list of digests; another non-empty array is one digest.
pub open spec fn thumb_spec(v: VModel) -> Result<ThumbModel, Seq<char>> {
    match v {
        VModel::Array(a) => if a.len() == 0 {
            Err("expected array for thumbprint"@)
        } else if a[0] is Array {
            match digests_spec(a, a.len() as int) {
                Ok(ds) => Ok(ThumbModel::Multiple(ds)),
                Err(e) => Err(e),
            }
        } else {
            match digest_spec(v) {
                Ok(d) => Ok(ThumbModel::Single(d)),
                Err(e) => Err(e),
            }
        },
        _ => Err("expected array for thumbprint"@),
    }
}

/// The item a digest is written as.
pub open spec fn digest_value(d: DigestModel) -> VModel {
    VModel::Array(seq![digest_alg_value(d.0), VModel::Bytes(d.1)])
}

/// The item a thumbprint is written as.
pub open spec fn thumb_value(t: ThumbModel) -> VModel {
    match t {
        ThumbModel::Single(d) => digest_value(d),
        ThumbModel::Multiple(ds) => VModel::Array(ds.map_values(|d: DigestModel| digest_value(d))),
    }
}

fn digest_of(v: &Value) -> (r: Result<Digest, String>)
    ensures
        r matches Ok(d) ==> digest_spec(v@) == Ok::<DigestModel, Seq<char>>(digest_model(d)),
        r matches Err(m) ==> digest_spec(v@) == Err::<DigestModel, Seq<char>>(m@),
{
    match v {
        Value::Array(p) => {
            proof {
                crate::cbor::lemma_model_list(p@);
            }
            if p.len() != 2 {
                return Err(String::from_str("digest must be [alg, val]"));
            }
            let alg = match &p[0] {
                Value::Integer(n) => {
                    if *n < -0x8000_0000_0000_0000i128 || *n > 0x7fff_ffff_ffff_ffffi128 {
                        return Err(String::from_str("digest alg out of i64 range"));
                    }
                    DigestAlg::Int(*n as i64)
                },
                Value::Text(t) => DigestAlg::Text(t.clone()),
                _ => {
                    return Err(String::from_str("digest alg must be int or text"));
                },
            };
            match &p[1] {
                Value::Bytes(b) => Ok(Digest(alg, copy_bytes(b.as_slice()))),
                _ => Err(String::from_str("digest val must be bytes")),
            }
        },
        _ => Err(String::from_str("digest must be [alg, val]")),
    }
}

fn digest_to_value(d: &Digest) -> (r: Value)
    ensures
        r@ == digest_value(digest_model(*d)),
{
    let mut items: Vec<Value> = Vec::new();
    items.push(d.0.to_value());
    items.push(Value::Bytes(copy_bytes(d.1.as_slice())));
    proof {
        crate::cbor::lemma_model_list(items@);
        assert(crate::cbor::model_list(items@) =~= seq![digest_alg_value(d.0@), VModel::Bytes(d.1@)]);
    }
    Value::Array(items)
}

proof fn lemma_digests_err(a: Seq<VModel>, i: int, n: int)
    requires
        0 < i <= n,
        digests_spec(a, i) is Err,
    ensures
        digests_spec(a, n) == digests_spec(a, i),
    decreases n - i,
{
    if i < n {
        lemma_digests_err(a, i + 1, n);
    }
}

impl CorimLocatorThumbprint {
    /// Read a thumbprint.
    pub fn from_value(v: &Value) -> (r: Result<CorimLocatorThumbprint, String>)
        ensures
            r matches Ok(t) ==> thumb_spec(v@) == Ok::<ThumbModel, Seq<char>>(t@),
            r matches Err(m) ==> thumb_spec(v@) == Err::<ThumbModel, Seq<char>>(m@),
    {
        match v {
            Value::Array(a) => {
                let ghost ms = crate::cbor::model_list(a@);
                proof {
                    crate::cbor::lemma_model_list(a@);
                }
                assert(v@ == VModel::Array(ms));
                if a.len() == 0 {
                    return Err(String::from_str("expected array for thumbprint"));
                }
                if !matches!(&a[0], Value::Array(_)) {
                    return match digest_of(v) {
                        Ok(d) => Ok(CorimLocatorThumbprint::Single(d)),
                        Err(m) => Err(m),
                    };
                }
                let mut ds: Vec<Digest> = Vec::new();
                let mut i: usize = 0;
                assert(ds@.map_values(|d: Digest| digest_model(d)) =~= Seq::<DigestModel>::empty());
                while i < a.len()
                    invariant
                        i <= a@.len(),
                        ms == crate::cbor::model_list(a@),
                        ms.len() == a@.len(),
                        forall|j: int| 0 <= j < a@.len() ==> #[trigger] ms[j] == a@[j]@,
                        digests_spec(ms, i as int) == Ok::<Seq<DigestModel>, Seq<char>>(
                            ds@.map_values(|d: Digest| digest_model(d)),
                        ),
                        v@ == VModel::Array(ms),
                        ms.len() > 0,
                        ms[0] is Array,
                    decreases a@.len() - i,
                {
                    match digest_of(&a[i]) {
                        Ok(d) => {
                            let ghost prev = ds@;
                            ds.push(d);
                            proof {
                                assert(ds@.map_values(|d: Digest| digest_model(d)) =~= prev.map_values(
                                    |d: Digest| digest_model(d),
                                ).push(digest_model(d)));
                            }
                        },
                        Err(m) => {
                            proof {
                                assert(digest_spec(ms[i as int]) == Err::<DigestModel, Seq<char>>(m@));
                                assert(digests_spec(ms, i as int + 1) == Err::<Seq<DigestModel>, Seq<char>>(m@));
                                lemma_digests_err(ms, i as int + 1, a@.len() as int);
                            }
                            return Err(m);
                        },
                    }
                    i = i + 1;
                }
                Ok(CorimLocatorThumbprint::Multiple(ds))
            },
            _ => Err(String::from_str("expected array for thumbprint")),
        }
    }

    /// The item the thumbprint is written as.
    pub fn to_value(&self) -> (r: Value)
        ensures
            r@ == thumb_value(self@),
    {
        match self {
            CorimLocatorThumbprint::Single(d) => digest_to_value(d),
            CorimLocatorThumbprint::Multiple(ds) => {
                let ghost target = ds@.map_values(|d: Digest| digest_model(d)).map_values(
                    |d: DigestModel| digest_value(d),
                );
                let mut items: Vec<Value> = Vec::new();
                let mut i: usize = 0;
                while i < ds.len()
                    invariant
                        i <= ds@.len(),
                        target == ds@.map_values(|d: Digest| digest_model(d)).map_values(
                            |d: DigestModel| digest_value(d),
                        ),
                        crate::cbor::model_list(items@) == target.take(i as int),
                    decreases ds@.len() - i,
                {
                    let x = digest_to_value(&ds[i]);
                    proof {
                        crate::cbor::lemma_model_list_push(items@, x);
                        assert(target.take(i + 1) =~= target.take(i as int).push(x@));
                    }
                    items.push(x);
                    i = i + 1;
                }
                proof {
                    assert(target.take(i as int) =~= target);
                }
                Value::Array(items)
            },
        }
    }
}

/// `corim-locator-map` — `{ 0: href, ? 1: thumbprint }`, a locator for a dependent manifest.
#[derive(Clone, Debug, PartialEq)]
pub struct CorimLocator {
    /// `href` (key 0).
    pub href: CorimLocatorHref,
    /// `thumbprint` (key 1).
    pub thumbprint: Option<CorimLocatorThumbprint>,
}

/// Mathematical form of a [`CorimLocator`].
pub struct LocatorModel {
    pub href: HrefModel,
    pub thumbprint: Option<ThumbModel>,
}

impl View for CorimLocator {
    type V = LocatorModel;

    open spec fn view(&self) -> LocatorModel {
        LocatorModel {
            href: self.href@,
            thumbprint: match self.thumbprint {
                Some(t) => Some(t@),
                None => None,
            },
        }
    }
}

/// The locator a data item denotes.
pub open spec fn locator_spec(v: VModel) -> Result<LocatorModel, Seq<char>> {
    match v {
        VModel::Mapping(m) => match pairs_lookup(m, 0) {
            None => Err("corim-locator-map: missing href (key 0)"@),
            Some(h) => match href_spec(h) {
                Err(e) => Err(e),
                Ok(href) => match pairs_lookup(m, 1) {
                    None => Ok(LocatorModel { href, thumbprint: None }),
                    Some(t) => match thumb_spec(t) {
                        Err(e) => Err(e),
                        Ok(tp) => Ok(LocatorModel { href, thumbprint: Some(tp) }),
                    },
                },
            },
        },
        _ => Err("corim-locator-map must be a map"@),
    }
}

/// The item a locator is written as.
pub open spec fn locator_value(l: LocatorModel) -> VModel {
    match l.thumbprint {
        Some(t) => VModel::Mapping(seq![(VModel::Int(0), href_value(l.href)), (VModel::Int(1), thumb_value(t))]),
        None => VModel::Mapping(seq![(VModel::Int(0), href_value(l.href))]),
    }
}

impl CorimLocator {
    /// Read a locator.
    pub fn from_value(v: &Value) -> (r: Result<CorimLocator, String>)
        ensures
            r matches Ok(l) ==> locator_spec(v@) == Ok::<LocatorModel, Seq<char>>(l@),
            r matches Err(m) ==> locator_spec(v@) == Err::<LocatorModel, Seq<char>>(m@),
    {
        let m = match v {
            Value::Mapping(m) => m,
            _ => return Err(String::from_str("corim-locator-map must be a map")),
        };
        let hv = match map_lookup(m, 0) {
            Some(x) => x,
            None => return Err(String::from_str("corim-locator-map: missing href (key 0)")),
        };
        let href = match CorimLocatorHref::from_value(hv) {
            Ok(h) => h,
            Err(e) => return Err(e),
        };
        let thumbprint = match map_lookup(m, 1) {
            None => None,
            Some(t) => match CorimLocatorThumbprint::from_value(t) {
                Ok(x) => Some(x),
                Err(e) => return Err(e),
            },
        };
        Ok(CorimLocator { href, thumbprint })
    }

    /// The item the locator is written as.
    pub fn to_value(&self) -> (r: Value)
        ensures
            r@ == locator_value(self@),
    {
        let mut entries: Vec<(Value, Value)> = Vec::new();
        entries.push((Value::Integer(0), self.href.to_value()));
        if let Some(t) = &self.thumbprint {
            entries.push((Value::Integer(1), t.to_value()));
        }
        proof {
            lemma_model_pairs(entries@);
            assert(model_pairs(entries@) =~= match locator_value(self@) {
                VModel::Mapping(s) => s,
                _ => Seq::empty(),
            });
        }
        Value::Mapping(entries)
    }
}


// ---------------------------------------------------------------------------
// Profile identifiers as data items.
// ---------------------------------------------------------------------------

/// The profile a data item denotes: a text URI, or `#6.111` around OID bytes.
pub open spec fn profile_spec(v: VModel) -> Result<ProfileChoiceModel, Seq<char>> {
    match v {
        VModel::Text(t) => Ok(ProfileChoiceModel::Uri(t)),
        VModel::Tag(t, inner) if t == TAG_OID => match *inner {
            VModel::Bytes(b) => Ok(ProfileChoiceModel::Oid(b)),
            _ => Err("tag 111 must wrap bytes"@),
        },
        _ => Err("expected text URI or tagged OID"@),
    }
}

/// The item a profile is written as.
pub open spec fn profile_value(p: ProfileChoiceModel) -> VModel {
    match p {
        ProfileChoiceModel::Uri(u) => VModel::Text(u),
        ProfileChoiceModel::Oid(b) => VModel::Tag(TAG_OID, Box::new(VModel::Bytes(b))),
    }
}

/// The display form of a profile: the URI, or `oid:` and the OID bytes in hex.
pub open spec fn profile_text(p: ProfileChoiceModel) -> Seq<char> {
    match p {
        ProfileChoiceModel::Uri(u) => u,
        ProfileChoiceModel::Oid(b) => "oid:"@ + hex_text(b),
    }
}

impl ProfileChoice {
    /// Read a profile identifier.
    pub fn from_value(v: &Value) -> (r: Result<ProfileChoice, String>)
        ensures
            r matches Ok(p) ==> profile_spec(v@) == Ok::<ProfileChoiceModel, Seq<char>>(p@),
            r matches Err(m) ==> profile_spec(v@) == Err::<ProfileChoiceModel, Seq<char>>(m@),
    {
        match v {
            Value::Text(t) => Ok(ProfileChoice::Uri(t.clone())),
            Value::Tag(t, inner) if *t == TAG_OID => {
                let iv: &Value = inner;
                assert(v@ == VModel::Tag(*t, Box::new(iv@)));
                match iv {
                    Value::Bytes(b) => Ok(ProfileChoice::Oid(copy_bytes(b.as_slice()))),
                    _ => Err(String::from_str("tag 111 must wrap bytes")),
                }
            },
            _ => Err(String::from_str("expected text URI or tagged OID")),
        }
    }

    /// The item the profile is written as.
    pub fn to_value(&self) -> (r: Value)
        ensures
            r@ == profile_value(self@),
    {
        match self {
            ProfileChoice::Uri(u) => Value::Text(u.clone()),
            ProfileChoice::Oid(b) => tagged_bytes(TAG_OID, b.as_slice()),
        }
    }

    /// The display form of the profile.
    pub fn to_text(&self) -> (s: String)
        ensures
            s@ == profile_text(self@),
    {
        match self {
            ProfileChoice::Uri(u) => u.clone(),
            ProfileChoice::Oid(b) => {
                let mut s = String::from_str("oid:");
                let h = hex(b.as_slice());
                push_str(&mut s, h.as_str());
                s
            },
        }
    }
}

// ---------------------------------------------------------------------------
// Lists of tag identities.
// ---------------------------------------------------------------------------

/// The tag identities of the first `n` items, or the error of the first item that is not one.
pub open spec fn tag_identities_spec(a: Seq<VModel>, n: int) -> Result<Seq<(TagIdModel, Option<int>)>, Seq<char>>
    decreases n,
{
    if n <= 0 {
        Ok(Seq::empty())
    } else {
        match tag_identities_spec(a, n - 1) {
            Err(e) => Err(e),
            Ok(s) => match tag_identity_spec(a[n - 1]) {
                Err(e) => Err(e),
                Ok(x) => Ok(s.push(x)),
            },
        }
    }
}

/// An array of tag identities; other items are rejected with `msg`.
pub open spec fn tag_identity_list_spec(v: VModel, msg: Seq<char>) -> Result<Seq<(TagIdModel, Option<int>)>, Seq<char>> {
    match v {
        VModel::Array(a) => tag_identities_spec(a, a.len() as int),
        _ => Err(msg),
    }
}

proof fn lemma_tag_identities_err(a: Seq<VModel>, i: int, n: int)
    requires
        0 < i <= n,
        tag_identities_spec(a, i) is Err,
    ensures
        tag_identities_spec(a, n) == tag_identities_spec(a, i),
    decreases n - i,
{
    if i < n {
        lemma_tag_identities_err(a, i + 1, n);
    }
}

// ---------------------------------------------------------------------------
// concise-tl-tag
// ---------------------------------------------------------------------------

/// `concise-tl-tag` — `{ 0: tag-identity, 1: [+ tag-identity], 2: validity }`, a list of
/// tags and the period it is valid for.
#[derive(Clone, Debug, PartialEq)]
pub struct ConciseTlTag {
    /// `tag-identity` (key 0).
    pub tag_identity: TagIdentity,
    /// `tags-list` (key 1).
    pub tags_list: Vec<TagIdentity>,
    /// `tl-validity` (key 2).
    pub tl_validity: ValidityMap,
}

/// Mathematical form of a [`ConciseTlTag`].
pub struct CotlModel {
    pub tag_identity: (TagIdModel, Option<int>),
    pub tags_list: Seq<(TagIdModel, Option<int>)>,
    pub tl_validity: (Option<int>, int),
}

impl View for ConciseTlTag {
    type V = CotlModel;

    open spec fn view(&self) -> CotlModel {
        CotlModel {
            tag_identity: tag_identity_model(self.tag_identity),
            tags_list: self.tags_list@.map_values(|t: TagIdentity| tag_identity_model(t)),
            tl_validity: validity_model(self.tl_validity),
        }
    }
}

/// The CoTL a data item denotes.
pub open spec fn cotl_spec(v: VModel) -> Result<CotlModel, Seq<char>> {
    match v {
        VModel::Mapping(m) => match pairs_lookup(m, 0) {
            None => Err("concise-tl-tag: missing tag-identity (key 0)"@),
            Some(x) => match tag_identity_spec(x) {
                Err(e) => Err(e),
                Ok(id) => match pairs_lookup(m, 1) {
                    None => Err("concise-tl-tag: missing tags-list (key 1)"@),
                    Some(l) => match tag_identity_list_spec(l, "concise-tl-tag: tags-list must be an array"@) {
                        Err(e) => Err(e),
                        Ok(list) => match pairs_lookup(m, 2) {
                            None => Err("concise-tl-tag: missing tl-validity (key 2)"@),
                            Some(val) => match validity_spec(val) {
                                Err(e) => Err(e),
                                Ok(validity) => Ok(CotlModel { tag_identity: id, tags_list: list, tl_validity: validity }),
                            },
                        },
                    },
                },
            },
        },
        _ => Err("concise-tl-tag must be a map"@),
    }
}

/// The item a CoTL is written as.
pub open spec fn cotl_value(c: CotlModel) -> VModel {
    VModel::Mapping(
        seq![
            (VModel::Int(0), tag_identity_value(c.tag_identity)),
            (VModel::Int(1), VModel::Array(c.tags_list.map_values(|t: (TagIdModel, Option<int>)| tag_identity_value(t)))),
            (VModel::Int(2), validity_value(c.tl_validity)),
        ],
    )
}

/// The result of checking a CoTL: the tags list is not empty, and the validity period does
/// not start after it ends.
pub open spec fn cotl_valid_spec(c: CotlModel) -> Result<(), Seq<char>> {
    if c.tags_list.len() == 0 {
        Err("tags-list must not be empty"@)
    } else if c.tl_validity.0 matches Some(nb) && nb > c.tl_validity.1 {
        Err("not-before must be <= not-after"@)
    } else {
        Ok(())
    }
}

fn tag_identity_list(v: &Value, msg: &str) -> (r: Result<Vec<TagIdentity>, String>)
    ensures
        r matches Ok(l) ==> tag_identity_list_spec(v@, msg@) == Ok::<Seq<(TagIdModel, Option<int>)>, Seq<char>>(
            l@.map_values(|t: TagIdentity| tag_identity_model(t)),
        ),
        r matches Err(m) ==> tag_identity_list_spec(v@, msg@) == Err::<Seq<(TagIdModel, Option<int>)>, Seq<char>>(m@),
{
    match v {
        Value::Array(a) => {
            let ghost ms = crate::cbor::model_list(a@);
            proof {
                crate::cbor::lemma_model_list(a@);
            }
            let mut out: Vec<TagIdentity> = Vec::new();
            let mut i: usize = 0;
            assert(out@.map_values(|t: TagIdentity| tag_identity_model(t)) =~= Seq::<(TagIdModel, Option<int>)>::empty());
            assert(v@ == VModel::Array(ms));
            while i < a.len()
                invariant
                    i <= a@.len(),
                    ms == crate::cbor::model_list(a@),
                    ms.len() == a@.len(),
                    forall|j: int| 0 <= j < a@.len() ==> #[trigger] ms[j] == a@[j]@,
                    tag_identities_spec(ms, i as int) == Ok::<Seq<(TagIdModel, Option<int>)>, Seq<char>>(
                        out@.map_values(|t: TagIdentity| tag_identity_model(t)),
                    ),
                    v@ == VModel::Array(ms),
                decreases a@.len() - i,
            {
                match TagIdentity::from_value(&a[i]) {
                    Ok(t) => {
                        let ghost prev = out@;
                        out.push(t);
                        proof {
                            assert(out@.map_values(|t: TagIdentity| tag_identity_model(t)) =~= prev.map_values(
                                |t: TagIdentity| tag_identity_model(t),
                            ).push(tag_identity_model(t)));
                        }
                    },
                    Err(e) => {
                        let m = match e {
                            DecodeError::Deserialization(m) => m,
                            _ => String::new(),
                        };
                        proof {
                            assert(tag_identities_spec(ms, i as int + 1) == Err::<Seq<(TagIdModel, Option<int>)>, Seq<char>>(m@));
                            lemma_tag_identities_err(ms, i as int + 1, a@.len() as int);
                        }
                        return Err(m);
                    },
                }
                i = i + 1;
            }
            Ok(out)
        },
        _ => Err(String::from_str(msg)),
    }
}

impl ConciseTlTag {
    /// Read a CoTL.
    pub fn from_value(v: &Value) -> (r: Result<ConciseTlTag, String>)
        ensures
            r matches Ok(c) ==> cotl_spec(v@) == Ok::<CotlModel, Seq<char>>(c@),
            r matches Err(m) ==> cotl_spec(v@) == Err::<CotlModel, Seq<char>>(m@),
    {
        let m = match v {
            Value::Mapping(m) => m,
            _ => return Err(String::from_str("concise-tl-tag must be a map")),
        };
        let tag_identity = match map_lookup(m, 0) {
            None => return Err(String::from_str("concise-tl-tag: missing tag-identity (key 0)")),
            Some(x) => match TagIdentity::from_value(x) {
                Ok(t) => t,
                Err(e) => return Err(
                    match e {
                        DecodeError::Deserialization(m) => m,
                        _ => String::new(),
                    },
                ),
            },
        };
        let tags_list = match map_lookup(m, 1) {
            None => return Err(String::from_str("concise-tl-tag: missing tags-list (key 1)")),
            Some(l) => match tag_identity_list(l, "concise-tl-tag: tags-list must be an array") {
                Ok(x) => x,
                Err(e) => return Err(e),
            },
        };
        let tl_validity = match map_lookup(m, 2) {
            None => return Err(String::from_str("concise-tl-tag: missing tl-validity (key 2)")),
            Some(x) => match ValidityMap::from_value(x) {
                Ok(x) => x,
                Err(e) => return Err(e),
            },
        };
        Ok(ConciseTlTag { tag_identity, tags_list, tl_validity })
    }

    /// The item the CoTL is written as.
    pub fn to_value(&self) -> (r: Value)
        ensures
            r@ == cotl_value(self@),
    {
        let ghost target = self@.tags_list.map_values(|t: (TagIdModel, Option<int>)| tag_identity_value(t));
        let mut items: Vec<Value> = Vec::new();
        let mut i: usize = 0;
        while i < self.tags_list.len()
            invariant
                i <= self.tags_list@.len(),
                target == self@.tags_list.map_values(|t: (TagIdModel, Option<int>)| tag_identity_value(t)),
                self@.tags_list == self.tags_list@.map_values(|t: TagIdentity| tag_identity_model(t)),
                crate::cbor::model_list(items@) == target.take(i as int),
            decreases self.tags_list@.len() - i,
        {
            let x = self.tags_list[i].to_value();
            proof {
                crate::cbor::lemma_model_list_push(items@, x);
                assert(target.take(i + 1) =~= target.take(i as int).push(x@));
            }
            items.push(x);
            i = i + 1;
        }
        proof {
            assert(target.take(i as int) =~= target);
        }
        let mut entries: Vec<(Value, Value)> = Vec::new();
        entries.push((Value::Integer(0), self.tag_identity.to_value()));
        entries.push((Value::Integer(1), Value::Array(items)));
        entries.push((Value::Integer(2), self.tl_validity.to_value()));
        proof {
            lemma_model_pairs(entries@);
            assert(model_pairs(entries@) =~= match cotl_value(self@) {
                VModel::Mapping(s) => s,
                _ => Seq::empty(),
            });
        }
        Value::Mapping(entries)
    }

    /// Check the CoTL: the tags list is not empty and the validity period is ordered.
    pub fn valid(&self) -> (r: Result<(), String>)
        ensures
            r matches Ok(_) ==> cotl_valid_spec(self@) is Ok,
            r matches Err(m) ==> cotl_valid_spec(self@) == Err::<(), Seq<char>>(m@),
    {
        if self.tags_list.len() == 0 {
            return Err(String::from_str("tags-list must not be empty"));
        }
        if let Some(nb) = self.tl_validity.not_before {
            if nb.epoch_secs() > self.tl_validity.not_after.epoch_secs() {
                return Err(String::from_str("not-before must be <= not-after"));
            }
        }
        Ok(())
    }
}


// ---------------------------------------------------------------------------
// corim-map
// ---------------------------------------------------------------------------

/// The results of reading the first `n` items, or the error of the first one rejected.
pub open spec fn tag_entries_spec(a: Seq<VModel>, n: int) -> Result<Seq<TagChoiceModel>, Seq<char>>
    decreases n,
{
    if n <= 0 {
        Ok(Seq::empty())
    } else {
        match tag_entries_spec(a, n - 1) {
            Err(e) => Err(e),
            Ok(s) => match tag_choice_spec(a[n - 1]) {
                Err(e) => Err(e),
                Ok(x) => Ok(s.push(x)),
            },
        }
    }
}

proof fn lemma_tag_entries_err(a: Seq<VModel>, i: int, n: int)
    requires
        0 < i <= n,
        tag_entries_spec(a, i) is Err,
    ensures
        tag_entries_spec(a, n) == tag_entries_spec(a, i),
    decreases n - i,
{
    if i < n {
        lemma_tag_entries_err(a, i + 1, n);
    }
}

fn read_tag_entries(a: &Vec<Value>) -> (r: Result<Vec<ConciseTagChoice>, String>)
    ensures
        r matches Ok(l) ==> tag_entries_spec(crate::cbor::model_list(a@), a@.len() as int) == Ok::<Seq<TagChoiceModel>, Seq<char>>(
            l@.map_values(|x: ConciseTagChoice| x@),
        ),
        r matches Err(m) ==> tag_entries_spec(crate::cbor::model_list(a@), a@.len() as int) == Err::<Seq<TagChoiceModel>, Seq<char>>(m@),
{
    let ghost ms = crate::cbor::model_list(a@);
    proof {
        crate::cbor::lemma_model_list(a@);
    }
    let mut out: Vec<ConciseTagChoice> = Vec::new();
    let mut i: usize = 0;
    assert(out@.map_values(|x: ConciseTagChoice| x@) =~= Seq::<TagChoiceModel>::empty());
    while i < a.len()
        invariant
            i <= a@.len(),
            ms == crate::cbor::model_list(a@),
            ms.len() == a@.len(),
            forall|j: int| 0 <= j < a@.len() ==> #[trigger] ms[j] == a@[j]@,
            tag_entries_spec(ms, i as int) == Ok::<Seq<TagChoiceModel>, Seq<char>>(out@.map_values(|x: ConciseTagChoice| x@)),
        decreases a@.len() - i,
    {
        match ConciseTagChoice::from_value(&a[i]) {
            Ok(x) => {
                let ghost prev = out@;
                out.push(x);
                proof {
                    assert(out@.map_values(|x: ConciseTagChoice| x@) =~= prev.map_values(|x: ConciseTagChoice| x@).push(x@));
                }
            },
            Err(m) => {
                proof {
                    assert(tag_entries_spec(ms, i as int + 1) == Err::<Seq<TagChoiceModel>, Seq<char>>(m@));
                    lemma_tag_entries_err(ms, i as int + 1, a@.len() as int);
                }
                return Err(m);
            },
        }
        i = i + 1;
    }
    Ok(out)
}

fn write_tag_entries(l: &Vec<ConciseTagChoice>) -> (r: Value)
    ensures
        r@ == VModel::Array(l@.map_values(|x: ConciseTagChoice| x@).map_values(|y: TagChoiceModel| tag_choice_value(y))),
{
    let ghost target = l@.map_values(|x: ConciseTagChoice| x@).map_values(|y: TagChoiceModel| tag_choice_value(y));
    let mut items: Vec<Value> = Vec::new();
    let mut i: usize = 0;
    while i < l.len()
        invariant
            i <= l@.len(),
            target == l@.map_values(|x: ConciseTagChoice| x@).map_values(|y: TagChoiceModel| tag_choice_value(y)),
            crate::cbor::model_list(items@) == target.take(i as int),
        decreases l@.len() - i,
    {
        let x = l[i].to_value();
        proof {
            crate::cbor::lemma_model_list_push(items@, x);
            assert(target.take(i + 1) =~= target.take(i as int).push(x@));
        }
        items.push(x);
        i = i + 1;
    }
    proof {
        assert(target.take(i as int) =~= target);
    }
    Value::Array(items)
}

/// The results of reading the first `n` items, or the error of the first one rejected.
pub open spec fn locators_spec(a: Seq<VModel>, n: int) -> Result<Seq<LocatorModel>, Seq<char>>
    decreases n,
{
    if n <= 0 {
        Ok(Seq::empty())
    } else {
        match locators_spec(a, n - 1) {
            Err(e) => Err(e),
            Ok(s) => match locator_spec(a[n - 1]) {
                Err(e) => Err(e),
                Ok(x) => Ok(s.push(x)),
            },
        }
    }
}

proof fn lemma_locators_err(a: Seq<VModel>, i: int, n: int)
    requires
        0 < i <= n,
        locators_spec(a, i) is Err,
    ensures
        locators_spec(a, n) == locators_spec(a, i),
    decreases n - i,
{
    if i < n {
        lemma_locators_err(a, i + 1, n);
    }
}

fn read_locators(a: &Vec<Value>) -> (r: Result<Vec<CorimLocator>, String>)
    ensures
        r matches Ok(l) ==> locators_spec(crate::cbor::model_list(a@), a@.len() as int) == Ok::<Seq<LocatorModel>, Seq<char>>(
            l@.map_values(|x: CorimLocator| x@),
        ),
        r matches Err(m) ==> locators_spec(crate::cbor::model_list(a@), a@.len() as int) == Err::<Seq<LocatorModel>, Seq<char>>(m@),
{
    let ghost ms = crate::cbor::model_list(a@);
    proof {
        crate::cbor::lemma_model_list(a@);
    }
    let mut out: Vec<CorimLocator> = Vec::new();
    let mut i: usize = 0;
    assert(out@.map_values(|x: CorimLocator| x@) =~= Seq::<LocatorModel>::empty());
    while i < a.len()
        invariant
            i <= a@.len(),
            ms == crate::cbor::model_list(a@),
            ms.len() == a@.len(),
            forall|j: int| 0 <= j < a@.len() ==> #[trigger] ms[j] == a@[j]@,
            locators_spec(ms, i as int) == Ok::<Seq<LocatorModel>, Seq<char>>(out@.map_values(|x: CorimLocator| x@)),
        decreases a@.len() - i,
    {
        match CorimLocator::from_value(&a[i]) {
            Ok(x) => {
                let ghost prev = out@;
                out.push(x);
                proof {
                    assert(out@.map_values(|x: CorimLocator| x@) =~= prev.map_values(|x: CorimLocator| x@).push(x@));
                }
            },
            Err(m) => {
                proof {
                    assert(locators_spec(ms, i as int + 1) == Err::<Seq<LocatorModel>, Seq<char>>(m@));
                    lemma_locators_err(ms, i as int + 1, a@.len() as int);
                }
                return Err(m);
            },
        }
        i = i + 1;
    }
    Ok(out)
}

fn write_locators(l: &Vec<CorimLocator>) -> (r: Value)
    ensures
        r@ == VModel::Array(l@.map_values(|x: CorimLocator| x@).map_values(|y: LocatorModel| locator_value(y))),
{
    let ghost target = l@.map_values(|x: CorimLocator| x@).map_values(|y: LocatorModel| locator_value(y));
    let mut items: Vec<Value> = Vec::new();
    let mut i: usize = 0;
    while i < l.len()
        invariant
            i <= l@.len(),
            target == l@.map_values(|x: CorimLocator| x@).map_values(|y: LocatorModel| locator_value(y)),
            crate::cbor::model_list(items@) == target.take(i as int),
        decreases l@.len() - i,
    {
        let x = l[i].to_value();
        proof {
            crate::cbor::lemma_model_list_push(items@, x);
            assert(target.take(i + 1) =~= target.take(i as int).push(x@));
        }
        items.push(x);
        i = i + 1;
    }
    proof {
        assert(target.take(i as int) =~= target);
    }
    Value::Array(items)
}

/// The results of reading the first `n` items, or the error of the first one rejected.
pub open spec fn entities_spec(a: Seq<VModel>, n: int) -> Result<Seq<EntityModel>, Seq<char>>
    decreases n,
{
    if n <= 0 {
        Ok(Seq::empty())
    } else {
        match entities_spec(a, n - 1) {
            Err(e) => Err(e),
            Ok(s) => match entity_spec(a[n - 1]) {
                Err(e) => Err(e),
                Ok(x) => Ok(s.push(x)),
            },
        }
    }
}

proof fn lemma_entities_err(a: Seq<VModel>, i: int, n: int)
    requires
        0 < i <= n,
        entities_spec(a, i) is Err,
    ensures
        entities_spec(a, n) == entities_spec(a, i),
    decreases n - i,
{
    if i < n {
        lemma_entities_err(a, i + 1, n);
    }
}

fn read_entities(a: &Vec<Value>) -> (r: Result<Vec<EntityMap>, String>)
    ensures
        r matches Ok(l) ==> entities_spec(crate::cbor::model_list(a@), a@.len() as int) == Ok::<Seq<EntityModel>, Seq<char>>(
            l@.map_values(|x: EntityMap| x@),
        ),
        r matches Err(m) ==> entities_spec(crate::cbor::model_list(a@), a@.len() as int) == Err::<Seq<EntityModel>, Seq<char>>(m@),
{
    let ghost ms = crate::cbor::model_list(a@);
    proof {
        crate::cbor::lemma_model_list(a@);
    }
    let mut out: Vec<EntityMap> = Vec::new();
    let mut i: usize = 0;
    assert(out@.map_values(|x: EntityMap| x@) =~= Seq::<EntityModel>::empty());
    while i < a.len()
        invariant
            i <= a@.len(),
            ms == crate::cbor::model_list(a@),
            ms.len() == a@.len(),
            forall|j: int| 0 <= j < a@.len() ==> #[trigger] ms[j] == a@[j]@,
            entities_spec(ms, i as int) == Ok::<Seq<EntityModel>, Seq<char>>(out@.map_values(|x: EntityMap| x@)),
        decreases a@.len() - i,
    {
        match EntityMap::from_value(&a[i]) {
            Ok(x) => {
                let ghost prev = out@;
                out.push(x);
                proof {
                    assert(out@.map_values(|x: EntityMap| x@) =~= prev.map_values(|x: EntityMap| x@).push(x@));
                }
            },
            Err(m) => {
                proof {
                    assert(entities_spec(ms, i as int + 1) == Err::<Seq<EntityModel>, Seq<char>>(m@));
                    lemma_entities_err(ms, i as int + 1, a@.len() as int);
                }
                return Err(m);
            },
        }
        i = i + 1;
    }
    Ok(out)
}

fn write_entities(l: &Vec<EntityMap>) -> (r: Value)
    ensures
        r@ == VModel::Array(l@.map_values(|x: EntityMap| x@).map_values(|y: EntityModel| entity_value(y))),
{
    let ghost target = l@.map_values(|x: EntityMap| x@).map_values(|y: EntityModel| entity_value(y));
    let mut items: Vec<Value> = Vec::new();
    let mut i: usize = 0;
    while i < l.len()
        invariant
            i <= l@.len(),
            target == l@.map_values(|x: EntityMap| x@).map_values(|y: EntityModel| entity_value(y)),
            crate::cbor::model_list(items@) == target.take(i as int),
        decreases l@.len() - i,
    {
        let x = l[i].to_value();
        proof {
            crate::cbor::lemma_model_list_push(items@, x);
            assert(target.take(i + 1) =~= target.take(i as int).push(x@));
        }
        items.push(x);
        i = i + 1;
    }
    proof {
        assert(target.take(i as int) =~= target);
    }
    Value::Array(items)
}

/// `corim-map` — the top-level CoRIM: `{ 0: id, 1: [+ tag], ? 2: [+ locator], ? 3: profile,
/// ? 4: validity, ? 5: [+ entity] }`.
#[derive(Clone, Debug, PartialEq)]
pub struct CorimMap {
    /// `id` (key 0).
    pub id: CorimId,
    /// `tags` (key 1).
    pub tags: Vec<ConciseTagChoice>,
    /// `dependent-rims` (key 2).
    pub dependent_rims: Option<Vec<CorimLocator>>,
    /// `profile` (key 3).
    pub profile: Option<ProfileChoice>,
    /// `rim-validity` (key 4).
    pub rim_validity: Option<ValidityMap>,
    /// `entities` (key 5).
    pub entities: Option<Vec<EntityMap>>,
}

/// Mathematical form of a [`CorimMap`].
pub struct CorimMapModel {
    pub id: CorimIdModel,
    pub tags: Seq<TagChoiceModel>,
    pub dependent_rims: Option<Seq<LocatorModel>>,
    pub profile: Option<ProfileChoiceModel>,
    pub rim_validity: Option<(Option<int>, int)>,
    pub entities: Option<Seq<EntityModel>>,
}

impl View for CorimMap {
    type V = CorimMapModel;

    open spec fn view(&self) -> CorimMapModel {
        CorimMapModel {
            id: self.id@,
            tags: self.tags@.map_values(|x: ConciseTagChoice| x@),
            dependent_rims: match self.dependent_rims {
                Some(l) => Some(l@.map_values(|x: CorimLocator| x@)),
                None => None,
            },
            profile: match self.profile {
                Some(p) => Some(p@),
                None => None,
            },
            rim_validity: match self.rim_validity {
                Some(v) => Some(validity_model(v)),
                None => None,
            },
            entities: match self.entities {
                Some(l) => Some(l@.map_values(|x: EntityMap| x@)),
                None => None,
            },
        }
    }
}

pub open spec fn field_tags(m: Seq<(VModel, VModel)>) -> Result<Seq<TagChoiceModel>, Seq<char>> {
    match pairs_lookup(m, 1) {
        None => Err("corim-map: missing tags (key 1)"@),
        Some(VModel::Array(a)) => tag_entries_spec(a, a.len() as int),
        Some(_) => Err("corim-map: tags must be an array"@),
    }
}

pub open spec fn field_rims(m: Seq<(VModel, VModel)>) -> Result<Option<Seq<LocatorModel>>, Seq<char>> {
    match pairs_lookup(m, 2) {
        None => Ok(None),
        Some(VModel::Array(a)) => match locators_spec(a, a.len() as int) {
            Ok(l) => Ok(Some(l)),
            Err(e) => Err(e),
        },
        Some(_) => Err("corim-map: dependent-rims must be an array"@),
    }
}

pub open spec fn field_profile(m: Seq<(VModel, VModel)>) -> Result<Option<ProfileChoiceModel>, Seq<char>> {
    match pairs_lookup(m, 3) {
        None => Ok(None),
        Some(x) => match profile_spec(x) {
            Ok(p) => Ok(Some(p)),
            Err(e) => Err(e),
        },
    }
}

pub open spec fn field_validity(m: Seq<(VModel, VModel)>) -> Result<Option<(Option<int>, int)>, Seq<char>> {
    match pairs_lookup(m, 4) {
        None => Ok(None),
        Some(x) => match validity_spec(x) {
            Ok(v) => Ok(Some(v)),
            Err(e) => Err(e),
        },
    }
}

pub open spec fn field_entities(m: Seq<(VModel, VModel)>) -> Result<Option<Seq<EntityModel>>, Seq<char>> {
    match pairs_lookup(m, 5) {
        None => Ok(None),
        Some(VModel::Array(a)) => match entities_spec(a, a.len() as int) {
            Ok(l) => Ok(Some(l)),
            Err(e) => Err(e),
        },
        Some(_) => Err("corim-map: entities must be an array"@),
    }
}

/// The CoRIM map a data item denotes: the fields are read in key order and the first
/// error is reported.
pub open spec fn corim_map_spec(v: VModel) -> Result<CorimMapModel, Seq<char>> {
    match v {
        VModel::Mapping(m) => match pairs_lookup(m, 0) {
            None => Err("corim-map: missing id (key 0)"@),
            Some(x) => match corim_id_spec(x) {
                Err(e) => Err(e),
                Ok(id) => match field_tags(m) {
                    Err(e) => Err(e),
                    Ok(tags) => match field_rims(m) {
                        Err(e) => Err(e),
                        Ok(dependent_rims) => match field_profile(m) {
                            Err(e) => Err(e),
                            Ok(profile) => match field_validity(m) {
                                Err(e) => Err(e),
                                Ok(rim_validity) => match field_entities(m) {
                                    Err(e) => Err(e),
                                    Ok(entities) => Ok(
                                        CorimMapModel { id, tags, dependent_rims, profile, rim_validity, entities },
                                    ),
                                },
                            },
                        },
                    },
                },
            },
        },
        _ => Err("corim-map must be a map"@),
    }
}

/// The item a CoRIM map is written as: the present keys in order 0 to 5.
pub open spec fn corim_map_value(c: CorimMapModel) -> VModel {
    VModel::Mapping(
        seq![
            (VModel::Int(0), corim_id_value(c.id)),
            (VModel::Int(1), VModel::Array(c.tags.map_values(|t: TagChoiceModel| tag_choice_value(t)))),
        ] + (match c.dependent_rims {
            Some(l) => seq![(VModel::Int(2), VModel::Array(l.map_values(|x: LocatorModel| locator_value(x))))],
            None => Seq::empty(),
        }) + (match c.profile {
            Some(p) => seq![(VModel::Int(3), profile_value(p))],
            None => Seq::empty(),
        }) + (match c.rim_validity {
            Some(v) => seq![(VModel::Int(4), validity_value(v))],
            None => Seq::empty(),
        }) + (match c.entities {
            Some(l) => seq![(VModel::Int(5), VModel::Array(l.map_values(|x: EntityModel| entity_value(x))))],
            None => Seq::empty(),
        }),
    )
}

/// The result of checking a CoRIM map: tags are present, the validity period is ordered,
/// and an entity list, when present, is not empty.
pub open spec fn corim_valid_spec(c: CorimMapModel) -> Result<(), Seq<char>> {
    if c.tags.len() == 0 {
        Err("tags list must not be empty"@)
    } else if c.rim_validity matches Some(v) && v.0 matches Some(nb) && nb > v.1 {
        Err("rim-validity: not-before must be <= not-after"@)
    } else if c.entities matches Some(l) && l.len() == 0 {
        Err("entities list must not be empty"@)
    } else {
        Ok(())
    }
}

/// A CoRIM map passes its check exactly when it has a tag, its validity period (if any)
/// does not start after it ends, and its entity list (if any) is not empty; in particular
/// a passing map never has a `not-before` later than its `not-after`.
pub proof fn lemma_corim_valid_iff(c: CorimMapModel)
    ensures
        corim_valid_spec(c) is Ok <==> (c.tags.len() > 0 && (c.rim_validity matches Some(v) ==> (v.0 matches Some(nb)
            ==> nb <= v.1)) && (c.entities matches Some(l) ==> l.len() > 0)),
        corim_valid_spec(c) is Ok ==> (c.rim_validity matches Some(v) ==> (v.0 matches Some(nb) ==> nb <= v.1)),
{
}

impl CorimMap {
    /// Read a CoRIM map.
    pub fn from_value(v: &Value) -> (r: Result<CorimMap, String>)
        ensures
            r matches Ok(c) ==> corim_map_spec(v@) == Ok::<CorimMapModel, Seq<char>>(c@),
            r matches Err(m) ==> corim_map_spec(v@) == Err::<CorimMapModel, Seq<char>>(m@),
    {
        let m = match v {
            Value::Mapping(m) => m,
            _ => return Err(String::from_str("corim-map must be a map")),
        };
        let id = match map_lookup(m, 0) {
            None => return Err(String::from_str("corim-map: missing id (key 0)")),
            Some(x) => match CorimId::from_value(x) {
                Ok(id) => id,
                Err(e) => return Err(e),
            },
        };
        let tags = match map_lookup(m, 1) {
            None => return Err(String::from_str("corim-map: missing tags (key 1)")),
            Some(Value::Array(a)) => match {
                proof {
                    crate::cbor::lemma_model_list(a@);
                }
                read_tag_entries(a)
            } {
                Ok(t) => t,
                Err(e) => return Err(e),
            },
            Some(_) => return Err(String::from_str("corim-map: tags must be an array")),
        };
        let dependent_rims = match map_lookup(m, 2) {
            None => None,
            Some(Value::Array(a)) => match {
                proof {
                    crate::cbor::lemma_model_list(a@);
                }
                read_locators(a)
            } {
                Ok(l) => Some(l),
                Err(e) => return Err(e),
            },
            Some(_) => return Err(String::from_str("corim-map: dependent-rims must be an array")),
        };
        let profile = match map_lookup(m, 3) {
            None => None,
            Some(x) => match ProfileChoice::from_value(x) {
                Ok(p) => Some(p),
                Err(e) => return Err(e),
            },
        };
        let rim_validity = match map_lookup(m, 4) {
            None => None,
            Some(x) => match ValidityMap::from_value(x) {
                Ok(v) => Some(v),
                Err(e) => return Err(e),
            },
        };
        let entities = match map_lookup(m, 5) {
            None => None,
            Some(Value::Array(a)) => match {
                proof {
                    crate::cbor::lemma_model_list(a@);
                }
                read_entities(a)
            } {
                Ok(l) => Some(l),
                Err(e) => return Err(e),
            },
            Some(_) => return Err(String::from_str("corim-map: entities must be an array")),
        };
        Ok(CorimMap { id, tags, dependent_rims, profile, rim_validity, entities })
    }

    /// The item the CoRIM map is written as.
    pub fn to_value(&self) -> (r: Value)
        ensures
            r@ == corim_map_value(self@),
    {
        let mut entries: Vec<(Value, Value)> = Vec::new();
        entries.push((Value::Integer(0), self.id.to_value()));
        entries.push((Value::Integer(1), write_tag_entries(&self.tags)));
        if let Some(l) = &self.dependent_rims {
            entries.push((Value::Integer(2), write_locators(l)));
        }
        if let Some(p) = &self.profile {
            entries.push((Value::Integer(3), p.to_value()));
        }
        if let Some(v) = &self.rim_validity {
            entries.push((Value::Integer(4), v.to_value()));
        }
        if let Some(l) = &self.entities {
            entries.push((Value::Integer(5), write_entities(l)));
        }
        proof {
            lemma_model_pairs(entries@);
            assert(model_pairs(entries@) =~= match corim_map_value(self@) {
                VModel::Mapping(s) => s,
                _ => Seq::empty(),
            });
        }
        Value::Mapping(entries)
    }

    /// Check the CoRIM map (see [`corim_valid_spec`]).
    pub fn valid(&self) -> (r: Result<(), String>)
        ensures
            r matches Ok(_) ==> corim_valid_spec(self@) is Ok,
            r matches Err(m) ==> corim_valid_spec(self@) == Err::<(), Seq<char>>(m@),
    {
        if self.tags.len() == 0 {
            return Err(String::from_str("tags list must not be empty"));
        }
        if let Some(validity) = &self.rim_validity {
            if let Some(nb) = validity.not_before {
                if nb.epoch_secs() > validity.not_after.epoch_secs() {
                    return Err(String::from_str("rim-validity: not-before must be <= not-after"));
                }
            }
        }
        if let Some(entities) = &self.entities {
            if entities.len() == 0 {
                return Err(String::from_str("entities list must not be empty"));
            }
        }
        Ok(())
    }
}


// ---------------------------------------------------------------------------
// Reading back what was written.
// ---------------------------------------------------------------------------

/// Reading back a written identifier gives it back.
pub proof fn lemma_corim_id_round_trip(id: CorimId)
    ensures
        corim_id_spec(corim_id_value(id@)) == Ok::<CorimIdModel, Seq<char>>(id@),
{
    if let CorimId::Uuid(u) = id {
        assert(u@.len() == 16);
    }
}

proof fn lemma_tag_entries_round_trip(tags: Seq<ConciseTagChoice>, n: int)
    requires
        0 <= n <= tags.len(),
        forall|j: int| 0 <= j < tags.len() ==> !(#[trigger] tags[j] is Unknown),
    ensures
        tag_entries_spec(
            tags.map_values(|x: ConciseTagChoice| x@).map_values(|t: TagChoiceModel| tag_choice_value(t)),
            n,
        ) == Ok::<Seq<TagChoiceModel>, Seq<char>>(tags.map_values(|x: ConciseTagChoice| x@).take(n)),
    decreases n,
{
    let ms = tags.map_values(|x: ConciseTagChoice| x@);
    if n == 0 {
        assert(ms.take(0) =~= Seq::<TagChoiceModel>::empty());
    } else {
        lemma_tag_entries_round_trip(tags, n - 1);
        lemma_tag_choice_round_trip(tags[n - 1]);
        assert(ms.take(n) =~= ms.take(n - 1).push(ms[n - 1]));
    }
}

proof fn lemma_uris_round_trip(us: Seq<Seq<char>>, n: int)
    requires
        0 <= n <= us.len(),
    ensures
        uris_spec(us.map_values(|u: Seq<char>| VModel::Text(u)), n) == Ok::<Seq<Seq<char>>, Seq<char>>(us.take(n)),
    decreases n,
{
    if n == 0 {
        assert(us.take(0) =~= Seq::<Seq<char>>::empty());
    } else {
        lemma_uris_round_trip(us, n - 1);
        assert(us.take(n) =~= us.take(n - 1).push(us[n - 1]));
    }
}

/// A digest algorithm written from 64 bits.
pub open spec fn alg_fits(a: DigestAlgModel) -> bool {
    a matches DigestAlgModel::Int(n) ==> i64::MIN <= n <= i64::MAX
}

proof fn lemma_digests_round_trip(ds: Seq<Digest>, n: int)
    requires
        0 <= n <= ds.len(),
    ensures
        digests_spec(
            ds.map_values(|d: Digest| digest_model(d)).map_values(|d: DigestModel| digest_value(d)),
            n,
        ) == Ok::<Seq<DigestModel>, Seq<char>>(ds.map_values(|d: Digest| digest_model(d)).take(n)),
    decreases n,
{
    let ms = ds.map_values(|d: Digest| digest_model(d));
    if n == 0 {
        assert(ms.take(0) =~= Seq::<DigestModel>::empty());
    } else {
        lemma_digests_round_trip(ds, n - 1);
        let d = ds[n - 1];
        assert(ms[n - 1] == digest_model(d));
        assert(ms.take(n) =~= ms.take(n - 1).push(ms[n - 1]));
    }
}

/// Reading back a written locator gives it back, unless its thumbprint is an empty list.
pub proof fn lemma_locator_round_trip(l: CorimLocator)
    requires
        !(l.thumbprint matches Some(CorimLocatorThumbprint::Multiple(ds)) && ds@.len() == 0),
    ensures
        locator_spec(locator_value(l@)) == Ok::<LocatorModel, Seq<char>>(l@),
{
    match l.href {
        CorimLocatorHref::Single(_) => {},
        CorimLocatorHref::Multiple(us) => {
            let m = us@.map_values(|u: String| u@);
            lemma_uris_round_trip(m, m.len() as int);
            assert(m.take(m.len() as int) =~= m);
        },
    }
    match l.thumbprint {
        Some(CorimLocatorThumbprint::Multiple(ds)) => {
            let m = ds@.map_values(|d: Digest| digest_model(d));
            lemma_digests_round_trip(ds@, ds@.len() as int);
            assert(m.take(m.len() as int) =~= m);
            let vs = m.map_values(|d: DigestModel| digest_value(d));
            assert(vs[0] is Array);
        },
        _ => {},
    }
    let e = locator_value(l@)->Mapping_0;
    if let Some(t) = l@.thumbprint {
        assert(e.drop_first().drop_first() =~= Seq::<(VModel, VModel)>::empty());
        assert(pairs_lookup(e.drop_first(), 1) == Some(thumb_value(t)));
    } else {
        assert(e.drop_first() =~= Seq::<(VModel, VModel)>::empty());
        assert(pairs_lookup(e.drop_first(), 1) is None);
    }
}

proof fn lemma_locators_round_trip(ls: Seq<CorimLocator>, n: int)
    requires
        0 <= n <= ls.len(),
        forall|j: int| 0 <= j < ls.len() ==> !((#[trigger] ls[j]).thumbprint matches Some(CorimLocatorThumbprint::Multiple(ds)) && ds@.len() == 0),
    ensures
        locators_spec(
            ls.map_values(|x: CorimLocator| x@).map_values(|y: LocatorModel| locator_value(y)),
            n,
        ) == Ok::<Seq<LocatorModel>, Seq<char>>(ls.map_values(|x: CorimLocator| x@).take(n)),
    decreases n,
{
    let ms = ls.map_values(|x: CorimLocator| x@);
    if n == 0 {
        assert(ms.take(0) =~= Seq::<LocatorModel>::empty());
    } else {
        lemma_locators_round_trip(ls, n - 1);
        lemma_locator_round_trip(ls[n - 1]);
        assert(ms.take(n) =~= ms.take(n - 1).push(ms[n - 1]));
    }
}

proof fn lemma_entities_round_trip(es: Seq<EntityMap>, n: int)
    requires
        0 <= n <= es.len(),
    ensures
        entities_spec(
            es.map_values(|x: EntityMap| x@).map_values(|y: EntityModel| entity_value(y)),
            n,
        ) == Ok::<Seq<EntityModel>, Seq<char>>(es.map_values(|x: EntityMap| x@).take(n)),
    decreases n,
{
    let ms = es.map_values(|x: EntityMap| x@);
    if n == 0 {
        assert(ms.take(0) =~= Seq::<EntityModel>::empty());
    } else {
        lemma_entities_round_trip(es, n - 1);
        crate::types::common::lemma_entity_round_trip(es[n - 1]);
        assert(ms.take(n) =~= ms.take(n - 1).push(ms[n - 1]));
    }
}

/// Reading back a written CoRIM map gives it back, when no tag entry is `Unknown` and no
/// locator has an empty thumbprint list.
pub proof fn lemma_corim_map_round_trip(c: CorimMap)
    requires
        forall|j: int| 0 <= j < c.tags@.len() ==> !(#[trigger] c.tags@[j] is Unknown),
        c.dependent_rims matches Some(l) ==> forall|j: int| 0 <= j < l@.len() ==> !((#[trigger] l@[j]).thumbprint matches Some(
            CorimLocatorThumbprint::Multiple(ds),
        ) && ds@.len() == 0),
    ensures
        corim_map_spec(corim_map_value(c@)) == Ok::<CorimMapModel, Seq<char>>(c@),
{
    let m = c@;
    let p01 = seq![
        (VModel::Int(0), corim_id_value(m.id)),
        (VModel::Int(1), VModel::Array(m.tags.map_values(|t: TagChoiceModel| tag_choice_value(t)))),
    ];
    let o2 = match m.dependent_rims {
        Some(l) => seq![(VModel::Int(2), VModel::Array(l.map_values(|x: LocatorModel| locator_value(x))))],
        None => Seq::empty(),
    };
    let o3 = match m.profile {
        Some(p) => seq![(VModel::Int(3), profile_value(p))],
        None => Seq::empty(),
    };
    let o4 = match m.rim_validity {
        Some(v) => seq![(VModel::Int(4), validity_value(v))],
        None => Seq::empty(),
    };
    let o5 = match m.entities {
        Some(l) => seq![(VModel::Int(5), VModel::Array(l.map_values(|x: EntityModel| entity_value(x))))],
        None => Seq::empty(),
    };
    let e = corim_map_value(m)->Mapping_0;
    assert(e == p01 + o2 + o3 + o4 + o5);
    assert forall|k: int| 0 <= k <= 5 implies pairs_lookup(e, k) == (if k == 0 {
        Some(corim_id_value(m.id))
    } else if k == 1 {
        Some(VModel::Array(m.tags.map_values(|t: TagChoiceModel| tag_choice_value(t))))
    } else if k == 2 {
        if o2.len() == 1 { Some(o2[0].1) } else { None }
    } else if k == 3 {
        if o3.len() == 1 { Some(o3[0].1) } else { None }
    } else if k == 4 {
        if o4.len() == 1 { Some(o4[0].1) } else { None }
    } else {
        if o5.len() == 1 { Some(o5[0].1) } else { None }
    }) by {
        crate::cbor::lemma_pairs_lookup_concat(p01 + o2 + o3 + o4, o5, k);
        crate::cbor::lemma_pairs_lookup_concat(p01 + o2 + o3, o4, k);
        crate::cbor::lemma_pairs_lookup_concat(p01 + o2, o3, k);
        crate::cbor::lemma_pairs_lookup_concat(p01, o2, k);
        assert(p01.drop_first().drop_first() =~= Seq::<(VModel, VModel)>::empty());
        assert(pairs_lookup(p01.drop_first().drop_first(), k) is None);
        assert(pairs_lookup(p01.drop_first(), k) == (if k == 1 { Some(p01[1].1) } else { None::<VModel> }));
        if o2.len() == 1 {
            assert(o2.drop_first() =~= Seq::<(VModel, VModel)>::empty());
            assert(pairs_lookup(o2.drop_first(), k) is None);
        }
        if o3.len() == 1 {
            assert(o3.drop_first() =~= Seq::<(VModel, VModel)>::empty());
            assert(pairs_lookup(o3.drop_first(), k) is None);
        }
        if o4.len() == 1 {
            assert(o4.drop_first() =~= Seq::<(VModel, VModel)>::empty());
            assert(pairs_lookup(o4.drop_first(), k) is None);
        }
        if o5.len() == 1 {
            assert(o5.drop_first() =~= Seq::<(VModel, VModel)>::empty());
            assert(pairs_lookup(o5.drop_first(), k) is None);
        }
    }
    assert(pairs_lookup(e, 0) == Some(corim_id_value(m.id)));
    lemma_corim_id_round_trip(c.id);
    let tm = c.tags@.map_values(|x: ConciseTagChoice| x@);
    lemma_tag_entries_round_trip(c.tags@, c.tags@.len() as int);
    assert(tm.take(tm.len() as int) =~= tm);
    assert(pairs_lookup(e, 1) == Some(VModel::Array(m.tags.map_values(|t: TagChoiceModel| tag_choice_value(t)))));
    assert(field_tags(e) == Ok::<Seq<TagChoiceModel>, Seq<char>>(m.tags));
    if let Some(l) = c.dependent_rims {
        lemma_locators_round_trip(l@, l@.len() as int);
        let lm = l@.map_values(|x: CorimLocator| x@);
        assert(lm.take(lm.len() as int) =~= lm);
    }
    assert(pairs_lookup(e, 2) == (if o2.len() == 1 { Some(o2[0].1) } else { None::<VModel> }));
    assert(field_rims(e) == Ok::<Option<Seq<LocatorModel>>, Seq<char>>(m.dependent_rims));
    assert(pairs_lookup(e, 3) == (if o3.len() == 1 { Some(o3[0].1) } else { None::<VModel> }));
    assert(field_profile(e) == Ok::<Option<ProfileChoiceModel>, Seq<char>>(m.profile));
    if let Some(v) = c.rim_validity {
        crate::types::common::lemma_validity_round_trip(v);
    }
    assert(pairs_lookup(e, 4) == (if o4.len() == 1 { Some(o4[0].1) } else { None::<VModel> }));
    assert(field_validity(e) == Ok::<Option<(Option<int>, int)>, Seq<char>>(m.rim_validity));
    if let Some(l) = c.entities {
        lemma_entities_round_trip(l@, l@.len() as int);
        let lm = l@.map_values(|x: EntityMap| x@);
        assert(lm.take(lm.len() as int) =~= lm);
    }
    assert(pairs_lookup(e, 5) == (if o5.len() == 1 { Some(o5[0].1) } else { None::<VModel> }));
    assert(field_entities(e) == Ok::<Option<Seq<EntityModel>>, Seq<char>>(m.entities));
}


proof fn lemma_tag_identities_round_trip(ts: Seq<TagIdentity>, n: int)
    requires
        0 <= n <= ts.len(),
        forall|j: int| 0 <= j < ts.len() ==> crate::types::common::tag_id_ok((#[trigger] ts[j]).tag_id@),
    ensures
        tag_identities_spec(
            ts.map_values(|t: TagIdentity| tag_identity_model(t)).map_values(|t: (TagIdModel, Option<int>)| tag_identity_value(t)),
            n,
        ) == Ok::<Seq<(TagIdModel, Option<int>)>, Seq<char>>(ts.map_values(|t: TagIdentity| tag_identity_model(t)).take(n)),
    decreases n,
{
    let ms = ts.map_values(|t: TagIdentity| tag_identity_model(t));
    if n == 0 {
        assert(ms.take(0) =~= Seq::<(TagIdModel, Option<int>)>::empty());
    } else {
        lemma_tag_identities_round_trip(ts, n - 1);
        crate::types::common::lemma_tag_identity_round_trip(ts[n - 1]);
        assert(ms.take(n) =~= ms.take(n - 1).push(ms[n - 1]));
    }
}

/// Reading back a written CoTL gives it back, when every UUID tag identifier has 16 bytes.
pub proof fn lemma_cotl_round_trip(c: ConciseTlTag)
    requires
        crate::types::common::tag_id_ok(c.tag_identity.tag_id@),
        forall|j: int| 0 <= j < c.tags_list@.len() ==> crate::types::common::tag_id_ok((#[trigger] c.tags_list@[j]).tag_id@),
    ensures
        cotl_spec(cotl_value(c@)) == Ok::<CotlModel, Seq<char>>(c@),
{
    let m = c@;
    crate::types::common::lemma_tag_identity_round_trip(c.tag_identity);
    lemma_tag_identities_round_trip(c.tags_list@, c.tags_list@.len() as int);
    assert(m.tags_list.take(m.tags_list.len() as int) =~= m.tags_list);
    crate::types::common::lemma_validity_round_trip(c.tl_validity);
    let s = cotl_value(m)->Mapping_0;
    assert(s.drop_first().drop_first().drop_first() =~= Seq::<(VModel, VModel)>::empty());
    assert(pairs_lookup(s.drop_first().drop_first(), 2) == Some(validity_value(m.tl_validity)));
    assert(pairs_lookup(s.drop_first(), 2) == Some(validity_value(m.tl_validity)));
    assert(pairs_lookup(s.drop_first(), 1) == Some(s[1].1));
}

} // verus!
