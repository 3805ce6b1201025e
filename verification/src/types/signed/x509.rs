//! X.509 COSE header parameters (RFC 9360): certificates are carried as raw DER bytes.
use vstd::prelude::*;
use crate::cbor::{Value, VModel, model, model_list, lemma_model_list, copy_bytes};
use crate::types::measurement::{DigestAlg, DigestAlgModel, digest_alg_spec, digest_alg_value};

verus! {

/// COSE header `kid` (key 4).
pub const COSE_HEADER_KID: i64 = 4;
/// COSE header `x5bag` (key 32).
pub const COSE_HEADER_X5BAG: i64 = 32;
/// COSE header `x5chain` (key 33).
pub const COSE_HEADER_X5CHAIN: i64 = 33;
/// COSE header `x5t` (key 34).
pub const COSE_HEADER_X5T: i64 = 34;
/// COSE header `x5u` (key 35).
pub const COSE_HEADER_X5U: i64 = 35;

/// `COSE_X509` — one certificate or an array of them.
#[derive(Clone, Debug, PartialEq, Eq)]
#[non_exhaustive]
pub enum CoseX509 {
    /// A single DER certificate.
    Single(Vec<u8>),
    /// An array of DER certificates (end-entity first for `x5chain`).
    Chain(Vec<Vec<u8>>),
}

/// Mathematical form of a [`CoseX509`].
pub enum X509Model {
    Single(Seq<u8>),
    Chain(Seq<Seq<u8>>),
}

pub open spec fn certs_model(s: Seq<Vec<u8>>) -> Seq<Seq<u8>> {
    s.map_values(|c: Vec<u8>| c@)
}

impl View for CoseX509 {
    type V = X509Model;

    open spec fn view(&self) -> X509Model {
        match self {
            CoseX509::Single(c) => X509Model::Single(c@),
            CoseX509::Chain(cs) => X509Model::Chain(certs_model(cs@)),
        }
    }
}

/// The certificates of a `COSE_X509`, in order.
pub open spec fn certs_spec(x: X509Model) -> Seq<Seq<u8>> {
    match x {
        X509Model::Single(c) => seq![c],
        X509Model::Chain(cs) => cs,
    }
}

impl CoseX509 {
    /// All certificates as DER byte slices.
    pub fn certs(&self) -> (r: Vec<&[u8]>)
        ensures
            r@.len() == certs_spec(self@).len(),
            forall|i: int| 0 <= i < r@.len() ==> (#[trigger] r@[i])@ == certs_spec(self@)[i],
    {
        match self {
            CoseX509::Single(c) => {
                let mut r: Vec<&[u8]> = Vec::new();
                r.push(c.as_slice());
                r
            },
            CoseX509::Chain(cs) => {
                let mut r: Vec<&[u8]> = Vec::new();
                let mut i: usize = 0;
                while i < cs.len()
                    invariant
                        i <= cs@.len(),
                        r@.len() == i,
                        forall|j: int| 0 <= j < i ==> (#[trigger] r@[j])@ == cs@[j]@,
                    decreases cs@.len() - i,
                {
                    r.push(cs[i].as_slice());
                    i += 1;
                }
                r
            },
        }
    }

    /// The end-entity (first) certificate.
    pub fn end_entity(&self) -> (r: &[u8])
        requires
            certs_spec(self@).len() > 0,
        ensures
            r@ == certs_spec(self@)[0],
    {
        match self {
            CoseX509::Single(c) => c.as_slice(),
            CoseX509::Chain(cs) => cs[0].as_slice(),
        }
    }
}

/// The item a `COSE_X509` is written as.
pub open spec fn x509_value(x: X509Model) -> VModel {
    match x {
        X509Model::Single(c) => VModel::Bytes(c),
        X509Model::Chain(cs) => VModel::Array(cs.map_values(|c: Seq<u8>| VModel::Bytes(c))),
    }
}

/// The `COSE_X509` a data item denotes, or why it does not denote one.
pub open spec fn x509_spec(v: VModel) -> Result<X509Model, Seq<char>> {
    match v {
        VModel::Bytes(b) => Ok(X509Model::Single(b)),
        VModel::Array(a) => if forall|i: int| 0 <= i < a.len() ==> #[trigger] a[i] is Bytes {
            Ok(X509Model::Chain(a.map_values(|x: VModel| x->Bytes_0)))
        } else {
            Err("x5chain/x5bag cert must be bstr"@)
        },
        _ => Err("COSE_X509 must be bstr or array of bstr"@),
    }
}

/// Write a `COSE_X509`.
pub fn serialize_cose_x509(x: &CoseX509) -> (r: Value)
    ensures
        r@ == x509_value(x@),
{
    match x {
        CoseX509::Single(c) => Value::Bytes(copy_bytes(c.as_slice())),
        CoseX509::Chain(cs) => {
            let mut items: Vec<Value> = Vec::new();
            let mut i: usize = 0;
            while i < cs.len()
                invariant
                    i <= cs@.len(),
                    items@.len() == i,
                    forall|j: int| 0 <= j < i ==> (#[trigger] items@[j])@ == VModel::Bytes(cs@[j]@),
                decreases cs@.len() - i,
            {
                items.push(Value::Bytes(copy_bytes(cs[i].as_slice())));
                i += 1;
            }
            proof {
                lemma_model_list(items@);
                assert(model_list(items@) =~= certs_model(cs@).map_values(|c: Seq<u8>| VModel::Bytes(c)));
            }
            Value::Array(items)
        },
    }
}

/// Read a `COSE_X509`.
pub fn deserialize_cose_x509(v: &Value) -> (r: Result<CoseX509, String>)
    ensures
        r matches Ok(x) ==> x509_spec(v@) == Ok::<X509Model, Seq<char>>(x@),
        r matches Err(m) ==> x509_spec(v@) == Err::<X509Model, Seq<char>>(m@),
{
    proof {
        reveal_strlit("x5chain/x5bag cert must be bstr");
        reveal_strlit("COSE_X509 must be bstr or array of bstr");
    }
    match v {
        Value::Bytes(b) => Ok(CoseX509::Single(copy_bytes(b.as_slice()))),
        Value::Array(arr) => {
            proof {
                lemma_model_list(arr@);
            }
            let ghost ms = model_list(arr@);
            let mut certs: Vec<Vec<u8>> = Vec::new();
            let mut i: usize = 0;
            while i < arr.len()
                invariant
                    i <= arr@.len(),
                    ms == model_list(arr@),
                    v@ == VModel::Array(ms),
                    ms.len() == arr@.len(),
                    forall|j: int| 0 <= j < arr@.len() ==> #[trigger] ms[j] == model(arr@[j]),
                    certs@.len() == i,
                    forall|j: int| 0 <= j < i ==> #[trigger] ms[j] is Bytes && certs@[j]@ == ms[j]->Bytes_0,
                decreases arr@.len() - i,
            {
                match &arr[i] {
                    Value::Bytes(b) => certs.push(copy_bytes(b.as_slice())),
                    _ => {
                        proof {
                            assert(!(ms[i as int] is Bytes));
                            assert(v@ == VModel::Array(ms));
                            assert(!(forall|j: int| 0 <= j < ms.len() ==> #[trigger] ms[j] is Bytes));
                        }
                        return Err(String::from_str("x5chain/x5bag cert must be bstr"));
                    },
                }
                i += 1;
            }
            proof {
                assert(certs_model(certs@) =~= ms.map_values(|x: VModel| x->Bytes_0));
            }
            Ok(CoseX509::Chain(certs))
        },
        _ => Err(String::from_str("COSE_X509 must be bstr or array of bstr")),
    }
}

/// `COSE_CertHash` — `[hashAlg, hashValue]`.
#[derive(Clone, Debug, PartialEq, Eq)]
pub struct CoseCertHash {
    /// Hash algorithm (integer or text).
    pub hash_alg: DigestAlg,
    /// Hash value.
    pub hash_value: Vec<u8>,
}

/// The item a `COSE_CertHash` is written as.
pub open spec fn cert_hash_value(h: (DigestAlgModel, Seq<u8>)) -> VModel {
    VModel::Array(seq![digest_alg_value(h.0), VModel::Bytes(h.1)])
}

/// The `COSE_CertHash` a data item denotes, or why it does not denote one.
pub open spec fn cert_hash_spec(v: VModel) -> Result<(DigestAlgModel, Seq<u8>), Seq<char>> {
    match v {
        VModel::Array(a) => if a.len() == 2 {
            match digest_alg_spec(a[0]) {
                None => if a[0] is Int {
                    Err("x5t hashAlg out of range"@)
                } else {
                    Err("x5t hashAlg must be int or text"@)
                },
                Some(alg) => match a[1] {
                    VModel::Bytes(h) => Ok((alg, h)),
                    _ => Err("x5t hashValue must be bstr"@),
                },
            }
        } else {
            Err("COSE_CertHash must be [hashAlg, hashValue]"@)
        },
        _ => Err("COSE_CertHash must be [hashAlg, hashValue]"@),
    }
}

impl CoseCertHash {
    /// Write the hash as `[hashAlg, hashValue]`.
    pub fn to_value(&self) -> (r: Value)
        ensures
            r@ == cert_hash_value((self.hash_alg@, self.hash_value@)),
    {
        let mut items: Vec<Value> = Vec::new();
        items.push(self.hash_alg.to_value());
        items.push(Value::Bytes(copy_bytes(self.hash_value.as_slice())));
        proof {
            lemma_model_list(items@);
            assert(model_list(items@) =~= seq![digest_alg_value(self.hash_alg@), VModel::Bytes(self.hash_value@)]);
        }
        Value::Array(items)
    }
}

/// Read a `COSE_CertHash`.
pub fn deserialize_cose_cert_hash(v: &Value) -> (r: Result<CoseCertHash, String>)
    ensures
        r matches Ok(h) ==> cert_hash_spec(v@) == Ok::<(DigestAlgModel, Seq<u8>), Seq<char>>((h.hash_alg@, h.hash_value@)),
        r matches Err(m) ==> cert_hash_spec(v@) == Err::<(DigestAlgModel, Seq<u8>), Seq<char>>(m@),
{
    proof {
        reveal_strlit("x5t hashAlg out of range");
        reveal_strlit("x5t hashAlg must be int or text");
        reveal_strlit("x5t hashValue must be bstr");
        reveal_strlit("COSE_CertHash must be [hashAlg, hashValue]");
    }
    let arr = match v {
        Value::Array(a) => a,
        _ => return Err(String::from_str("COSE_CertHash must be [hashAlg, hashValue]")),
    };
    proof {
        lemma_model_list(arr@);
    }
    if arr.len() != 2 {
        return Err(String::from_str("COSE_CertHash must be [hashAlg, hashValue]"));
    }
    let hash_alg = match DigestAlg::from_value(&arr[0]) {
        Ok(a) => a,
        Err(out_of_range) => {
            if out_of_range {
                return Err(String::from_str("x5t hashAlg out of range"));
            } else {
                return Err(String::from_str("x5t hashAlg must be int or text"));
            }
        },
    };
    let hash_value = match &arr[1] {
        Value::Bytes(b) => copy_bytes(b.as_slice()),
        _ => return Err(String::from_str("x5t hashValue must be bstr")),
    };
    Ok(CoseCertHash { hash_alg, hash_value })
}


/// Reading back a written certificate parameter gives it back.
pub proof fn lemma_x509_round_trip(x: CoseX509)
    ensures
        x509_spec(x509_value(x@)) == Ok::<X509Model, Seq<char>>(x@),
{
    if let X509Model::Chain(cs) = x@ {
        let a = cs.map_values(|c: Seq<u8>| VModel::Bytes(c));
        assert(forall|i: int| 0 <= i < a.len() ==> #[trigger] a[i] is Bytes);
        assert(a.map_values(|v: VModel| v->Bytes_0) =~= cs);
    }
}

/// Reading back a written certificate hash gives it back.
pub proof fn lemma_cert_hash_round_trip(h: CoseCertHash)
    ensures
        cert_hash_spec(cert_hash_value((h.hash_alg@, h.hash_value@))) == Ok::<(DigestAlgModel, Seq<u8>), Seq<char>>(
            (h.hash_alg@, h.hash_value@),
        ),
{
}

} // verus!
