//! Measurements, carried as data items, and digests: an algorithm identifier and a digest value.
use vstd::prelude::*;
use crate::cbor::{Value, VModel, copy_bytes};

verus! {

/// `measurement-map` — `{ ? 0: mkey, 1: mval, ? 2: authorized-by }`, carried as its data
/// item. The builders and the anchoring rules read a measurement only through structural
/// equality of that item.
pub type MeasurementMap = Value;

/// A digest algorithm: an IANA named-information number or a text name.
#[derive(Clone, Debug, PartialEq, Eq)]
#[non_exhaustive]
pub enum DigestAlg {
    /// Integer algorithm identifier.
    Int(i64),
    /// Text algorithm name.
    Text(String),
}

/// Mathematical form of a [`DigestAlg`].
pub enum DigestAlgModel {
    Int(int),
    Text(Seq<char>),
}

impl View for DigestAlg {
    type V = DigestAlgModel;

    open spec fn view(&self) -> DigestAlgModel {
        match self {
            DigestAlg::Int(n) => DigestAlgModel::Int(*n as int),
            DigestAlg::Text(t) => DigestAlgModel::Text(t@),
        }
    }
}

/// The algorithm a data item denotes: an integer in 64 bits or a text.
pub open spec fn digest_alg_spec(v: VModel) -> Option<DigestAlgModel> {
    match v {
        VModel::Int(n) => if i64::MIN <= n <= i64::MAX {
            Some(DigestAlgModel::Int(n))
        } else {
            None
        },
        VModel::Text(t) => Some(DigestAlgModel::Text(t)),
        _ => None,
    }
}

/// The item an algorithm is written as.
pub open spec fn digest_alg_value(a: DigestAlgModel) -> VModel {
    match a {
        DigestAlgModel::Int(n) => VModel::Int(n),
        DigestAlgModel::Text(t) => VModel::Text(t),
    }
}

impl DigestAlg {
    /// Read an algorithm item; `Err(true)` when it is an integer outside 64 bits,
    /// `Err(false)` when it is neither integer nor text.
    pub fn from_value(v: &Value) -> (r: Result<DigestAlg, bool>)
        ensures
            r matches Ok(a) ==> digest_alg_spec(v@) == Some(a@),
            r is Err ==> digest_alg_spec(v@) is None,
            r == Err::<DigestAlg, bool>(true) <==> (v@ is Int && digest_alg_spec(v@) is None),
    {
        match v {
            Value::Integer(n) => {
                if *n >= -0x8000_0000_0000_0000i128 && *n <= 0x7fff_ffff_ffff_ffffi128 {
                    Ok(DigestAlg::Int(*n as i64))
                } else {
                    Err(true)
                }
            },
            Value::Text(t) => Ok(DigestAlg::Text(t.clone())),
            _ => Err(false),
        }
    }

    /// The item the algorithm is written as.
    pub fn to_value(&self) -> (r: Value)
        ensures
            r@ == digest_alg_value(self@),
    {
        match self {
            DigestAlg::Int(n) => Value::Integer(*n as i128),
            DigestAlg::Text(t) => Value::Text(t.clone()),
        }
    }

    /// A copy.
    pub fn copy(&self) -> (r: DigestAlg)
        ensures
            r@ == self@,
    {
        match self {
            DigestAlg::Int(n) => DigestAlg::Int(*n),
            DigestAlg::Text(t) => DigestAlg::Text(t.clone()),
        }
    }
}

/// A digest: `[alg, value]`.
#[derive(Clone, Debug, PartialEq, Eq)]
pub struct Digest(pub DigestAlg, pub Vec<u8>);

impl Digest {
    /// The algorithm.
    pub fn alg(&self) -> (r: &DigestAlg)
        ensures
            r == &self.0,
    {
        &self.0
    }

    /// The digest value.
    pub fn value(&self) -> (r: &[u8])
        ensures
            r@ == self.1@,
    {
        self.1.as_slice()
    }
}

} // verus!
