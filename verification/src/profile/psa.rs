//! Arm PSA profile (`tag:arm.com,2025:psa#1.0.0`): the `psa-cert-num` (key 100)
//! `measurement-values-map` extension, a PSA Certified certificate number of the form
//! `"1234567890123 - 12345"`.
use vstd::prelude::*;
use vstd::utf8::*;
use crate::cbor::{Value, VModel};
use crate::profile::Profile;
use crate::profile::intel::{entries_model, entry_lookup, lookup_entry};
use crate::text::{push_str, str_eq};
use crate::types::corim::{ProfileChoice, ProfileChoiceModel};

verus! {

/// Profile URI of [`PsaProfile`].
pub const PSA_PROFILE_URI: &'static str = "tag:arm.com,2025:psa#1.0.0";

/// The `measurement-values-map` key of `psa-cert-num`.
pub const MVAL_PSA_CERT_NUM: i64 = 100;

pub open spec fn is_digit_byte(b: u8) -> bool {
    0x30 <= b <= 0x39
}

/// `psa-cert-num-type`: exactly thirteen ASCII digits, `" - "`, then five ASCII digits.
pub open spec fn cert_num_spec(b: Seq<u8>) -> bool {
    &&& b.len() == 21
    &&& forall|i: int| 0 <= i < 13 ==> is_digit_byte(#[trigger] b[i])
    &&& b[13] == 0x20 && b[14] == 0x2d && b[15] == 0x20
    &&& forall|i: int| 16 <= i < 21 ==> is_digit_byte(#[trigger] b[i])
}

/// Whether `s` is a well-formed `psa-cert-num` (see [`cert_num_spec`]).
pub fn is_valid_cert_num(s: &str) -> (r: bool)
    ensures
        r == cert_num_spec(encode_utf8(s@)),
{
    let b = s.as_bytes();
    if b.len() != 21 {
        return false;
    }
    let mut i: usize = 0;
    while i < 13
        invariant
            b@ == encode_utf8(s@),
            b@.len() == 21,
            i <= 13,
            forall|j: int| 0 <= j < i ==> is_digit_byte(#[trigger] b@[j]),
        decreases 13 - i,
    {
        if !(b[i] >= 0x30 && b[i] <= 0x39) {
            return false;
        }
        i = i + 1;
    }
    if !(b[13] == 0x20 && b[14] == 0x2d && b[15] == 0x20) {
        return false;
    }
    let mut j: usize = 16;
    while j < 21
        invariant
            b@ == encode_utf8(s@),
            b@.len() == 21,
            16 <= j <= 21,
            forall|k: int| 16 <= k < j ==> is_digit_byte(#[trigger] b@[k]),
        decreases 21 - j,
    {
        if !(b[j] >= 0x30 && b[j] <= 0x39) {
            return false;
        }
        j = j + 1;
    }
    true
}

/// A well-formed certificate number held by a data item.
pub open spec fn cert_num_value(v: VModel) -> Option<Seq<char>> {
    match v {
        VModel::Text(s) => if cert_num_spec(encode_utf8(s)) {
            Some(s)
        } else {
            None
        },
        _ => None,
    }
}

fn cert_num(v: &Value) -> (r: Option<&str>)
    ensures
        r matches Some(s) ==> cert_num_value(v@) == Some(s@),
        r is None ==> cert_num_value(v@) is None,
{
    match v {
        Value::Text(s) => {
            if is_valid_cert_num(s.as_str()) {
                Some(s.as_str())
            } else {
                None
            }
        },
        _ => None,
    }
}

/// The PSA verdict on `psa-cert-num` of a reference measurement against the evidence: none
/// without a reference entry; otherwise both must be well formed and equal (`Some(true)`
/// then leaves the core fields to be compared separately).
pub open spec fn psa_verdict_spec(r: Seq<(i64, VModel)>, e: Seq<(i64, VModel)>) -> Option<bool> {
    match entry_lookup(r, MVAL_PSA_CERT_NUM) {
        None => None,
        Some(rv) => match entry_lookup(e, MVAL_PSA_CERT_NUM) {
            None => Some(false),
            Some(ev) => match (cert_num_value(rv), cert_num_value(ev)) {
                (Some(a), Some(b)) => Some(a == b),
                _ => Some(false),
            },
        },
    }
}

/// The label of a `psa-cert-num` entry in diagnostics; none for other keys.
pub open spec fn psa_diagnose_spec(key: i64, v: VModel) -> Option<Seq<char>> {
    if key != MVAL_PSA_CERT_NUM {
        None
    } else {
        match cert_num_value(v) {
            Some(s) => Some("psa-cert-num = "@ + s),
            None => Some("psa-cert-num = <invalid>"@),
        }
    }
}

/// The PSA profile.
#[derive(Debug)]
pub struct PsaProfile {
    id: ProfileChoice,
}

impl PsaProfile {
    /// A profile instance, identified by [`PSA_PROFILE_URI`].
    pub fn new() -> (p: Self)
        ensures
            p.id_spec() == ProfileChoiceModel::Uri(PSA_PROFILE_URI@),
    {
        PsaProfile { id: ProfileChoice::Uri(String::from_str(PSA_PROFILE_URI)) }
    }

    /// Appraise the `psa-cert-num` extension entries of a reference measurement against the
    /// evidence's (see [`psa_verdict_spec`]).
    pub fn extension_verdict(reference: &Vec<(i64, Value)>, evidence: &Vec<(i64, Value)>) -> (r: Option<bool>)
        ensures
            r == psa_verdict_spec(entries_model(reference@), entries_model(evidence@)),
    {
        let rv = match lookup_entry(reference, MVAL_PSA_CERT_NUM) {
            Some(v) => v,
            None => return None,
        };
        let ev = match lookup_entry(evidence, MVAL_PSA_CERT_NUM) {
            Some(v) => v,
            None => return Some(false),
        };
        match (cert_num(rv), cert_num(ev)) {
            (Some(a), Some(b)) => Some(str_eq(a, b)),
            _ => Some(false),
        }
    }
}

impl Default for PsaProfile {
    /// The same as [`PsaProfile::new`].
    fn default() -> (p: Self)
        ensures
            p.id_spec() == ProfileChoiceModel::Uri(PSA_PROFILE_URI@),
    {
        PsaProfile::new()
    }
}

impl Profile for PsaProfile {
    closed spec fn id_spec(&self) -> ProfileChoiceModel {
        self.id@
    }

    fn identifier(&self) -> (r: &ProfileChoice) {
        &self.id
    }

    fn diagnose_mval_entry(&self, key: i64, value: &Value) -> (r: Option<String>)
        ensures
            r matches Some(s) ==> psa_diagnose_spec(key, value@) == Some(s@),
            r is None ==> psa_diagnose_spec(key, value@) is None,
    {
        if key != MVAL_PSA_CERT_NUM {
            return None;
        }
        match cert_num(value) {
            Some(s) => {
                let mut m = String::from_str("psa-cert-num = ");
                push_str(&mut m, s);
                Some(m)
            },
            None => Some(String::from_str("psa-cert-num = <invalid>")),
        }
    }

    fn mval_json_alias(&self, name: &str) -> (r: Option<i64>)
        ensures
            r == (if name@ == "psa-cert-num"@ {
                Some(MVAL_PSA_CERT_NUM)
            } else {
                None
            }),
    {
        if str_eq(name, "psa-cert-num") {
            Some(MVAL_PSA_CERT_NUM)
        } else {
            None
        }
    }

    fn mval_json_name(&self, key: i64) -> (r: Option<&'static str>)
        ensures
            key == MVAL_PSA_CERT_NUM ==> (r matches Some(s) && s@ == "psa-cert-num"@),
            key != MVAL_PSA_CERT_NUM ==> r is None,
    {
        if key == MVAL_PSA_CERT_NUM {
            Some("psa-cert-num")
        } else {
            None
        }
    }
}

} // verus!
