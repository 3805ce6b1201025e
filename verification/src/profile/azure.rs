//! Azure profile: extends `measurement-values-map` with `tcbstatus` (key -700), which
//! takes one of two text values, `UpToDate` and `OutOfDate`.
use vstd::prelude::*;
use crate::cbor::{Value, VModel};
use crate::profile::Profile;
use crate::profile::intel::{entries_model, entry_lookup, lookup_entry};
use crate::text::str_eq;
use crate::types::corim::{ProfileChoice, ProfileChoiceModel};

verus! {

/// Profile URI of [`AzureProfile`].
pub const AZURE_PROFILE_URI: &'static str = "tag:microsoft.com,2026:azure-profile#1.0.0";

/// The `measurement-values-map` key of `tcbstatus`.
pub const MVAL_TCBSTATUS: i64 = -700;

/// The values of `tcbstatus`.
#[derive(Clone, Copy, Debug, PartialEq, Eq, Structural)]
pub enum TcbStatus {
    /// The measured TCB is up to date.
    UpToDate,
    /// The measured TCB is out of date.
    OutOfDate,
}

/// The status a data item denotes: the text `UpToDate` or `OutOfDate`.
pub open spec fn tcb_status_spec(v: VModel) -> Option<TcbStatus> {
    match v {
        VModel::Text(s) => if s == "UpToDate"@ {
            Some(TcbStatus::UpToDate)
        } else if s == "OutOfDate"@ {
            Some(TcbStatus::OutOfDate)
        } else {
            None
        },
        _ => None,
    }
}

impl TcbStatus {
    fn parse(v: &Value) -> (r: Option<TcbStatus>)
        ensures
            r == tcb_status_spec(v@),
    {
        match v {
            Value::Text(s) => {
                if str_eq(s.as_str(), "UpToDate") {
                    Some(TcbStatus::UpToDate)
                } else if str_eq(s.as_str(), "OutOfDate") {
                    Some(TcbStatus::OutOfDate)
                } else {
                    None
                }
            },
            _ => None,
        }
    }
}

/// The Azure verdict on the `tcbstatus` of a reference measurement against the evidence:
/// none without a reference status; otherwise the evidence must carry a status, both must
/// be valid, and they must be equal (`Some(true)` then leaves the core fields to be
/// compared separately).
pub open spec fn azure_verdict_spec(r: Seq<(i64, VModel)>, e: Seq<(i64, VModel)>) -> Option<bool> {
    match entry_lookup(r, MVAL_TCBSTATUS) {
        None => None,
        Some(rv) => match entry_lookup(e, MVAL_TCBSTATUS) {
            None => Some(false),
            Some(ev) => match (tcb_status_spec(rv), tcb_status_spec(ev)) {
                (Some(a), Some(b)) => Some(a == b),
                _ => Some(false),
            },
        },
    }
}

/// The label of a `tcbstatus` entry in diagnostics; none for other keys.
pub open spec fn azure_diagnose_spec(key: i64, v: VModel) -> Option<Seq<char>> {
    if key != MVAL_TCBSTATUS {
        None
    } else {
        match tcb_status_spec(v) {
            Some(TcbStatus::UpToDate) => Some("tcbstatus = UpToDate"@),
            Some(TcbStatus::OutOfDate) => Some("tcbstatus = OutOfDate"@),
            None => Some("tcbstatus = <invalid>"@),
        }
    }
}

/// The Azure profile.
#[derive(Debug)]
pub struct AzureProfile {
    id: ProfileChoice,
}

impl AzureProfile {
    /// A profile instance, identified by [`AZURE_PROFILE_URI`].
    pub fn new() -> (p: Self)
        ensures
            p.id_spec() == ProfileChoiceModel::Uri(AZURE_PROFILE_URI@),
    {
        AzureProfile { id: ProfileChoice::Uri(String::from_str(AZURE_PROFILE_URI)) }
    }

    /// Appraise the `tcbstatus` extension entries of a reference measurement against the
    /// evidence's (see [`azure_verdict_spec`]).
    pub fn extension_verdict(reference: &Vec<(i64, Value)>, evidence: &Vec<(i64, Value)>) -> (r: Option<bool>)
        ensures
            r == azure_verdict_spec(entries_model(reference@), entries_model(evidence@)),
    {
        let rv = match lookup_entry(reference, MVAL_TCBSTATUS) {
            Some(v) => v,
            None => return None,
        };
        let ev = match lookup_entry(evidence, MVAL_TCBSTATUS) {
            Some(v) => v,
            None => return Some(false),
        };
        match (TcbStatus::parse(rv), TcbStatus::parse(ev)) {
            (Some(a), Some(b)) => Some(a == b),
            _ => Some(false),
        }
    }
}

impl Default for AzureProfile {
    /// The same as [`AzureProfile::new`].
    fn default() -> (p: Self)
        ensures
            p.id_spec() == ProfileChoiceModel::Uri(AZURE_PROFILE_URI@),
    {
        AzureProfile::new()
    }
}

impl Profile for AzureProfile {
    closed spec fn id_spec(&self) -> ProfileChoiceModel {
        self.id@
    }

    fn identifier(&self) -> (r: &ProfileChoice) {
        &self.id
    }

    fn diagnose_mval_entry(&self, key: i64, value: &Value) -> (r: Option<String>)
        ensures
            r matches Some(s) ==> azure_diagnose_spec(key, value@) == Some(s@),
            r is None ==> azure_diagnose_spec(key, value@) is None,
    {
        if key != MVAL_TCBSTATUS {
            return None;
        }
        match TcbStatus::parse(value) {
            Some(TcbStatus::UpToDate) => Some(String::from_str("tcbstatus = UpToDate")),
            Some(TcbStatus::OutOfDate) => Some(String::from_str("tcbstatus = OutOfDate")),
            None => Some(String::from_str("tcbstatus = <invalid>")),
        }
    }
}

} // verus!
