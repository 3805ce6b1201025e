//! Arm CCA endorsement profiles: the platform profile
//! (`tag:arm.com,2025:endorsements/cca_platform#1.0.0`) and the realm profile
//! (`tag:arm.com,2025:endorsements/cca_realm#1.0.0`), and the measured-element names each
//! recognises.
use vstd::prelude::*;
use vstd::utf8::*;
use crate::profile::Profile;
use crate::text::str_eq;
use crate::types::corim::{ProfileChoice, ProfileChoiceModel};

verus! {

/// Profile URI of [`CcaPlatformProfile`].
pub const CCA_PLATFORM_PROFILE_URI: &'static str = "tag:arm.com,2025:endorsements/cca_platform#1.0.0";
/// Profile URI of [`CcaRealmProfile`].
pub const CCA_REALM_PROFILE_URI: &'static str = "tag:arm.com,2025:endorsements/cca_realm#1.0.0";
/// Platform software component.
pub const CCA_MKEY_SOFTWARE_COMPONENT: &'static str = "cca.software-component";
/// Platform configuration.
pub const CCA_MKEY_PLATFORM_CONFIG: &'static str = "cca.platform-config";
/// Platform manufacturing configuration.
pub const CCA_MKEY_PLATFORM_MANUFACTURING_CONFIG: &'static str = "cca.platform-manufacturing-config";
/// Prefix of the root-of-trust public key names `cca.rotpk.<CM|DM>.<index>.<slot>`.
pub const CCA_MKEY_ROTPK_PREFIX: &'static str = "cca.rotpk.";
/// Realm initial measurement.
pub const CCA_MKEY_RIM: &'static str = "cca.rim";
/// Realm extensible measurement 0.
pub const CCA_MKEY_REM0: &'static str = "cca.rem0";
/// Realm extensible measurement 1.
pub const CCA_MKEY_REM1: &'static str = "cca.rem1";
/// Realm extensible measurement 2.
pub const CCA_MKEY_REM2: &'static str = "cca.rem2";
/// Realm extensible measurement 3.
pub const CCA_MKEY_REM3: &'static str = "cca.rem3";
/// Realm personalization value.
pub const CCA_MKEY_RPV: &'static str = "cca.rpv";

/// The bytes of `cca.rotpk.`.
pub open spec fn rotpk_prefix() -> Seq<u8> {
    seq![0x63u8, 0x63, 0x61, 0x2e, 0x72, 0x6f, 0x74, 0x70, 0x6b, 0x2e]
}

/// `cca.rotpk.<CM|DM>.<index>.<slot>` with a one-digit index up to 7 and a one-digit slot
/// up to 5, as bytes.
pub open spec fn rotpk_spec(b: Seq<u8>) -> bool {
    &&& b.len() == 16
    &&& b.subrange(0, 10) == rotpk_prefix()
    &&& b[10] == 0x43 || b[10] == 0x44
    &&& b[11] == 0x4d
    &&& b[12] == 0x2e
    &&& 0x30 <= b[13] <= 0x37
    &&& b[14] == 0x2e
    &&& 0x30 <= b[15] <= 0x35
}

fn is_rotpk_mkey(name: &str) -> (r: bool)
    ensures
        r == rotpk_spec(encode_utf8(name@)),
{
    let b = name.as_bytes();
    if b.len() != 16 {
        return false;
    }
    let prefix = [0x63u8, 0x63, 0x61, 0x2e, 0x72, 0x6f, 0x74, 0x70, 0x6b, 0x2e];
    let mut i: usize = 0;
    while i < 10
        invariant
            b@ == encode_utf8(name@),
            b@.len() == 16,
            i <= 10,
            prefix@ == rotpk_prefix(),
            forall|j: int| 0 <= j < i ==> b@[j] == rotpk_prefix()[j],
        decreases 10 - i,
    {
        if b[i] != prefix[i] {
            proof {
                assert(b@.subrange(0, 10)[i as int] != rotpk_prefix()[i as int]);
            }
            return false;
        }
        i = i + 1;
    }
    proof {
        assert(b@.subrange(0, 10) =~= rotpk_prefix());
    }
    (b[10] == 0x43 || b[10] == 0x44) && b[11] == 0x4d && b[12] == 0x2e && b[13] >= 0x30 && b[13]
        <= 0x37 && b[14] == 0x2e && b[15] >= 0x30 && b[15] <= 0x35
}

/// The measured-element names of the platform profile.
pub open spec fn cca_platform_mkey_spec(s: Seq<char>) -> bool {
    s == CCA_MKEY_SOFTWARE_COMPONENT@ || s == CCA_MKEY_PLATFORM_CONFIG@ || s
        == CCA_MKEY_PLATFORM_MANUFACTURING_CONFIG@ || rotpk_spec(encode_utf8(s))
}

/// Whether `name` is a measured-element name of the platform profile: the software
/// component, the two configurations, or a root-of-trust public key name.
pub fn is_cca_platform_mkey(name: &str) -> (r: bool)
    ensures
        r == cca_platform_mkey_spec(name@),
{
    str_eq(name, CCA_MKEY_SOFTWARE_COMPONENT) || str_eq(name, CCA_MKEY_PLATFORM_CONFIG) || str_eq(
        name,
        CCA_MKEY_PLATFORM_MANUFACTURING_CONFIG,
    ) || is_rotpk_mkey(name)
}

/// The measured-element names of the realm profile.
pub open spec fn cca_realm_mkey_spec(s: Seq<char>) -> bool {
    s == CCA_MKEY_RIM@ || s == CCA_MKEY_REM0@ || s == CCA_MKEY_REM1@ || s == CCA_MKEY_REM2@ || s
        == CCA_MKEY_REM3@ || s == CCA_MKEY_RPV@
}

/// Whether `name` is a measured-element name of the realm profile.
pub fn is_cca_realm_mkey(name: &str) -> (r: bool)
    ensures
        r == cca_realm_mkey_spec(name@),
{
    str_eq(name, CCA_MKEY_RIM) || str_eq(name, CCA_MKEY_REM0) || str_eq(name, CCA_MKEY_REM1)
        || str_eq(name, CCA_MKEY_REM2) || str_eq(name, CCA_MKEY_REM3) || str_eq(name, CCA_MKEY_RPV)
}

/// The CCA platform profile.
#[derive(Clone, Debug, PartialEq)]
pub struct CcaPlatformProfile {
    id: ProfileChoice,
}

impl CcaPlatformProfile {
    /// A profile instance, identified by [`CCA_PLATFORM_PROFILE_URI`].
    pub fn new() -> (p: Self)
        ensures
            p.id_spec() == ProfileChoiceModel::Uri(CCA_PLATFORM_PROFILE_URI@),
    {
        CcaPlatformProfile { id: ProfileChoice::Uri(String::from_str(CCA_PLATFORM_PROFILE_URI)) }
    }
}

impl Default for CcaPlatformProfile {
    /// The same as [`CcaPlatformProfile::new`].
    fn default() -> (p: Self)
        ensures
            p.id_spec() == ProfileChoiceModel::Uri(CCA_PLATFORM_PROFILE_URI@),
    {
        CcaPlatformProfile::new()
    }
}

impl Profile for CcaPlatformProfile {
    closed spec fn id_spec(&self) -> ProfileChoiceModel {
        self.id@
    }

    fn identifier(&self) -> (r: &ProfileChoice) {
        &self.id
    }
}

/// The CCA realm profile.
#[derive(Clone, Debug, PartialEq)]
pub struct CcaRealmProfile {
    id: ProfileChoice,
}

impl CcaRealmProfile {
    /// A profile instance, identified by [`CCA_REALM_PROFILE_URI`].
    pub fn new() -> (p: Self)
        ensures
            p.id_spec() == ProfileChoiceModel::Uri(CCA_REALM_PROFILE_URI@),
    {
        CcaRealmProfile { id: ProfileChoice::Uri(String::from_str(CCA_REALM_PROFILE_URI)) }
    }
}

impl Default for CcaRealmProfile {
    /// The same as [`CcaRealmProfile::new`].
    fn default() -> (p: Self)
        ensures
            p.id_spec() == ProfileChoiceModel::Uri(CCA_REALM_PROFILE_URI@),
    {
        CcaRealmProfile::new()
    }
}

impl Profile for CcaRealmProfile {
    closed spec fn id_spec(&self) -> ProfileChoiceModel {
        self.id@
    }

    fn identifier(&self) -> (r: &ProfileChoice) {
        &self.id
    }
}

} // verus!
