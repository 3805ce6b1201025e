use corim::cbor::Value;
use corim::profile::azure::{AzureProfile, MVAL_TCBSTATUS};
use corim::profile::cca::{is_cca_platform_mkey, is_cca_realm_mkey, CcaPlatformProfile, CcaRealmProfile};
use corim::profile::psa::{is_valid_cert_num, PsaProfile, MVAL_PSA_CERT_NUM, PSA_PROFILE_URI};
use corim::profile::{Profile, ProfileRegistry};
use corim::types::corim::ProfileChoice;

#[test]
fn psa_cert_num_format() {
    assert!(is_valid_cert_num("1234567890123 - 12345"));
    assert!(!is_valid_cert_num("1234567890123-12345"));
    assert!(!is_valid_cert_num("123456789012a - 12345"));
    assert!(!is_valid_cert_num("1234567890123 - 1234"));
}

#[test]
fn psa_profile_identifier_and_aliases() {
    let p = PsaProfile::new();
    assert_eq!(p.identifier(), &ProfileChoice::Uri(PSA_PROFILE_URI.into()));
    assert_eq!(p.mval_json_alias("psa-cert-num"), Some(MVAL_PSA_CERT_NUM));
    assert_eq!(p.mval_json_alias("other"), None);
    assert_eq!(p.mval_json_name(100), Some("psa-cert-num"));
    assert_eq!(p.mval_json_name(101), None);
    assert_eq!(
        p.diagnose_mval_entry(100, &Value::Text("1234567890123 - 12345".into())),
        Some("psa-cert-num = 1234567890123 - 12345".to_string())
    );
    assert_eq!(p.diagnose_mval_entry(100, &Value::Integer(1)), Some("psa-cert-num = <invalid>".to_string()));
    assert_eq!(p.diagnose_mval_entry(1, &Value::Integer(1)), None);
}

#[test]
fn psa_verdicts() {
    let good = vec![(MVAL_PSA_CERT_NUM, Value::Text("1234567890123 - 12345".into()))];
    let other = vec![(MVAL_PSA_CERT_NUM, Value::Text("1234567890123 - 54321".into()))];
    assert_eq!(PsaProfile::extension_verdict(&vec![], &good), None);
    assert_eq!(PsaProfile::extension_verdict(&good, &vec![]), Some(false));
    assert_eq!(PsaProfile::extension_verdict(&good, &good), Some(true));
    assert_eq!(PsaProfile::extension_verdict(&good, &other), Some(false));
}

#[test]
fn azure_verdicts_and_labels() {
    let up = vec![(MVAL_TCBSTATUS, Value::Text("UpToDate".into()))];
    let out = vec![(MVAL_TCBSTATUS, Value::Text("OutOfDate".into()))];
    let bad = vec![(MVAL_TCBSTATUS, Value::Text("Stale".into()))];
    assert_eq!(AzureProfile::extension_verdict(&vec![], &up), None);
    assert_eq!(AzureProfile::extension_verdict(&up, &up), Some(true));
    assert_eq!(AzureProfile::extension_verdict(&up, &out), Some(false));
    assert_eq!(AzureProfile::extension_verdict(&up, &bad), Some(false));
    assert_eq!(AzureProfile::extension_verdict(&up, &vec![]), Some(false));
    let p = AzureProfile::new();
    assert_eq!(p.diagnose_mval_entry(-700, &Value::Text("OutOfDate".into())), Some("tcbstatus = OutOfDate".to_string()));
    assert_eq!(p.diagnose_mval_entry(-700, &Value::Null), Some("tcbstatus = <invalid>".to_string()));
    assert_eq!(p.diagnose_mval_entry(5, &Value::Null), None);
}

#[test]
fn cca_measured_element_names() {
    assert!(is_cca_platform_mkey("cca.software-component"));
    assert!(is_cca_platform_mkey("cca.platform-config"));
    assert!(is_cca_platform_mkey("cca.rotpk.CM.7.5"));
    assert!(is_cca_platform_mkey("cca.rotpk.DM.0.0"));
    assert!(!is_cca_platform_mkey("cca.rotpk.CM.8.0"));
    assert!(!is_cca_platform_mkey("cca.rotpk.CM.0.6"));
    assert!(!is_cca_platform_mkey("cca.rotpk.XM.0.0"));
    assert!(!is_cca_platform_mkey("cca.rotpk.CM.0.0.1"));
    assert!(!is_cca_platform_mkey("cca.rim"));
    assert!(is_cca_realm_mkey("cca.rim"));
    assert!(is_cca_realm_mkey("cca.rpv"));
    assert!(!is_cca_realm_mkey("cca.rem4"));
    assert_eq!(
        CcaPlatformProfile::new().identifier(),
        &ProfileChoice::Uri("tag:arm.com,2025:endorsements/cca_platform#1.0.0".into())
    );
    assert_eq!(
        CcaRealmProfile::new().identifier(),
        &ProfileChoice::Uri("tag:arm.com,2025:endorsements/cca_realm#1.0.0".into())
    );
}

#[test]
fn registry_holds_profiles_by_identifier() {
    let mut reg = ProfileRegistry::new();
    assert!(reg.is_empty());
    assert!(reg.register(Box::new(PsaProfile::new())).is_none());
    assert!(reg.register(Box::new(CcaRealmProfile::new())).is_none());
    assert!(reg.register(Box::new(AzureProfile::new())).is_none());
    assert_eq!(reg.len(), 3);
    let psa_id = ProfileChoice::Uri(PSA_PROFILE_URI.into());
    let found = reg.get(&psa_id).expect("registered");
    assert_eq!(found.identifier(), &psa_id);
    let replaced = reg.register(Box::new(PsaProfile::new())).expect("replaced");
    assert_eq!(replaced.identifier(), &psa_id);
    assert_eq!(reg.len(), 3);
    assert_eq!(reg.iter().len(), 3);
    assert!(reg.get(&ProfileChoice::Uri("urn:none".into())).is_none());
}

#[test]
fn cca_rotpk_names_are_single_digit_and_bounded() {
    assert!(is_cca_platform_mkey("cca.rotpk.CM.7.5"));
    assert!(is_cca_platform_mkey("cca.rotpk.DM.0.0"));
    assert!(!is_cca_platform_mkey("cca.rotpk.CM.8.0"));
    assert!(!is_cca_platform_mkey("cca.rotpk.DM.0.6"));
    assert!(!is_cca_platform_mkey("cca.rotpk.CM.07.1"));
    assert!(!is_cca_platform_mkey("cca.rotpk.CM.0.0.0"));
    assert!(!is_cca_platform_mkey("cca.rotpk.XM.0.0"));
}

#[test]
fn profile_defaults_are_new() {
    assert_eq!(PsaProfile::default().identifier(), PsaProfile::new().identifier());
    assert_eq!(AzureProfile::default().identifier(), AzureProfile::new().identifier());
    assert_eq!(CcaRealmProfile::default().identifier(), CcaRealmProfile::new().identifier());
    assert_eq!(CcaPlatformProfile::default().identifier(), CcaPlatformProfile::new().identifier());
}
