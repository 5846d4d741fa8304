use mitm_proxy::ca::{leaf_profile, root_profile, Digest, Issuer};

fn entries(p: &mitm_proxy::ca::CertProfile) -> Vec<(String, String)> {
    p.subject.iter().map(|e| (e.field.clone(), e.value.clone())).collect()
}

fn expected(cn: &str) -> Vec<(String, String)> {
    vec![
        ("C".to_string(), "CN".to_string()),
        ("ST".to_string(), "GuangDong".to_string()),
        ("O".to_string(), "thlstsul".to_string()),
        ("CN".to_string(), cn.to_string()),
    ]
}

#[test]
fn root_profile_is_a_self_signed_ca() {
    let p = root_profile();
    assert_eq!(entries(&p), expected("thlstsul.github.io"));
    assert_eq!(p.key_bits, 2048);
    assert_eq!(p.version, 2);
    assert!(p.issuer == Issuer::Itself);
    assert!(p.digest == Digest::Sha256);
    assert_eq!(p.serial_bits, 159);
    assert!(p.serial_top_bit_set);
    assert_eq!(p.valid_days, 7300);
    assert!(p.is_ca && p.constraints_critical && p.usage_critical && p.has_subject_key_id);
    assert!(p.key_usage.key_cert_sign && p.key_usage.crl_sign);
    assert!(!p.key_usage.digital_signature && !p.key_usage.non_repudiation && !p.key_usage.key_encipherment);
    assert!(!p.names_issuer_key);
    assert!(p.san_dns.is_none());
}

#[test]
fn leaf_profile_names_the_host() {
    let p = leaf_profile("inspect.test");
    assert_eq!(entries(&p), expected("inspect.test"));
    assert_eq!(p.key_bits, 2048);
    assert_eq!(p.version, 2);
    assert!(p.issuer == Issuer::SigningCa);
    assert!(p.digest == Digest::Sha256);
    assert_eq!(p.serial_bits, 159);
    assert!(p.serial_top_bit_set);
    assert_eq!(p.valid_days, 365);
    assert!(!p.is_ca && !p.constraints_critical);
    assert!(p.usage_critical && p.has_subject_key_id && p.names_issuer_key);
    assert!(p.key_usage.digital_signature && p.key_usage.non_repudiation && p.key_usage.key_encipherment);
    assert!(!p.key_usage.key_cert_sign && !p.key_usage.crl_sign);
    assert_eq!(p.san_dns.as_deref(), Some("inspect.test"));
}
