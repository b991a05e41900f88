use openssl::asn1::Asn1Time;
use openssl::hash::MessageDigest;
use openssl::pkey::PKey;
use openssl::rsa::Rsa;
use openssl::x509::extension::SubjectAlternativeName;
use openssl::x509::{X509Builder, X509NameBuilder, X509};
use trotter::cert::{check_certificate, check_names, name_matches, split_labels};
use trotter::error::ActorError;
use trotter::text::chars_of;

fn certificate(dns: &[&str], with_ip: bool) -> X509 {
    let key = PKey::from_rsa(Rsa::generate(2048).unwrap()).unwrap();
    let mut name = X509NameBuilder::new().unwrap();
    name.append_entry_by_text("CN", "test").unwrap();
    let name = name.build();
    let mut builder = X509Builder::new().unwrap();
    builder.set_version(2).unwrap();
    builder.set_subject_name(&name).unwrap();
    builder.set_issuer_name(&name).unwrap();
    builder.set_pubkey(&key).unwrap();
    builder.set_not_before(&Asn1Time::days_from_now(0).unwrap()).unwrap();
    builder.set_not_after(&Asn1Time::days_from_now(1).unwrap()).unwrap();
    if !dns.is_empty() || with_ip {
        let mut san = SubjectAlternativeName::new();
        for d in dns {
            san.dns(d);
        }
        if with_ip {
            san.ip("127.0.0.1");
        }
        let extension = san.build(&builder.x509v3_context(None, None)).unwrap();
        builder.append_extension(extension).unwrap();
    }
    builder.sign(&key, MessageDigest::sha256()).unwrap();
    builder.build()
}

fn some(names: &[Option<&str>]) -> Option<Vec<Option<String>>> {
    Some(names.iter().map(|n| n.map(|s| s.to_string())).collect())
}

#[test]
fn wildcard_name_covers_one_label() {
    for d in ["example.org", "org", "a.b.c", "", "*.x", "?.x", "tld.", "x.tld", "t"] {
        let name = format!("*.{}", d);
        assert!(name_matches(&name, &format!("sub.{}", d)), "{:?}", d);
        assert!(!name_matches(&name, d), "{:?}", d);
        assert!(!name_matches(&name, "other.tld"), "{:?}", d);
    }
    assert!(name_matches("*.tld", "other.tld"));
    assert!(name_matches("*.t?d", "other.tld"));
    assert!(name_matches("*.*", "other.tld"));
}

#[test]
fn wildcard_does_not_reach_across_a_dot() {
    assert!(name_matches("*.example.org", "mail.example.org"));
    assert!(!name_matches("*.example.org", "a.b.example.org"));
    assert!(!name_matches("*.example.org", "example.org"));
    assert!(!name_matches("*", "example.org"));
    assert!(name_matches("*", "localhost"));
    assert!(name_matches("m*l.ex?mple.org", "mail.example.org"));
    assert!(!name_matches("m*l.ex?mple.org", "mail.exmple.org"));
}

#[test]
fn names_match_themselves_and_case_counts() {
    assert!(name_matches("example.org", "example.org"));
    assert!(!name_matches("example.org", "Example.org"));
    assert!(!name_matches("example.org", "example.com"));
    assert!(!name_matches("example.org", "example.org."));
    assert!(name_matches("", ""));
}

#[test]
fn labels_of_names() {
    let name = chars_of("a..b.");
    let labels: Vec<String> = split_labels(&name).into_iter().map(|l| l.iter().collect()).collect();
    assert_eq!(labels, vec!["a", "", "b", ""]);
    let name = chars_of("");
    assert_eq!(split_labels(&name).len(), 1);
}

#[test]
fn names_are_checked() {
    assert!(check_names(some(&[Some("a.org"), None, Some("*.b.org")]), "x.b.org").is_ok());
    assert!(check_names(some(&[Some("x.b.org")]), "x.b.org").is_ok());
}

#[test]
fn names_without_dns_names() {
    assert!(matches!(check_names(None, "a.org"), Err(ActorError::NoDomains)));
    assert!(matches!(check_names(some(&[]), "a.org"), Err(ActorError::NoDomains)));
    assert!(matches!(check_names(some(&[None, None]), "a.org"), Err(ActorError::NoDomains)));
}

#[test]
fn names_for_other_domains() {
    match check_names(some(&[Some("a.org"), None, Some("*.b.org")]), "b.org") {
        Err(ActorError::DomainUncerified(names, asked)) => {
            assert_eq!(names, vec!["a.org".to_string(), "*.b.org".to_string()]);
            assert_eq!(asked, "b.org");
        },
        other => panic!("{:?}", other),
    }
}

#[test]
fn certificate_is_checked_against_the_domain() {
    let cert = certificate(&["example.org", "*.example.org"], true);
    let pem = cert.to_pem().unwrap();
    let kept = check_certificate(Some(cert), "mail.example.org").unwrap();
    assert_eq!(kept.to_pem().unwrap(), pem);
    let cert = certificate(&["example.org"], false);
    assert!(check_certificate(Some(cert), "example.org").is_ok());
}

#[test]
fn certificate_for_another_domain() {
    let cert = certificate(&["example.org", "*.example.org"], true);
    match check_certificate(Some(cert), "example.com") {
        Err(ActorError::DomainUncerified(names, asked)) => {
            assert_eq!(names, vec!["example.org".to_string(), "*.example.org".to_string()]);
            assert_eq!(asked, "example.com");
        },
        other => panic!("{:?}", other.map(|_| ())),
    }
}

#[test]
fn certificate_without_names_or_missing() {
    assert!(matches!(check_certificate(Some(certificate(&[], false)), "a.org"), Err(ActorError::NoDomains)));
    assert!(matches!(check_certificate(Some(certificate(&[], true)), "a.org"), Err(ActorError::NoDomains)));
    assert!(matches!(check_certificate(None, "a.org"), Err(ActorError::NoCertificate)));
}
