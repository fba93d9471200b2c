use kubernetes_auth::certificate::{
    cert_is_currently_valid, validate_client_certificate, CertificateAction, CertificateCheck,
    CertificateEvent, ParsedCertificate, StoredCertificate, Timestamp,
};
use kubernetes_auth::identity::User;
use kubernetes_auth::pem::der_to_pem;

const DER: [u8; 5] = *b"hello";

fn at(nanos: i128) -> Timestamp {
    Timestamp { nanos }
}

fn alice() -> User {
    User { id: 7, username: "alice".to_string(), credential_policy: None }
}

fn parsed() -> ParsedCertificate {
    ParsedCertificate { not_before: at(10), not_after: at(20), serial_base64: "AQID".to_string() }
}

fn stored(pem: &str, has_owner: bool) -> StoredCertificate {
    StoredCertificate { certificate_pem: pem.to_string(), has_owner }
}

fn check() -> CertificateCheck<&'static str> {
    validate_client_certificate(&DER)
}

/// The check up to where the stored credentials are loaded.
fn loading() -> CertificateCheck<&'static str> {
    check()
        .resume(CertificateEvent::Parsed(Ok(parsed())))
        .resume(CertificateEvent::Clock(at(15)))
        .resume(CertificateEvent::Revoked(Ok(false)))
}

#[test]
fn validity_bounds_are_inclusive() {
    assert!(cert_is_currently_valid(at(10), at(20), at(10)));
    assert!(cert_is_currently_valid(at(10), at(20), at(20)));
    assert!(!cert_is_currently_valid(at(10), at(20), at(9)));
    assert!(!cert_is_currently_valid(at(10), at(20), at(21)));
    assert!(!cert_is_currently_valid(at(20), at(10), at(15)));
    assert!(cert_is_currently_valid(at(-5), at(0), at(-1)));
}

#[test]
fn certificate_is_parsed_from_pem() {
    let check = check();
    match check.pending() {
        CertificateAction::Parse(pem) => assert_eq!(*pem, der_to_pem(&DER)),
        other => panic!("{other:?}"),
    }
}

#[test]
fn known_certificate_authenticates_its_owner() {
    let check = loading();
    assert!(matches!(check.pending(), CertificateAction::LoadCredentials));
    let pem = der_to_pem(&DER).replace('\n', "\r\n");
    let check = check.resume(CertificateEvent::Credentials(Ok(vec![
        stored(&der_to_pem(b"other"), true),
        stored(&pem, false),
        stored(&pem, true),
        stored(&pem, true),
    ])));
    assert!(matches!(check.pending(), CertificateAction::RecordUse(2)));
    // A failure to record the use does not matter.
    let check = check.resume(CertificateEvent::UseRecorded(Err("read only")));
    assert!(matches!(check.pending(), CertificateAction::LoadOwner(2)));
    match check.resume(CertificateEvent::Owner(Ok(alice()))) {
        CertificateCheck::Done(Ok(Some(user))) => assert_eq!(user.username, "alice"),
        other => panic!("{other:?}"),
    }
}

#[test]
fn unknown_certificate_is_rejected() {
    let check = loading().resume(CertificateEvent::Credentials(Ok(vec![
        stored(&der_to_pem(b"other"), true),
        stored(&der_to_pem(&DER), false),
    ])));
    assert!(matches!(check, CertificateCheck::Done(Ok(None))));
    assert!(matches!(check.pending(), CertificateAction::Finished));
}

#[test]
fn expired_certificate_is_rejected_before_any_lookup() {
    for now in [9, 21] {
        let check = check()
            .resume(CertificateEvent::Parsed(Ok(parsed())))
            .resume(CertificateEvent::Clock(at(now)));
        assert!(matches!(check, CertificateCheck::Done(Ok(None))));
    }
}

#[test]
fn revoked_certificate_is_rejected() {
    let check = check()
        .resume(CertificateEvent::Parsed(Ok(parsed())))
        .resume(CertificateEvent::Clock(at(10)));
    match check.pending() {
        CertificateAction::CheckRevocation(serial) => assert_eq!(serial, "AQID"),
        other => panic!("{other:?}"),
    }
    let check = check.resume(CertificateEvent::Revoked(Ok(true)));
    assert!(matches!(check, CertificateCheck::Done(Ok(None))));
}

#[test]
fn faults_are_passed_on() {
    let parse = check().resume(CertificateEvent::Parsed(Err("parse")));
    assert!(matches!(parse, CertificateCheck::Done(Err("parse"))));
    let revocation = check()
        .resume(CertificateEvent::Parsed(Ok(parsed())))
        .resume(CertificateEvent::Clock(at(15)))
        .resume(CertificateEvent::Revoked(Err("db")));
    assert!(matches!(revocation, CertificateCheck::Done(Err("db"))));
    let credentials = loading().resume(CertificateEvent::Credentials(Err("db")));
    assert!(matches!(credentials, CertificateCheck::Done(Err("db"))));
    let owner = loading()
        .resume(CertificateEvent::Credentials(Ok(vec![stored(&der_to_pem(&DER), true)])))
        .resume(CertificateEvent::UseRecorded(Ok(())))
        .resume(CertificateEvent::Owner(Err("malformed")));
    assert!(matches!(owner, CertificateCheck::Done(Err("malformed"))));
}

#[test]
fn unexpected_certificate_answer_is_a_rejection() {
    let check = check().resume(CertificateEvent::Owner(Ok(alice())));
    assert!(matches!(check, CertificateCheck::Done(Ok(None))));
}
