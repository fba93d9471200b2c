use kubernetes_auth::error::AuthError;
use kubernetes_auth::identity::{ClientIp, KubernetesAuthentication, User};
use kubernetes_auth::login::{
    authenticate_kubernetes_user, authentication_failed, emit_authentication_failed, failed_attempt,
    Login, LoginAction, LoginEvent, LoginStep,
};
use kubernetes_auth::request::RequestCredentials;

const IP: ClientIp = ClientIp::V4(0x7f00_0001);

fn request(token: bool) -> RequestCredentials {
    RequestCredentials {
        authorization: if token { Some(b"Bearer abc".to_vec()) } else { None },
        client_certificate: None,
    }
}

fn login(client_ip: Option<ClientIp>, token: bool) -> Login<&'static str> {
    authenticate_kubernetes_user(client_ip, &request(token))
}

fn alice() -> KubernetesAuthentication {
    KubernetesAuthentication::User(User {
        id: 7,
        username: "alice".to_string(),
        credential_policy: None,
    })
}

fn is_unauthorized(login: &Login<&'static str>) -> bool {
    matches!(login.step, LoginStep::Done(Err(AuthError::Unauthorized)))
}

#[test]
fn blocked_address_is_turned_away_at_once() {
    let login = login(Some(IP), true);
    assert!(matches!(login.pending(), LoginAction::CheckIpBlocked(IP)));
    let login = login.resume(LoginEvent::IpBlocked(Ok(true)));
    assert!(is_unauthorized(&login));
    assert!(matches!(login.pending(), LoginAction::Finished));
}

#[test]
fn failed_block_check_is_a_fault() {
    let login = login(Some(IP), true).resume(LoginEvent::IpBlocked(Err("db")));
    assert!(matches!(login.step, LoginStep::Done(Err(AuthError::Backend("db")))));
}

#[test]
fn unknown_address_is_not_checked() {
    assert!(matches!(login(None, true).pending(), LoginAction::Authenticate));
}

#[test]
fn invalid_credential_is_counted_and_audited() {
    let login = login(Some(IP), true)
        .resume(LoginEvent::IpBlocked(Ok(false)))
        .resume(LoginEvent::Authenticated(Ok(None)));
    match login.pending() {
        LoginAction::RecordFailedAttempt { ip, kind } => {
            assert_eq!((ip, kind), (IP, "token"));
            let attempt = failed_attempt(ip, kind);
            assert_eq!(attempt.username, "");
            assert_eq!(attempt.remote_ip, IP);
            assert_eq!(attempt.protocol, "Kubernetes");
            assert_eq!(attempt.credential_type, "token");
        }
        other => panic!("{other:?}"),
    }
    let login = login.resume(LoginEvent::AttemptRecorded(Err("db")));
    match login.pending() {
        LoginAction::Audit { client_ip, kind, reason } => {
            assert_eq!(client_ip, Some(IP));
            assert_eq!((kind, reason), ("token", "no matching credential"));
        }
        other => panic!("{other:?}"),
    }
    assert!(is_unauthorized(&login.resume(LoginEvent::Audited)));
}

#[test]
fn probe_without_credential_is_not_counted() {
    let login = login(Some(IP), false)
        .resume(LoginEvent::IpBlocked(Ok(false)))
        .resume(LoginEvent::Authenticated(Ok(None)));
    assert!(is_unauthorized(&login));
}

#[test]
fn failure_from_an_unknown_address_is_audited_but_not_counted() {
    let login = login(None, true).resume(LoginEvent::Authenticated(Ok(None)));
    match login.pending() {
        LoginAction::Audit { client_ip, kind, reason } => {
            assert_eq!(client_ip, None);
            assert_eq!((kind, reason), ("token", "no matching credential"));
            let record = emit_authentication_failed(None, kind, reason);
            assert_eq!(record.client_ip, "<unknown>");
            assert_eq!(record.credentials, "token");
        }
        other => panic!("{other:?}"),
    }
    assert!(is_unauthorized(&login.resume(LoginEvent::Audited)));
}

#[test]
fn probe_from_an_unknown_address_is_not_audited() {
    assert!(is_unauthorized(&login(None, false).resume(LoginEvent::Authenticated(Ok(None)))));
}

#[test]
fn authentication_errors_are_passed_on() {
    let error = AuthError::SsoResolution { reason: "down".to_string() };
    let login = login(None, true).resume(LoginEvent::Authenticated(Err(error)));
    assert!(matches!(login.step, LoginStep::Done(Err(AuthError::SsoResolution { .. }))));
}

#[test]
fn vetted_user_logs_in_and_clears_the_counter() {
    let login = login(Some(IP), true)
        .resume(LoginEvent::IpBlocked(Ok(false)))
        .resume(LoginEvent::Authenticated(Ok(Some(alice()))));
    match login.pending() {
        LoginAction::VetBearer { user, client_ip } => {
            assert_eq!((user.id, client_ip), (7, Some(IP)));
        }
        other => panic!("{other:?}"),
    }
    let login = login.resume(LoginEvent::Vetted(Ok(true)));
    match login.pending() {
        LoginAction::ClearFailedAttempts { ip, username } => {
            assert_eq!((ip, username.as_str()), (IP, "alice"));
        }
        other => panic!("{other:?}"),
    }
    let login = login.resume(LoginEvent::AttemptsCleared(Err("db")));
    match login.step {
        LoginStep::Done(Ok(authentication)) => assert_eq!(authentication.user().id, 7),
        other => panic!("{other:?}"),
    }
}

#[test]
fn vetted_user_of_unknown_address_logs_in() {
    let login = login(None, true)
        .resume(LoginEvent::Authenticated(Ok(Some(alice()))))
        .resume(LoginEvent::Vetted(Ok(true)));
    assert!(matches!(login.step, LoginStep::Done(Ok(_))));
}

#[test]
fn user_who_is_not_vetted_is_turned_away() {
    let vetting = || login(None, true).resume(LoginEvent::Authenticated(Ok(Some(alice()))));
    assert!(is_unauthorized(&vetting().resume(LoginEvent::Vetted(Ok(false)))));
    let fault = vetting().resume(LoginEvent::Vetted(Err("db")));
    assert!(matches!(fault.step, LoginStep::Done(Err(AuthError::Backend("db")))));
}

#[test]
fn unexpected_login_answer_fails_closed() {
    assert!(is_unauthorized(&login(Some(IP), true).resume(LoginEvent::Vetted(Ok(true)))));
}

#[test]
fn audit_record_names_the_address() {
    let record = authentication_failed(5, Some("127.0.0.1".to_string()), "token", "why");
    assert_eq!(record.session, 5);
    assert_eq!(record.client_ip, "127.0.0.1");
    assert_eq!(record.username, "");
    assert_eq!(record.credentials, "token");
    assert_eq!(record.reason, "why");
    assert_eq!(authentication_failed(5, None, "token", "why").client_ip, "<unknown>");
}

#[test]
fn audit_records_are_tagged_one_by_one() {
    let first = emit_authentication_failed(None, "certificate", "why");
    let second = emit_authentication_failed(None, "certificate", "why");
    assert_ne!(first.session, second.session);
    for record in [first, second] {
        let id = uuid::Uuid::from_u128(record.session);
        assert_eq!(id.get_version_num(), 4);
        assert_eq!(id.get_variant(), uuid::Variant::RFC4122);
        assert_eq!(record.credentials, "certificate");
    }
}
