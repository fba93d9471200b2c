use kubernetes_auth::error::AuthError;
use kubernetes_auth::identity::{AuthCredential, KubernetesAuthentication, User};
use kubernetes_auth::request::RequestCredentials;
use kubernetes_auth::transport::{
    authenticate, user_for_username, IdTokenClaims, SsoFailure, SsoProvider, TransportAction,
    TransportAuth, TransportEvent,
};

type Auth = TransportAuth<&'static str>;

fn start(token: bool, certificate: bool) -> Auth {
    authenticate(RequestCredentials {
        authorization: if token { Some(b"Bearer abc".to_vec()) } else { None },
        client_certificate: if certificate { Some(vec![1, 2, 3]) } else { None },
    })
}

fn alice() -> User {
    User { id: 7, username: "alice".to_string(), credential_policy: None }
}

fn provider(name: &str, kubernetes: bool, issuer: Option<&str>) -> SsoProvider {
    SsoProvider { name: name.to_string(), kubernetes, issuer: issuer.map(|url| url.to_string()) }
}

/// The authentication after no API token matched and the providers were listed.
fn searching(certificate: bool, issuer: Option<&str>, providers: Vec<SsoProvider>) -> Auth {
    start(true, certificate)
        .resume(TransportEvent::ApiToken(Ok(None)))
        .resume(TransportEvent::Providers {
            token_issuer: issuer.map(|url| url.to_string()),
            providers,
        })
}

fn verified(email: Option<&str>) -> TransportEvent<&'static str> {
    TransportEvent::IdToken(Ok(IdTokenClaims { email: email.map(|email| email.to_string()) }))
}

fn asks_provider(auth: &Auth) -> Option<usize> {
    match auth.pending() {
        TransportAction::VerifyIdToken { index, token } => {
            assert_eq!(token, "abc");
            Some(index)
        }
        _ => None,
    }
}

fn is_nobody(auth: &Auth) -> bool {
    matches!(auth, TransportAuth::Done(Ok(None)))
}

#[test]
fn api_token_is_tried_first() {
    let auth = start(true, true);
    assert!(matches!(auth.pending(), TransportAction::ValidateApiToken(token) if token == "abc"));
    match auth.resume(TransportEvent::ApiToken(Ok(Some(alice())))) {
        TransportAuth::Done(Ok(Some(KubernetesAuthentication::User(user)))) => {
            assert_eq!(user.id, 7);
        }
        other => panic!("{other:?}"),
    }
}

#[test]
fn failed_api_token_lookup_is_passed_on() {
    let auth = start(true, true).resume(TransportEvent::ApiToken(Err("db")));
    assert!(matches!(auth, TransportAuth::Done(Err(AuthError::Backend("db")))));
    assert!(matches!(auth.pending(), TransportAction::Finished));
}

#[test]
fn unknown_api_token_goes_on_with_sso() {
    let auth = start(true, false).resume(TransportEvent::ApiToken(Ok(None)));
    assert!(matches!(auth.pending(), TransportAction::LoadSsoProviders(token) if token == "abc"));
}

#[test]
fn verified_token_gives_an_oidc_identity() {
    let auth = searching(false, None, vec![provider("google", true, None)]);
    assert_eq!(asks_provider(&auth), Some(0));
    let auth = auth.resume(verified(Some("alice@example.com")));
    assert!(matches!(auth.pending(), TransportAction::ResolveUser { index: 0 }));
    let auth = auth.resume(TransportEvent::Resolved(Ok(Some("alice".to_string()))));
    assert!(matches!(auth.pending(), TransportAction::LoadUser(name) if name == "alice"));
    match auth.resume(TransportEvent::UserRow(Ok(Some(Ok(alice()))))) {
        TransportAuth::Done(Ok(Some(KubernetesAuthentication::Oidc { user, credential }))) => {
            assert_eq!(user.id, 7);
            let AuthCredential::Sso { provider, email } = credential;
            assert_eq!((provider.as_str(), email.as_str()), ("google", "alice@example.com"));
        }
        other => panic!("{other:?}"),
    }
}

#[test]
fn token_goes_only_to_eligible_providers() {
    let auth = searching(
        false,
        Some("https://issuer/"),
        vec![
            provider("off", false, Some("https://issuer")),
            provider("foreign", true, Some("https://elsewhere")),
            provider("ours", true, Some("https://issuer//")),
            provider("unknown", true, None),
        ],
    );
    assert_eq!(asks_provider(&auth), Some(2));
    let auth = auth.resume(TransportEvent::IdToken(Err(SsoFailure::Verification)));
    assert_eq!(asks_provider(&auth), Some(3));
    let auth = auth.resume(TransportEvent::IdToken(Err(SsoFailure::ClientInit)));
    assert!(is_nobody(&auth));
}

#[test]
fn token_without_issuer_goes_to_every_kubernetes_provider() {
    let auth = searching(false, None, vec![
        provider("off", false, None),
        provider("one", true, Some("https://elsewhere")),
    ]);
    assert_eq!(asks_provider(&auth), Some(1));
}

#[test]
fn token_without_email_authenticates_nobody() {
    let auth = searching(false, None, vec![provider("google", true, None)]);
    assert!(is_nobody(&auth.resume(verified(None))));
}

#[test]
fn stranger_is_tried_with_the_next_provider() {
    let auth = searching(false, None, vec![
        provider("google", true, None),
        provider("github", true, None),
    ])
    .resume(verified(Some("x@example.com")))
    .resume(TransportEvent::Resolved(Ok(None)));
    assert_eq!(asks_provider(&auth), Some(1));
}

#[test]
fn failed_resolution_is_an_error() {
    let auth = searching(true, None, vec![provider("google", true, None)])
        .resume(verified(Some("x@example.com")))
        .resume(TransportEvent::Resolved(Err("down".to_string())));
    match auth {
        TransportAuth::Done(Err(AuthError::SsoResolution { reason })) => assert_eq!(reason, "down"),
        other => panic!("{other:?}"),
    }
}

#[test]
fn certificate_is_tried_after_the_token() {
    let auth = searching(true, None, vec![provider("off", false, None)]);
    match auth.pending() {
        TransportAction::ValidateCertificate(der) => assert_eq!(*der, vec![1, 2, 3]),
        other => panic!("{other:?}"),
    }
    match auth.resume(TransportEvent::Certificate(Ok(Some(alice())))) {
        TransportAuth::Done(Ok(Some(KubernetesAuthentication::User(user)))) => {
            assert_eq!(user.id, 7);
        }
        other => panic!("{other:?}"),
    }
}

#[test]
fn rejected_certificate_authenticates_nobody() {
    assert!(is_nobody(&start(false, true).resume(TransportEvent::Certificate(Ok(None)))));
}

#[test]
fn faulty_certificate_check_is_an_error() {
    match start(false, true).resume(TransportEvent::Certificate(Err("db".to_string()))) {
        TransportAuth::Done(Err(AuthError::CertificateValidation { reason })) => {
            assert_eq!(reason, "db");
        }
        other => panic!("{other:?}"),
    }
}

#[test]
fn request_without_credentials_is_nobody() {
    let auth = start(false, false);
    assert!(is_nobody(&auth));
    assert!(matches!(auth.pending(), TransportAction::Finished));
}

#[test]
fn user_rows_are_read() {
    let name = || "bob".to_string();
    let missing = user_for_username::<&'static str>(name(), Ok(None));
    assert!(matches!(missing, Err(AuthError::UserNotFound { username }) if username == "bob"));
    let malformed = user_for_username::<&'static str>(name(), Ok(Some(Err("json".to_string()))));
    assert!(matches!(malformed, Err(AuthError::UserConversion { reason }) if reason == "json"));
    let fault = user_for_username(name(), Err("db"));
    assert!(matches!(fault, Err(AuthError::Backend("db"))));
    let found = user_for_username::<&'static str>(name(), Ok(Some(Ok(alice()))));
    assert!(matches!(found, Ok(user) if user.id == 7));
}

#[test]
fn unexpected_transport_answer_authenticates_nobody() {
    assert!(is_nobody(&start(true, true).resume(TransportEvent::Certificate(Ok(Some(alice()))))));
}
