use kubernetes_auth::identity::{
    AuthCredential, CredentialKind, CredentialPolicy, KubernetesAuthentication, User,
};
use kubernetes_auth::policy::supported_credential_types;

fn user(policy: Option<Option<Vec<CredentialKind>>>) -> User {
    User {
        id: 7,
        username: "alice".to_string(),
        credential_policy: policy.map(|kubernetes| CredentialPolicy { kubernetes }),
    }
}

fn oidc() -> KubernetesAuthentication {
    KubernetesAuthentication::Oidc {
        user: user(None),
        credential: AuthCredential::Sso {
            provider: "google".to_string(),
            email: "alice@example.com".to_string(),
        },
    }
}

#[test]
fn source_tells_oidc_apart() {
    assert_eq!(KubernetesAuthentication::User(user(None)).authentication_source(), "user");
    assert_eq!(oidc().authentication_source(), "oidc");
}

#[test]
fn both_kinds_have_a_user() {
    let plain = KubernetesAuthentication::User(user(None));
    for authentication in [&plain, &oidc()] {
        let info = authentication.user_info();
        assert_eq!((info.id, info.username.as_str()), (7, "alice"));
        assert_eq!(authentication.user().username, "alice");
    }
}

#[test]
fn only_oidc_has_a_credential() {
    let plain = KubernetesAuthentication::User(user(None));
    assert!(plain.oidc_user().is_none());
    assert!(plain.credential().is_none());
    assert_eq!(supported_credential_types(&plain), vec![CredentialKind::WebUserApproval]);
    let oidc = oidc();
    assert_eq!(oidc.oidc_user().unwrap().id, 7);
    assert_eq!(oidc.credential().unwrap().kind(), CredentialKind::Sso);
    assert_eq!(
        supported_credential_types(&oidc),
        vec![CredentialKind::WebUserApproval, CredentialKind::Sso]
    );
}

#[test]
fn empty_policy_is_no_policy() {
    assert!(!user(None).kubernetes_policy_configured());
    assert!(!user(Some(None)).kubernetes_policy_configured());
    assert!(!user(Some(Some(vec![]))).kubernetes_policy_configured());
    assert!(user(Some(Some(vec![CredentialKind::Other]))).kubernetes_policy_configured());
}
