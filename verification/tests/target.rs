use kubernetes_auth::client::{KubernetesTargetAuth, TargetKubernetesOptions, TlsOptions};
use kubernetes_auth::error::AuthError;
use kubernetes_auth::identity::{
    AuthCredential, ClientIp, CredentialKind, CredentialPolicy, KubernetesAuthentication, User,
};
use kubernetes_auth::policy::{
    AuthResult, AuthorizedIdentity, IdentityAction, IdentityEvent, PolicyAction, PolicyEvent,
};
use kubernetes_auth::target::{
    authorize_kubernetes_target, lookup_k8s_target, GrantAction, GrantCheck,
    KubernetesTargetAuthorization, Target, TargetAction, TargetAuth, TargetAuthorization,
    TargetEvent, TargetOptions, TargetRequest, TargetStep,
};

type Auth<'a> = TargetAuth<'a, &'static str>;

const IP: ClientIp = ClientIp::V6(1);

fn user(policy: Vec<CredentialKind>) -> User {
    User {
        id: 7,
        username: "alice".to_string(),
        credential_policy: Some(CredentialPolicy { kubernetes: Some(policy) }),
    }
}

fn plain(policy: Vec<CredentialKind>) -> KubernetesAuthentication {
    KubernetesAuthentication::User(user(policy))
}

fn oidc(policy: Vec<CredentialKind>) -> KubernetesAuthentication {
    KubernetesAuthentication::Oidc {
        user: user(policy),
        credential: AuthCredential::Sso {
            provider: "google".to_string(),
            email: "alice@example.com".to_string(),
        },
    }
}

fn kubernetes() -> Target {
    Target {
        id: 9,
        name: "prod".to_string(),
        options: TargetOptions::Kubernetes(TargetKubernetesOptions {
            cluster_url: "https://k8s".to_string(),
            tls: TlsOptions { verify: true },
            auth: KubernetesTargetAuth::IamRole,
        }),
    }
}

fn grant(authentication: &KubernetesAuthentication) -> TargetAuthorization {
    TargetAuthorization { user_info: authentication.user_info(), target: kubernetes() }
}

fn start<'a>(authentication: &'a KubernetesAuthentication, target_name: &'a String) -> Auth<'a> {
    authorize_kubernetes_target(TargetRequest { authentication, target_name, session_id: 11 })
}

fn policy(event: PolicyEvent<&'static str>) -> TargetEvent<&'static str> {
    TargetEvent::Identity(IdentityEvent::Policy(event))
}

fn found() -> TargetEvent<&'static str> {
    TargetEvent::Target(Ok(Some(kubernetes())))
}

/// The answer to where the request comes from.
fn address() -> TargetEvent<&'static str> {
    TargetEvent::Address(Some(IP))
}

fn asks(auth: &Auth<'_>) -> Option<PolicyAction> {
    match auth.pending() {
        TargetAction::Identity(IdentityAction::Policy(action)) => Some(action),
        _ => None,
    }
}

fn is_unauthorized(auth: &Auth<'_>) -> bool {
    matches!(auth.step, TargetStep::Done(Err(AuthError::Unauthorized)))
}

#[test]
fn target_is_looked_up_by_name() {
    let name = "prod".to_string();
    let authentication = plain(vec![]);
    let auth = start(&authentication, &name);
    assert!(matches!(auth.pending(), TargetAction::LookUpTarget(name) if name == "prod"));
}

#[test]
fn only_kubernetes_targets_are_found() {
    let name = "prod".to_string();
    let other = Target { id: 1, name: "prod".to_string(), options: TargetOptions::Other };
    let ssh = lookup_k8s_target::<&'static str>(&name, Ok(Some(other)));
    assert!(matches!(ssh, Err(AuthError::TargetNotFound { target_name }) if target_name == "prod"));
    let missing = lookup_k8s_target::<&'static str>(&name, Ok(None));
    assert!(matches!(missing, Err(AuthError::TargetNotFound { .. })));
    assert!(matches!(lookup_k8s_target(&name, Err("db")), Err(AuthError::Backend("db"))));
    let target = lookup_k8s_target::<&'static str>(&name, Ok(Some(kubernetes())));
    assert_eq!(target.unwrap().id, 9);
}

#[test]
fn unknown_target_ends_the_authorization() {
    let name = "nope".to_string();
    let authentication = oidc(vec![]);
    let auth = start(&authentication, &name).resume(TargetEvent::Target(Ok(None)));
    match auth.step {
        TargetStep::Done(Err(AuthError::TargetNotFound { target_name })) => {
            assert_eq!(target_name, "nope");
        }
        other => panic!("{other:?}"),
    }
}

#[test]
fn ticket_of_an_oidc_user_comes_before_the_policy() {
    let name = "prod".to_string();
    let authentication = oidc(vec![CredentialKind::WebUserApproval]);
    let auth = start(&authentication, &name).resume(found());
    match auth.pending() {
        TargetAction::AuthorizeTicket { user, target, protocol } => {
            assert_eq!((user.id, target.id, protocol), (7, 9, "Kubernetes"));
        }
        other => panic!("{other:?}"),
    }
    let auth = auth.resume(TargetEvent::Ticket(Ok(Some(grant(&authentication)))));
    match auth.step {
        TargetStep::Done(Ok(granted)) => assert!(granted.ticket_grant),
        other => panic!("{other:?}"),
    }
}

#[test]
fn ticket_fault_is_passed_on() {
    let name = "prod".to_string();
    let authentication = oidc(vec![]);
    let auth = start(&authentication, &name).resume(found()).resume(TargetEvent::Ticket(Err("db")));
    assert!(matches!(auth.step, TargetStep::Done(Err(AuthError::Backend("db")))));
}

#[test]
fn user_without_policy_needs_only_a_role() {
    let name = "prod".to_string();
    let authentication = plain(vec![]);
    let auth = start(&authentication, &name).resume(found()).resume(address());
    match auth.pending() {
        TargetAction::AuthorizeRole { identity, target } => {
            assert_eq!(target.id, 9);
            match identity {
                AuthorizedIdentity::AuthenticatedSession { user, protocol } => {
                    assert_eq!((user.id, user.username.as_str(), *protocol), (7, "alice", "Kubernetes"));
                }
                other => panic!("{other:?}"),
            }
        }
        other => panic!("{other:?}"),
    }
    let auth = auth.resume(TargetEvent::Role(Ok(Some(grant(&authentication)))));
    match auth.step {
        TargetStep::Done(Ok(granted)) => {
            assert!(!granted.ticket_grant);
            let (info, target) = granted.into_parts();
            assert_eq!((info.username.as_str(), target.name.as_str()), ("alice", "prod"));
        }
        other => panic!("{other:?}"),
    }
}

#[test]
fn user_without_role_is_denied() {
    let name = "prod".to_string();
    let authentication = plain(vec![]);
    let auth = start(&authentication, &name).resume(found()).resume(address()).resume(TargetEvent::Role(Ok(None)));
    match auth.step {
        TargetStep::Done(Err(AuthError::AccessDenied { target_name })) => {
            assert_eq!(target_name, "prod");
        }
        other => panic!("{other:?}"),
    }
    let auth = start(&authentication, &name).resume(found()).resume(address()).resume(TargetEvent::Role(Err("db")));
    assert!(matches!(auth.step, TargetStep::Done(Err(AuthError::Backend("db")))));
}

#[test]
fn oidc_credential_is_submitted_to_the_policy() {
    let name = "prod".to_string();
    let authentication = oidc(vec![CredentialKind::Sso]);
    let auth = start(&authentication, &name).resume(found()).resume(TargetEvent::Ticket(Ok(None)));
    assert!(matches!(auth.pending(), TargetAction::ReadAddress));
    let auth = auth.resume(address());
    match auth.pending() {
        TargetAction::Identity(IdentityAction::CreateAuthState {
            session_id,
            username,
            protocol,
            target_name,
            supported_credential_types,
            client_ip,
        }) => {
            assert_eq!(session_id, 11);
            assert_eq!(username, "alice");
            assert_eq!(protocol, "Kubernetes");
            assert_eq!(target_name, "prod");
            assert_eq!(
                supported_credential_types,
                vec![CredentialKind::WebUserApproval, CredentialKind::Sso]
            );
            assert_eq!(client_ip, Some(IP));
        }
        other => panic!("{other:?}"),
    }
    let auth = auth.resume(TargetEvent::Identity(IdentityEvent::AuthStateCreated(Ok(()))));
    match auth.pending() {
        TargetAction::Identity(IdentityAction::SubmitCredential(credential)) => {
            assert_eq!(credential.kind(), CredentialKind::Sso);
        }
        other => panic!("{other:?}"),
    }
    let auth = auth.resume(TargetEvent::Identity(IdentityEvent::CredentialSubmitted(Ok(true))));
    assert!(matches!(asks(&auth), Some(PolicyAction::Verify)));
    let auth = auth.resume(policy(PolicyEvent::Verified(AuthResult::Accepted)));
    assert!(matches!(asks(&auth), Some(PolicyAction::TakeIdentity)));
    let auth = auth.resume(policy(PolicyEvent::IdentityTaken(true)));
    match auth.pending() {
        TargetAction::AuthorizeRole { identity, .. } => {
            assert!(matches!(identity, AuthorizedIdentity::AuthState { session_id: 11 }));
        }
        other => panic!("{other:?}"),
    }
}

#[test]
fn rejected_oidc_credential_is_unauthorized() {
    let name = "prod".to_string();
    let authentication = oidc(vec![CredentialKind::Sso]);
    let submitting = || {
        start(&authentication, &name)
            .resume(found())
            .resume(TargetEvent::Ticket(Ok(None)))
            .resume(address())
            .resume(TargetEvent::Identity(IdentityEvent::AuthStateCreated(Ok(()))))
    };
    let rejected = submitting()
        .resume(TargetEvent::Identity(IdentityEvent::CredentialSubmitted(Ok(false))));
    assert!(is_unauthorized(&rejected));
    let fault = submitting()
        .resume(TargetEvent::Identity(IdentityEvent::CredentialSubmitted(Err("db"))));
    assert!(matches!(fault.step, TargetStep::Done(Err(AuthError::Backend("db")))));
}

/// An API-token user under a policy, up to where the policy is verified.
fn verifying<'a>(authentication: &'a KubernetesAuthentication, name: &'a String) -> Auth<'a> {
    let auth = start(authentication, name)
        .resume(found())
        .resume(address())
        .resume(TargetEvent::Identity(IdentityEvent::AuthStateCreated(Ok(()))));
    assert!(matches!(asks(&auth), Some(PolicyAction::Verify)));
    auth
}

fn need(kinds: Vec<CredentialKind>) -> TargetEvent<&'static str> {
    policy(PolicyEvent::Verified(AuthResult::Need(kinds)))
}

#[test]
fn recent_approval_is_enough() {
    let name = "prod".to_string();
    let authentication = plain(vec![CredentialKind::WebUserApproval]);
    let auth = verifying(&authentication, &name).resume(need(vec![
        CredentialKind::Other,
        CredentialKind::WebUserApproval,
    ]));
    assert!(matches!(asks(&auth), Some(PolicyAction::TryWebApprovalBypass)));
    let auth = auth.resume(policy(PolicyEvent::Bypassed(Ok(true))));
    assert!(matches!(asks(&auth), Some(PolicyAction::Verify)));
}

#[test]
fn approval_is_awaited() {
    let name = "prod".to_string();
    let authentication = plain(vec![CredentialKind::WebUserApproval]);
    let waiting = || {
        verifying(&authentication, &name)
            .resume(need(vec![CredentialKind::WebUserApproval]))
            .resume(policy(PolicyEvent::Bypassed(Ok(false))))
    };
    assert!(matches!(asks(&waiting()), Some(PolicyAction::WaitForCompletion)));
    let approved = waiting().resume(policy(PolicyEvent::Completed(AuthResult::Accepted)));
    assert!(matches!(asks(&approved), Some(PolicyAction::Verify)));
    let rejected = waiting().resume(policy(PolicyEvent::Completed(AuthResult::Rejected)));
    assert!(is_unauthorized(&rejected));
    let pending = waiting().resume(policy(PolicyEvent::Completed(AuthResult::Need(vec![
        CredentialKind::WebUserApproval,
    ]))));
    assert!(is_unauthorized(&pending));
}

#[test]
fn bypass_fault_is_passed_on() {
    let name = "prod".to_string();
    let authentication = plain(vec![CredentialKind::WebUserApproval]);
    let auth = verifying(&authentication, &name)
        .resume(need(vec![CredentialKind::WebUserApproval]))
        .resume(policy(PolicyEvent::Bypassed(Err("db"))));
    assert!(matches!(auth.step, TargetStep::Done(Err(AuthError::Backend("db")))));
}

#[test]
fn other_factors_cannot_be_supplied() {
    let name = "prod".to_string();
    let authentication = plain(vec![CredentialKind::Sso]);
    let sso = verifying(&authentication, &name).resume(need(vec![CredentialKind::Sso]));
    assert!(is_unauthorized(&sso));
    let nothing = verifying(&authentication, &name).resume(need(vec![]));
    assert!(is_unauthorized(&nothing));
    let rejected = verifying(&authentication, &name)
        .resume(policy(PolicyEvent::Verified(AuthResult::Rejected)));
    assert!(is_unauthorized(&rejected));
}

#[test]
fn accepted_state_without_identity_is_unauthorized() {
    let name = "prod".to_string();
    let authentication = plain(vec![CredentialKind::Sso]);
    let auth = verifying(&authentication, &name)
        .resume(policy(PolicyEvent::Verified(AuthResult::Accepted)))
        .resume(policy(PolicyEvent::IdentityTaken(false)));
    assert!(is_unauthorized(&auth));
}

#[test]
fn failed_auth_state_is_passed_on() {
    let name = "prod".to_string();
    let authentication = plain(vec![CredentialKind::Sso]);
    let auth = start(&authentication, &name)
        .resume(found())
        .resume(address())
        .resume(TargetEvent::Identity(IdentityEvent::AuthStateCreated(Err("db"))));
    assert!(matches!(auth.step, TargetStep::Done(Err(AuthError::Backend("db")))));
}

#[test]
fn unknown_address_is_handed_on() {
    let name = "prod".to_string();
    let authentication = plain(vec![CredentialKind::Sso]);
    let auth = start(&authentication, &name).resume(found());
    assert!(matches!(auth.pending(), TargetAction::ReadAddress));
    let auth = auth.resume(TargetEvent::Address(None));
    match auth.pending() {
        TargetAction::Identity(IdentityAction::CreateAuthState { client_ip, .. }) => {
            assert_eq!(client_ip, None);
        }
        other => panic!("{other:?}"),
    }
}

#[test]
fn unexpected_target_answer_fails_closed() {
    let name = "prod".to_string();
    let authentication = plain(vec![]);
    let auth = start(&authentication, &name);
    assert!(is_unauthorized(&auth.resume(TargetEvent::Role(Ok(Some(grant(&authentication)))))));
}

#[test]
fn role_grant_is_not_rechecked() {
    let authentication = plain(vec![]);
    let granted = KubernetesTargetAuthorization::from_role(grant(&authentication));
    let check: GrantCheck<&'static str> = granted.verify_current(&authentication);
    assert!(matches!(check.pending(), GrantAction::Finished));
    assert!(matches!(check, GrantCheck::Done(Ok(()))));
}

#[test]
fn ticket_grant_is_rechecked() {
    let authentication = oidc(vec![]);
    let granted = KubernetesTargetAuthorization::from_ticket(grant(&authentication));
    let check = || -> GrantCheck<&'static str> { granted.verify_current(&authentication) };
    match check().pending() {
        GrantAction::HasActiveTicket { user_id, target_id } => {
            assert_eq!((user_id, target_id), (7, 9));
        }
        other => panic!("{other:?}"),
    }
    assert!(check().resume(Ok(true)).is_ok());
    match check().resume(Ok(false)) {
        Err(AuthError::AccessDenied { target_name }) => assert_eq!(target_name, "prod"),
        other => panic!("{other:?}"),
    }
    assert!(matches!(check().resume(Err("db")), Err(AuthError::Backend("db"))));
}

#[test]
fn ticket_grant_is_for_oidc_only() {
    let authentication = plain(vec![]);
    let granted = KubernetesTargetAuthorization::from_ticket(grant(&authentication));
    let check: GrantCheck<&'static str> = granted.verify_current(&authentication);
    assert!(matches!(check.pending(), GrantAction::Finished));
    assert!(matches!(check.resume(Ok(true)), Err(AuthError::Unauthorized)));
}
