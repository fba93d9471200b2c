//! The Kubernetes credential policy of a user: what stands between a proven identity and its use.

use vstd::prelude::*;

use crate::error::AuthError;
use crate::identity::{
    lemma_policy_asks_for_something, AuthCredential, AuthStateUserInfo, ClientIp, CredentialKind,
    KubernetesAuthentication, User,
};

verus! {

/// How an authentication state stands toward its policy.
#[derive(Debug)]
pub enum AuthResult {
    Accepted,
    /// One of these factors is still missing.
    Need(Vec<CredentialKind>),
    Rejected,
}

/// An identity that may be authorized for a target.
#[derive(Debug)]
pub enum AuthorizedIdentity {
    /// The transport credential is all that is asked for.
    AuthenticatedSession { user: AuthStateUserInfo, protocol: &'static str },
    /// The identity that the session's accepted authentication state stands for.
    AuthState { session_id: u128 },
}

/// The identity that is to be authorized, and what for.
#[derive(Clone, Copy, Debug)]
pub struct AuthorizationRequest<'a> {
    pub authentication: &'a KubernetesAuthentication,
    pub target_name: &'a String,
    /// The session that the caller has registered for the request.
    pub session_id: u128,
    pub client_ip: Option<ClientIp>,
}

/// Whether approval in the web interface is among the missing factors.
pub open spec fn needs_web_approval(result: AuthResult) -> bool {
    result matches AuthResult::Need(kinds) && kinds@.contains(CredentialKind::WebUserApproval)
}

fn web_approval_needed(result: &AuthResult) -> (r: bool)
    ensures
        r == needs_web_approval(*result),
{
    match result {
        AuthResult::Need(kinds) => {
            let mut i: usize = 0;
            while i < kinds.len()
                invariant
                    i <= kinds@.len(),
                    *result == AuthResult::Need(*kinds),
                    forall|j: int| 0 <= j < i ==> kinds@[j] != CredentialKind::WebUserApproval,
                decreases kinds@.len() - i,
            {
                if kinds[i] == CredentialKind::WebUserApproval {
                    return true;
                }
                i = i + 1;
            }
            false
        },
        _ => false,
    }
}

/// How far the credential policy is resolved.
#[derive(Debug)]
pub enum PolicyCheck<E> {
    Verifying,
    TakingIdentity,
    TryingBypass,
    AwaitingApproval,
    Done(Result<(), AuthError<E>>),
}

/// What the policy asks of the gateway.
#[derive(Debug)]
pub enum PolicyAction {
    /// Tell how the authentication state stands toward its policy.
    Verify,
    /// Take the identity from the accepted authentication state.
    TakeIdentity,
    /// Clear the web approval if a recent one still counts.
    TryWebApprovalBypass,
    /// Wait until the authentication state is decided.
    WaitForCompletion,
    /// Nothing: the policy is resolved.
    Finished,
}

/// The gateway's answer.
#[derive(Debug)]
pub enum PolicyEvent<E> {
    Verified(AuthResult),
    /// Whether the authentication state had an identity to give.
    IdentityTaken(bool),
    Bypassed(Result<bool, E>),
    Completed(AuthResult),
}

/// Starts to resolve the credential policy, waiting only when it additionally requires
/// browser approval.
pub fn await_kubernetes_credential_policy<E>() -> (check: PolicyCheck<E>)
    ensures
        check == PolicyCheck::<E>::Verifying,
{
    PolicyCheck::Verifying
}

impl<E> PolicyCheck<E> {
    /// What the policy waits for.
    pub open spec fn spec_pending(self) -> PolicyAction {
        match self {
            PolicyCheck::Verifying => PolicyAction::Verify,
            PolicyCheck::TakingIdentity => PolicyAction::TakeIdentity,
            PolicyCheck::TryingBypass => PolicyAction::TryWebApprovalBypass,
            PolicyCheck::AwaitingApproval => PolicyAction::WaitForCompletion,
            PolicyCheck::Done(_) => PolicyAction::Finished,
        }
    }

    pub fn pending(&self) -> (action: PolicyAction)
        ensures
            action == self.spec_pending(),
    {
        match self {
            PolicyCheck::Verifying => PolicyAction::Verify,
            PolicyCheck::TakingIdentity => PolicyAction::TakeIdentity,
            PolicyCheck::TryingBypass => PolicyAction::TryWebApprovalBypass,
            PolicyCheck::AwaitingApproval => PolicyAction::WaitForCompletion,
            PolicyCheck::Done(_) => PolicyAction::Finished,
        }
    }

    /// The policy after an answer. An OIDC identity may satisfy `sso`, and browser approval can
    /// satisfy `web`; other outstanding factors cannot be collected from a non-interactive client.
    /// An answer to a question that was not asked counts as a rejection.
    pub open spec fn after(self, event: PolicyEvent<E>) -> Self {
        match (self, event) {
            (PolicyCheck::Done(result), _) => PolicyCheck::Done(result),
            (PolicyCheck::Verifying, PolicyEvent::Verified(result)) => if result is Accepted {
                PolicyCheck::TakingIdentity
            } else if needs_web_approval(result) {
                PolicyCheck::TryingBypass
            } else {
                PolicyCheck::Done(Err(AuthError::Unauthorized))
            },
            (PolicyCheck::TakingIdentity, PolicyEvent::IdentityTaken(true)) => PolicyCheck::Done(
                Ok(()),
            ),
            (PolicyCheck::TryingBypass, PolicyEvent::Bypassed(reply)) => match reply {
                Ok(true) => PolicyCheck::Verifying,
                Ok(false) => PolicyCheck::AwaitingApproval,
                Err(e) => PolicyCheck::Done(Err(AuthError::Backend(e))),
            },
            (PolicyCheck::AwaitingApproval, PolicyEvent::Completed(AuthResult::Accepted)) =>
                PolicyCheck::Verifying,
            _ => PolicyCheck::Done(Err(AuthError::Unauthorized)),
        }
    }

    /// Takes an answer of the gateway.
    pub fn resume(self, event: PolicyEvent<E>) -> (next: Self)
        ensures
            next == self.after(event),
    {
        match (self, event) {
            (PolicyCheck::Done(result), _) => PolicyCheck::Done(result),
            (PolicyCheck::Verifying, PolicyEvent::Verified(result)) => {
                if web_approval_needed(&result) {
                    PolicyCheck::TryingBypass
                } else {
                    match result {
                        AuthResult::Accepted => PolicyCheck::TakingIdentity,
                        _ => PolicyCheck::Done(Err(AuthError::Unauthorized)),
                    }
                }
            },
            (PolicyCheck::TakingIdentity, PolicyEvent::IdentityTaken(true)) => PolicyCheck::Done(
                Ok(()),
            ),
            (PolicyCheck::TryingBypass, PolicyEvent::Bypassed(reply)) => match reply {
                Ok(bypassed) => if bypassed {
                    PolicyCheck::Verifying
                } else {
                    PolicyCheck::AwaitingApproval
                },
                Err(e) => PolicyCheck::Done(Err(AuthError::Backend(e))),
            },
            (PolicyCheck::AwaitingApproval, PolicyEvent::Completed(AuthResult::Accepted)) =>
                PolicyCheck::Verifying,
            _ => PolicyCheck::Done(Err(AuthError::Unauthorized)),
        }
    }

    /// The policy after a number of answers, in order.
    pub open spec fn run(self, events: Seq<PolicyEvent<E>>) -> Self
        decreases events.len(),
    {
        if events.len() == 0 {
            self
        } else {
            self.run(events.drop_last()).after(events.last())
        }
    }
}

/// Where the authorization of an identity stands.
#[derive(Debug)]
pub enum IdentityStep<E> {
    CreatingAuthState,
    SubmittingCredential,
    AwaitingPolicy(PolicyCheck<E>),
    Done(Result<AuthorizedIdentity, AuthError<E>>),
}

/// The authorization of an identity under its user's credential policy.
#[derive(Debug)]
pub struct IdentityAuth<'a, E> {
    pub request: AuthorizationRequest<'a>,
    pub step: IdentityStep<E>,
}

/// What the authorization of an identity asks of the gateway.
#[derive(Debug)]
pub enum IdentityAction<'a> {
    /// Create the authentication state of the session.
    CreateAuthState {
        session_id: u128,
        username: &'a String,
        protocol: &'static str,
        target_name: &'a String,
        supported_credential_types: Vec<CredentialKind>,
        client_ip: Option<ClientIp>,
    },
    /// Submit the credential to the authentication state.
    SubmitCredential(&'a AuthCredential),
    Policy(PolicyAction),
    /// Nothing: the authorization is over.
    Finished,
}

/// The gateway's answer.
#[derive(Debug)]
pub enum IdentityEvent<E> {
    AuthStateCreated(Result<(), E>),
    /// Whether the credential was found valid.
    CredentialSubmitted(Result<bool, E>),
    Policy(PolicyEvent<E>),
}

/// The factors that a Kubernetes client can supply: approval in the web interface, and the factor
/// of the credential that proved its identity, where that one counts toward the policy.
pub open spec fn supported_kinds(authentication: KubernetesAuthentication) -> Seq<CredentialKind> {
    match authentication.spec_credential() {
        Some(credential) => seq![CredentialKind::WebUserApproval, credential.spec_kind()],
        None => seq![CredentialKind::WebUserApproval],
    }
}

/// The factors that a Kubernetes client with this identity can supply.
pub fn supported_credential_types(authentication: &KubernetesAuthentication) -> (kinds: Vec<
    CredentialKind,
>)
    ensures
        kinds@ == supported_kinds(*authentication),
{
    let mut kinds: Vec<CredentialKind> = Vec::new();
    kinds.push(CredentialKind::WebUserApproval);
    if let Some(credential) = authentication.credential() {
        kinds.push(credential.kind());
    }
    assert(kinds@ =~= supported_kinds(*authentication));
    kinds
}

/// The identity of a user without a policy.
pub open spec fn session_identity(user: User) -> AuthorizedIdentity {
    AuthorizedIdentity::AuthenticatedSession {
        user: user.spec_info(),
        protocol: crate::PROTOCOL_NAME,
    }
}

/// Starts to turn a validated Kubernetes identity into an [`AuthorizedIdentity`], applying the
/// user's Kubernetes credential policy when one is configured.
///
/// With no policy the transport identity is used directly. With one, an authentication state
/// enforces it. A verified OIDC token supplies an `sso` credential to the policy; API-token and
/// client-certificate authentication do not.
pub fn authorize_kubernetes_identity<'a, E>(request: AuthorizationRequest<'a>) -> (auth:
    IdentityAuth<'a, E>)
    ensures
        auth == IdentityAuth::<'a, E>::start(request),
{
    let user: &User = request.authentication.user();
    if user.kubernetes_policy_configured() {
        IdentityAuth { request, step: IdentityStep::CreatingAuthState }
    } else {
        let identity: AuthorizedIdentity = AuthorizedIdentity::AuthenticatedSession {
            user: user.info(),
            protocol: crate::PROTOCOL_NAME,
        };
        IdentityAuth { request, step: IdentityStep::Done(Ok(identity)) }
    }
}

impl<'a, E> IdentityAuth<'a, E> {
    /// How the authorization of an identity starts.
    pub open spec fn start(request: AuthorizationRequest<'a>) -> Self {
        let user = request.authentication.spec_user();
        IdentityAuth {
            request,
            step: if user.has_kubernetes_policy() {
                IdentityStep::CreatingAuthState
            } else {
                IdentityStep::Done(Ok(session_identity(user)))
            },
        }
    }

    /// Whether this is what the authorization waits for.
    pub open spec fn awaits(self, action: IdentityAction<'_>) -> bool {
        match self.step {
            IdentityStep::CreatingAuthState => {
                &&& action matches IdentityAction::CreateAuthState {
                    session_id,
                    username,
                    protocol,
                    target_name,
                    supported_credential_types,
                    client_ip,
                }
                &&& session_id == self.request.session_id
                &&& *username == self.request.authentication.spec_user().username
                &&& protocol == crate::PROTOCOL_NAME
                &&& target_name == self.request.target_name
                &&& supported_credential_types@ == supported_kinds(*self.request.authentication)
                &&& client_ip == self.request.client_ip
            },
            IdentityStep::SubmittingCredential => match self.request.authentication.spec_credential() {
                Some(credential) => action == IdentityAction::SubmitCredential(&credential),
                None => action is Finished,
            },
            IdentityStep::AwaitingPolicy(check) => action == IdentityAction::Policy(
                check.spec_pending(),
            ),
            IdentityStep::Done(_) => action is Finished,
        }
    }

    pub fn pending(&self) -> (action: IdentityAction<'_>)
        ensures
            self.awaits(action),
    {
        match &self.step {
            IdentityStep::CreatingAuthState => IdentityAction::CreateAuthState {
                session_id: self.request.session_id,
                username: &self.request.authentication.user().username,
                protocol: crate::PROTOCOL_NAME,
                target_name: self.request.target_name,
                supported_credential_types: supported_credential_types(self.request.authentication),
                client_ip: self.request.client_ip,
            },
            IdentityStep::SubmittingCredential => match self.request.authentication.credential() {
                Some(credential) => IdentityAction::SubmitCredential(credential),
                None => IdentityAction::Finished,
            },
            IdentityStep::AwaitingPolicy(check) => IdentityAction::Policy(check.pending()),
            IdentityStep::Done(_) => IdentityAction::Finished,
        }
    }

    /// The step that the policy has come to.
    pub open spec fn policy_step(self, check: PolicyCheck<E>) -> IdentityStep<E> {
        match check {
            PolicyCheck::Done(Ok(_)) => IdentityStep::Done(
                Ok(AuthorizedIdentity::AuthState { session_id: self.request.session_id }),
            ),
            PolicyCheck::Done(Err(e)) => IdentityStep::Done(Err(e)),
            _ => IdentityStep::AwaitingPolicy(check),
        }
    }

    /// The step after an answer. An answer to a question that was not asked counts as a rejection.
    pub open spec fn step_after(self, event: IdentityEvent<E>) -> IdentityStep<E> {
        match (self.step, event) {
            (IdentityStep::Done(result), _) => IdentityStep::Done(result),
            (IdentityStep::CreatingAuthState, IdentityEvent::AuthStateCreated(reply)) =>
                match reply {
                    Ok(_) => if self.request.authentication is Oidc {
                        IdentityStep::SubmittingCredential
                    } else {
                        IdentityStep::AwaitingPolicy(PolicyCheck::Verifying)
                    },
                    Err(e) => IdentityStep::Done(Err(AuthError::Backend(e))),
                },
            (IdentityStep::SubmittingCredential, IdentityEvent::CredentialSubmitted(reply)) =>
                match reply {
                    Ok(true) => IdentityStep::AwaitingPolicy(PolicyCheck::Verifying),
                    Ok(false) => IdentityStep::Done(Err(AuthError::Unauthorized)),
                    Err(e) => IdentityStep::Done(Err(AuthError::Backend(e))),
                },
            (IdentityStep::AwaitingPolicy(check), IdentityEvent::Policy(answer)) =>
                self.policy_step(check.after(answer)),
            _ => IdentityStep::Done(Err(AuthError::Unauthorized)),
        }
    }

    /// The authorization after an answer.
    pub open spec fn after(self, event: IdentityEvent<E>) -> Self {
        IdentityAuth { request: self.request, step: self.step_after(event) }
    }

    /// Takes an answer of the gateway.
    pub fn resume(self, event: IdentityEvent<E>) -> (next: Self)
        ensures
            next == self.after(event),
    {
        let IdentityAuth { request, step } = self;
        let step: IdentityStep<E> = match (step, event) {
            (IdentityStep::Done(result), _) => IdentityStep::Done(result),
            (IdentityStep::CreatingAuthState, IdentityEvent::AuthStateCreated(reply)) =>
                match reply {
                    Ok(_) => if request.authentication.credential().is_some() {
                        IdentityStep::SubmittingCredential
                    } else {
                        IdentityStep::AwaitingPolicy(await_kubernetes_credential_policy())
                    },
                    Err(e) => IdentityStep::Done(Err(AuthError::Backend(e))),
                },
            (IdentityStep::SubmittingCredential, IdentityEvent::CredentialSubmitted(reply)) =>
                match reply {
                    Ok(valid) => if valid {
                        IdentityStep::AwaitingPolicy(await_kubernetes_credential_policy())
                    } else {
                        IdentityStep::Done(Err(AuthError::Unauthorized))
                    },
                    Err(e) => IdentityStep::Done(Err(AuthError::Backend(e))),
                },
            (IdentityStep::AwaitingPolicy(check), IdentityEvent::Policy(answer)) => {
                match check.resume(answer) {
                    PolicyCheck::Done(Ok(_)) => IdentityStep::Done(
                        Ok(AuthorizedIdentity::AuthState { session_id: request.session_id }),
                    ),
                    PolicyCheck::Done(Err(e)) => IdentityStep::Done(Err(e)),
                    check => IdentityStep::AwaitingPolicy(check),
                }
            },
            _ => IdentityStep::Done(Err(AuthError::Unauthorized)),
        };
        IdentityAuth { request, step }
    }

    /// The authorization after a number of answers, in order.
    pub open spec fn run(self, events: Seq<IdentityEvent<E>>) -> Self
        decreases events.len(),
    {
        if events.len() == 0 {
            self
        } else {
            self.run(events.drop_last()).after(events.last())
        }
    }
}

/// A policy is satisfied only by an authentication state that was found to be accepted, and gave
/// its identity right after.
pub proof fn lemma_policy_satisfied<E>(events: Seq<PolicyEvent<E>>)
    requires
        PolicyCheck::<E>::Verifying.run(events) == PolicyCheck::<E>::Done(Ok(())),
    ensures
        exists|i: int|
            #![trigger events[i]]
            0 <= i < events.len() - 1 && events[i] == PolicyEvent::<E>::Verified(
                AuthResult::Accepted,
            ) && events[i + 1] == PolicyEvent::<E>::IdentityTaken(true),
    decreases events.len(),
{
    let front = events.drop_last();
    let before = PolicyCheck::<E>::Verifying.run(front);
    if before is Done {
        lemma_policy_satisfied(front);
        let i = choose|i: int|
            #![trigger front[i]]
            0 <= i < front.len() - 1 && front[i] == PolicyEvent::<E>::Verified(AuthResult::Accepted)
                && front[i + 1] == PolicyEvent::<E>::IdentityTaken(true);
        assert(events[i] == front[i] && events[i + 1] == front[i + 1]);
    } else {
        assert(before is TakingIdentity);
        assert(front.len() > 0);
        let earlier = PolicyCheck::<E>::Verifying.run(front.drop_last());
        assert(before == earlier.after(front.last()));
        let i = front.len() - 1;
        assert(events[i] == front.last());
        assert(front.last() == PolicyEvent::<E>::Verified(AuthResult::Accepted));
        assert(events[i + 1] == events.last());
    }
}

/// Nothing waits for an approval, nor looks for a way round it, unless the policy was found to miss
/// the web approval; where it misses other factors only, it is not satisfiable.
pub proof fn lemma_waits_only_for_web_approval<E>(events: Seq<PolicyEvent<E>>)
    requires
        PolicyCheck::<E>::Verifying.run(events) is TryingBypass || PolicyCheck::<E>::Verifying.run(
            events,
        ) is AwaitingApproval,
    ensures
        exists|i: int|
            0 <= i < events.len() && (#[trigger] events[i] matches PolicyEvent::Verified(result)
                && needs_web_approval(result)),
    decreases events.len(),
{
    assert(events.len() > 0);
    let front = events.drop_last();
    let before = PolicyCheck::<E>::Verifying.run(front);
    if before is TryingBypass {
        lemma_waits_only_for_web_approval(front);
        let i = choose|i: int|
            0 <= i < front.len() && (#[trigger] front[i] matches PolicyEvent::Verified(result)
                && needs_web_approval(result));
        assert(events[i] == front[i]);
    } else {
        assert(events[events.len() - 1] == events.last());
    }
}

/// A policy that misses factors which a Kubernetes client cannot supply, and not the web approval,
/// turns the request down at once.
pub proof fn lemma_unsatisfiable_policy<E>(result: AuthResult)
    requires
        result !is Accepted,
        !needs_web_approval(result),
    ensures
        PolicyCheck::<E>::Verifying.after(PolicyEvent::Verified(result)) == PolicyCheck::<E>::Done(
            Err(AuthError::Unauthorized),
        ),
{
}

/// A policy that is satisfied lets the identity through: an accepted authentication state that gives
/// its identity is all that is asked for.
pub proof fn lemma_accepted_state_suffices<'a, E>(auth: IdentityAuth<'a, E>)
    requires
        auth.step == IdentityStep::<E>::AwaitingPolicy(PolicyCheck::Verifying),
    ensures
        auth.after(IdentityEvent::Policy(PolicyEvent::Verified(AuthResult::Accepted))).after(
            IdentityEvent::Policy(PolicyEvent::IdentityTaken(true)),
        ).step == IdentityStep::<E>::Done(
            Ok(AuthorizedIdentity::AuthState { session_id: auth.request.session_id }),
        ),
{
}

/// An approval, fresh or recent, grants nothing by itself: the policy is verified again.
pub proof fn lemma_approval_is_verified<E>()
    ensures
        PolicyCheck::<E>::TryingBypass.after(PolicyEvent::Bypassed(Ok(true))) == PolicyCheck::<
            E,
        >::Verifying,
        PolicyCheck::<E>::AwaitingApproval.after(PolicyEvent::Completed(AuthResult::Accepted))
            == PolicyCheck::<E>::Verifying,
{
}

/// Only an OIDC identity supplies the `sso` factor: the factors that a client can supply have it
/// exactly for an OIDC identity, and no other identity ever submits a credential.
pub proof fn lemma_only_oidc_supplies_sso<'a, E>(
    request: AuthorizationRequest<'a>,
    events: Seq<IdentityEvent<E>>,
)
    ensures
        supported_kinds(*request.authentication).contains(CredentialKind::Sso)
            <==> request.authentication is Oidc,
        IdentityAuth::<'a, E>::start(request).run(events).step is SubmittingCredential
            ==> request.authentication is Oidc,
    decreases events.len(),
{
    let kinds = supported_kinds(*request.authentication);
    if request.authentication is Oidc {
        assert(kinds[1] == CredentialKind::Sso);
    }
    lemma_request_kept::<E>(request, events);
    if events.len() > 0 {
        lemma_request_kept::<E>(request, events.drop_last());
    }
}

/// The request of an authorization never changes.
pub proof fn lemma_request_kept<'a, E>(
    request: AuthorizationRequest<'a>,
    events: Seq<IdentityEvent<E>>,
)
    ensures
        IdentityAuth::<'a, E>::start(request).run(events).request == request,
    decreases events.len(),
{
    if events.len() > 0 {
        lemma_request_kept::<E>(request, events.drop_last());
    }
}

/// With no policy the transport identity is used directly, whatever the gateway says, and no
/// authentication state is created.
pub proof fn lemma_no_policy<'a, E>(
    request: AuthorizationRequest<'a>,
    events: Seq<IdentityEvent<E>>,
)
    requires
        !request.authentication.spec_user().has_kubernetes_policy(),
    ensures
        IdentityAuth::<'a, E>::start(request).run(events).step == IdentityStep::<E>::Done(
            Ok(session_identity(request.authentication.spec_user())),
        ),
    decreases events.len(),
{
    if events.len() > 0 {
        lemma_no_policy(request, events.drop_last());
    }
}

/// The gateway found the session's authentication state to be accepted.
pub open spec fn was_accepted<E>(events: Seq<IdentityEvent<E>>) -> bool {
    exists|i: int|
        0 <= i < events.len() && #[trigger] events[i] == IdentityEvent::<E>::Policy(
            PolicyEvent::Verified(AuthResult::Accepted),
        )
}

/// The gateway found the submitted credential valid.
pub open spec fn was_submitted<E>(events: Seq<IdentityEvent<E>>) -> bool {
    exists|i: int|
        0 <= i < events.len() && #[trigger] events[i] == IdentityEvent::<E>::CredentialSubmitted(
            Ok(true),
        )
}

/// What has to have happened for an authorization under a policy to stand where it does.
spec fn step_justified<'a, E>(auth: IdentityAuth<'a, E>, events: Seq<IdentityEvent<E>>) -> bool {
    match auth.step {
        IdentityStep::AwaitingPolicy(check) => {
            &&& auth.request.authentication is Oidc ==> was_submitted(events)
            &&& check is TakingIdentity ==> was_accepted(events)
            &&& check !is Done
        },
        IdentityStep::Done(Ok(identity)) => {
            &&& auth.request.authentication is Oidc ==> was_submitted(events)
            &&& was_accepted(events)
            &&& identity == (AuthorizedIdentity::AuthState { session_id: auth.request.session_id })
        },
        _ => true,
    }
}

proof fn lemma_step_justified<'a, E>(
    request: AuthorizationRequest<'a>,
    events: Seq<IdentityEvent<E>>,
)
    requires
        request.authentication.spec_user().has_kubernetes_policy(),
    ensures
        step_justified(IdentityAuth::<'a, E>::start(request).run(events), events),
    decreases events.len(),
{
    if events.len() > 0 {
        let front = events.drop_last();
        let before = IdentityAuth::<'a, E>::start(request).run(front);
        lemma_step_justified(request, front);
        lemma_request_kept::<E>(request, front);
        assert(forall|i: int| 0 <= i < front.len() ==> #[trigger] events[i] == front[i]);
        assert(was_accepted(front) ==> was_accepted(events)) by {
            if was_accepted(front) {
                let i = choose|i: int|
                    0 <= i < front.len() && #[trigger] front[i] == IdentityEvent::<E>::Policy(
                        PolicyEvent::Verified(AuthResult::Accepted),
                    );
                assert(events[i] == front[i]);
            }
        }
        assert(was_submitted(front) ==> was_submitted(events)) by {
            if was_submitted(front) {
                let i = choose|i: int|
                    0 <= i < front.len() && #[trigger] front[i]
                        == IdentityEvent::<E>::CredentialSubmitted(Ok(true));
                assert(events[i] == front[i]);
            }
        }
        assert(events[events.len() - 1] == events.last());
    }
}

/// Under a policy an identity is authorized only once the session's authentication state was found
/// to be accepted, and an OIDC identity only after its credential was found valid too.
pub proof fn lemma_policy_enforced<'a, E>(
    request: AuthorizationRequest<'a>,
    events: Seq<IdentityEvent<E>>,
    identity: AuthorizedIdentity,
)
    requires
        request.authentication.spec_user().has_kubernetes_policy(),
        IdentityAuth::<'a, E>::start(request).run(events).step == IdentityStep::<E>::Done(
            Ok(identity),
        ),
    ensures
        was_accepted(events),
        request.authentication is Oidc ==> was_submitted(events),
        identity == (AuthorizedIdentity::AuthState { session_id: request.session_id }),
{
    lemma_step_justified(request, events);
    lemma_request_kept::<E>(request, events);
}

/// Approval in the web interface is a factor that every identity can supply, `sso` is one exactly
/// for an OIDC identity, and there is no other; none is listed twice.
pub proof fn lemma_factors_of_identity(identity: KubernetesAuthentication, kind: CredentialKind)
    ensures
        supported_kinds(identity).contains(CredentialKind::WebUserApproval),
        supported_kinds(identity).contains(CredentialKind::Sso) <==> identity is Oidc,
        supported_kinds(identity).contains(kind) ==> kind == CredentialKind::WebUserApproval || kind
            == CredentialKind::Sso,
        supported_kinds(identity).len() == (if identity is Oidc {
            2int
        } else {
            1
        }),
        supported_kinds(identity)[0] == CredentialKind::WebUserApproval,
{
    let kinds = supported_kinds(identity);
    assert(kinds[0] == CredentialKind::WebUserApproval);
    if identity is Oidc {
        assert(kinds[1] == CredentialKind::Sso);
    }
}

/// Web approval is missing exactly when it is one of the factors that are named as missing.
pub proof fn lemma_web_approval_missing(kinds: Vec<CredentialKind>)
    ensures
        needs_web_approval(AuthResult::Need(kinds)) <==> exists|i: int|
            0 <= i < kinds@.len() && #[trigger] kinds@[i] == CredentialKind::WebUserApproval,
        !needs_web_approval(AuthResult::Accepted),
        !needs_web_approval(AuthResult::Rejected),
{
}

/// What a policy asks for, and comes to, by what it asked for before. A policy whose state stands
/// accepted takes the identity, and is satisfied exactly when there is one. One that misses web
/// approval, among other factors or not, tries to do without it, and waits for it otherwise; either
/// way the state is looked at again. Anything else turns the request down, but for a fault, which is
/// passed on.
pub proof fn lemma_policy_questions<E>(check: PolicyCheck<E>, kinds: Vec<CredentialKind>, fault: E)
    ensures
        PolicyCheck::<E>::Verifying.spec_pending() is Verify,
        check.spec_pending() is Verify ==> {
            &&& check.after(PolicyEvent::Verified(AuthResult::Accepted)).spec_pending()
                is TakeIdentity
            &&& check.after(PolicyEvent::Verified(AuthResult::Rejected)) == PolicyCheck::<E>::Done(
                Err(AuthError::Unauthorized),
            )
            &&& kinds@.contains(CredentialKind::WebUserApproval) ==> check.after(
                PolicyEvent::Verified(AuthResult::Need(kinds)),
            ).spec_pending() is TryWebApprovalBypass
            &&& !kinds@.contains(CredentialKind::WebUserApproval) ==> check.after(
                PolicyEvent::Verified(AuthResult::Need(kinds)),
            ) == PolicyCheck::<E>::Done(Err(AuthError::Unauthorized))
        },
        check.spec_pending() is TakeIdentity ==> {
            &&& check.after(PolicyEvent::IdentityTaken(true)) == PolicyCheck::<E>::Done(Ok(()))
            &&& check.after(PolicyEvent::IdentityTaken(false)) == PolicyCheck::<E>::Done(
                Err(AuthError::Unauthorized),
            )
        },
        check.spec_pending() is TryWebApprovalBypass ==> {
            &&& check.after(PolicyEvent::Bypassed(Ok(true))).spec_pending() is Verify
            &&& check.after(PolicyEvent::Bypassed(Ok(false))).spec_pending() is WaitForCompletion
            &&& check.after(PolicyEvent::Bypassed(Err(fault))) == PolicyCheck::<E>::Done(
                Err(AuthError::Backend(fault)),
            )
        },
        check.spec_pending() is WaitForCompletion ==> {
            &&& check.after(PolicyEvent::Completed(AuthResult::Accepted)).spec_pending() is Verify
            &&& check.after(PolicyEvent::Completed(AuthResult::Rejected)) == PolicyCheck::<
                E,
            >::Done(Err(AuthError::Unauthorized))
            &&& check.after(PolicyEvent::Completed(AuthResult::Need(kinds))) == PolicyCheck::<
                E,
            >::Done(Err(AuthError::Unauthorized))
        },
{
}

/// A policy that is resolved asks for nothing and keeps its result; one that is not and gets an
/// answer to another question than its own turns the request down.
pub proof fn lemma_policy_fails_closed<E>(check: PolicyCheck<E>, event: PolicyEvent<E>)
    ensures
        check is Done ==> check.after(event) == check && check.spec_pending() is Finished,
        check !is Done ==> check.spec_pending() !is Finished,
        check !is Done && !(match check.spec_pending() {
            PolicyAction::Verify => event is Verified,
            PolicyAction::TakeIdentity => event is IdentityTaken,
            PolicyAction::TryWebApprovalBypass => event is Bypassed,
            PolicyAction::WaitForCompletion => event is Completed,
            PolicyAction::Finished => false,
        }) ==> check.after(event) == PolicyCheck::<E>::Done(Err(AuthError::Unauthorized)),
{
}

/// An approval that the policy misses, and that a recent one or a fresh one then makes up for.
pub open spec fn is_approval_round<E>(round: Seq<PolicyEvent<E>>) -> bool {
    &&& round.len() >= 2
    &&& round[0] matches PolicyEvent::Verified(AuthResult::Need(kinds))
    &&& kinds@.contains(CredentialKind::WebUserApproval)
    &&& {
        ||| round.len() == 2 && round[1] == PolicyEvent::<E>::Bypassed(Ok(true))
        ||| round.len() == 3 && round[1] == PolicyEvent::<E>::Bypassed(Ok(false)) && round[2]
            == PolicyEvent::<E>::Completed(AuthResult::Accepted)
    }
}

/// The answers of a number of rounds, one after the other.
pub open spec fn answers_of<E>(rounds: Seq<Seq<PolicyEvent<E>>>) -> Seq<PolicyEvent<E>>
    decreases rounds.len(),
{
    if rounds.len() == 0 {
        Seq::empty()
    } else {
        answers_of(rounds.drop_last()) + rounds.last()
    }
}

/// However many approvals a policy misses one after the other, it goes on as long as each is given,
/// and is satisfied once the state stands accepted and gives its identity.
pub proof fn lemma_approvals_satisfy_policy<E>(rounds: Seq<Seq<PolicyEvent<E>>>)
    requires
        forall|i: int| 0 <= i < rounds.len() ==> is_approval_round(#[trigger] rounds[i]),
    ensures
        PolicyCheck::<E>::Verifying.run(answers_of(rounds)).spec_pending() is Verify,
        PolicyCheck::<E>::Verifying.run(
            answers_of(rounds).push(PolicyEvent::Verified(AuthResult::Accepted)).push(
                PolicyEvent::IdentityTaken(true),
            ),
        ) == PolicyCheck::<E>::Done(Ok(())),
    decreases rounds.len(),
{
    let all = answers_of(rounds);
    if rounds.len() > 0 {
        let front = rounds.drop_last();
        let round = rounds.last();
        assert(is_approval_round(rounds[rounds.len() - 1]));
        assert forall|i: int| 0 <= i < front.len() implies is_approval_round(#[trigger] front[i]) by {
            assert(front[i] == rounds[i]);
        }
        lemma_approvals_satisfy_policy(front);
        let before = answers_of(front);
        if round.len() == 2 {
            assert(all =~= before.push(round[0]).push(round[1]));
        } else {
            assert(all =~= before.push(round[0]).push(round[1]).push(round[2]));
            assert(before.push(round[0]).push(round[1]).push(round[2]).drop_last() =~= before.push(
                round[0],
            ).push(round[1]));
        }
        assert(before.push(round[0]).push(round[1]).drop_last() =~= before.push(round[0]));
        assert(before.push(round[0]).drop_last() =~= before);
        reveal_with_fuel(PolicyCheck::run, 4);
    }
    let accepted = all.push(PolicyEvent::<E>::Verified(AuthResult::Accepted));
    let taken = accepted.push(PolicyEvent::<E>::IdentityTaken(true));
    assert(taken.drop_last() =~= accepted);
    assert(accepted.drop_last() =~= all);
    assert(PolicyCheck::<E>::Verifying.run(all) == PolicyCheck::<E>::Verifying);
    assert(PolicyCheck::<E>::Verifying.run(accepted) == PolicyCheck::<E>::Verifying.after(
        PolicyEvent::Verified(AuthResult::Accepted),
    ));
}

/// The user of the identity that is to be authorized.
pub open spec fn user_to_authorize(request: AuthorizationRequest<'_>) -> User {
    match *request.authentication {
        KubernetesAuthentication::User(user) => user,
        KubernetesAuthentication::Oidc { user, .. } => user,
    }
}

/// A user whose policy asks for nothing is authorized as authenticated, under the user's own id and
/// name, and nothing is asked. One whose policy asks for anything gets an authentication state: for
/// the session and the target of the request, in the user's name, with the factors that the identity
/// can supply, from the address of the request.
pub proof fn lemma_identity_opening<'a, E>(
    request: AuthorizationRequest<'a>,
    action: IdentityAction<'_>,
)
    ensures
        (forall|kind: CredentialKind| !#[trigger] user_to_authorize(request).asks_for(kind)) ==> {
            &&& IdentityAuth::<'a, E>::start(request).step matches IdentityStep::Done(
                Ok(AuthorizedIdentity::AuthenticatedSession { user, protocol }),
            )
            &&& user.id == user_to_authorize(request).id
            &&& user.username == user_to_authorize(request).username
            &&& protocol@ == "Kubernetes"@
        },
        (exists|kind: CredentialKind| #[trigger] user_to_authorize(request).asks_for(kind))
            && IdentityAuth::<'a, E>::start(request).awaits(action) ==> {
            &&& action matches IdentityAction::CreateAuthState {
                session_id,
                username,
                protocol,
                target_name,
                supported_credential_types,
                client_ip,
            }
            &&& session_id == request.session_id
            &&& *username == user_to_authorize(request).username
            &&& protocol@ == "Kubernetes"@
            &&& target_name == request.target_name
            &&& client_ip == request.client_ip
            &&& supported_credential_types@ == (if request.authentication is Oidc {
                seq![CredentialKind::WebUserApproval, CredentialKind::Sso]
            } else {
                seq![CredentialKind::WebUserApproval]
            })
        },
{
    lemma_policy_asks_for_something(user_to_authorize(request));
}

/// Once there is an authentication state, an OIDC identity submits the very credential that its
/// token gave, and is turned down where that is not found valid; any other identity submits nothing.
/// Then the policy is looked at. A fault is passed on.
pub proof fn lemma_identity_credential<'a, E>(
    request: AuthorizationRequest<'a>,
    action: IdentityAction<'_>,
    fault: E,
)
    requires
        exists|kind: CredentialKind| #[trigger] user_to_authorize(request).asks_for(kind),
    ensures
        ({
            let created = IdentityAuth::<'a, E>::start(request).after(
                IdentityEvent::AuthStateCreated(Ok(())),
            );
            &&& IdentityAuth::<'a, E>::start(request).after(
                IdentityEvent::AuthStateCreated(Err(fault)),
            ).step == IdentityStep::<E>::Done(Err(AuthError::Backend(fault)))
            &&& *request.authentication matches KubernetesAuthentication::Oidc { credential, .. }
                ==> {
                &&& created.awaits(action) ==> action == IdentityAction::SubmitCredential(
                    &credential,
                )
                &&& created.after(IdentityEvent::CredentialSubmitted(Ok(true))).awaits(action)
                    ==> action == IdentityAction::Policy(PolicyAction::Verify)
                &&& created.after(IdentityEvent::CredentialSubmitted(Ok(true))).step
                    == IdentityStep::<E>::AwaitingPolicy(PolicyCheck::Verifying)
                &&& created.after(IdentityEvent::CredentialSubmitted(Ok(false))).step
                    == IdentityStep::<E>::Done(Err(AuthError::Unauthorized))
                &&& created.after(IdentityEvent::CredentialSubmitted(Err(fault))).step
                    == IdentityStep::<E>::Done(Err(AuthError::Backend(fault)))
            }
            &&& request.authentication is User ==> {
                &&& created.awaits(action) ==> action == IdentityAction::Policy(
                    PolicyAction::Verify,
                )
                &&& created.step == IdentityStep::<E>::AwaitingPolicy(PolicyCheck::Verifying)
            }
        }),
{
    lemma_policy_asks_for_something(user_to_authorize(request));
}

/// While an identity waits for its policy, it asks what the policy asks, and comes to what the
/// policy comes to: a policy that is satisfied authorizes the session's own authentication state.
pub proof fn lemma_identity_follows_policy<'a, E>(
    auth: IdentityAuth<'a, E>,
    check: PolicyCheck<E>,
    answer: PolicyEvent<E>,
    action: IdentityAction<'_>,
)
    requires
        auth.step == IdentityStep::<E>::AwaitingPolicy(check),
    ensures
        auth.awaits(action) ==> action == IdentityAction::Policy(check.spec_pending()),
        auth.after(IdentityEvent::Policy(answer)).request == auth.request,
        match check.after(answer) {
            PolicyCheck::Done(Ok(_)) => auth.after(IdentityEvent::Policy(answer)).step
                == IdentityStep::<E>::Done(
                Ok(AuthorizedIdentity::AuthState { session_id: auth.request.session_id }),
            ),
            PolicyCheck::Done(Err(e)) => auth.after(IdentityEvent::Policy(answer)).step
                == IdentityStep::<E>::Done(Err(e)),
            next => auth.after(IdentityEvent::Policy(answer)).step == IdentityStep::<
                E,
            >::AwaitingPolicy(next),
        },
{
}

/// An authorization that is over asks for nothing and keeps its result; one that is not over and
/// gets an answer to another question than its own is turned down.
pub proof fn lemma_identity_fails_closed<'a, E>(
    auth: IdentityAuth<'a, E>,
    event: IdentityEvent<E>,
    action: IdentityAction<'_>,
)
    ensures
        auth.step is Done ==> auth.after(event) == auth,
        auth.step is Done && auth.awaits(action) ==> action is Finished,
        auth.step !is Done && auth.awaits(action) && !(match action {
            IdentityAction::CreateAuthState { .. } => event is AuthStateCreated,
            IdentityAction::SubmitCredential(_) => event is CredentialSubmitted,
            IdentityAction::Policy(_) => event is Policy,
            IdentityAction::Finished => true,
        }) ==> auth.after(event).step == IdentityStep::<E>::Done(Err(AuthError::Unauthorized)),
{
}

} // verus!
