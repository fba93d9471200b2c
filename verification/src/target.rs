//! Targets, and the authorization of an authenticated user for one of them.

use vstd::prelude::*;

use crate::client::TargetKubernetesOptions;
use crate::error::AuthError;
use crate::identity::{
    lemma_policy_asks_for_something, AuthCredential, AuthStateUserInfo, ClientIp, CredentialKind,
    KubernetesAuthentication, User,
};
use crate::policy::{
    answers_of, authorize_kubernetes_identity, is_approval_round, lemma_approvals_satisfy_policy,
    lemma_no_policy, lemma_policy_enforced, lemma_request_kept, session_identity, AuthResult,
    AuthorizationRequest, AuthorizedIdentity, IdentityAction, IdentityAuth, IdentityEvent,
    IdentityStep, PolicyCheck, PolicyEvent,
};

verus! {

/// What kind of target it is.
#[derive(Clone, Debug)]
pub enum TargetOptions {
    Kubernetes(TargetKubernetesOptions),
    /// A target of another protocol.
    Other,
}

/// Something that users connect to through the gateway.
#[derive(Clone, Debug)]
pub struct Target {
    pub id: u128,
    pub name: String,
    pub options: TargetOptions,
}

/// A user's permission to use a target.
#[derive(Clone, Debug)]
pub struct TargetAuthorization {
    pub user_info: AuthStateUserInfo,
    pub target: Target,
}

/// A Kubernetes target authorization.  Tickets deliberately stay server-side:
/// the browser activation grants the authenticated OIDC user access, and the
/// ticket is rechecked before every proxied request.
#[derive(Clone, Debug)]
pub struct KubernetesTargetAuthorization {
    pub authorization: TargetAuthorization,
    pub ticket_grant: bool,
}

impl KubernetesTargetAuthorization {
    /// The authorization that an access role gives.
    pub fn from_role(authorization: TargetAuthorization) -> (r: Self)
        ensures
            r == (KubernetesTargetAuthorization { authorization, ticket_grant: false }),
    {
        KubernetesTargetAuthorization { authorization, ticket_grant: false }
    }

    /// The authorization that an active self-service ticket gives.
    pub fn from_ticket(authorization: TargetAuthorization) -> (r: Self)
        ensures
            r == (KubernetesTargetAuthorization { authorization, ticket_grant: true }),
    {
        KubernetesTargetAuthorization { authorization, ticket_grant: true }
    }

    /// How the check of whether the authorization still holds starts.
    pub open spec fn check_start<E>(self, authentication: KubernetesAuthentication) -> GrantCheck<E> {
        if !self.ticket_grant {
            GrantCheck::Done(Ok(()))
        } else {
            match authentication.spec_oidc_user() {
                Some(user) => GrantCheck::CheckingTicket {
                    user_id: user.id,
                    target_id: self.authorization.target.id,
                    target_name: self.authorization.target.name,
                },
                None => GrantCheck::Done(Err(AuthError::Unauthorized)),
            }
        }
    }

    /// Starts to check whether the authorization still holds. One that an access role gave does;
    /// one that a ticket gave holds for the OIDC user while the ticket is active.
    pub fn verify_current<E>(&self, authentication: &KubernetesAuthentication) -> (check: GrantCheck<E>)
        ensures
            check == self.check_start::<E>(*authentication),
    {
        if !self.ticket_grant {
            return GrantCheck::Done(Ok(()));
        }
        match authentication.oidc_user() {
            Some(user) => GrantCheck::CheckingTicket {
                user_id: user.id,
                target_id: self.authorization.target.id,
                target_name: self.authorization.target.name.clone(),
            },
            None => GrantCheck::Done(Err(AuthError::Unauthorized)),
        }
    }

    pub fn into_parts(self) -> (parts: (AuthStateUserInfo, Target))
        ensures
            parts == (self.authorization.user_info, self.authorization.target),
    {
        (self.authorization.user_info, self.authorization.target)
    }
}

/// How far the check of an authorization has come.
#[derive(Debug)]
pub enum GrantCheck<E> {
    CheckingTicket { user_id: u128, target_id: u128, target_name: String },
    Done(Result<(), AuthError<E>>),
}

/// What the check of an authorization asks of the gateway.
#[derive(Debug)]
pub enum GrantAction {
    /// Tell whether the user has an active self-service ticket for the target.
    HasActiveTicket { user_id: u128, target_id: u128 },
    /// Nothing: the check is over.
    Finished,
}

impl<E> GrantCheck<E> {
    /// What the check waits for.
    pub open spec fn spec_pending(self) -> GrantAction {
        match self {
            GrantCheck::CheckingTicket { user_id, target_id, .. } => GrantAction::HasActiveTicket {
                user_id,
                target_id,
            },
            GrantCheck::Done(_) => GrantAction::Finished,
        }
    }

    pub fn pending(&self) -> (action: GrantAction)
        ensures
            action == self.spec_pending(),
    {
        match self {
            GrantCheck::CheckingTicket { user_id, target_id, .. } => GrantAction::HasActiveTicket {
                user_id: *user_id,
                target_id: *target_id,
            },
            GrantCheck::Done(_) => GrantAction::Finished,
        }
    }

    /// How the check ends, given whether the ticket is active.
    pub open spec fn outcome(self, active: Result<bool, E>) -> Result<(), AuthError<E>> {
        match self {
            GrantCheck::CheckingTicket { target_name, .. } => match active {
                Ok(true) => Ok(()),
                Ok(false) => Err(AuthError::AccessDenied { target_name }),
                Err(e) => Err(AuthError::Backend(e)),
            },
            GrantCheck::Done(result) => result,
        }
    }

    /// Takes the answer of the gateway: whether the ticket is active.
    pub fn resume(self, active: Result<bool, E>) -> (result: Result<(), AuthError<E>>)
        ensures
            result == self.outcome(active),
    {
        match self {
            GrantCheck::CheckingTicket { target_name, .. } => match active {
                Ok(active) => if active {
                    Ok(())
                } else {
                    Err(AuthError::AccessDenied { target_name })
                },
                Err(e) => Err(AuthError::Backend(e)),
            },
            GrantCheck::Done(result) => result,
        }
    }
}

/// The Kubernetes target of a name, from what the configuration holds under that name.
pub open spec fn found_target<E>(
    target_name: String,
    found: Result<Option<Target>, E>,
) -> Result<Target, AuthError<E>> {
    match found {
        Ok(Some(target)) => if target.options is Kubernetes {
            Ok(target)
        } else {
            Err(AuthError::TargetNotFound { target_name })
        },
        Ok(None) => Err(AuthError::TargetNotFound { target_name }),
        Err(e) => Err(AuthError::Backend(e)),
    }
}

/// Takes a Kubernetes target from what the configuration holds under its name, before it is
/// authorized through either an access role or an active self-service ticket.
pub fn lookup_k8s_target<E>(target_name: &String, found: Result<Option<Target>, E>) -> (r: Result<
    Target,
    AuthError<E>,
>)
    ensures
        r == found_target(*target_name, found),
{
    match found {
        Ok(Some(target)) => {
            let kubernetes: bool = match &target.options {
                TargetOptions::Kubernetes(_) => true,
                TargetOptions::Other => false,
            };
            if kubernetes {
                Ok(target)
            } else {
                Err(AuthError::TargetNotFound { target_name: target_name.clone() })
            }
        },
        Ok(None) => Err(AuthError::TargetNotFound { target_name: target_name.clone() }),
        Err(e) => Err(AuthError::Backend(e)),
    }
}

/// The user who is to be authorized, and for which target.
#[derive(Clone, Copy, Debug)]
pub struct TargetRequest<'a> {
    pub authentication: &'a KubernetesAuthentication,
    pub target_name: &'a String,
    /// The session that the caller has registered for the request.
    pub session_id: u128,
}

impl<'a> TargetRequest<'a> {
    /// The request once it is known where it comes from.
    pub open spec fn spec_from_address(self, client_ip: Option<ClientIp>) -> AuthorizationRequest<
        'a,
    > {
        AuthorizationRequest {
            authentication: self.authentication,
            target_name: self.target_name,
            session_id: self.session_id,
            client_ip,
        }
    }

    pub fn from_address(self, client_ip: Option<ClientIp>) -> (request: AuthorizationRequest<'a>)
        ensures
            request == self.spec_from_address(client_ip),
    {
        AuthorizationRequest {
            authentication: self.authentication,
            target_name: self.target_name,
            session_id: self.session_id,
            client_ip,
        }
    }
}

/// Where the authorization for a target stands.
#[derive(Debug)]
pub enum TargetStep<'a, E> {
    LookingUpTarget,
    AuthorizingTicket { target: Target },
    ReadingAddress { target: Target },
    AuthorizingIdentity { target: Target, identity: IdentityAuth<'a, E> },
    AuthorizingRole { target: Target, identity: AuthorizedIdentity },
    Done(Result<KubernetesTargetAuthorization, AuthError<E>>),
}

/// The authorization of an authenticated user for a target.
#[derive(Debug)]
pub struct TargetAuth<'a, E> {
    pub request: TargetRequest<'a>,
    pub step: TargetStep<'a, E>,
}

/// What the authorization for a target asks of the gateway.
#[derive(Debug)]
pub enum TargetAction<'a> {
    /// Look the target up by its name.
    LookUpTarget(&'a String),
    /// Authorize the user for the target by an active self-service ticket.
    AuthorizeTicket { user: &'a User, target: &'a Target, protocol: &'static str },
    /// Tell the address that the request comes from.
    ReadAddress,
    Identity(IdentityAction<'a>),
    /// Authorize the identity for the target by an access role.
    AuthorizeRole { identity: &'a AuthorizedIdentity, target: &'a Target },
    /// Nothing: the authorization is over.
    Finished,
}

/// The gateway's answer.
#[derive(Debug)]
pub enum TargetEvent<E> {
    Target(Result<Option<Target>, E>),
    Ticket(Result<Option<TargetAuthorization>, E>),
    /// The address, where it is known.
    Address(Option<ClientIp>),
    Identity(IdentityEvent<E>),
    Role(Result<Option<TargetAuthorization>, E>),
}

/// Starts to authorize an already-authenticated user for a Kubernetes target, applying the
/// credential policy.
///
/// A self-service ticket is a server-side authorization grant for the person whose OIDC token
/// authenticated the request. It is checked before the credential policy: activating the approved
/// ticket is the explicit, audited approval step for this target.
pub fn authorize_kubernetes_target<'a, E>(request: TargetRequest<'a>) -> (auth: TargetAuth<
    'a,
    E,
>)
    ensures
        auth == TargetAuth::<'a, E>::start(request),
{
    TargetAuth { request, step: TargetStep::LookingUpTarget }
}

impl<'a, E> TargetStep<'a, E> {
    /// An access role is asked about.
    pub open spec fn role_step(target: Target, identity: AuthorizedIdentity) -> Self {
        TargetStep::AuthorizingRole { target, identity }
    }
}

impl<'a, E> TargetAuth<'a, E> {
    /// How the authorization for a target starts.
    pub open spec fn start(request: TargetRequest<'a>) -> Self {
        TargetAuth { request, step: TargetStep::LookingUpTarget }
    }

    /// Whether this is what the authorization waits for.
    pub open spec fn awaits(self, action: TargetAction<'_>) -> bool {
        match self.step {
            TargetStep::LookingUpTarget => action == TargetAction::LookUpTarget(
                self.request.target_name,
            ),
            TargetStep::AuthorizingTicket { target } => action == (TargetAction::AuthorizeTicket {
                user: &self.request.authentication.spec_user(),
                target: &target,
                protocol: crate::PROTOCOL_NAME,
            }),
            TargetStep::ReadingAddress { .. } => action is ReadAddress,
            TargetStep::AuthorizingIdentity { identity, .. } => action matches TargetAction::Identity(
                inner,
            ) && identity.awaits(inner),
            TargetStep::AuthorizingRole { target, identity } => action == (
            TargetAction::AuthorizeRole { identity: &identity, target: &target }),
            TargetStep::Done(_) => action is Finished,
        }
    }

    pub fn pending(&self) -> (action: TargetAction<'_>)
        ensures
            self.awaits(action),
    {
        match &self.step {
            TargetStep::LookingUpTarget => TargetAction::LookUpTarget(self.request.target_name),
            TargetStep::AuthorizingTicket { target } => TargetAction::AuthorizeTicket {
                user: self.request.authentication.user(),
                target,
                protocol: crate::PROTOCOL_NAME,
            },
            TargetStep::ReadingAddress { .. } => TargetAction::ReadAddress,
            TargetStep::AuthorizingIdentity { identity, .. } => TargetAction::Identity(
                identity.pending(),
            ),
            TargetStep::AuthorizingRole { target, identity } => TargetAction::AuthorizeRole {
                identity,
                target,
            },
            TargetStep::Done(_) => TargetAction::Finished,
        }
    }

    /// The step that the authorization of the identity has come to.
    pub open spec fn identity_step(target: Target, identity: IdentityAuth<'a, E>) -> TargetStep<
        'a,
        E,
    > {
        match identity.step {
            IdentityStep::Done(Ok(granted)) => TargetStep::AuthorizingRole {
                target,
                identity: granted,
            },
            IdentityStep::Done(Err(e)) => TargetStep::Done(Err(e)),
            _ => TargetStep::AuthorizingIdentity { target, identity },
        }
    }

    fn next_identity_step(target: Target, identity: IdentityAuth<'a, E>) -> (step: TargetStep<'a, E>)
        ensures
            step == Self::identity_step(target, identity),
    {
        let IdentityAuth { request, step } = identity;
        match step {
            IdentityStep::Done(Ok(granted)) => TargetStep::AuthorizingRole {
                target,
                identity: granted,
            },
            IdentityStep::Done(Err(e)) => TargetStep::Done(Err(e)),
            step => TargetStep::AuthorizingIdentity {
                target,
                identity: IdentityAuth { request, step },
            },
        }
    }

    /// The step after an answer. An answer to a question that was not asked turns the request down.
    pub open spec fn step_after(self, event: TargetEvent<E>) -> TargetStep<'a, E> {
        match (self.step, event) {
            (TargetStep::Done(result), _) => TargetStep::Done(result),
            (TargetStep::LookingUpTarget, TargetEvent::Target(found)) => match found_target(
                *self.request.target_name,
                found,
            ) {
                Ok(target) => if self.request.authentication is Oidc {
                    TargetStep::AuthorizingTicket { target }
                } else {
                    TargetStep::ReadingAddress { target }
                },
                Err(e) => TargetStep::Done(Err(e)),
            },
            (TargetStep::AuthorizingTicket { target }, TargetEvent::Ticket(reply)) => match reply {
                Ok(Some(authorization)) => TargetStep::Done(
                    Ok(KubernetesTargetAuthorization { authorization, ticket_grant: true }),
                ),
                Ok(None) => TargetStep::ReadingAddress { target },
                Err(e) => TargetStep::Done(Err(AuthError::Backend(e))),
            },
            (TargetStep::ReadingAddress { target }, TargetEvent::Address(client_ip)) =>
                Self::identity_step(
                    target,
                    IdentityAuth::start(self.request.spec_from_address(client_ip)),
                ),
            (
                TargetStep::AuthorizingIdentity { target, identity },
                TargetEvent::Identity(answer),
            ) => Self::identity_step(target, identity.after(answer)),
            (TargetStep::AuthorizingRole { .. }, TargetEvent::Role(reply)) => match reply {
                Ok(Some(authorization)) => TargetStep::Done(
                    Ok(KubernetesTargetAuthorization { authorization, ticket_grant: false }),
                ),
                Ok(None) => TargetStep::Done(
                    Err(AuthError::AccessDenied { target_name: *self.request.target_name }),
                ),
                Err(e) => TargetStep::Done(Err(AuthError::Backend(e))),
            },
            _ => TargetStep::Done(Err(AuthError::Unauthorized)),
        }
    }

    /// The authorization after an answer.
    pub open spec fn after(self, event: TargetEvent<E>) -> Self {
        TargetAuth { request: self.request, step: self.step_after(event) }
    }

    /// Takes an answer of the gateway.
    pub fn resume(self, event: TargetEvent<E>) -> (next: Self)
        ensures
            next == self.after(event),
    {
        let TargetAuth { request, step } = self;
        let step: TargetStep<'a, E> = match (step, event) {
            (TargetStep::Done(result), _) => TargetStep::Done(result),
            (TargetStep::LookingUpTarget, TargetEvent::Target(found)) => {
                match lookup_k8s_target(request.target_name, found) {
                    Ok(target) => if request.authentication.oidc_user().is_some() {
                        TargetStep::AuthorizingTicket { target }
                    } else {
                        TargetStep::ReadingAddress { target }
                    },
                    Err(e) => TargetStep::Done(Err(e)),
                }
            },
            (TargetStep::AuthorizingTicket { target }, TargetEvent::Ticket(reply)) => match reply {
                Ok(Some(authorization)) => TargetStep::Done(
                    Ok(KubernetesTargetAuthorization::from_ticket(authorization)),
                ),
                Ok(None) => TargetStep::ReadingAddress { target },
                Err(e) => TargetStep::Done(Err(AuthError::Backend(e))),
            },
            (TargetStep::ReadingAddress { target }, TargetEvent::Address(client_ip)) =>
                Self::next_identity_step(
                    target,
                    authorize_kubernetes_identity(request.from_address(client_ip)),
                ),
            (
                TargetStep::AuthorizingIdentity { target, identity },
                TargetEvent::Identity(answer),
            ) => Self::next_identity_step(target, identity.resume(answer)),
            (TargetStep::AuthorizingRole { .. }, TargetEvent::Role(reply)) => match reply {
                Ok(Some(authorization)) => TargetStep::Done(
                    Ok(KubernetesTargetAuthorization::from_role(authorization)),
                ),
                Ok(None) => TargetStep::Done(
                    Err(AuthError::AccessDenied { target_name: request.target_name.clone() }),
                ),
                Err(e) => TargetStep::Done(Err(AuthError::Backend(e))),
            },
            _ => TargetStep::Done(Err(AuthError::Unauthorized)),
        };
        TargetAuth { request, step }
    }

    /// The authorization after a number of answers, in order.
    pub open spec fn run(self, events: Seq<TargetEvent<E>>) -> Self
        decreases events.len(),
    {
        if events.len() == 0 {
            self
        } else {
            self.run(events.drop_last()).after(events.last())
        }
    }
}

/// Only the OIDC user of an active ticket is let through by a ticket grant: the check of such an
/// authorization succeeds exactly when the identity is an OIDC one and its user has an active
/// ticket for the target at that moment.
pub proof fn lemma_ticket_rechecked<E>(
    authorization: KubernetesTargetAuthorization,
    authentication: KubernetesAuthentication,
    active: Result<bool, E>,
)
    requires
        authorization.ticket_grant,
    ensures
        authorization.check_start::<E>(authentication).outcome(active) is Ok
            <==> authentication is Oidc && active == Ok::<bool, E>(true),
        authentication is Oidc ==> authorization.check_start::<E>(authentication).spec_pending() == (
        GrantAction::HasActiveTicket {
            user_id: authentication.spec_user().id,
            target_id: authorization.authorization.target.id,
        }),
        authentication !is Oidc ==> authorization.check_start::<E>(authentication).outcome(active)
            == Err::<(), _>(AuthError::<E>::Unauthorized),
{
}

/// An authorization by an access role needs no further check.
pub proof fn lemma_role_grant_holds<E>(
    authorization: KubernetesTargetAuthorization,
    authentication: KubernetesAuthentication,
    active: Result<bool, E>,
)
    requires
        !authorization.ticket_grant,
    ensures
        authorization.check_start::<E>(authentication).spec_pending() is Finished,
        authorization.check_start::<E>(authentication).outcome(active) is Ok,
{
}

/// The configuration gave a Kubernetes target.
pub open spec fn target_was_found<E>(events: Seq<TargetEvent<E>>, target: Target) -> bool {
    &&& target.options is Kubernetes
    &&& events.contains(TargetEvent::Target(Ok(Some(target))))
}

/// The credential policy of the user was satisfied, where there is one.
pub open spec fn policy_was_satisfied<E>(
    request: TargetRequest<'_>,
    events: Seq<TargetEvent<E>>,
) -> bool {
    request.authentication.spec_user().has_kubernetes_policy() ==> {
        &&& events.contains(
            TargetEvent::Identity(IdentityEvent::Policy(PolicyEvent::Verified(AuthResult::Accepted))),
        )
        &&& request.authentication is Oidc ==> events.contains(
            TargetEvent::Identity(IdentityEvent::CredentialSubmitted(Ok(true))),
        )
    }
}

/// The identity that a user's policy makes of an authenticated user.
pub open spec fn identity_for(request: TargetRequest<'_>) -> AuthorizedIdentity {
    let user = request.authentication.spec_user();
    if user.has_kubernetes_policy() {
        AuthorizedIdentity::AuthState { session_id: request.session_id }
    } else {
        session_identity(user)
    }
}

/// Each of the answers about the identity was given.
spec fn were_given<E>(answers: Seq<IdentityEvent<E>>, events: Seq<TargetEvent<E>>) -> bool {
    forall|k: int|
        0 <= k < answers.len() ==> events.contains(TargetEvent::Identity(#[trigger] answers[k]))
}

/// An OIDC user is known to have no active ticket.
spec fn ticket_was_tried<E>(
    request: TargetRequest<'_>,
    events: Seq<TargetEvent<E>>,
) -> bool {
    request.authentication is Oidc ==> events.contains(TargetEvent::Ticket(Ok(None)))
}

/// The request, from the address that was read.
pub open spec fn address_was_read<E>(
    request: TargetRequest<'_>,
    located: AuthorizationRequest<'_>,
    events: Seq<TargetEvent<E>>,
) -> bool {
    &&& located == request.spec_from_address(located.client_ip)
    &&& events.contains(TargetEvent::Address(located.client_ip))
}

/// What has to have happened for an authorization to stand where it does.
spec fn step_justified<'a, E>(
    request: TargetRequest<'a>,
    step: TargetStep<'a, E>,
    events: Seq<TargetEvent<E>>,
) -> bool {
    match step {
        TargetStep::LookingUpTarget => events.len() == 0,
        TargetStep::AuthorizingTicket { target } => {
            &&& request.authentication is Oidc
            &&& target_was_found(events, target)
        },
        TargetStep::ReadingAddress { target } => {
            &&& target_was_found(events, target)
            &&& ticket_was_tried(request, events)
        },
        TargetStep::AuthorizingIdentity { target, identity } => {
            &&& target_was_found(events, target)
            &&& ticket_was_tried(request, events)
            &&& identity.step !is Done
            &&& address_was_read(request, identity.request, events)
            &&& exists|answers: Seq<IdentityEvent<E>>|
                identity == IdentityAuth::<'a, E>::start(identity.request).run(answers)
                    && #[trigger] were_given(answers, events)
        },
        TargetStep::AuthorizingRole { target, identity } => {
            &&& target_was_found(events, target)
            &&& ticket_was_tried(request, events)
            &&& policy_was_satisfied(request, events)
            &&& identity == identity_for(request)
        },
        TargetStep::Done(Ok(granted)) => if granted.ticket_grant {
            &&& request.authentication is Oidc
            &&& events.contains(TargetEvent::Ticket(Ok(Some(granted.authorization))))
            &&& exists|target: Target| #[trigger] target_was_found(events, target)
        } else {
            &&& ticket_was_tried(request, events)
            &&& policy_was_satisfied(request, events)
            &&& events.contains(TargetEvent::Role(Ok(Some(granted.authorization))))
            &&& exists|target: Target| #[trigger] target_was_found(events, target)
        },
        TargetStep::Done(Err(_)) => true,
    }
}

/// What was given stays given.
proof fn lemma_contains_later<E>(front: Seq<TargetEvent<E>>, events: Seq<TargetEvent<E>>)
    requires
        events.len() > 0,
        front == events.drop_last(),
    ensures
        forall|event: TargetEvent<E>| front.contains(event) ==> #[trigger] events.contains(event),
        events.contains(events.last()),
{
    assert forall|event: TargetEvent<E>| front.contains(event) implies #[trigger] events.contains(
        event,
    ) by {
        let i = choose|i: int| 0 <= i < front.len() && front[i] == event;
        assert(events[i] == event);
    }
    assert(events[events.len() - 1] == events.last());
}

/// The step that the answers about the identity lead to is justified.
proof fn lemma_identity_step_justified<'a, E>(
    request: TargetRequest<'a>,
    located: AuthorizationRequest<'a>,
    target: Target,
    answers: Seq<IdentityEvent<E>>,
    events: Seq<TargetEvent<E>>,
)
    requires
        target_was_found(events, target),
        ticket_was_tried(request, events),
        address_was_read(request, located, events),
        were_given(answers, events),
    ensures
        step_justified(
            request,
            TargetAuth::<'a, E>::identity_step(
                target,
                IdentityAuth::<'a, E>::start(located).run(answers),
            ),
            events,
        ),
{
    let identity = IdentityAuth::<'a, E>::start(located).run(answers);
    lemma_request_kept::<E>(located, answers);
    if !request.authentication.spec_user().has_kubernetes_policy() {
        lemma_no_policy(located, answers);
    } else if let IdentityStep::Done(Ok(granted)) = identity.step {
        lemma_policy_enforced(located, answers, granted);
        let i = choose|i: int|
            0 <= i < answers.len() && #[trigger] answers[i] == IdentityEvent::<E>::Policy(
                PolicyEvent::Verified(AuthResult::Accepted),
            );
        assert(events.contains(TargetEvent::Identity(answers[i])));
        if request.authentication is Oidc {
            let j = choose|j: int|
                0 <= j < answers.len() && #[trigger] answers[j]
                    == IdentityEvent::<E>::CredentialSubmitted(Ok(true));
            assert(events.contains(TargetEvent::Identity(answers[j])));
        }
    }
}

proof fn lemma_step_justified<'a, E>(
    request: TargetRequest<'a>,
    events: Seq<TargetEvent<E>>,
)
    ensures
        TargetAuth::<'a, E>::start(request).run(events).request == request,
        step_justified(request, TargetAuth::<'a, E>::start(request).run(events).step, events),
    decreases events.len(),
{
    if events.len() > 0 {
        let front = events.drop_last();
        let event = events.last();
        let before = TargetAuth::<'a, E>::start(request).run(front);
        lemma_step_justified(request, front);
        lemma_contains_later(front, events);
        match (before.step, event) {
            (TargetStep::LookingUpTarget, TargetEvent::Target(Ok(Some(target)))) => {
                if target.options is Kubernetes {
                    assert(target_was_found(events, target));
                }
            },
            (TargetStep::AuthorizingTicket { target }, _) => {
                assert(target_was_found(events, target));
            },
            (TargetStep::ReadingAddress { target }, TargetEvent::Address(client_ip)) => {
                assert(target_was_found(events, target));
                let located = request.spec_from_address(client_ip);
                lemma_identity_step_justified(request, located, target, Seq::empty(), events);
            },
            (
                TargetStep::AuthorizingIdentity { target, identity },
                TargetEvent::Identity(answer),
            ) => {
                let answers = choose|answers: Seq<IdentityEvent<E>>|
                    identity == IdentityAuth::<'a, E>::start(identity.request).run(answers)
                        && #[trigger] were_given(answers, front);
                let more = answers.push(answer);
                assert(more.drop_last() == answers);
                assert(target_was_found(events, target));
                assert forall|k: int| 0 <= k < more.len() implies events.contains(
                    TargetEvent::Identity(#[trigger] more[k]),
                ) by {
                    if k < answers.len() {
                        assert(front.contains(TargetEvent::Identity(answers[k])));
                    }
                }
                lemma_identity_step_justified(request, identity.request, target, more, events);
            },
            (TargetStep::AuthorizingRole { target, .. }, _) => {
                assert(target_was_found(events, target));
            },
            (TargetStep::Done(Ok(_)), _) => {
                let target = choose|target: Target| #[trigger] target_was_found(front, target);
                assert(target_was_found(events, target));
            },
            _ => {},
        }
    }
}

/// Every authorization is for a request whose target the configuration holds as a Kubernetes
/// target, and rests either on an active ticket of an OIDC user or on an access role of a user whose
/// credential policy was satisfied, if there is one. A role is asked about only after the ticket.
pub proof fn lemma_authorization_justified<'a, E>(
    request: TargetRequest<'a>,
    events: Seq<TargetEvent<E>>,
    granted: KubernetesTargetAuthorization,
)
    requires
        TargetAuth::<'a, E>::start(request).run(events).step == TargetStep::<'a, E>::Done(
            Ok(granted),
        ),
    ensures
        exists|target: Target| #[trigger] target_was_found(events, target),
        granted.ticket_grant ==> {
            &&& request.authentication is Oidc
            &&& events.contains(TargetEvent::Ticket(Ok(Some(granted.authorization))))
        },
        !granted.ticket_grant ==> {
            &&& events.contains(TargetEvent::Role(Ok(Some(granted.authorization))))
            &&& policy_was_satisfied(request, events)
            &&& request.authentication is Oidc ==> events.contains(TargetEvent::Ticket(Ok(None)))
        },
{
    lemma_step_justified(request, events);
}

/// An access role is looked for only for the identity that the user's policy makes, and only once
/// that policy is satisfied.
pub proof fn lemma_role_asked_for_identity<'a, E>(
    request: TargetRequest<'a>,
    events: Seq<TargetEvent<E>>,
    target: Target,
    identity: AuthorizedIdentity,
)
    requires
        TargetAuth::<'a, E>::start(request).run(events).step == TargetStep::<'a, E>::role_step(
            target,
            identity,
        ),
    ensures
        identity == identity_for(request),
        policy_was_satisfied(request, events),
        target_was_found(events, target),
{
    lemma_step_justified(request, events);
}

/// The credential policy is applied to the very request that was made, from the address that the
/// gateway gave once the target was found and no ticket let the user through.
pub proof fn lemma_policy_applied_to_request<'a, E>(
    request: TargetRequest<'a>,
    events: Seq<TargetEvent<E>>,
)
    ensures
        TargetAuth::<'a, E>::start(request).run(events).step
            matches TargetStep::AuthorizingIdentity { target, identity } ==> {
            &&& address_was_read(request, identity.request, events)
            &&& target_was_found(events, target)
            &&& request.authentication is Oidc ==> events.contains(TargetEvent::Ticket(Ok(None)))
        },
{
    lemma_step_justified(request, events);
}

/// An active ticket of an OIDC user is enough: nothing of the credential policy is asked for.
pub proof fn lemma_ticket_before_policy<'a, E>(
    request: TargetRequest<'a>,
    target: Target,
    authorization: TargetAuthorization,
)
    requires
        request.authentication is Oidc,
        target.options is Kubernetes,
    ensures
        TargetAuth::<'a, E>::start(request).run(
            seq![
                TargetEvent::Target(Ok(Some(target))),
                TargetEvent::Ticket(Ok(Some(authorization))),
            ],
        ).step == TargetStep::<'a, E>::Done(
            Ok(KubernetesTargetAuthorization { authorization, ticket_grant: true }),
        ),
{
    reveal_with_fuel(TargetAuth::run, 3);
    let events = seq![
        TargetEvent::<E>::Target(Ok(Some(target))),
        TargetEvent::Ticket(Ok(Some(authorization))),
    ];
    assert(events.drop_last() =~= seq![TargetEvent::<E>::Target(Ok(Some(target)))]);
    assert(events.drop_last().drop_last() =~= Seq::<TargetEvent<E>>::empty());
}

/// An authorization for a target that is not there, or not a Kubernetes target, is turned down as
/// not found before anything else is asked.
pub proof fn lemma_unknown_target<'a, E>(
    request: TargetRequest<'a>,
    found: Option<Target>,
)
    requires
        found matches Some(target) ==> target.options !is Kubernetes,
    ensures
        TargetAuth::<'a, E>::start(request).after(TargetEvent::Target(Ok(found))).step
            == TargetStep::<'a, E>::Done(
            Err(AuthError::TargetNotFound { target_name: *request.target_name }),
        ),
{
}

/// The user who is to be authorized for a target.
pub open spec fn requesting_user(request: TargetRequest<'_>) -> User {
    match *request.authentication {
        KubernetesAuthentication::User(user) => user,
        KubernetesAuthentication::Oidc { user, .. } => user,
    }
}

/// An answer more is taken after the others.
proof fn lemma_run_push<'a, E>(
    auth: TargetAuth<'a, E>,
    events: Seq<TargetEvent<E>>,
    event: TargetEvent<E>,
)
    ensures
        auth.run(events.push(event)) == auth.run(events).after(event),
{
    assert(events.push(event).drop_last() =~= events);
}

/// The target of the request is looked up first, by its name. One that is not there, or not a
/// Kubernetes target, is not found, and a fault is passed on. A target that is found is checked for
/// a ticket of the user where an OIDC token proved who that is; any other user has none.
pub proof fn lemma_target_lookup<'a, E>(
    request: TargetRequest<'a>,
    target: Target,
    fault: E,
    action: TargetAction<'_>,
)
    ensures
        ({
            let start = TargetAuth::<'a, E>::start(request);
            let found = start.after(TargetEvent::Target(Ok(Some(target))));
            &&& start.awaits(action) ==> action == TargetAction::LookUpTarget(request.target_name)
            &&& start.after(TargetEvent::Target(Err(fault))).step == TargetStep::<'a, E>::Done(
                Err(AuthError::Backend(fault)),
            )
            &&& start.after(TargetEvent::Target(Ok(None))).step == TargetStep::<'a, E>::Done(
                Err(AuthError::TargetNotFound { target_name: *request.target_name }),
            )
            &&& target.options is Other ==> found.step == TargetStep::<'a, E>::Done(
                Err(AuthError::TargetNotFound { target_name: *request.target_name }),
            )
            &&& target.options is Kubernetes && request.authentication is Oidc && found.awaits(
                action,
            ) ==> {
                &&& action matches TargetAction::AuthorizeTicket { user, target: asked, protocol }
                &&& *user == requesting_user(request)
                &&& *asked == target
                &&& protocol@ == "Kubernetes"@
            }
            &&& target.options is Kubernetes && request.authentication is User && found.awaits(
                action,
            ) ==> action is ReadAddress
        }),
{
}

/// An active ticket of an OIDC user gives access by that ticket, a fault is passed on, and a missing
/// ticket is no reason to turn the user down: the address is read, and the user's policy and roles
/// decide.
pub proof fn lemma_ticket_outcomes<'a, E>(
    request: TargetRequest<'a>,
    target: Target,
    authorization: TargetAuthorization,
    fault: E,
    action: TargetAction<'_>,
)
    requires
        request.authentication is Oidc,
        target.options is Kubernetes,
    ensures
        ({
            let found = TargetAuth::<'a, E>::start(request).after(
                TargetEvent::Target(Ok(Some(target))),
            );
            &&& found.after(TargetEvent::Ticket(Ok(Some(authorization)))).step == TargetStep::<
                'a,
                E,
            >::Done(Ok(KubernetesTargetAuthorization { authorization, ticket_grant: true }))
            &&& found.after(TargetEvent::Ticket(Err(fault))).step == TargetStep::<'a, E>::Done(
                Err(AuthError::Backend(fault)),
            )
            &&& found.after(TargetEvent::Ticket(Ok(None))).awaits(action) ==> action is ReadAddress
        }),
{
}

/// The answers up to the policy: the target is there, an OIDC user has no active ticket for it, and
/// the address is read.
pub open spec fn opening_answers<E>(
    request: TargetRequest<'_>,
    target: Target,
    client_ip: Option<ClientIp>,
) -> Seq<TargetEvent<E>> {
    if request.authentication is Oidc {
        Seq::empty().push(TargetEvent::Target(Ok(Some(target)))).push(
            TargetEvent::Ticket(Ok(None)),
        ).push(TargetEvent::Address(client_ip))
    } else {
        Seq::empty().push(TargetEvent::Target(Ok(Some(target)))).push(
            TargetEvent::Address(client_ip),
        )
    }
}

/// The answers up to where the state of the policy is looked at: those before, an authentication
/// state that was created, and an OIDC credential that was found valid.
pub open spec fn answers_up_to_policy<E>(
    request: TargetRequest<'_>,
    target: Target,
    client_ip: Option<ClientIp>,
) -> Seq<TargetEvent<E>> {
    let created = opening_answers(request, target, client_ip).push(
        TargetEvent::<E>::Identity(IdentityEvent::AuthStateCreated(Ok(()))),
    );
    if request.authentication is Oidc {
        created.push(TargetEvent::Identity(IdentityEvent::CredentialSubmitted(Ok(true))))
    } else {
        created
    }
}

/// Answers about the policy, as the authorization for a target gets them.
pub open spec fn policy_answers<E>(events: Seq<PolicyEvent<E>>) -> Seq<TargetEvent<E>> {
    events.map_values(|event: PolicyEvent<E>| TargetEvent::Identity(IdentityEvent::Policy(event)))
}

/// Where the answers up to the policy lead.
proof fn lemma_opening<'a, E>(
    request: TargetRequest<'a>,
    target: Target,
    client_ip: Option<ClientIp>,
)
    requires
        target.options is Kubernetes,
    ensures
        TargetAuth::<'a, E>::start(request).run(opening_answers(request, target, client_ip))
            == (TargetAuth::<'a, E> {
            request,
            step: TargetAuth::<'a, E>::identity_step(
                target,
                IdentityAuth::start(request.spec_from_address(client_ip)),
            ),
        }),
{
    let start = TargetAuth::<'a, E>::start(request);
    let none = Seq::<TargetEvent<E>>::empty();
    let found = none.push(TargetEvent::<E>::Target(Ok(Some(target))));
    lemma_run_push(start, none, TargetEvent::Target(Ok(Some(target))));
    if request.authentication is Oidc {
        let tried = found.push(TargetEvent::<E>::Ticket(Ok(None)));
        lemma_run_push(start, found, TargetEvent::Ticket(Ok(None)));
        lemma_run_push(start, tried, TargetEvent::Address(client_ip));
    } else {
        lemma_run_push(start, found, TargetEvent::Address(client_ip));
    }
}

/// While the policy is not resolved, the authorization for the target is where the policy is.
proof fn lemma_policy_in_target<'a, E>(
    request: TargetRequest<'a>,
    target: Target,
    client_ip: Option<ClientIp>,
    events: Seq<PolicyEvent<E>>,
)
    requires
        target.options is Kubernetes,
        exists|kind: CredentialKind| #[trigger] requesting_user(request).asks_for(kind),
        PolicyCheck::<E>::Verifying.run(events) !is Done,
    ensures
        TargetAuth::<'a, E>::start(request).run(
            answers_up_to_policy(request, target, client_ip) + policy_answers(events),
        ) == (TargetAuth::<'a, E> {
            request,
            step: TargetStep::AuthorizingIdentity {
                target,
                identity: IdentityAuth {
                    request: request.spec_from_address(client_ip),
                    step: IdentityStep::AwaitingPolicy(PolicyCheck::Verifying.run(events)),
                },
            },
        }),
    decreases events.len(),
{
    let start = TargetAuth::<'a, E>::start(request);
    let before = answers_up_to_policy::<E>(request, target, client_ip);
    if events.len() == 0 {
        let opening = opening_answers::<E>(request, target, client_ip);
        let created = TargetEvent::<E>::Identity(IdentityEvent::AuthStateCreated(Ok(())));
        lemma_policy_asks_for_something(requesting_user(request));
        lemma_opening::<E>(request, target, client_ip);
        lemma_run_push(start, opening, created);
        lemma_run_push(
            start,
            opening.push(created),
            TargetEvent::Identity(IdentityEvent::CredentialSubmitted(Ok(true))),
        );
        assert(before + policy_answers(events) =~= before);
    } else {
        let front = events.drop_last();
        lemma_policy_in_target(request, target, client_ip, front);
        lemma_run_push(
            start,
            before + policy_answers(front),
            TargetEvent::Identity(IdentityEvent::Policy(events.last())),
        );
        assert(before + policy_answers(events) =~= (before + policy_answers(front)).push(
            TargetEvent::Identity(IdentityEvent::Policy(events.last())),
        ));
    }
}

/// What an access role comes to: the authorization that it gives, denied access to the target of the
/// request where the user has none, or the fault.
pub open spec fn role_decides<'a, E>(
    auth: TargetAuth<'a, E>,
    request: TargetRequest<'a>,
    authorization: TargetAuthorization,
    fault: E,
) -> bool {
    &&& auth.after(TargetEvent::Role(Ok(Some(authorization)))).step == TargetStep::<'a, E>::Done(
        Ok(KubernetesTargetAuthorization { authorization, ticket_grant: false }),
    )
    &&& auth.after(TargetEvent::Role(Ok(None))).step == TargetStep::<'a, E>::Done(
        Err(AuthError::AccessDenied { target_name: *request.target_name }),
    )
    &&& auth.after(TargetEvent::Role(Err(fault))).step == TargetStep::<'a, E>::Done(
        Err(AuthError::Backend(fault)),
    )
}

/// A user without an active ticket whose policy asks for nothing gets access by a role, however the
/// user was authenticated: the role is asked about for the user's own id and name and for the target
/// that was found, and what it says decides.
pub proof fn lemma_role_gives_access<'a, E>(
    request: TargetRequest<'a>,
    target: Target,
    client_ip: Option<ClientIp>,
    authorization: TargetAuthorization,
    fault: E,
    action: TargetAction<'_>,
)
    requires
        target.options is Kubernetes,
        forall|kind: CredentialKind| !#[trigger] requesting_user(request).asks_for(kind),
    ensures
        ({
            let auth = TargetAuth::<'a, E>::start(request).run(
                opening_answers(request, target, client_ip),
            );
            &&& auth.awaits(action) ==> {
                &&& action matches TargetAction::AuthorizeRole { identity, target: asked }
                &&& *asked == target
                &&& *identity matches AuthorizedIdentity::AuthenticatedSession { user, protocol }
                &&& user.id == requesting_user(request).id
                &&& user.username == requesting_user(request).username
                &&& protocol@ == "Kubernetes"@
            }
            &&& role_decides(auth, request, authorization, fault)
        }),
{
    lemma_opening::<E>(request, target, client_ip);
    lemma_policy_asks_for_something(requesting_user(request));
}

/// A user without an active ticket whose policy asks for something gets access by a role once the
/// policy is satisfied: by however many approvals that were given, and an authentication state that
/// then stands accepted and gives its identity. The role is asked about for the session's
/// authentication state and for the target that was found, and what it says decides.
pub proof fn lemma_satisfied_policy_and_role_give_access<'a, E>(
    request: TargetRequest<'a>,
    target: Target,
    client_ip: Option<ClientIp>,
    rounds: Seq<Seq<PolicyEvent<E>>>,
    authorization: TargetAuthorization,
    fault: E,
    action: TargetAction<'_>,
)
    requires
        target.options is Kubernetes,
        exists|kind: CredentialKind| #[trigger] requesting_user(request).asks_for(kind),
        forall|i: int| 0 <= i < rounds.len() ==> is_approval_round(#[trigger] rounds[i]),
    ensures
        ({
            let auth = TargetAuth::<'a, E>::start(request).run(
                answers_up_to_policy(request, target, client_ip) + policy_answers(
                    answers_of(rounds).push(PolicyEvent::Verified(AuthResult::Accepted)).push(
                        PolicyEvent::IdentityTaken(true),
                    ),
                ),
            );
            &&& auth.awaits(action) ==> {
                &&& action matches TargetAction::AuthorizeRole { identity, target: asked }
                &&& *asked == target
                &&& *identity == (AuthorizedIdentity::AuthState { session_id: request.session_id })
            }
            &&& role_decides(auth, request, authorization, fault)
        }),
{
    let start = TargetAuth::<'a, E>::start(request);
    let before = answers_up_to_policy::<E>(request, target, client_ip);
    let events = answers_of(rounds).push(PolicyEvent::<E>::Verified(AuthResult::Accepted));
    let taken = PolicyEvent::<E>::IdentityTaken(true);
    lemma_approvals_satisfy_policy(rounds);
    assert(events.push(taken).drop_last() =~= events);
    assert(events.drop_last() =~= answers_of(rounds));
    lemma_policy_in_target(request, target, client_ip, events);
    lemma_run_push(
        start,
        before + policy_answers(events),
        TargetEvent::Identity(IdentityEvent::Policy(taken)),
    );
    assert(before + policy_answers(events.push(taken)) =~= (before + policy_answers(events)).push(
        TargetEvent::Identity(IdentityEvent::Policy(taken)),
    ));
}

/// While the policy is not resolved, the authorization asks exactly what the policy asks, and it ends
/// with the policy's error where the policy ends with one.
pub proof fn lemma_policy_decides<'a, E>(
    request: TargetRequest<'a>,
    target: Target,
    client_ip: Option<ClientIp>,
    events: Seq<PolicyEvent<E>>,
    last: PolicyEvent<E>,
    action: TargetAction<'_>,
)
    requires
        target.options is Kubernetes,
        exists|kind: CredentialKind| #[trigger] requesting_user(request).asks_for(kind),
        PolicyCheck::<E>::Verifying.run(events) !is Done,
    ensures
        ({
            let auth = TargetAuth::<'a, E>::start(request).run(
                answers_up_to_policy(request, target, client_ip) + policy_answers(events),
            );
            let policy = PolicyCheck::<E>::Verifying.run(events);
            &&& auth.awaits(action) ==> action == TargetAction::Identity(
                IdentityAction::Policy(policy.spec_pending()),
            )
            &&& policy.after(last) matches PolicyCheck::Done(Err(e)) ==> auth.after(
                TargetEvent::Identity(IdentityEvent::Policy(last)),
            ).step == TargetStep::<'a, E>::Done(Err(e))
        }),
{
    lemma_policy_in_target(request, target, client_ip, events);
}

/// A user whose policy asks for something gets an authentication state for the request, from the
/// address that was read; an OIDC user then submits the credential that the token gave. What goes
/// wrong there ends the authorization: a credential that is not valid turns the user down, a fault is
/// passed on.
pub proof fn lemma_policy_opening<'a, E>(
    request: TargetRequest<'a>,
    target: Target,
    client_ip: Option<ClientIp>,
    fault: E,
    action: TargetAction<'_>,
)
    requires
        target.options is Kubernetes,
        exists|kind: CredentialKind| #[trigger] requesting_user(request).asks_for(kind),
    ensures
        ({
            let opened = TargetAuth::<'a, E>::start(request).run(
                opening_answers(request, target, client_ip),
            );
            let created = opened.after(
                TargetEvent::Identity(IdentityEvent::AuthStateCreated(Ok(()))),
            );
            &&& opened.awaits(action) ==> {
                &&& action matches TargetAction::Identity(
                    IdentityAction::CreateAuthState {
                        session_id,
                        username,
                        protocol,
                        target_name,
                        supported_credential_types,
                        client_ip: address,
                    },
                )
                &&& session_id == request.session_id
                &&& *username == requesting_user(request).username
                &&& protocol@ == "Kubernetes"@
                &&& target_name == request.target_name
                &&& address == client_ip
                &&& supported_credential_types@ == (if request.authentication is Oidc {
                    seq![CredentialKind::WebUserApproval, CredentialKind::Sso]
                } else {
                    seq![CredentialKind::WebUserApproval]
                })
            }
            &&& opened.after(
                TargetEvent::Identity(IdentityEvent::AuthStateCreated(Err(fault))),
            ).step == TargetStep::<'a, E>::Done(Err(AuthError::Backend(fault)))
            &&& *request.authentication matches KubernetesAuthentication::Oidc { credential, .. }
                ==> {
                &&& created.awaits(action) ==> action == TargetAction::Identity(
                    IdentityAction::SubmitCredential(&credential),
                )
                &&& created.after(
                    TargetEvent::Identity(IdentityEvent::CredentialSubmitted(Ok(false))),
                ).step == TargetStep::<'a, E>::Done(Err(AuthError::Unauthorized))
                &&& created.after(
                    TargetEvent::Identity(IdentityEvent::CredentialSubmitted(Err(fault))),
                ).step == TargetStep::<'a, E>::Done(Err(AuthError::Backend(fault)))
            }
        }),
{
    lemma_opening::<E>(request, target, client_ip);
    lemma_policy_asks_for_something(requesting_user(request));
}

/// An authorization that is over asks for nothing and keeps its result; one that is not over and
/// gets an answer to another question than its own is turned down.
pub proof fn lemma_target_fails_closed<'a, E>(
    auth: TargetAuth<'a, E>,
    event: TargetEvent<E>,
    action: TargetAction<'_>,
)
    ensures
        auth.step is Done ==> auth.after(event) == auth,
        auth.step is Done && auth.awaits(action) ==> action is Finished,
        auth.step !is Done && auth.awaits(action) && !(match action {
            TargetAction::LookUpTarget(_) => event is Target,
            TargetAction::AuthorizeTicket { .. } => event is Ticket,
            TargetAction::ReadAddress => event is Address,
            TargetAction::Identity(_) => event is Identity,
            TargetAction::AuthorizeRole { .. } => event is Role,
            TargetAction::Finished => true,
        }) ==> auth.after(event).step == TargetStep::<'a, E>::Done(Err(AuthError::Unauthorized)),
{
}

/// Before each request, an authorization by a ticket is checked for the OIDC user of that request and
/// for the target that the authorization is for. It holds while the ticket is active; a ticket that
/// is not denies access to that target, and a fault is passed on. No other identity may use it. An
/// authorization by a role holds for whoever it is, and nothing is asked.
pub proof fn lemma_grant_rechecked<E>(
    authorization: KubernetesTargetAuthorization,
    user: User,
    credential: AuthCredential,
    identity: KubernetesAuthentication,
    active: Result<bool, E>,
)
    ensures
        authorization.ticket_grant ==> {
            let check = authorization.check_start::<E>(
                KubernetesAuthentication::Oidc { user, credential },
            );
            let other = authorization.check_start::<E>(KubernetesAuthentication::User(user));
            &&& check.spec_pending() == (GrantAction::HasActiveTicket {
                user_id: user.id,
                target_id: authorization.authorization.target.id,
            })
            &&& check.outcome(active) == (match active {
                Ok(true) => Ok::<(), AuthError<E>>(()),
                Ok(false) => Err(
                    AuthError::AccessDenied {
                        target_name: authorization.authorization.target.name,
                    },
                ),
                Err(e) => Err(AuthError::Backend(e)),
            })
            &&& other.spec_pending() is Finished
            &&& other.outcome(active) == Err::<(), _>(AuthError::<E>::Unauthorized)
        },
        !authorization.ticket_grant ==> {
            &&& authorization.check_start::<E>(identity).spec_pending() is Finished
            &&& authorization.check_start::<E>(identity).outcome(active) == Ok::<
                (),
                AuthError<E>,
            >(())
        },
{
}

} // verus!
