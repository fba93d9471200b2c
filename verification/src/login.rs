//! The login of a request: transport authentication under login protection, with an audit trail.

use vstd::prelude::*;

use crate::error::AuthError;
use crate::identity::{ClientIp, KubernetesAuthentication, User};
use crate::request::{credential_kind_of, presented_credential_kind, RequestCredentials};

verus! {

/// A failed login attempt, as login protection counts it.
#[derive(Debug)]
pub struct FailedAttemptInfo {
    pub username: String,
    pub remote_ip: ClientIp,
    pub protocol: &'static str,
    pub credential_type: &'static str,
}

/// The audit record of a failed login attempt.
#[derive(Debug)]
pub struct AuthenticationFailed {
    /// A UUID that tags the attempt.
    pub session: u128,
    pub client_ip: String,
    pub username: String,
    pub credentials: String,
    pub reason: String,
}

/// Whether a number is a UUID of the random kind: version 4, in the variant of RFC 9562.
pub open spec fn is_random_uuid(id: u128) -> bool {
    &&& (id / 0x1000_0000_0000_0000_0000) % 0x10 == 4
    &&& (id / 0x4000_0000_0000_0000) % 4 == 2
}

/// `uuid::Uuid::new_v4`: a random UUID. Which one is left to chance.
#[verifier::external_body]
fn new_uuid() -> (id: u128)
    ensures
        is_random_uuid(id),
{
    uuid::Uuid::new_v4().as_u128()
}

/// The audit record of a failed attempt. The user is not known; nor may the client's address be.
pub fn authentication_failed(
    session: u128,
    client_ip: Option<String>,
    credential_type: &str,
    reason: &str,
) -> (record: AuthenticationFailed)
    ensures
        record.reports(client_ip, credential_type@, reason@),
        record.session == session,
{
    AuthenticationFailed {
        session,
        client_ip: match client_ip {
            Some(ip) => ip,
            None => "<unknown>".to_string(),
        },
        username: "".to_string(),
        credentials: credential_type.to_string(),
        reason: reason.to_string(),
    }
}

/// The audit record of a failed attempt, tagged for it alone: a failed Kubernetes
/// auth has no established session, so a fresh id tags this attempt.
pub fn emit_authentication_failed(
    client_ip: Option<String>,
    credential_type: &str,
    reason: &str,
) -> (record: AuthenticationFailed)
    ensures
        record.reports(client_ip, credential_type@, reason@),
        is_random_uuid(record.session),
{
    authentication_failed(new_uuid(), client_ip, credential_type, reason)
}

impl AuthenticationFailed {
    /// Whether the record reports an attempt from the address, with a credential of the kind, that
    /// failed for the reason.
    pub open spec fn reports(
        self,
        client_ip: Option<String>,
        credential_type: Seq<char>,
        reason: Seq<char>,
    ) -> bool {
        &&& self.client_ip@ == (match client_ip {
            Some(ip) => ip@,
            None => "<unknown>"@,
        })
        &&& self.username@ == ""@
        &&& self.credentials@ == credential_type
        &&& self.reason@ == reason
    }
}

/// Where a login stands.
#[derive(Debug)]
pub enum LoginStep<E> {
    CheckingBlock { ip: ClientIp },
    Authenticating,
    RecordingFailure { ip: ClientIp, kind: &'static str },
    Auditing { kind: &'static str },
    Vetting { authentication: KubernetesAuthentication },
    ClearingFailures { ip: ClientIp, authentication: KubernetesAuthentication },
    Done(Result<KubernetesAuthentication, AuthError<E>>),
}

/// The login of one request.
#[derive(Debug)]
pub struct Login<E> {
    pub client_ip: Option<ClientIp>,
    /// The kind of credential that the request presents.
    pub credential_kind: Option<&'static str>,
    pub step: LoginStep<E>,
}

/// What a login asks of the gateway.
#[derive(Debug)]
pub enum LoginAction<'a> {
    /// Tell whether login protection blocks the address.
    CheckIpBlocked(ClientIp),
    /// Authenticate the request by its transport credentials.
    Authenticate,
    /// Count a failed attempt from the address, with a credential of this kind, by nobody known.
    RecordFailedAttempt { ip: ClientIp, kind: &'static str },
    /// Write the audit record of a failed attempt from the address, if it is known, with a
    /// credential of this kind.
    Audit { client_ip: Option<ClientIp>, kind: &'static str, reason: &'static str },
    /// Tell whether the user may log in from the address.
    VetBearer { user: &'a User, client_ip: Option<ClientIp> },
    /// Forget the failed attempts of the user from the address.
    ClearFailedAttempts { ip: ClientIp, username: &'a String },
    /// Nothing: the login is over.
    Finished,
}

/// The gateway's answer.
#[derive(Debug)]
pub enum LoginEvent<E> {
    IpBlocked(Result<bool, E>),
    Authenticated(Result<Option<KubernetesAuthentication>, AuthError<E>>),
    AttemptRecorded(Result<(), E>),
    Audited,
    Vetted(Result<bool, E>),
    AttemptsCleared(Result<(), E>),
}

/// The failed attempt that login protection is told of.
pub fn failed_attempt(ip: ClientIp, kind: &'static str) -> (attempt: FailedAttemptInfo)
    ensures
        attempt.username@ == ""@,
        attempt.remote_ip == ip,
        attempt.protocol@ == crate::PROTOCOL_NAME@,
        attempt.credential_type@ == kind@,
{
    FailedAttemptInfo {
        username: "".to_string(),
        remote_ip: ip,
        protocol: crate::PROTOCOL_NAME,
        credential_type: kind,
    }
}

/// Starts the login of a request: resolves and vets the caller's identity from
/// the request's transport credentials (API token / OIDC token / client
/// certificate). A blocked source address fails before anything else is done.
/// Every failure to authenticate or to vet is [`AuthError::Unauthorized`]; a fault of the
/// gateway on the way says nothing about the caller, and is passed on as it is.
pub fn authenticate_kubernetes_user<E>(
    client_ip: Option<ClientIp>,
    request: &RequestCredentials,
) -> (login: Login<E>)
    ensures
        login.starts(client_ip, *request),
{
    Login {
        client_ip,
        credential_kind: presented_credential_kind(request),
        step: match client_ip {
            Some(ip) => LoginStep::CheckingBlock { ip },
            None => LoginStep::Authenticating,
        },
    }
}

impl<E> Login<E> {
    /// Whether this is how the login of a request starts.
    pub open spec fn starts(self, client_ip: Option<ClientIp>, request: RequestCredentials) -> bool {
        &&& self.client_ip == client_ip
        &&& self.credential_kind is Some == credential_kind_of(request) is Some
        &&& self.credential_kind matches Some(kind) ==> Some(kind@) == credential_kind_of(request)
        &&& self.step == (match client_ip {
            Some(ip) => LoginStep::<E>::CheckingBlock { ip },
            None => LoginStep::Authenticating,
        })
    }

    /// What the login waits for.
    pub open spec fn spec_pending(&self) -> LoginAction<'_> {
        match &self.step {
            LoginStep::CheckingBlock { ip } => LoginAction::CheckIpBlocked(*ip),
            LoginStep::Authenticating => LoginAction::Authenticate,
            LoginStep::RecordingFailure { ip, kind } => LoginAction::RecordFailedAttempt {
                ip: *ip,
                kind: *kind,
            },
            LoginStep::Auditing { kind } => LoginAction::Audit {
                client_ip: self.client_ip,
                kind: *kind,
                reason: "no matching credential",
            },
            LoginStep::Vetting { authentication } => LoginAction::VetBearer {
                user: &authentication.spec_user(),
                client_ip: self.client_ip,
            },
            LoginStep::ClearingFailures { ip, authentication } => LoginAction::ClearFailedAttempts {
                ip: *ip,
                username: &authentication.spec_user().username,
            },
            LoginStep::Done(_) => LoginAction::Finished,
        }
    }

    pub fn pending(&self) -> (action: LoginAction<'_>)
        ensures
            action == self.spec_pending(),
    {
        match &self.step {
            LoginStep::CheckingBlock { ip } => LoginAction::CheckIpBlocked(*ip),
            LoginStep::Authenticating => LoginAction::Authenticate,
            LoginStep::RecordingFailure { ip, kind } => LoginAction::RecordFailedAttempt {
                ip: *ip,
                kind: *kind,
            },
            LoginStep::Auditing { kind } => LoginAction::Audit {
                client_ip: self.client_ip,
                kind: *kind,
                reason: "no matching credential",
            },
            LoginStep::Vetting { authentication } => LoginAction::VetBearer {
                user: authentication.user(),
                client_ip: self.client_ip,
            },
            LoginStep::ClearingFailures { ip, authentication } => LoginAction::ClearFailedAttempts {
                ip: *ip,
                username: &authentication.user().username,
            },
            LoginStep::Done(_) => LoginAction::Finished,
        }
    }

    /// The step after an answer. An answer to a question that was not asked fails the login.
    pub open spec fn step_after(self, event: LoginEvent<E>) -> LoginStep<E> {
        match (self.step, event) {
            (LoginStep::Done(result), _) => LoginStep::Done(result),
            (LoginStep::CheckingBlock { .. }, LoginEvent::IpBlocked(reply)) => match reply {
                Ok(true) => LoginStep::Done(Err(AuthError::Unauthorized)),
                Ok(false) => LoginStep::Authenticating,
                Err(e) => LoginStep::Done(Err(AuthError::Backend(e))),
            },
            (LoginStep::Authenticating, LoginEvent::Authenticated(reply)) => match reply {
                Ok(Some(authentication)) => LoginStep::Vetting { authentication },
                Ok(None) => match (self.client_ip, self.credential_kind) {
                    (Some(ip), Some(kind)) => LoginStep::RecordingFailure { ip, kind },
                    (None, Some(kind)) => LoginStep::Auditing { kind },
                    (_, None) => LoginStep::Done(Err(AuthError::Unauthorized)),
                },
                Err(e) => LoginStep::Done(Err(e)),
            },
            (LoginStep::RecordingFailure { kind, .. }, LoginEvent::AttemptRecorded(_)) =>
                LoginStep::Auditing { kind },
            (LoginStep::Auditing { .. }, LoginEvent::Audited) => LoginStep::Done(
                Err(AuthError::Unauthorized),
            ),
            (LoginStep::Vetting { authentication }, LoginEvent::Vetted(reply)) => match reply {
                Ok(true) => match self.client_ip {
                    Some(ip) => LoginStep::ClearingFailures { ip, authentication },
                    None => LoginStep::Done(Ok(authentication)),
                },
                Ok(false) => LoginStep::Done(Err(AuthError::Unauthorized)),
                Err(e) => LoginStep::Done(Err(AuthError::Backend(e))),
            },
            (
                LoginStep::ClearingFailures { authentication, .. },
                LoginEvent::AttemptsCleared(_),
            ) => LoginStep::Done(Ok(authentication)),
            _ => LoginStep::Done(Err(AuthError::Unauthorized)),
        }
    }

    /// The login after an answer.
    pub open spec fn after(self, event: LoginEvent<E>) -> Self {
        Login {
            client_ip: self.client_ip,
            credential_kind: self.credential_kind,
            step: self.step_after(event),
        }
    }

    /// Takes an answer of the gateway.
    pub fn resume(self, event: LoginEvent<E>) -> (next: Self)
        ensures
            next == self.after(event),
    {
        let Login { client_ip, credential_kind, step } = self;
        let step: LoginStep<E> = match (step, event) {
            (LoginStep::Done(result), _) => LoginStep::Done(result),
            (LoginStep::CheckingBlock { .. }, LoginEvent::IpBlocked(reply)) => match reply {
                Ok(blocked) => if blocked {
                    LoginStep::Done(Err(AuthError::Unauthorized))
                } else {
                    LoginStep::Authenticating
                },
                Err(e) => LoginStep::Done(Err(AuthError::Backend(e))),
            },
            (LoginStep::Authenticating, LoginEvent::Authenticated(reply)) => match reply {
                Ok(Some(authentication)) => LoginStep::Vetting { authentication },
                Ok(None) => match (client_ip, credential_kind) {
                    (Some(ip), Some(kind)) => LoginStep::RecordingFailure { ip, kind },
                    (None, Some(kind)) => LoginStep::Auditing { kind },
                    (_, None) => LoginStep::Done(Err(AuthError::Unauthorized)),
                },
                Err(e) => LoginStep::Done(Err(e)),
            },
            (LoginStep::RecordingFailure { kind, .. }, LoginEvent::AttemptRecorded(_)) =>
                LoginStep::Auditing { kind },
            (LoginStep::Auditing { .. }, LoginEvent::Audited) => LoginStep::Done(
                Err(AuthError::Unauthorized),
            ),
            (LoginStep::Vetting { authentication }, LoginEvent::Vetted(reply)) => match reply {
                Ok(vetted) => if vetted {
                    match client_ip {
                        Some(ip) => LoginStep::ClearingFailures { ip, authentication },
                        None => LoginStep::Done(Ok(authentication)),
                    }
                } else {
                    LoginStep::Done(Err(AuthError::Unauthorized))
                },
                Err(e) => LoginStep::Done(Err(AuthError::Backend(e))),
            },
            (
                LoginStep::ClearingFailures { authentication, .. },
                LoginEvent::AttemptsCleared(_),
            ) => LoginStep::Done(Ok(authentication)),
            _ => LoginStep::Done(Err(AuthError::Unauthorized)),
        };
        Login { client_ip, credential_kind, step }
    }
}

/// All that the gateway can be asked about one login.
pub struct LoginFacts<E> {
    pub blocked: Result<bool, E>,
    pub authenticated: Result<Option<KubernetesAuthentication>, AuthError<E>>,
    pub attempt_recorded: Result<(), E>,
    pub vetted: Result<bool, E>,
    pub attempts_cleared: Result<(), E>,
}

impl<E> LoginFacts<E> {
    /// The answer to what a login waits for.
    pub open spec fn answer(self, login: Login<E>) -> LoginEvent<E> {
        match login.step {
            LoginStep::CheckingBlock { .. } => LoginEvent::IpBlocked(self.blocked),
            LoginStep::Authenticating => LoginEvent::Authenticated(self.authenticated),
            LoginStep::RecordingFailure { .. } => LoginEvent::AttemptRecorded(
                self.attempt_recorded,
            ),
            LoginStep::Auditing { .. } => LoginEvent::Audited,
            LoginStep::Vetting { .. } => LoginEvent::Vetted(self.vetted),
            _ => LoginEvent::AttemptsCleared(self.attempts_cleared),
        }
    }

    /// The login after a number of answers.
    pub open spec fn run(self, login: Login<E>, answers: nat) -> Login<E>
        decreases answers,
    {
        if answers == 0 {
            login
        } else {
            self.run(login.after(self.answer(login)), (answers - 1) as nat)
        }
    }

    /// Whether login protection lets the address try.
    pub open spec fn may_try(self, client_ip: Option<ClientIp>) -> bool {
        client_ip is Some ==> self.blocked == Ok::<bool, E>(false)
    }

    /// How the login ends.
    pub open spec fn verdict(self, client_ip: Option<ClientIp>) -> Result<
        KubernetesAuthentication,
        AuthError<E>,
    > {
        if !self.may_try(client_ip) {
            match self.blocked {
                Ok(_) => Err(AuthError::Unauthorized),
                Err(e) => Err(AuthError::Backend(e)),
            }
        } else {
            match (self.authenticated, self.vetted) {
                (Err(e), _) => Err(e),
                (Ok(None), _) => Err(AuthError::Unauthorized),
                (Ok(Some(_)), Err(e)) => Err(AuthError::Backend(e)),
                (Ok(Some(_)), Ok(false)) => Err(AuthError::Unauthorized),
                (Ok(Some(authentication)), Ok(true)) => Ok(authentication),
            }
        }
    }

    /// Whether the request presents a credential that proves to be invalid.
    pub open spec fn credential_invalid(self, login: Login<E>) -> bool {
        &&& login.credential_kind is Some
        &&& self.may_try(login.client_ip)
        &&& self.authenticated == Ok::<Option<KubernetesAuthentication>, AuthError<E>>(None)
    }
}

/// A login comes to its verdict within four answers.
pub proof fn lemma_login_verdict<E>(
    facts: LoginFacts<E>,
    login: Login<E>,
    client_ip: Option<ClientIp>,
    request: RequestCredentials,
)
    requires
        login.starts(client_ip, request),
    ensures
        facts.run(login, 4).step == LoginStep::Done(facts.verdict(client_ip)),
{
    reveal_with_fuel(LoginFacts::run, 5);
}

/// A request logs in exactly when login protection lets its address try, its credentials
/// authenticate someone, and that user is vetted.
pub proof fn lemma_login_succeeds<E>(facts: LoginFacts<E>, client_ip: Option<ClientIp>)
    ensures
        facts.verdict(client_ip) is Ok <==> {
            &&& facts.may_try(client_ip)
            &&& facts.authenticated matches Ok(Some(_))
            &&& facts.vetted == Ok::<bool, E>(true)
        },
        facts.verdict(client_ip) matches Ok(authentication) ==> facts.authenticated == Ok::<
            _,
            AuthError<E>,
        >(Some(authentication)),
{
}

/// A presented but invalid credential is audited once, from whatever address, known or not, and
/// nothing else is. Where the address is known, the attempt is counted first, once, toward
/// brute-force protection. A request with no credential at all is neither counted nor audited.
pub proof fn lemma_failures_counted<E>(
    facts: LoginFacts<E>,
    login: Login<E>,
    client_ip: Option<ClientIp>,
    request: RequestCredentials,
    n: nat,
)
    requires
        login.starts(client_ip, request),
    ensures
        facts.run(login, n).step is RecordingFailure <==> facts.credential_invalid(login)
            && client_ip is Some && n == 2,
        facts.run(login, n).step is Auditing <==> facts.credential_invalid(login) && n == (
        if client_ip is Some {
            3nat
        } else {
            1nat
        }),
        facts.run(login, n).step matches LoginStep::RecordingFailure { ip, kind } ==> {
            &&& Some(ip) == client_ip
            &&& Some(kind@) == credential_kind_of(request)
        },
        facts.run(login, n).step is Auditing ==> {
            &&& facts.run(login, n).spec_pending() matches LoginAction::Audit {
                client_ip: address,
                kind,
                reason,
            }
            &&& address == client_ip
            &&& Some(kind@) == credential_kind_of(request)
            &&& reason@ == "no matching credential"@
        },
        credential_kind_of(request) is None ==> !facts.credential_invalid(login),
{
    reveal_with_fuel(LoginFacts::run, 5);
    lemma_run_from_start(facts, login, n);
}

/// The failed attempts from an address are forgotten exactly when a login from it succeeds.
pub proof fn lemma_failures_cleared<E>(
    facts: LoginFacts<E>,
    login: Login<E>,
    client_ip: Option<ClientIp>,
    request: RequestCredentials,
)
    requires
        login.starts(client_ip, request),
    ensures
        (exists|n: nat| (#[trigger] facts.run(login, n)).step is ClearingFailures)
            <==> client_ip is Some && facts.verdict(client_ip) is Ok,
{
    reveal_with_fuel(LoginFacts::run, 5);
    assert forall|n: nat|
        (#[trigger] facts.run(login, n)).step is ClearingFailures implies client_ip is Some
        && facts.verdict(client_ip) is Ok by {
        lemma_run_from_start(facts, login, n);
    }
    if client_ip is Some && facts.verdict(client_ip) is Ok {
        assert(facts.run(login, 3).step is ClearingFailures);
    }
}

/// Nothing is asked of a blocked address but whether it is blocked.
pub proof fn lemma_blocked_address<E>(
    facts: LoginFacts<E>,
    login: Login<E>,
    client_ip: Option<ClientIp>,
    request: RequestCredentials,
    n: nat,
)
    requires
        login.starts(client_ip, request),
        client_ip is Some,
        facts.blocked == Ok::<bool, E>(true),
        n > 0,
    ensures
        facts.run(login, n).step == LoginStep::<E>::Done(Err(AuthError::Unauthorized)),
{
    lemma_run_done(facts, login.after(facts.answer(login)), (n - 1) as nat);
}

/// A login that is over stays as it is.
proof fn lemma_run_done<E>(facts: LoginFacts<E>, login: Login<E>, n: nat)
    requires
        login.step is Done,
    ensures
        facts.run(login, n) == login,
    decreases n,
{
    if n > 0 {
        lemma_run_done(facts, login, (n - 1) as nat);
    }
}

/// After four answers a login no longer changes; what it asks before that is as it should be.
proof fn lemma_run_from_start<E>(facts: LoginFacts<E>, login: Login<E>, n: nat)
    requires
        login.step is CheckingBlock || login.step is Authenticating,
        login.step is CheckingBlock == login.client_ip is Some,
    ensures
        n > 4 ==> facts.run(login, n) == facts.run(login, 4),
        n >= 4 ==> facts.run(login, n).step is Done,
        facts.run(login, n).step is ClearingFailures ==> login.client_ip is Some && facts.verdict(
            login.client_ip,
        ) is Ok,
{
    reveal_with_fuel(LoginFacts::run, 5);
    let l1 = login.after(facts.answer(login));
    let l2 = l1.after(facts.answer(l1));
    let l3 = l2.after(facts.answer(l2));
    let l4 = l3.after(facts.answer(l3));
    assert(l4.step is Done);
    if n > 4 {
        lemma_run_done(facts, l4, (n - 4) as nat);
        assert(facts.run(l3, (n - 3) as nat) == l4);
        assert(facts.run(l2, (n - 2) as nat) == l4);
        assert(facts.run(l1, (n - 1) as nat) == l4);
        assert(facts.run(login, n) == l4);
        assert(facts.run(login, 4) == l4);
    } else {
        assert(n == 0 || n == 1 || n == 2 || n == 3 || n == 4);
    }
}

/// A gateway, as far as the login of a request goes: what it answers to each question that it can be
/// asked.
pub struct LoginGateway<E> {
    /// Whether login protection blocks an address.
    pub blocked: spec_fn(ClientIp) -> Result<bool, E>,
    pub authenticated: Result<Option<KubernetesAuthentication>, AuthError<E>>,
    /// How it goes to count an attempt from an address, with a credential of a kind.
    pub attempt_recorded: spec_fn(ClientIp, Seq<char>) -> Result<(), E>,
    /// Whether a user may log in from an address, where it is known.
    pub vetted: spec_fn(User, Option<ClientIp>) -> Result<bool, E>,
    /// How it goes to forget the attempts of a user name from an address.
    pub attempts_cleared: spec_fn(ClientIp, Seq<char>) -> Result<(), E>,
}

impl<E> LoginGateway<E> {
    /// The answer to a question.
    pub open spec fn answer(self, action: LoginAction<'_>) -> LoginEvent<E> {
        match action {
            LoginAction::CheckIpBlocked(ip) => LoginEvent::IpBlocked((self.blocked)(ip)),
            LoginAction::Authenticate => LoginEvent::Authenticated(self.authenticated),
            LoginAction::RecordFailedAttempt { ip, kind } => LoginEvent::AttemptRecorded(
                (self.attempt_recorded)(ip, kind@),
            ),
            LoginAction::Audit { .. } => LoginEvent::Audited,
            LoginAction::VetBearer { user, client_ip } => LoginEvent::Vetted(
                (self.vetted)(*user, client_ip),
            ),
            LoginAction::ClearFailedAttempts { ip, username } => LoginEvent::AttemptsCleared(
                (self.attempts_cleared)(ip, username@),
            ),
            LoginAction::Finished => LoginEvent::Audited,
        }
    }

    /// The login after the gateway answered a number of its questions.
    pub open spec fn serve(self, login: Login<E>, questions: nat) -> Login<E>
        decreases questions,
    {
        if questions == 0 {
            login
        } else {
            self.serve(login.after(self.answer(login.spec_pending())), (questions - 1) as nat)
        }
    }

    /// The address is not blocked, or not known.
    pub open spec fn lets_try(self, client_ip: Option<ClientIp>) -> bool {
        client_ip matches Some(ip) ==> (self.blocked)(ip) == Ok::<bool, E>(false)
    }
}

/// The number of questions before the request is authenticated: whether its address is blocked,
/// where the address is known.
pub open spec fn questions_before(client_ip: Option<ClientIp>) -> nat {
    if client_ip is Some {
        1
    } else {
        0
    }
}

/// The gateway is first asked whether the address of the request is blocked, where it is known. A
/// blocked address is turned away, and a fault is passed on, before anything else is asked; an
/// address that is not blocked, or not known, gets the request authenticated.
pub proof fn lemma_login_admission<E>(
    gateway: LoginGateway<E>,
    login: Login<E>,
    client_ip: Option<ClientIp>,
    request: RequestCredentials,
)
    requires
        login.starts(client_ip, request),
    ensures
        client_ip matches Some(ip) ==> {
            &&& login.spec_pending() == LoginAction::CheckIpBlocked(ip)
            &&& (gateway.blocked)(ip) == Ok::<bool, E>(true) ==> gateway.serve(login, 1).step
                == LoginStep::<E>::Done(Err(AuthError::Unauthorized))
            &&& (gateway.blocked)(ip) matches Err(e) ==> gateway.serve(login, 1).step == LoginStep::<
                E,
            >::Done(Err(AuthError::Backend(e)))
        },
        gateway.lets_try(client_ip) ==> gateway.serve(
            login,
            questions_before(client_ip),
        ).spec_pending() is Authenticate,
{
    reveal_with_fuel(LoginGateway::serve, 2);
}

/// Whoever is authenticated, by whatever kind of credential, is vetted from the very address of the
/// request, known or not, and logs in exactly when the gateway lets that user in from that address.
/// Then, and only where the address is known, the failed attempts of that user from that address are
/// forgotten; whether they could be makes no difference.
pub proof fn lemma_login_of_user<E>(
    gateway: LoginGateway<E>,
    login: Login<E>,
    client_ip: Option<ClientIp>,
    request: RequestCredentials,
    identity: KubernetesAuthentication,
    user: User,
)
    requires
        login.starts(client_ip, request),
        gateway.lets_try(client_ip),
        gateway.authenticated == Ok::<_, AuthError<E>>(Some(identity)),
        match identity {
            KubernetesAuthentication::User(one) => one == user,
            KubernetesAuthentication::Oidc { user: one, .. } => one == user,
        },
    ensures
        gateway.serve(login, questions_before(client_ip) + 1).spec_pending() == (
        LoginAction::VetBearer { user: &user, client_ip }),
        match (gateway.vetted)(user, client_ip) {
            Err(e) => gateway.serve(login, questions_before(client_ip) + 2).step == LoginStep::<
                E,
            >::Done(Err(AuthError::Backend(e))),
            Ok(false) => gateway.serve(login, questions_before(client_ip) + 2).step == LoginStep::<
                E,
            >::Done(Err(AuthError::Unauthorized)),
            Ok(true) => match client_ip {
                Some(ip) => {
                    &&& gateway.serve(login, questions_before(client_ip) + 2).spec_pending() == (
                    LoginAction::ClearFailedAttempts { ip, username: &user.username })
                    &&& gateway.serve(login, questions_before(client_ip) + 3).step == LoginStep::<
                        E,
                    >::Done(Ok(identity))
                },
                None => gateway.serve(login, questions_before(client_ip) + 2).step == LoginStep::<
                    E,
                >::Done(Ok(identity)),
            },
        },
{
    reveal_with_fuel(LoginGateway::serve, 6);
}

/// A request that authenticates nobody is turned down. Where it presents a credential, that is
/// audited with the address of the request, known or not, and with the kind of the credential; where
/// the address is known, the attempt is counted before that, whether or not that goes well. A request
/// without a credential is turned down at once. A fault of the authentication is passed on at once.
pub proof fn lemma_login_of_nobody<E>(
    gateway: LoginGateway<E>,
    login: Login<E>,
    client_ip: Option<ClientIp>,
    request: RequestCredentials,
)
    requires
        login.starts(client_ip, request),
        gateway.lets_try(client_ip),
    ensures
        gateway.authenticated matches Err(e) ==> gateway.serve(
            login,
            questions_before(client_ip) + 1,
        ).step == LoginStep::<E>::Done(Err(e)),
        gateway.authenticated == Ok::<Option<KubernetesAuthentication>, AuthError<E>>(None) ==> {
            let presented = request.spec_bearer_token() is Some || request.client_certificate
                is Some;
            let kind_of_it = if request.spec_bearer_token() is Some {
                "token"@
            } else {
                "certificate"@
            };
            let counted: nat = if client_ip is Some { 1 } else { 0 };
            let next = gateway.serve(login, questions_before(client_ip) + 1);
            let audit = gateway.serve(login, questions_before(client_ip) + 1 + counted);
            let last = gateway.serve(login, questions_before(client_ip) + 2 + counted);
            &&& !presented ==> next.step == LoginStep::<E>::Done(Err(AuthError::Unauthorized))
            &&& presented && client_ip is Some ==> {
                &&& next.spec_pending() matches LoginAction::RecordFailedAttempt { ip, kind }
                &&& Some(ip) == client_ip
                &&& kind@ == kind_of_it
            }
            &&& presented ==> {
                &&& audit.spec_pending() matches LoginAction::Audit {
                    client_ip: address,
                    kind,
                    reason,
                }
                &&& address == client_ip
                &&& kind@ == kind_of_it
                &&& reason@ == "no matching credential"@
            }
            &&& presented ==> last.step == LoginStep::<E>::Done(Err(AuthError::Unauthorized))
        },
{
    reveal_with_fuel(LoginGateway::serve, 6);
}

/// A login that is over asks for nothing and keeps its result; one that is not over and gets an
/// answer to another question than its own is turned down.
pub proof fn lemma_login_fails_closed<E>(login: Login<E>, event: LoginEvent<E>)
    ensures
        login.step is Done ==> login.after(event) == login && login.spec_pending() is Finished,
        login.step !is Done ==> login.spec_pending() !is Finished,
        login.step !is Done && !(match login.spec_pending() {
            LoginAction::CheckIpBlocked(_) => event is IpBlocked,
            LoginAction::Authenticate => event is Authenticated,
            LoginAction::RecordFailedAttempt { .. } => event is AttemptRecorded,
            LoginAction::Audit { .. } => event is Audited,
            LoginAction::VetBearer { .. } => event is Vetted,
            LoginAction::ClearFailedAttempts { .. } => event is AttemptsCleared,
            LoginAction::Finished => false,
        }) ==> login.after(event).step == LoginStep::<E>::Done(Err(AuthError::Unauthorized)),
{
}

/// An audit record that reports an attempt names its address, or says that it is unknown, names
/// nobody, and has the kind of credential and the reason as they were given.
pub proof fn lemma_audit_record(
    record: AuthenticationFailed,
    client_ip: Option<String>,
    credential_type: Seq<char>,
    reason: Seq<char>,
)
    requires
        record.reports(client_ip, credential_type, reason),
    ensures
        client_ip matches Some(ip) ==> record.client_ip@ == ip@,
        client_ip is None ==> record.client_ip@ == "<unknown>"@,
        record.username@.len() == 0,
        record.credentials@ == credential_type,
        record.reason@ == reason,
{
    reveal_strlit("");
}

} // verus!
