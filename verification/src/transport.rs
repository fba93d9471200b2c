//! Transport authentication: who a request comes from, by its bearer token or client certificate.

use vstd::prelude::*;

use crate::error::AuthError;
use crate::identity::{AuthCredential, KubernetesAuthentication, User};
use crate::request::{credential_kind_of, RequestCredentials};
use crate::text::{
    agree_but_for_trailing, lemma_same_but_for_trailing, trim_end, without_trailing,
};

verus! {

/// An SSO provider as far as routing a token to it goes.
#[derive(Debug)]
pub struct SsoProvider {
    pub name: String,
    /// Whether the provider has opted into Kubernetes OIDC.
    pub kubernetes: bool,
    /// The provider's issuer URL, where it has one.
    pub issuer: Option<String>,
}

/// What a verified ID token says of its bearer.
#[derive(Debug)]
pub struct IdTokenClaims {
    pub email: Option<String>,
}

/// Why a provider did not verify an ID token.
#[derive(Debug)]
pub enum SsoFailure {
    /// The provider's client could not be set up.
    ClientInit,
    /// Wrong issuer, audience or signature for this provider.
    Verification,
}

/// The providers to try with an ID token, and what comes after them.
#[derive(Debug)]
pub struct SsoSearch {
    pub token: String,
    /// The issuer that the token names, unverified.
    pub token_issuer: Option<String>,
    pub providers: Vec<SsoProvider>,
    pub client_certificate: Option<Vec<u8>>,
}

/// How far the authentication of a request has come.
#[derive(Debug)]
pub enum TransportAuth<E> {
    ValidatingApiToken { token: String, client_certificate: Option<Vec<u8>> },
    LoadingProviders { token: String, client_certificate: Option<Vec<u8>> },
    VerifyingToken { search: SsoSearch, index: usize, provider: String },
    ResolvingUser { search: SsoSearch, index: usize, provider: String, email: String },
    LoadingUser { provider: String, email: String, username: String },
    ValidatingCertificate { der: Vec<u8> },
    Done(Result<Option<KubernetesAuthentication>, AuthError<E>>),
}

/// What the authentication asks of the gateway.
#[derive(Debug)]
pub enum TransportAction<'a> {
    /// Look the API token up.
    ValidateApiToken(&'a String),
    /// List the SSO providers, and tell the issuer that the token names.
    LoadSsoProviders(&'a String),
    /// Have the provider at this place of the list verify the ID token.
    VerifyIdToken { index: usize, token: &'a String },
    /// Map the token that the provider at this place verified last to a user name.
    ResolveUser { index: usize },
    /// Load the user of this name.
    LoadUser(&'a String),
    /// Validate the client certificate.
    ValidateCertificate(&'a Vec<u8>),
    /// Nothing: the authentication is over.
    Finished,
}

/// The gateway's answer.
#[derive(Debug)]
pub enum TransportEvent<E> {
    ApiToken(Result<Option<User>, E>),
    Providers { token_issuer: Option<String>, providers: Vec<SsoProvider> },
    IdToken(Result<IdTokenClaims, SsoFailure>),
    /// The user name, or what went wrong, in words.
    Resolved(Result<Option<String>, String>),
    UserRow(Result<Option<Result<User, String>>, E>),
    /// The certificate's user, or what went wrong, in words.
    Certificate(Result<Option<User>, String>),
}

/// Two issuers are the same but for slashes at the end.
pub open spec fn same_issuer(a: Seq<char>, b: Seq<char>) -> bool {
    without_trailing(a, '/') == without_trailing(b, '/')
}

/// Whether a provider may be asked to verify a token: it has opted into Kubernetes, and it is not
/// known to be another issuer than the one that the token names.
pub open spec fn is_eligible(provider: SsoProvider, token_issuer: Option<String>) -> bool {
    &&& provider.kubernetes
    &&& match (token_issuer, provider.issuer) {
        (Some(named), Some(own)) => same_issuer(own@, named@),
        _ => true,
    }
}

/// The first eligible provider from a place in the list on.
pub open spec fn next_eligible(
    providers: Seq<SsoProvider>,
    token_issuer: Option<String>,
    from: int,
) -> Option<int>
    decreases providers.len() - from,
{
    if from < 0 || from >= providers.len() {
        None
    } else if is_eligible(providers[from], token_issuer) {
        Some(from)
    } else {
        next_eligible(providers, token_issuer, from + 1)
    }
}

fn eligible(provider: &SsoProvider, token_issuer: &Option<String>) -> (r: bool)
    ensures
        r == is_eligible(*provider, *token_issuer),
{
    if !provider.kubernetes {
        return false;
    }
    match (token_issuer, &provider.issuer) {
        (Some(named), Some(own)) => {
            let own: String = trim_end(own.as_str(), '/');
            let named: String = trim_end(named.as_str(), '/');
            own == named
        },
        _ => true,
    }
}

fn find_eligible(
    providers: &Vec<SsoProvider>,
    token_issuer: &Option<String>,
    from: usize,
) -> (r: Option<usize>)
    ensures
        match r {
            Some(i) => next_eligible(providers@, *token_issuer, from as int) == Some(i as int)
                && i < providers@.len(),
            None => next_eligible(providers@, *token_issuer, from as int) is None,
        },
{
    let mut i: usize = from;
    while i < providers.len()
        invariant
            next_eligible(providers@, *token_issuer, from as int) == next_eligible(
                providers@,
                *token_issuer,
                i as int,
            ),
        decreases providers@.len() - i,
    {
        if eligible(&providers[i], token_issuer) {
            return Some(i);
        }
        i = i + 1;
    }
    None
}

/// A resolved SSO user as the database holds it: missing, malformed, or the user.
pub open spec fn loaded_user<E>(
    username: String,
    row: Result<Option<Result<User, String>>, E>,
) -> Result<User, AuthError<E>> {
    match row {
        Err(e) => Err(AuthError::Backend(e)),
        Ok(None) => Err(AuthError::UserNotFound { username }),
        Ok(Some(Err(reason))) => Err(AuthError::UserConversion { reason }),
        Ok(Some(Ok(user))) => Ok(user),
    }
}

/// Takes a resolved SSO user from what the database holds under the user name.
pub fn user_for_username<E>(username: String, row: Result<Option<Result<User, String>>, E>) -> (r:
    Result<User, AuthError<E>>)
    ensures
        r == loaded_user(username, row),
        row matches Ok(Some(Ok(user))) ==> r == Ok::<User, AuthError<E>>(user),
{
    match row {
        Err(e) => Err(AuthError::Backend(e)),
        Ok(None) => Err(AuthError::UserNotFound { username }),
        Ok(Some(converted)) => match converted {
            Ok(user) => Ok(user),
            Err(reason) => Err(AuthError::UserConversion { reason }),
        },
    }
}

/// Starts the authentication of a request by its transport credentials.
pub fn authenticate<E>(request: RequestCredentials) -> (auth: TransportAuth<E>)
    ensures
        auth.starts(request),
{
    match request.bearer_token() {
        Some(token) => TransportAuth::ValidatingApiToken {
            token,
            client_certificate: request.client_certificate,
        },
        None => TransportAuth::try_certificate(request.client_certificate),
    }
}

impl<E> TransportAuth<E> {
    /// Whether this is how the authentication of a request starts: with the bearer token, and with
    /// the client certificate where there is none.
    pub open spec fn starts(self, request: RequestCredentials) -> bool {
        match request.spec_bearer_token() {
            Some(text) => self matches TransportAuth::ValidatingApiToken {
                token,
                client_certificate,
            } && token@ == text && client_certificate == request.client_certificate,
            None => self == Self::certificate_next(request.client_certificate),
        }
    }

    /// Where no bearer token authenticates the request, its client certificate may.
    pub open spec fn certificate_next(client_certificate: Option<Vec<u8>>) -> Self {
        match client_certificate {
            Some(der) => TransportAuth::ValidatingCertificate { der },
            None => TransportAuth::Done(Ok(None)),
        }
    }

    fn try_certificate(client_certificate: Option<Vec<u8>>) -> (next: Self)
        ensures
            next == Self::certificate_next(client_certificate),
    {
        match client_certificate {
            Some(der) => TransportAuth::ValidatingCertificate { der },
            None => TransportAuth::Done(Ok(None)),
        }
    }

    /// The next eligible provider is tried, and the client certificate where there is none left.
    pub open spec fn provider_next(search: SsoSearch, from: int) -> Self {
        match next_eligible(search.providers@, search.token_issuer, from) {
            Some(i) => TransportAuth::VerifyingToken {
                search,
                index: i as usize,
                provider: search.providers@[i].name,
            },
            None => Self::certificate_next(search.client_certificate),
        }
    }

    fn try_provider(search: SsoSearch, from: usize) -> (next: Self)
        ensures
            next == Self::provider_next(search, from as int),
    {
        match find_eligible(&search.providers, &search.token_issuer, from) {
            Some(index) => {
                let provider: String = search.providers[index].name.clone();
                TransportAuth::VerifyingToken { search, index, provider }
            },
            None => Self::try_certificate(search.client_certificate),
        }
    }

    fn try_provider_after(search: SsoSearch, index: usize) -> (next: Self)
        ensures
            next == Self::provider_next(search, index + 1),
    {
        if index < search.providers.len() {
            Self::try_provider(search, index + 1)
        } else {
            Self::try_certificate(search.client_certificate)
        }
    }

    /// What the authentication waits for.
    pub open spec fn spec_pending(&self) -> TransportAction<'_> {
        match self {
            TransportAuth::ValidatingApiToken { token, .. } => TransportAction::ValidateApiToken(token),
            TransportAuth::LoadingProviders { token, .. } => TransportAction::LoadSsoProviders(token),
            TransportAuth::VerifyingToken { search, index, .. } => TransportAction::VerifyIdToken {
                index: *index,
                token: &search.token,
            },
            TransportAuth::ResolvingUser { index, .. } => TransportAction::ResolveUser {
                index: *index,
            },
            TransportAuth::LoadingUser { username, .. } => TransportAction::LoadUser(username),
            TransportAuth::ValidatingCertificate { der } => TransportAction::ValidateCertificate(der),
            TransportAuth::Done(_) => TransportAction::Finished,
        }
    }

    pub fn pending(&self) -> (action: TransportAction<'_>)
        ensures
            action == self.spec_pending(),
    {
        match self {
            TransportAuth::ValidatingApiToken { token, .. } => TransportAction::ValidateApiToken(token),
            TransportAuth::LoadingProviders { token, .. } => TransportAction::LoadSsoProviders(token),
            TransportAuth::VerifyingToken { search, index, .. } => TransportAction::VerifyIdToken {
                index: *index,
                token: &search.token,
            },
            TransportAuth::ResolvingUser { index, .. } => TransportAction::ResolveUser {
                index: *index,
            },
            TransportAuth::LoadingUser { username, .. } => TransportAction::LoadUser(username),
            TransportAuth::ValidatingCertificate { der } => TransportAction::ValidateCertificate(der),
            TransportAuth::Done(_) => TransportAction::Finished,
        }
    }

    /// The authentication after an answer. An answer to a question that was not asked
    /// authenticates nobody.
    pub open spec fn after(self, event: TransportEvent<E>) -> Self {
        match (self, event) {
            (TransportAuth::Done(result), _) => TransportAuth::Done(result),
            (
                TransportAuth::ValidatingApiToken { token, client_certificate },
                TransportEvent::ApiToken(reply),
            ) => match reply {
                Ok(Some(user)) => TransportAuth::Done(
                    Ok(Some(KubernetesAuthentication::User(user))),
                ),
                Ok(None) => TransportAuth::LoadingProviders { token, client_certificate },
                Err(e) => TransportAuth::Done(Err(AuthError::Backend(e))),
            },
            (
                TransportAuth::LoadingProviders { token, client_certificate },
                TransportEvent::Providers { token_issuer, providers },
            ) => Self::provider_next(
                SsoSearch { token, token_issuer, providers, client_certificate },
                0,
            ),
            (
                TransportAuth::VerifyingToken { search, index, provider },
                TransportEvent::IdToken(reply),
            ) => match reply {
                Ok(IdTokenClaims { email: Some(email) }) => TransportAuth::ResolvingUser {
                    search,
                    index,
                    provider,
                    email,
                },
                _ => Self::provider_next(search, index + 1),
            },
            (
                TransportAuth::ResolvingUser { search, index, provider, email },
                TransportEvent::Resolved(reply),
            ) => match reply {
                Ok(Some(username)) => TransportAuth::LoadingUser { provider, email, username },
                Ok(None) => Self::provider_next(search, index + 1),
                Err(reason) => TransportAuth::Done(Err(AuthError::SsoResolution { reason })),
            },
            (
                TransportAuth::LoadingUser { provider, email, username },
                TransportEvent::UserRow(row),
            ) => match loaded_user(username, row) {
                Ok(user) => TransportAuth::Done(
                    Ok(
                        Some(
                            KubernetesAuthentication::Oidc {
                                user,
                                credential: AuthCredential::Sso { provider, email },
                            },
                        ),
                    ),
                ),
                Err(e) => TransportAuth::Done(Err(e)),
            },
            (TransportAuth::ValidatingCertificate { .. }, TransportEvent::Certificate(reply)) =>
                TransportAuth::Done(certificate_result(reply)),
            _ => TransportAuth::Done(Ok(None)),
        }
    }

    /// Takes an answer of the gateway.
    pub fn resume(self, event: TransportEvent<E>) -> (next: Self)
        ensures
            next == self.after(event),
    {
        match (self, event) {
            (TransportAuth::Done(result), _) => TransportAuth::Done(result),
            (
                TransportAuth::ValidatingApiToken { token, client_certificate },
                TransportEvent::ApiToken(reply),
            ) => match reply {
                Ok(Some(user)) => TransportAuth::Done(
                    Ok(Some(KubernetesAuthentication::User(user))),
                ),
                Ok(None) => TransportAuth::LoadingProviders { token, client_certificate },
                Err(e) => TransportAuth::Done(Err(AuthError::Backend(e))),
            },
            (
                TransportAuth::LoadingProviders { token, client_certificate },
                TransportEvent::Providers { token_issuer, providers },
            ) => Self::try_provider(
                SsoSearch { token, token_issuer, providers, client_certificate },
                0,
            ),
            (
                TransportAuth::VerifyingToken { search, index, provider },
                TransportEvent::IdToken(reply),
            ) => match reply {
                Ok(IdTokenClaims { email: Some(email) }) => TransportAuth::ResolvingUser {
                    search,
                    index,
                    provider,
                    email,
                },
                _ => Self::try_provider_after(search, index),
            },
            (
                TransportAuth::ResolvingUser { search, index, provider, email },
                TransportEvent::Resolved(reply),
            ) => match reply {
                Ok(Some(username)) => TransportAuth::LoadingUser { provider, email, username },
                Ok(None) => Self::try_provider_after(search, index),
                Err(reason) => TransportAuth::Done(Err(AuthError::SsoResolution { reason })),
            },
            (
                TransportAuth::LoadingUser { provider, email, username },
                TransportEvent::UserRow(row),
            ) => match user_for_username(username, row) {
                Ok(user) => TransportAuth::Done(
                    Ok(
                        Some(
                            KubernetesAuthentication::Oidc {
                                user,
                                credential: AuthCredential::Sso { provider, email },
                            },
                        ),
                    ),
                ),
                Err(e) => TransportAuth::Done(Err(e)),
            },
            (TransportAuth::ValidatingCertificate { .. }, TransportEvent::Certificate(reply)) =>
                match reply {
                    Ok(Some(user)) => TransportAuth::Done(
                        Ok(Some(KubernetesAuthentication::User(user))),
                    ),
                    Ok(None) => TransportAuth::Done(Ok(None)),
                    Err(reason) => TransportAuth::Done(
                        Err(AuthError::CertificateValidation { reason }),
                    ),
                },
            _ => TransportAuth::Done(Ok(None)),
        }
    }
}

/// What a client certificate proves. A certificate that is rejected proves nothing; a fault on the
/// way is an error of its own, lest an outage passes for a bad certificate.
pub open spec fn certificate_result<E>(reply: Result<Option<User>, String>) -> Result<
    Option<KubernetesAuthentication>,
    AuthError<E>,
> {
    match reply {
        Ok(Some(user)) => Ok(Some(KubernetesAuthentication::User(user))),
        Ok(None) => Ok(None),
        Err(reason) => Err(AuthError::CertificateValidation { reason }),
    }
}

/// All that the gateway can be asked about one request.
pub struct TransportFacts<E> {
    pub api_user: Result<Option<User>, E>,
    pub token_issuer: Option<String>,
    pub providers: Vec<SsoProvider>,
    /// What each provider makes of the token.
    pub id_tokens: Seq<Result<IdTokenClaims, SsoFailure>>,
    /// The user name that each provider's token maps to.
    pub resolved: Seq<Result<Option<String>, String>>,
    /// What the database holds under each user name.
    pub users: Map<Seq<char>, Result<Option<Result<User, String>>, E>>,
    pub certificate: Result<Option<User>, String>,
}

impl<E> TransportFacts<E> {
    /// The answer to what an authentication waits for.
    pub open spec fn answer(self, auth: TransportAuth<E>) -> TransportEvent<E> {
        match auth {
            TransportAuth::ValidatingApiToken { .. } => TransportEvent::ApiToken(self.api_user),
            TransportAuth::LoadingProviders { .. } => TransportEvent::Providers {
                token_issuer: self.token_issuer,
                providers: self.providers,
            },
            TransportAuth::VerifyingToken { index, .. } => TransportEvent::IdToken(
                self.id_tokens[index as int],
            ),
            TransportAuth::ResolvingUser { index, .. } => TransportEvent::Resolved(
                self.resolved[index as int],
            ),
            TransportAuth::LoadingUser { username, .. } => TransportEvent::UserRow(
                self.users[username@],
            ),
            _ => TransportEvent::Certificate(self.certificate),
        }
    }

    /// The authentication after a number of answers.
    pub open spec fn run(self, auth: TransportAuth<E>, answers: nat) -> TransportAuth<E>
        decreases answers,
    {
        if answers == 0 {
            auth
        } else {
            self.run(auth.after(self.answer(auth)), (answers - 1) as nat)
        }
    }

    /// Whether the provider settles the matter: it may be asked, it verifies the token, the token
    /// has an email, and the email is not that of a stranger.
    pub open spec fn settles(self, i: int) -> bool {
        &&& 0 <= i < self.providers@.len()
        &&& is_eligible(self.providers@[i], self.token_issuer)
        &&& self.id_tokens[i] matches Ok(claims) && claims.email is Some
        &&& self.resolved[i] != Ok::<Option<String>, String>(None)
    }

    /// What a provider that settles the matter makes of the request.
    pub open spec fn settlement(self, i: int) -> Result<
        Option<KubernetesAuthentication>,
        AuthError<E>,
    > {
        match self.resolved[i] {
            Err(reason) => Err(AuthError::SsoResolution { reason }),
            Ok(username) => match loaded_user(username->0, self.users[username->0@]) {
                Err(e) => Err(e),
                Ok(user) => Ok(
                    Some(
                        KubernetesAuthentication::Oidc {
                            user,
                            credential: AuthCredential::Sso {
                                provider: self.providers@[i].name,
                                email: self.id_tokens[i]->Ok_0.email->0,
                            },
                        },
                    ),
                ),
            },
        }
    }

    /// What the client certificate proves.
    pub open spec fn certificate_verdict(self, client_certificate: Option<Vec<u8>>) -> Result<
        Option<KubernetesAuthentication>,
        AuthError<E>,
    > {
        if client_certificate is Some {
            certificate_result(self.certificate)
        } else {
            Ok(None)
        }
    }

    /// What the first provider that settles the matter says, from a place in the list on, and what
    /// the client certificate proves where none does.
    pub open spec fn sso_verdict(self, from: int, client_certificate: Option<Vec<u8>>) -> Result<
        Option<KubernetesAuthentication>,
        AuthError<E>,
    >
        decreases self.providers@.len() - from,
    {
        if from < 0 || from >= self.providers@.len() {
            self.certificate_verdict(client_certificate)
        } else if self.settles(from) {
            self.settlement(from)
        } else {
            self.sso_verdict(from + 1, client_certificate)
        }
    }

    /// Whom the request comes from: an API token first, then an ID token, then the client
    /// certificate.
    pub open spec fn verdict(self, request: RequestCredentials) -> Result<
        Option<KubernetesAuthentication>,
        AuthError<E>,
    > {
        match (request.spec_bearer_token(), self.api_user) {
            (None, _) => self.certificate_verdict(request.client_certificate),
            (Some(_), Ok(Some(user))) => Ok(Some(KubernetesAuthentication::User(user))),
            (Some(_), Ok(None)) => self.sso_verdict(0, request.client_certificate),
            (Some(_), Err(e)) => Err(AuthError::Backend(e)),
        }
    }
}

/// An authentication that is over stays as it is.
proof fn lemma_run_done<E>(facts: TransportFacts<E>, auth: TransportAuth<E>, answers: nat)
    requires
        auth is Done,
    ensures
        facts.run(auth, answers) == auth,
    decreases answers,
{
    if answers > 0 {
        lemma_run_done(facts, auth, (answers - 1) as nat);
    }
}

/// The certificate is checked by one answer.
proof fn lemma_run_certificate<E>(
    facts: TransportFacts<E>,
    client_certificate: Option<Vec<u8>>,
    answers: nat,
)
    requires
        answers >= 1,
    ensures
        facts.run(TransportAuth::certificate_next(client_certificate), answers)
            == TransportAuth::Done(facts.certificate_verdict(client_certificate)),
{
    let start = TransportAuth::<E>::certificate_next(client_certificate);
    if start is Done {
        lemma_run_done(facts, start, answers);
    } else {
        lemma_run_done(facts, start.after(facts.answer(start)), (answers - 1) as nat);
    }
}

/// The providers are tried in turn.
proof fn lemma_run_providers<E>(
    facts: TransportFacts<E>,
    search: SsoSearch,
    from: int,
    answers: nat,
)
    requires
        0 <= from,
        search.providers == facts.providers,
        search.token_issuer == facts.token_issuer,
        answers >= 2 * (facts.providers@.len() - from) + 3,
        answers >= 3,
    ensures
        facts.run(TransportAuth::provider_next(search, from), answers) == TransportAuth::Done(
            facts.sso_verdict(from, search.client_certificate),
        ),
    decreases facts.providers@.len() - from,
{
    let start = TransportAuth::<E>::provider_next(search, from);
    assert(facts.providers.len() == facts.providers@.len());
    if from >= facts.providers@.len() {
        lemma_run_certificate(facts, search.client_certificate, answers);
    } else if !is_eligible(facts.providers@[from], facts.token_issuer) {
        lemma_run_providers(facts, search, from + 1, answers);
    } else {
        let second = start.after(facts.answer(start));
        let third = second.after(facts.answer(second));
        if let TransportAuth::ResolvingUser { .. } = second {
            if facts.settles(from) {
                let fourth = third.after(facts.answer(third));
                if third is Done {
                    lemma_run_done(facts, third, (answers - 2) as nat);
                } else {
                    lemma_run_done(facts, fourth, (answers - 3) as nat);
                    assert(facts.run(third, (answers - 2) as nat) == facts.run(
                        fourth,
                        (answers - 3) as nat,
                    ));
                }
            } else {
                lemma_run_providers(facts, search, from + 1, (answers - 2) as nat);
            }
            assert(facts.run(second, (answers - 1) as nat) == facts.run(
                third,
                (answers - 2) as nat,
            ));
        } else {
            lemma_run_providers(facts, search, from + 1, (answers - 1) as nat);
        }
    }
}

/// The authentication of a request comes to its verdict, whatever the number of providers.
pub proof fn lemma_transport_verdict<E>(
    facts: TransportFacts<E>,
    request: RequestCredentials,
    auth: TransportAuth<E>,
    answers: nat,
)
    requires
        auth.starts(request),
        answers >= 2 * facts.providers@.len() + 5,
    ensures
        facts.run(auth, answers) == TransportAuth::Done(facts.verdict(request)),
{
    match auth {
        TransportAuth::ValidatingApiToken { token, client_certificate } => {
            let second = auth.after(facts.answer(auth));
            if second is Done {
                lemma_run_done(facts, second, (answers - 1) as nat);
            } else {
                let search = SsoSearch {
                    token,
                    token_issuer: facts.token_issuer,
                    providers: facts.providers,
                    client_certificate,
                };
                let third = second.after(facts.answer(second));
                assert(third == TransportAuth::<E>::provider_next(search, 0));
                lemma_run_providers(facts, search, 0, (answers - 2) as nat);
                assert(facts.run(second, (answers - 1) as nat) == facts.run(
                    third,
                    (answers - 2) as nat,
                ));
            }
        },
        _ => {
            lemma_run_certificate(facts, request.client_certificate, answers);
        },
    }
}

/// A fault of a lookup is never taken for a failure to authenticate. A bearer token whose lookup
/// fails gives that fault, and nothing else is asked. Where the verdict is nobody, the lookup of
/// the token and the check of the certificate, if there is one, both went well and found nobody,
/// and no provider settled the matter.
pub proof fn lemma_faults_propagate<E>(
    facts: TransportFacts<E>,
    request: RequestCredentials,
    auth: TransportAuth<E>,
)
    requires
        auth.starts(request),
    ensures
        request.spec_bearer_token() is Some ==> (facts.api_user matches Err(e) ==> {
            &&& facts.verdict(request) == Err::<Option<KubernetesAuthentication>, AuthError<E>>(
                AuthError::Backend(e),
            )
            &&& auth.after(facts.answer(auth)) == TransportAuth::Done(facts.verdict(request))
        }),
        facts.verdict(request) == Ok::<Option<KubernetesAuthentication>, AuthError<E>>(None) ==> {
            &&& request.spec_bearer_token() is Some ==> facts.api_user == Ok::<Option<User>, E>(
                None,
            )
            &&& request.spec_bearer_token() is Some ==> forall|i: int|
                0 <= i < facts.providers@.len() ==> !#[trigger] facts.settles(i)
            &&& request.client_certificate is Some ==> facts.certificate == Ok::<
                Option<User>,
                String,
            >(None)
        },
{
    lemma_nobody_settles(facts, 0, request.client_certificate);
}

/// Where the providers and the certificate prove nothing, no provider settles the matter and the
/// certificate was rejected.
proof fn lemma_nobody_settles<E>(
    facts: TransportFacts<E>,
    from: int,
    client_certificate: Option<Vec<u8>>,
)
    requires
        0 <= from,
    ensures
        facts.sso_verdict(from, client_certificate) == Ok::<
            Option<KubernetesAuthentication>,
            AuthError<E>,
        >(None) ==> {
            &&& forall|i: int|
                from <= i < facts.providers@.len() ==> !#[trigger] facts.settles(i)
            &&& client_certificate is Some ==> facts.certificate == Ok::<Option<User>, String>(None)
        },
    decreases facts.providers@.len() - from,
{
    if from < facts.providers@.len() && !facts.settles(from) {
        lemma_nobody_settles(facts, from + 1, client_certificate);
    }
}

/// [`next_eligible`] finds eligible providers only.
proof fn lemma_next_eligible(providers: Seq<SsoProvider>, token_issuer: Option<String>, from: int)
    ensures
        next_eligible(providers, token_issuer, from) matches Some(i) ==> from <= i
            < providers.len() && is_eligible(providers[i], token_issuer),
    decreases providers.len() - from,
{
    if 0 <= from < providers.len() {
        lemma_next_eligible(providers, token_issuer, from + 1);
    }
}

/// A token is taken to no provider but one that has opted into Kubernetes and is not known to be
/// another issuer than the one that the token names.
pub proof fn lemma_only_eligible_providers<E>(auth: TransportAuth<E>, event: TransportEvent<E>)
    requires
        auth !is Done,
    ensures
        auth.after(event) matches TransportAuth::VerifyingToken { search, index, provider } ==> {
            &&& index < search.providers@.len()
            &&& is_eligible(search.providers@[index as int], search.token_issuer)
            &&& provider == search.providers@[index as int].name
        },
{
    match (auth, event) {
        (
            TransportAuth::LoadingProviders { .. },
            TransportEvent::Providers { token_issuer, providers },
        ) => {
            assert(providers.len() == providers@.len());
            lemma_next_eligible(providers@, token_issuer, 0);
        },
        (TransportAuth::VerifyingToken { search, index, .. }, _) => {
            assert(search.providers.len() == search.providers@.len());
            lemma_next_eligible(search.providers@, search.token_issuer, index + 1);
        },
        (TransportAuth::ResolvingUser { search, index, .. }, _) => {
            assert(search.providers.len() == search.providers@.len());
            lemma_next_eligible(search.providers@, search.token_issuer, index + 1);
        },
        _ => {},
    }
}

/// The verdict of the providers is that of the first one that settles the matter.
proof fn lemma_sso_verdict<E>(
    facts: TransportFacts<E>,
    from: int,
    client_certificate: Option<Vec<u8>>,
)
    requires
        0 <= from,
        facts.sso_verdict(from, client_certificate) matches Ok(Some(identity)) && identity is Oidc,
    ensures
        exists|i: int|
            from <= i && #[trigger] facts.settles(i) && facts.sso_verdict(from, client_certificate)
                == facts.settlement(i) && (forall|j: int|
                from <= j < i ==> !#[trigger] facts.settles(j)),
    decreases facts.providers@.len() - from,
{
    if from < facts.providers@.len() && !facts.settles(from) {
        lemma_sso_verdict(facts, from + 1, client_certificate);
        let i = choose|i: int|
            from + 1 <= i && #[trigger] facts.settles(i) && facts.sso_verdict(
                from + 1,
                client_certificate,
            ) == facts.settlement(i) && (forall|j: int|
                from + 1 <= j < i ==> !#[trigger] facts.settles(j));
        assert(facts.settles(i));
    } else {
        assert(facts.settles(from));
    }
}

/// An OIDC identity rests on a bearer token that some provider verified, with an email in it, and
/// carries that provider's name and that email as its SSO credential. A token without an email
/// gives no such identity.
pub proof fn lemma_oidc_identity<E>(
    facts: TransportFacts<E>,
    request: RequestCredentials,
    user: User,
    credential: AuthCredential,
)
    requires
        facts.verdict(request) == Ok::<_, AuthError<E>>(
            Some(KubernetesAuthentication::Oidc { user, credential }),
        ),
    ensures
        request.spec_bearer_token() is Some,
        exists|i: int|
            {
                &&& #[trigger] facts.settles(i)
                &&& facts.id_tokens[i] matches Ok(claims)
                &&& claims.email matches Some(email)
                &&& credential == (AuthCredential::Sso { provider: facts.providers@[i].name, email })
            },
{
    lemma_sso_verdict(facts, 0, request.client_certificate);
    let i = choose|i: int|
        0 <= i && #[trigger] facts.settles(i) && facts.sso_verdict(0, request.client_certificate)
            == facts.settlement(i) && (forall|j: int| 0 <= j < i ==> !#[trigger] facts.settles(j));
    assert(facts.settles(i));
}

/// A request without credentials authenticates nobody, and nothing is looked up for it.
pub proof fn lemma_no_credentials<E>(
    facts: TransportFacts<E>,
    request: RequestCredentials,
    auth: TransportAuth<E>,
)
    requires
        auth.starts(request),
        credential_kind_of(request) is None,
    ensures
        auth == TransportAuth::<E>::Done(Ok(None)),
        facts.verdict(request) == Ok::<Option<KubernetesAuthentication>, AuthError<E>>(None),
{
}

/// A row of the database gives the user who is stored in it, with all that is stored of the user; a
/// missing or malformed row, or a fault, gives nobody, and says which of these it is.
pub proof fn lemma_loaded_user<E>(username: String, user: User, reason: String, fault: E)
    ensures
        loaded_user(username, Ok::<_, E>(Some(Ok(user)))) == Ok::<User, AuthError<E>>(user),
        loaded_user(username, Ok::<_, E>(Some(Err(reason)))) == Err::<User, _>(
            AuthError::<E>::UserConversion { reason },
        ),
        loaded_user(username, Ok::<_, E>(None)) == Err::<User, _>(
            AuthError::<E>::UserNotFound { username },
        ),
        loaded_user(username, Err(fault)) == Err::<User, _>(AuthError::Backend(fault)),
{
}

/// A provider may be asked about a token exactly when it has opted into Kubernetes, and its issuer
/// and the one that the token names, where both are known, agree but for slashes at the end.
pub proof fn lemma_eligible_provider(provider: SsoProvider, token_issuer: Option<String>)
    ensures
        !provider.kubernetes ==> !is_eligible(provider, token_issuer),
        provider.kubernetes && (provider.issuer is None || token_issuer is None) ==> is_eligible(
            provider,
            token_issuer,
        ),
        provider.kubernetes && provider.issuer is Some && token_issuer is Some ==> (is_eligible(
            provider,
            token_issuer,
        ) <==> agree_but_for_trailing(provider.issuer->0@, token_issuer->0@, '/')),
{
    if provider.issuer is Some && token_issuer is Some {
        lemma_same_but_for_trailing(provider.issuer->0@, token_issuer->0@, '/');
    }
}

/// A gateway, as far as the authentication of a request goes: what it answers to each question that
/// it can be asked.
pub struct TransportGateway<E> {
    /// The user of an API token.
    pub api_user: spec_fn(Seq<char>) -> Result<Option<User>, E>,
    /// The issuer that a token names.
    pub token_issuer: spec_fn(Seq<char>) -> Option<String>,
    pub providers: Vec<SsoProvider>,
    /// What the provider at a place of the list makes of a token.
    pub id_token: spec_fn(int, Seq<char>) -> Result<IdTokenClaims, SsoFailure>,
    /// The user name for the token that the provider at a place of the list verified.
    pub resolved: spec_fn(int) -> Result<Option<String>, String>,
    /// What the database holds under a user name.
    pub user_row: spec_fn(Seq<char>) -> Result<Option<Result<User, String>>, E>,
    /// Whose certificate it is.
    pub certificate: spec_fn(Seq<u8>) -> Result<Option<User>, String>,
}

impl<E> TransportGateway<E> {
    /// The answer to a question.
    pub open spec fn answer(self, action: TransportAction<'_>) -> TransportEvent<E> {
        match action {
            TransportAction::ValidateApiToken(token) => TransportEvent::ApiToken(
                (self.api_user)(token@),
            ),
            TransportAction::LoadSsoProviders(token) => TransportEvent::Providers {
                token_issuer: (self.token_issuer)(token@),
                providers: self.providers,
            },
            TransportAction::VerifyIdToken { index, token } => TransportEvent::IdToken(
                (self.id_token)(index as int, token@),
            ),
            TransportAction::ResolveUser { index } => TransportEvent::Resolved(
                (self.resolved)(index as int),
            ),
            TransportAction::LoadUser(username) => TransportEvent::UserRow(
                (self.user_row)(username@),
            ),
            TransportAction::ValidateCertificate(der) => TransportEvent::Certificate(
                (self.certificate)(der@),
            ),
            TransportAction::Finished => TransportEvent::Certificate(Ok(None)),
        }
    }

    /// The authentication after the gateway answered a number of its questions.
    pub open spec fn serve(self, auth: TransportAuth<E>, questions: nat) -> TransportAuth<E>
        decreases questions,
    {
        if questions == 0 {
            auth
        } else {
            self.serve(auth.after(self.answer(auth.spec_pending())), (questions - 1) as nat)
        }
    }

    /// The provider may be asked about the token, verifies it, finds an email in it, and does not
    /// take the email for that of a stranger.
    pub open spec fn vouches(self, i: int, token: Seq<char>) -> bool {
        &&& 0 <= i < self.providers@.len()
        &&& self.providers@[i].kubernetes
        &&& match ((self.token_issuer)(token), self.providers@[i].issuer) {
            (Some(named), Some(own)) => agree_but_for_trailing(own@, named@, '/'),
            _ => true,
        }
        &&& (self.id_token)(i, token) matches Ok(claims)
        &&& claims.email is Some
        &&& (self.resolved)(i) != Ok::<Option<String>, String>(None)
    }

    /// What the provider's word for the token comes to.
    spec fn word_of(self, i: int, token: Seq<char>) -> Result<
        Option<KubernetesAuthentication>,
        AuthError<E>,
    > {
        match (self.resolved)(i) {
            Err(reason) => Err(AuthError::SsoResolution { reason }),
            Ok(username) => match (self.user_row)(username->0@) {
                Err(e) => Err(AuthError::Backend(e)),
                Ok(None) => Err(AuthError::UserNotFound { username: username->0 }),
                Ok(Some(Err(reason))) => Err(AuthError::UserConversion { reason }),
                Ok(Some(Ok(user))) => Ok(
                    Some(
                        KubernetesAuthentication::Oidc {
                            user,
                            credential: AuthCredential::Sso {
                                provider: self.providers@[i].name,
                                email: (self.id_token)(i, token)->Ok_0.email->0,
                            },
                        },
                    ),
                ),
            },
        }
    }

    /// What the client certificate comes to.
    spec fn word_of_certificate(self, client_certificate: Option<Vec<u8>>) -> Result<
        Option<KubernetesAuthentication>,
        AuthError<E>,
    > {
        match client_certificate {
            None => Ok(None),
            Some(der) => match (self.certificate)(der@) {
                Ok(Some(user)) => Ok(Some(KubernetesAuthentication::User(user))),
                Ok(None) => Ok(None),
                Err(reason) => Err(AuthError::CertificateValidation { reason }),
            },
        }
    }

    /// What the providers from a place of the list on come to, and the certificate after them.
    spec fn word_from(self, from: int, token: Seq<char>, client_certificate: Option<Vec<u8>>) -> Result<
        Option<KubernetesAuthentication>,
        AuthError<E>,
    >
        decreases self.providers@.len() - from,
    {
        if from < 0 || from >= self.providers@.len() {
            self.word_of_certificate(client_certificate)
        } else if self.vouches(from, token) {
            self.word_of(from, token)
        } else {
            self.word_from(from + 1, token, client_certificate)
        }
    }
}

/// An authentication that is over stays as it is.
proof fn lemma_serve_done<E>(gateway: TransportGateway<E>, auth: TransportAuth<E>, questions: nat)
    requires
        auth is Done,
    ensures
        gateway.serve(auth, questions) == auth,
    decreases questions,
{
    if questions > 0 {
        lemma_serve_done(gateway, auth, (questions - 1) as nat);
    }
}

/// The certificate takes one question.
proof fn lemma_serve_certificate<E>(
    gateway: TransportGateway<E>,
    client_certificate: Option<Vec<u8>>,
    questions: nat,
)
    requires
        questions >= 1,
    ensures
        gateway.serve(TransportAuth::certificate_next(client_certificate), questions)
            == TransportAuth::Done(gateway.word_of_certificate(client_certificate)),
{
    let start = TransportAuth::<E>::certificate_next(client_certificate);
    let next = start.after(gateway.answer(start.spec_pending()));
    if start is Done {
        lemma_serve_done(gateway, start, questions);
    } else {
        lemma_serve_done(gateway, next, (questions - 1) as nat);
    }
}

/// The providers are asked in turn, each about the token of the request.
proof fn lemma_serve_providers<E>(
    gateway: TransportGateway<E>,
    search: SsoSearch,
    from: int,
    questions: nat,
)
    requires
        0 <= from,
        search.providers == gateway.providers,
        search.token_issuer == (gateway.token_issuer)(search.token@),
        questions >= 2 * (gateway.providers@.len() - from) + 3,
        questions >= 3,
    ensures
        gateway.serve(TransportAuth::provider_next(search, from), questions) == TransportAuth::Done(
            gateway.word_from(from, search.token@, search.client_certificate),
        ),
    decreases gateway.providers@.len() - from,
{
    let start = TransportAuth::<E>::provider_next(search, from);
    assert(gateway.providers.len() == gateway.providers@.len());
    if from >= gateway.providers@.len() {
        lemma_serve_certificate(gateway, search.client_certificate, questions);
    } else {
        lemma_eligible_provider(gateway.providers@[from], search.token_issuer);
        if !is_eligible(gateway.providers@[from], search.token_issuer) {
            assert(!gateway.vouches(from, search.token@));
            lemma_serve_providers(gateway, search, from + 1, questions);
        } else {
            let second = start.after(gateway.answer(start.spec_pending()));
            let third = second.after(gateway.answer(second.spec_pending()));
            if let TransportAuth::ResolvingUser { .. } = second {
                if gateway.vouches(from, search.token@) {
                    let fourth = third.after(gateway.answer(third.spec_pending()));
                    if third is Done {
                        lemma_serve_done(gateway, third, (questions - 2) as nat);
                    } else {
                        lemma_serve_done(gateway, fourth, (questions - 3) as nat);
                        assert(gateway.serve(third, (questions - 2) as nat) == gateway.serve(
                            fourth,
                            (questions - 3) as nat,
                        ));
                    }
                } else {
                    lemma_serve_providers(gateway, search, from + 1, (questions - 2) as nat);
                }
                assert(gateway.serve(second, (questions - 1) as nat) == gateway.serve(
                    third,
                    (questions - 2) as nat,
                ));
            } else {
                assert(!gateway.vouches(from, search.token@));
                lemma_serve_providers(gateway, search, from + 1, (questions - 1) as nat);
            }
        }
    }
}

/// The authentication of a request with a bearer token that is no API token.
proof fn lemma_serve_token<E>(
    gateway: TransportGateway<E>,
    request: RequestCredentials,
    auth: TransportAuth<E>,
    token: Seq<char>,
    questions: nat,
)
    requires
        auth.starts(request),
        request.spec_bearer_token() == Some(token),
        (gateway.api_user)(token) == Ok::<Option<User>, E>(None),
        questions >= 2 * gateway.providers@.len() + 5,
    ensures
        gateway.serve(auth, questions) == TransportAuth::Done(
            gateway.word_from(0, token, request.client_certificate),
        ),
{
    let second = auth.after(gateway.answer(auth.spec_pending()));
    let third = second.after(gateway.answer(second.spec_pending()));
    let search = SsoSearch {
        token: auth->ValidatingApiToken_token,
        token_issuer: (gateway.token_issuer)(token),
        providers: gateway.providers,
        client_certificate: request.client_certificate,
    };
    assert(third == TransportAuth::<E>::provider_next(search, 0));
    lemma_serve_providers(gateway, search, 0, (questions - 2) as nat);
    assert(gateway.serve(second, (questions - 1) as nat) == gateway.serve(
        third,
        (questions - 2) as nat,
    ));
}

proof fn lemma_word_from<E>(
    gateway: TransportGateway<E>,
    from: int,
    token: Seq<char>,
    client_certificate: Option<Vec<u8>>,
    i: int,
)
    requires
        0 <= from <= i <= gateway.providers@.len(),
        forall|j: int| from <= j < i ==> !#[trigger] gateway.vouches(j, token),
    ensures
        gateway.word_from(from, token, client_certificate) == gateway.word_from(
            i,
            token,
            client_certificate,
        ),
    decreases i - from,
{
    if from < i {
        assert(!gateway.vouches(from, token));
        lemma_word_from(gateway, from + 1, token, client_certificate, i);
    }
}

/// A bearer token is looked up as an API token first: its user is the identity, whatever else there
/// is, and a fault of the lookup is the result. The gateway is asked about the token of the request,
/// and about nothing else.
pub proof fn lemma_api_token_first<E>(
    gateway: TransportGateway<E>,
    request: RequestCredentials,
    auth: TransportAuth<E>,
    token: Seq<char>,
)
    requires
        auth.starts(request),
        request.spec_bearer_token() == Some(token),
    ensures
        auth.spec_pending() matches TransportAction::ValidateApiToken(asked) && asked@ == token,
        (gateway.api_user)(token) matches Ok(Some(user)) ==> gateway.serve(auth, 1)
            == TransportAuth::<E>::Done(Ok(Some(KubernetesAuthentication::User(user)))),
        (gateway.api_user)(token) matches Err(e) ==> gateway.serve(auth, 1)
            == TransportAuth::<E>::Done(Err(AuthError::Backend(e))),
        (gateway.api_user)(token) == Ok::<Option<User>, E>(None) ==> (gateway.serve(
            auth,
            1,
        ).spec_pending() matches TransportAction::LoadSsoProviders(asked) && asked@ == token),
{
    reveal_with_fuel(TransportGateway::serve, 2);
}

/// Where a bearer token is no API token, the first provider that vouches for it decides. The user of
/// the identity is the one whom the database holds under the user name that this provider resolved,
/// with all that is stored of the user; the credential is this provider's, with the email that it
/// found. Anything that keeps the user from being found is an error that says so.
pub proof fn lemma_token_identity<E>(
    gateway: TransportGateway<E>,
    request: RequestCredentials,
    auth: TransportAuth<E>,
    token: Seq<char>,
    i: int,
    questions: nat,
)
    requires
        auth.starts(request),
        request.spec_bearer_token() == Some(token),
        (gateway.api_user)(token) == Ok::<Option<User>, E>(None),
        gateway.vouches(i, token),
        forall|j: int| 0 <= j < i ==> !#[trigger] gateway.vouches(j, token),
        questions >= 2 * gateway.providers@.len() + 5,
    ensures
        (gateway.resolved)(i) matches Err(reason) ==> gateway.serve(auth, questions)
            == TransportAuth::<E>::Done(Err(AuthError::SsoResolution { reason })),
        (gateway.resolved)(i) matches Ok(Some(username)) ==> match (gateway.user_row)(username@) {
            Ok(Some(Ok(stored))) => gateway.serve(auth, questions) == TransportAuth::<E>::Done(
                Ok(
                    Some(
                        KubernetesAuthentication::Oidc {
                            user: stored,
                            credential: AuthCredential::Sso {
                                provider: gateway.providers@[i].name,
                                email: (gateway.id_token)(i, token)->Ok_0.email->0,
                            },
                        },
                    ),
                ),
            ),
            Ok(Some(Err(reason))) => gateway.serve(auth, questions) == TransportAuth::<E>::Done(
                Err(AuthError::UserConversion { reason }),
            ),
            Ok(None) => gateway.serve(auth, questions) == TransportAuth::<E>::Done(
                Err(AuthError::UserNotFound { username }),
            ),
            Err(e) => gateway.serve(auth, questions) == TransportAuth::<E>::Done(
                Err(AuthError::Backend(e)),
            ),
        },
{
    lemma_serve_token(gateway, request, auth, token, questions);
    lemma_word_from(gateway, 0, token, request.client_certificate, i);
}

/// Where there is no bearer token, or one that is no API token and that no provider vouches for, the
/// client certificate decides: its user is the identity, a certificate that is nobody's or a missing
/// one gives none, and a fault is an error of its own. The gateway is asked about the certificate of
/// the request.
pub proof fn lemma_certificate_last<E>(
    gateway: TransportGateway<E>,
    request: RequestCredentials,
    auth: TransportAuth<E>,
    questions: nat,
)
    requires
        auth.starts(request),
        request.spec_bearer_token() matches Some(token) ==> {
            &&& (gateway.api_user)(token) == Ok::<Option<User>, E>(None)
            &&& forall|i: int| !#[trigger] gateway.vouches(i, token)
        },
        questions >= 2 * gateway.providers@.len() + 5,
    ensures
        match request.client_certificate {
            None => gateway.serve(auth, questions) == TransportAuth::<E>::Done(Ok(None)),
            Some(der) => match (gateway.certificate)(der@) {
                Ok(Some(user)) => gateway.serve(auth, questions) == TransportAuth::<E>::Done(
                    Ok(Some(KubernetesAuthentication::User(user))),
                ),
                Ok(None) => gateway.serve(auth, questions) == TransportAuth::<E>::Done(Ok(None)),
                Err(reason) => gateway.serve(auth, questions) == TransportAuth::<E>::Done(
                    Err(AuthError::CertificateValidation { reason }),
                ),
            },
        },
        request.spec_bearer_token() is None ==> match request.client_certificate {
            None => auth == TransportAuth::<E>::Done(Ok(None)),
            Some(der) => auth.spec_pending() matches TransportAction::ValidateCertificate(asked)
                && *asked == der,
        },
{
    match request.spec_bearer_token() {
        Some(token) => {
            lemma_serve_token(gateway, request, auth, token, questions);
            lemma_word_from(
                gateway,
                0,
                token,
                request.client_certificate,
                gateway.providers@.len() as int,
            );
        },
        None => {
            lemma_serve_certificate(gateway, request.client_certificate, questions);
        },
    }
}

/// An authentication that is over asks for nothing and keeps its result; one that is not over and
/// gets an answer to another question than its own authenticates nobody.
pub proof fn lemma_transport_fails_closed<E>(auth: TransportAuth<E>, event: TransportEvent<E>)
    ensures
        auth is Done ==> auth.after(event) == auth && auth.spec_pending() is Finished,
        auth !is Done ==> auth.spec_pending() !is Finished,
        auth !is Done && !(match auth.spec_pending() {
            TransportAction::ValidateApiToken(_) => event is ApiToken,
            TransportAction::LoadSsoProviders(_) => event is Providers,
            TransportAction::VerifyIdToken { .. } => event is IdToken,
            TransportAction::ResolveUser { .. } => event is Resolved,
            TransportAction::LoadUser(_) => event is UserRow,
            TransportAction::ValidateCertificate(_) => event is Certificate,
            TransportAction::Finished => false,
        }) ==> auth.after(event) == TransportAuth::<E>::Done(Ok(None)),
{
}

} // verus!
