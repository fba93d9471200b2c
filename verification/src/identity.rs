//! Who a request comes from: users, their credentials, and the proven identity of a request.

use vstd::prelude::*;

verus! {

/// A factor that a credential policy can ask for.
#[derive(Clone, Copy, Debug, PartialEq, Eq, Structural)]
pub enum CredentialKind {
    /// Single sign-on through an OIDC provider.
    Sso,
    /// Approval by the user in the web interface.
    WebUserApproval,
    /// Any factor that a non-interactive Kubernetes client cannot supply.
    Other,
}

/// The factors that a user has to supply, by protocol.
#[derive(Clone, Debug)]
pub struct CredentialPolicy {
    pub kubernetes: Option<Vec<CredentialKind>>,
}

/// A user account.
#[derive(Clone, Debug)]
pub struct User {
    pub id: u128,
    pub username: String,
    pub credential_policy: Option<CredentialPolicy>,
}

/// What the rest of the gateway keeps of a user once a session is under way.
#[derive(Clone, Debug)]
pub struct AuthStateUserInfo {
    pub id: u128,
    pub username: String,
}

/// A credential that can be submitted to a credential policy.
#[derive(Clone, Debug)]
pub enum AuthCredential {
    Sso { provider: String, email: String },
}

/// The address that a request comes from.
#[derive(Clone, Copy, Debug, PartialEq, Eq, Structural)]
pub enum ClientIp {
    V4(u32),
    V6(u128),
}

/// A Kubernetes request's proven identity. OIDC is kept distinct from other
/// user credentials because a self-service ticket is a grant for a federated
/// identity, not a substitute bearer credential.
#[derive(Clone, Debug)]
pub enum KubernetesAuthentication {
    User(User),
    Oidc { user: User, credential: AuthCredential },
}

impl AuthCredential {
    pub open spec fn spec_kind(self) -> CredentialKind {
        match self {
            AuthCredential::Sso { .. } => CredentialKind::Sso,
        }
    }

    /// The factor that the credential supplies.
    pub fn kind(&self) -> (kind: CredentialKind)
        ensures
            kind == self.spec_kind(),
    {
        match self {
            AuthCredential::Sso { .. } => CredentialKind::Sso,
        }
    }
}

impl User {
    pub open spec fn spec_info(self) -> AuthStateUserInfo {
        AuthStateUserInfo { id: self.id, username: self.username }
    }

    pub fn info(&self) -> (info: AuthStateUserInfo)
        ensures
            info == self.spec_info(),
    {
        AuthStateUserInfo { id: self.id, username: self.username.clone() }
    }

    /// Whether the user has a Kubernetes credential policy that asks for anything.
    pub open spec fn has_kubernetes_policy(self) -> bool {
        self.credential_policy matches Some(policy) && policy.kubernetes matches Some(kinds)
            && kinds@.len() > 0
    }

    pub fn kubernetes_policy_configured(&self) -> (r: bool)
        ensures
            r == self.has_kubernetes_policy(),
    {
        match &self.credential_policy {
            Some(policy) => match &policy.kubernetes {
                Some(kinds) => kinds.len() > 0,
                None => false,
            },
            None => false,
        }
    }
}

impl KubernetesAuthentication {
    /// The user whose identity was proven.
    pub open spec fn spec_user(self) -> User {
        match self {
            KubernetesAuthentication::User(user) => user,
            KubernetesAuthentication::Oidc { user, .. } => user,
        }
    }

    /// The user, where an OIDC token proved the identity.
    pub open spec fn spec_oidc_user(self) -> Option<User> {
        match self {
            KubernetesAuthentication::User(_) => None,
            KubernetesAuthentication::Oidc { user, .. } => Some(user),
        }
    }

    /// The credential to submit to the user's policy.
    pub open spec fn spec_credential(self) -> Option<AuthCredential> {
        match self {
            KubernetesAuthentication::User(_) => None,
            KubernetesAuthentication::Oidc { credential, .. } => Some(credential),
        }
    }

    pub fn user_info(&self) -> (info: AuthStateUserInfo)
        ensures
            info == self.spec_user().spec_info(),
    {
        self.user().info()
    }

    pub fn user(&self) -> (user: &User)
        ensures
            *user == self.spec_user(),
    {
        match self {
            KubernetesAuthentication::User(user) => user,
            KubernetesAuthentication::Oidc { user, .. } => user,
        }
    }

    pub fn oidc_user(&self) -> (user: Option<&User>)
        ensures
            user is Some == self.spec_oidc_user() is Some,
            user matches Some(u) ==> Some(*u) == self.spec_oidc_user(),
    {
        match self {
            KubernetesAuthentication::User(_) => None,
            KubernetesAuthentication::Oidc { user, .. } => Some(user),
        }
    }

    pub fn credential(&self) -> (credential: Option<&AuthCredential>)
        ensures
            credential is Some == self.spec_credential() is Some,
            credential matches Some(c) ==> Some(*c) == self.spec_credential(),
    {
        match self {
            KubernetesAuthentication::User(_) => None,
            KubernetesAuthentication::Oidc { credential, .. } => Some(credential),
        }
    }

    pub fn authentication_source(&self) -> (source: &'static str)
        ensures
            source@ == (if self is Oidc { "oidc"@ } else { "user"@ }),
    {
        match self {
            KubernetesAuthentication::User(_) => "user",
            KubernetesAuthentication::Oidc { .. } => "oidc",
        }
    }
}

/// An identity is that of the very user who was authenticated, with all that is stored of the user,
/// however the identity was proven.
pub proof fn lemma_user_of_identity(user: User, credential: AuthCredential)
    ensures
        KubernetesAuthentication::User(user).spec_user() == user,
        (KubernetesAuthentication::Oidc { user, credential }).spec_user() == user,
{
}

/// Only an identity that an OIDC token proved has an OIDC user and a credential for the policy: the
/// authenticated user, and the credential that the token gave.
pub proof fn lemma_oidc_parts(user: User, credential: AuthCredential)
    ensures
        KubernetesAuthentication::User(user).spec_oidc_user() is None,
        KubernetesAuthentication::User(user).spec_credential() is None,
        (KubernetesAuthentication::Oidc { user, credential }).spec_oidc_user() == Some(user),
        (KubernetesAuthentication::Oidc { user, credential }).spec_credential() == Some(credential),
        credential.spec_kind() == CredentialKind::Sso,
{
}

/// A session keeps the id and the name of its user.
pub proof fn lemma_info_of_user(user: User)
    ensures
        user.spec_info().id == user.id,
        user.spec_info().username == user.username,
{
}

/// A user has a Kubernetes policy exactly when there is a factor that it asks for; which one it is
/// does not matter.
pub proof fn lemma_policy_asks_for_something(user: User)
    ensures
        user.has_kubernetes_policy() <==> exists|kind: CredentialKind| #[trigger]
            user.asks_for(kind),
{
    if user.has_kubernetes_policy() {
        let kinds = user.credential_policy->0.kubernetes->0;
        assert(user.asks_for(kinds@[0]));
    }
}

impl User {
    /// The user's Kubernetes policy asks for the factor.
    pub open spec fn asks_for(self, kind: CredentialKind) -> bool {
        &&& self.credential_policy is Some
        &&& self.credential_policy->0.kubernetes is Some
        &&& self.credential_policy->0.kubernetes->0@.contains(kind)
    }
}

} // verus!
