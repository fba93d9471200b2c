//! The HTTP client for an upstream cluster, with the credential that the target is configured with.

use vstd::prelude::*;
use vstd::utf8::encode_utf8;

use crate::text::{
    agree_but_for_trailing, lemma_same_but_for_trailing, lemma_without_trailing, trim_end,
    without_trailing,
};

verus! {

/// How the gateway authenticates itself to the cluster. The gateway keeps tokens and private keys
/// sealed, and reveals them when they are asked for.
#[derive(Clone, Debug)]
pub enum KubernetesTargetAuth {
    Token,
    Certificate { certificate: String },
    IamRole,
}

/// How the connection to the cluster is secured.
#[derive(Clone, Copy, Debug)]
pub struct TlsOptions {
    pub verify: bool,
}

/// The configuration of a Kubernetes target.
#[derive(Clone, Debug)]
pub struct TargetKubernetesOptions {
    pub cluster_url: String,
    pub tls: TlsOptions,
    pub auth: KubernetesTargetAuth,
}

/// An EKS cluster.
#[derive(Debug)]
pub struct EksClusterInfo {
    pub name: String,
    pub region: String,
}

/// A credential for the cluster, ready for use.
#[derive(Debug)]
pub enum ClientCredential {
    Token(String),
    Certificate { certificate: String, private_key: String },
    EksToken(String),
}

/// `reqwest::ClientBuilder`: a client in the making. Opaque here.
#[verifier::external_type_specification]
#[verifier::external_body]
pub struct ExClientBuilder(reqwest::ClientBuilder);

/// `reqwest::Identity`: a client certificate with its private key. Opaque here.
#[verifier::external_type_specification]
#[verifier::external_body]
pub struct ExIdentity(reqwest::Identity);

/// `reqwest::Error`. Opaque here.
#[verifier::external_type_specification]
#[verifier::external_body]
pub struct ExReqwestError(reqwest::Error);

/// `reqwest::header::InvalidHeaderValue`. Opaque here.
#[verifier::external_type_specification]
#[verifier::external_body]
pub struct ExInvalidHeaderValue(reqwest::header::InvalidHeaderValue);

/// `reqwest::header::HeaderValue`: a string of bytes. Opaque here.
#[verifier::external_type_specification]
#[verifier::external_body]
pub struct ExHeaderValue(reqwest::header::HeaderValue);

/// `reqwest::header::HeaderMap`: header names, each with the values that it has. Opaque here.
#[verifier::external_type_specification]
#[verifier::external_body]
#[verifier::reject_recursive_types(T)]
pub struct ExHeaderMap<T>(reqwest::header::HeaderMap<T>);

/// The bytes of a header value.
pub uninterp spec fn header_bytes(value: reqwest::header::HeaderValue) -> Seq<u8>;

/// The values of each header in a map, by the header's name in lower case.
pub uninterp spec fn headers_in(headers: reqwest::header::HeaderMap) -> Map<Seq<char>, Seq<Seq<u8>>>;

/// The headers that a client sends by default, each with its values.
pub uninterp spec fn default_headers_of(builder: reqwest::ClientBuilder) -> Map<
    Seq<char>,
    Seq<Seq<u8>>,
>;

/// Whether a client accepts server certificates that do not verify.
pub uninterp spec fn accepts_invalid_certs(builder: reqwest::ClientBuilder) -> bool;

/// The identity that a client presents.
pub uninterp spec fn identity_of(builder: reqwest::ClientBuilder) -> Option<reqwest::Identity>;

/// The identity that a PEM bundle holds, where it holds one.
pub uninterp spec fn pem_identity(pem: Seq<u8>) -> Option<reqwest::Identity>;

/// The bytes that a header value may hold.
pub open spec fn is_header_byte(b: u8) -> bool {
    b >= 32 && b != 127 || b == 9
}

/// Whether the bytes make a header value.
pub open spec fn is_header_value(value: Seq<u8>) -> bool {
    forall|i: int| 0 <= i < value.len() ==> is_header_byte(#[trigger] value[i])
}

/// `HeaderValue::from_str`: the value with the bytes of the text, where all of them may stand in a
/// header value.
#[verifier::external_body]
fn header_value(text: &str) -> (r: Result<
    reqwest::header::HeaderValue,
    reqwest::header::InvalidHeaderValue,
>)
    ensures
        r is Ok == is_header_value(encode_utf8(text@)),
        r matches Ok(value) ==> header_bytes(value) == encode_utf8(text@),
{
    reqwest::header::HeaderValue::from_str(text)
}

/// No headers at all.
pub open spec fn empty_headers() -> Map<Seq<char>, Seq<Seq<u8>>> {
    Map::empty()
}

/// `HeaderMap::new`: a map without headers.
#[verifier::external_body]
fn no_headers() -> (r: reqwest::header::HeaderMap)
    ensures
        headers_in(r) == empty_headers(),
{
    reqwest::header::HeaderMap::new()
}

/// `HeaderMap::insert` of the `AUTHORIZATION` header: the value takes the place of those that the
/// header had. It panics where the map would grow too large, which an empty one does not.
#[verifier::external_body]
fn insert_authorization(
    headers: &mut reqwest::header::HeaderMap,
    value: reqwest::header::HeaderValue,
)
    requires
        headers_in(*old(headers)) == empty_headers(),
    ensures
        headers_in(*final(headers)) == headers_in(*old(headers)).insert(
            "authorization"@,
            seq![header_bytes(value)],
        ),
{
    headers.insert(reqwest::header::AUTHORIZATION, value);
}

/// `Client::builder`: a client that verifies server certificates, presents no identity and sends
/// `accept: */*`.
#[verifier::external_body]
fn new_builder() -> (r: reqwest::ClientBuilder)
    ensures
        !accepts_invalid_certs(r),
        identity_of(r) is None,
        default_headers_of(r) == new_client_headers(),
{
    reqwest::Client::builder()
}

/// The headers that a new client sends by default.
pub open spec fn new_client_headers() -> Map<Seq<char>, Seq<Seq<u8>>> {
    map!["accept"@ => seq![seq![0x2au8, 0x2f, 0x2a]]]
}

/// `ClientBuilder::danger_accept_invalid_certs` decides whether the client accepts server
/// certificates that do not verify, and changes neither its headers nor its identity.
#[verifier::external_body]
fn accept_invalid_certs(builder: reqwest::ClientBuilder, accept: bool) -> (r: reqwest::ClientBuilder)
    ensures
        accepts_invalid_certs(r) == accept,
        identity_of(r) == identity_of(builder),
        default_headers_of(r) == default_headers_of(builder),
{
    builder.danger_accept_invalid_certs(accept)
}

/// Headers with others on top of them: of each of the latter, the last value alone stays.
pub open spec fn with_headers(
    below: Map<Seq<char>, Seq<Seq<u8>>>,
    above: Map<Seq<char>, Seq<Seq<u8>>>,
) -> Map<Seq<char>, Seq<Seq<u8>>> {
    below.union_prefer_right(above.map_values(|values: Seq<Seq<u8>>| seq![values.last()]))
}

/// `ClientBuilder::default_headers` puts the last value of each header in place of those that the
/// client had for it, and changes neither how certificates are verified nor the identity. It panics
/// where there are too many headers, which a few are not.
#[verifier::external_body]
fn send_headers(
    builder: reqwest::ClientBuilder,
    headers: reqwest::header::HeaderMap,
) -> (r: reqwest::ClientBuilder)
    requires
        default_headers_of(builder).dom().finite(),
        default_headers_of(builder).dom().len() <= 16,
        headers_in(headers).dom().finite(),
        headers_in(headers).dom().len() <= 16,
    ensures
        accepts_invalid_certs(r) == accepts_invalid_certs(builder),
        identity_of(r) == identity_of(builder),
        default_headers_of(r) == with_headers(default_headers_of(builder), headers_in(headers)),
{
    builder.default_headers(headers)
}

/// `Identity::from_pem` finds the private key and the certificates in a PEM bundle. What it finds
/// depends on the bundle alone, and is not stated further.
#[verifier::external_body]
fn parse_identity(pem: &[u8]) -> (r: Result<reqwest::Identity, reqwest::Error>)
    ensures
        r is Ok == pem_identity(pem@) is Some,
        r matches Ok(identity) ==> pem_identity(pem@) == Some(identity),
{
    reqwest::Identity::from_pem(pem)
}

/// `ClientBuilder::identity` sets the identity that the client presents, and changes neither its
/// headers nor how certificates are verified.
#[verifier::external_body]
fn present_identity(
    builder: reqwest::ClientBuilder,
    identity: reqwest::Identity,
) -> (r: reqwest::ClientBuilder)
    ensures
        accepts_invalid_certs(r) == accepts_invalid_certs(builder),
        identity_of(r) == Some(identity),
        default_headers_of(r) == default_headers_of(builder),
{
    builder.identity(identity)
}

/// Why there is no client for the cluster. `E` is the gateway's own error.
#[derive(Debug)]
pub enum ClientError<E> {
    /// The stored secret could not be revealed.
    Reveal(E),
    ClusterLookup(E),
    TokenGeneration(E),
    AuthorizationHeader(reqwest::header::InvalidHeaderValue),
    EksAuthorizationHeader(reqwest::header::InvalidHeaderValue),
    ClientCertificate(reqwest::Error),
    /// The gateway answered a question that was not asked.
    UnexpectedAnswer,
}

impl<E> ClientError<E> {
    /// What was being done when the error occurred.
    pub open spec fn spec_context(self) -> Option<Seq<char>> {
        match self {
            ClientError::Reveal(_) => None,
            ClientError::ClusterLookup(_) => Some("EKS cluster lookup"@),
            ClientError::TokenGeneration(_) => Some("EKS token generation"@),
            ClientError::AuthorizationHeader(_) => Some("setting Authorization header"@),
            ClientError::EksAuthorizationHeader(_) => Some(
                "setting Authorization header for EKS token"@,
            ),
            ClientError::ClientCertificate(_) => Some(
                "Invalid client certificate/key for Kubernetes upstream"@,
            ),
            ClientError::UnexpectedAnswer => None,
        }
    }

    pub fn context(&self) -> (context: Option<&'static str>)
        ensures
            context is Some == self.spec_context() is Some,
            context matches Some(text) ==> self.spec_context() == Some(text@),
    {
        match self {
            ClientError::Reveal(_) => None,
            ClientError::ClusterLookup(_) => Some("EKS cluster lookup"),
            ClientError::TokenGeneration(_) => Some("EKS token generation"),
            ClientError::AuthorizationHeader(_) => Some("setting Authorization header"),
            ClientError::EksAuthorizationHeader(_) => Some(
                "setting Authorization header for EKS token",
            ),
            ClientError::ClientCertificate(_) => Some(
                "Invalid client certificate/key for Kubernetes upstream",
            ),
            ClientError::UnexpectedAnswer => None,
        }
    }
}

/// The `authorization` header that presents a token.
pub open spec fn bearer(token: Seq<char>) -> Seq<char> {
    "Bearer "@ + token
}

/// A certificate and its private key in one PEM text, each ending in one line feed.
pub open spec fn pem_bundle(certificate: Seq<char>, private_key: Seq<char>) -> Seq<char> {
    without_trailing(certificate, '\n') + "\n"@ + without_trailing(private_key, '\n') + "\n"@
}

/// Combines a PEM certificate and a PEM private key into a single bundle.
pub fn combine_pem(certificate: &str, private_key: &str) -> (bundle: String)
    ensures
        bundle@ == pem_bundle(certificate@, private_key@),
{
    let mut bundle: String = trim_end(certificate, '\n');
    bundle.append("\n");
    bundle.append(trim_end(private_key, '\n').as_str());
    bundle.append("\n");
    bundle
}

/// The builder of a client that presents a token in every request.
fn token_builder(builder: reqwest::ClientBuilder, token: &str) -> (r: Result<
    reqwest::ClientBuilder,
    reqwest::header::InvalidHeaderValue,
>)
    requires
        default_headers_of(builder) == new_client_headers(),
    ensures
        r is Ok == is_header_value(encode_utf8(bearer(token@))),
        r matches Ok(client) ==> {
            &&& accepts_invalid_certs(client) == accepts_invalid_certs(builder)
            &&& identity_of(client) == identity_of(builder)
            &&& default_headers_of(client) == new_client_headers().insert(
                "authorization"@,
                seq![encode_utf8(bearer(token@))],
            )
        },
{
    let text: String = "Bearer ".to_string().concat(token);
    match header_value(text.as_str()) {
        Ok(value) => {
            let mut headers: reqwest::header::HeaderMap = no_headers();
            insert_authorization(&mut headers, value);
            let ghost above = headers_in(headers);
            proof {
                let name = "authorization"@;
                let sent = encode_utf8(bearer(token@));
                assert(above.dom() =~= set![name]);
                assert(new_client_headers().dom() =~= set!["accept"@]);
                assert(above[name] == seq![sent]);
                assert(with_headers(new_client_headers(), above) =~= new_client_headers().insert(
                    name,
                    seq![sent],
                ));
            }
            Ok(send_headers(builder, headers))
        },
        Err(e) => Err(e),
    }
}

/// Whether a client can be made with a credential: a token has to be fit for a header, a certificate
/// and its key have to be an identity.
pub open spec fn is_usable(credential: ClientCredential) -> bool {
    match credential {
        ClientCredential::Token(token) => is_header_value(encode_utf8(bearer(token@))),
        ClientCredential::Certificate { certificate, private_key } => pem_identity(
            encode_utf8(pem_bundle(certificate@, private_key@)),
        ) is Some,
        ClientCredential::EksToken(token) => is_header_value(encode_utf8(bearer(token@))),
    }
}

/// The `authorization` header that a client with a credential sends.
pub open spec fn authorization_of(credential: ClientCredential) -> Option<Seq<u8>> {
    match credential {
        ClientCredential::Token(token) => Some(encode_utf8(bearer(token@))),
        ClientCredential::Certificate { .. } => None,
        ClientCredential::EksToken(token) => Some(encode_utf8(bearer(token@))),
    }
}

/// The identity that a client with a credential presents.
pub open spec fn presented_identity(credential: ClientCredential) -> Option<reqwest::Identity> {
    match credential {
        ClientCredential::Certificate { certificate, private_key } => pem_identity(
            encode_utf8(pem_bundle(certificate@, private_key@)),
        ),
        _ => None,
    }
}

/// Whether a client is the one for a cluster: it skips the verification of server certificates only
/// where the target says so, and presents the credential, either in the `authorization` header of
/// every request or as its identity.
pub open spec fn is_client_for(
    client: reqwest::ClientBuilder,
    tls: TlsOptions,
    credential: ClientCredential,
) -> bool {
    &&& accepts_invalid_certs(client) == !tls.verify
    &&& identity_of(client) == presented_identity(credential)
    &&& default_headers_of(client) == (match authorization_of(credential) {
        Some(value) => new_client_headers().insert("authorization"@, seq![value]),
        None => new_client_headers(),
    })
}

/// The error that a credential is turned down with.
pub open spec fn is_refusal<E>(error: ClientError<E>, credential: ClientCredential) -> bool {
    match credential {
        ClientCredential::Token(_) => error is AuthorizationHeader,
        ClientCredential::Certificate { .. } => error is ClientCertificate,
        ClientCredential::EksToken(_) => error is EksAuthorizationHeader,
    }
}

/// The builder of the client for a cluster, given the credential to present.
pub fn authenticated_client<E>(tls: TlsOptions, credential: &ClientCredential) -> (r: Result<
    reqwest::ClientBuilder,
    ClientError<E>,
>)
    ensures
        match r {
            Ok(client) => is_usable(*credential) && is_client_for(client, tls, *credential),
            Err(error) => !is_usable(*credential) && is_refusal(error, *credential),
        },
{
    let mut builder: reqwest::ClientBuilder = new_builder();
    if !tls.verify {
        builder = accept_invalid_certs(builder, true);
    }
    match credential {
        ClientCredential::Token(token) => match token_builder(builder, token.as_str()) {
            Ok(client) => Ok(client),
            Err(e) => Err(ClientError::AuthorizationHeader(e)),
        },
        ClientCredential::Certificate { certificate, private_key } => {
            let bundle: String = combine_pem(certificate.as_str(), private_key.as_str());
            match parse_identity(bundle.as_str().as_bytes()) {
                Ok(identity) => Ok(present_identity(builder, identity)),
                Err(e) => Err(ClientError::ClientCertificate(e)),
            }
        },
        ClientCredential::EksToken(token) => match token_builder(builder, token.as_str()) {
            Ok(client) => Ok(client),
            Err(e) => Err(ClientError::EksAuthorizationHeader(e)),
        },
    }
}

/// Where the preparation of a client stands.
#[derive(Debug)]
pub enum ClientStep<E> {
    RevealingToken,
    RevealingKey,
    LookingUpCluster,
    GeneratingToken { cluster: EksClusterInfo },
    Done(Result<ClientCredential, ClientError<E>>),
}

/// The preparation of the client for a target.
#[derive(Debug)]
pub struct ClientSetup<'a, E> {
    pub options: &'a TargetKubernetesOptions,
    pub step: ClientStep<E>,
}

/// What the preparation of a client asks of the gateway.
#[derive(Debug)]
pub enum ClientAction<'a> {
    /// Reveal the target's token.
    RevealToken,
    /// Reveal the target's private key.
    RevealPrivateKey,
    /// Find the EKS cluster with this URL.
    FindEksCluster(&'a String),
    /// Generate a token for the EKS cluster.
    GenerateEksToken(&'a EksClusterInfo),
    /// Nothing: the preparation is over.
    Finished,
}

/// The gateway's answer.
#[derive(Debug)]
pub enum ClientEvent<E> {
    Revealed(Result<String, E>),
    EksCluster(Result<EksClusterInfo, E>),
    EksToken(Result<String, E>),
}

/// Starts to prepare the client for a Kubernetes target.
pub fn create_authenticated_client<'a, E>(options: &'a TargetKubernetesOptions) -> (setup:
    ClientSetup<'a, E>)
    ensures
        setup == ClientSetup::<'a, E>::start(options),
{
    let step: ClientStep<E> = match &options.auth {
        KubernetesTargetAuth::Token => ClientStep::RevealingToken,
        KubernetesTargetAuth::Certificate { .. } => ClientStep::RevealingKey,
        KubernetesTargetAuth::IamRole => ClientStep::LookingUpCluster,
    };
    ClientSetup { options, step }
}

impl<'a, E> ClientSetup<'a, E> {
    /// How the preparation starts: by the credential that the target is configured with.
    pub open spec fn start(options: &'a TargetKubernetesOptions) -> Self {
        ClientSetup {
            options,
            step: match options.auth {
                KubernetesTargetAuth::Token => ClientStep::RevealingToken,
                KubernetesTargetAuth::Certificate { .. } => ClientStep::RevealingKey,
                KubernetesTargetAuth::IamRole => ClientStep::LookingUpCluster,
            },
        }
    }

    /// What the preparation waits for.
    pub open spec fn spec_pending(&self) -> ClientAction<'_> {
        match &self.step {
            ClientStep::RevealingToken => ClientAction::RevealToken,
            ClientStep::RevealingKey => ClientAction::RevealPrivateKey,
            ClientStep::LookingUpCluster => ClientAction::FindEksCluster(&self.options.cluster_url),
            ClientStep::GeneratingToken { cluster } => ClientAction::GenerateEksToken(cluster),
            ClientStep::Done(_) => ClientAction::Finished,
        }
    }

    pub fn pending(&self) -> (action: ClientAction<'_>)
        ensures
            action == self.spec_pending(),
    {
        match &self.step {
            ClientStep::RevealingToken => ClientAction::RevealToken,
            ClientStep::RevealingKey => ClientAction::RevealPrivateKey,
            ClientStep::LookingUpCluster => ClientAction::FindEksCluster(&self.options.cluster_url),
            ClientStep::GeneratingToken { cluster } => ClientAction::GenerateEksToken(cluster),
            ClientStep::Done(_) => ClientAction::Finished,
        }
    }

    /// The step after an answer.
    pub open spec fn step_after(self, event: ClientEvent<E>) -> ClientStep<E> {
        match (self.step, event, self.options.auth) {
            (ClientStep::Done(result), _, _) => ClientStep::Done(result),
            (ClientStep::RevealingToken, ClientEvent::Revealed(reply), _) => match reply {
                Ok(token) => ClientStep::Done(Ok(ClientCredential::Token(token))),
                Err(e) => ClientStep::Done(Err(ClientError::Reveal(e))),
            },
            (
                ClientStep::RevealingKey,
                ClientEvent::Revealed(reply),
                KubernetesTargetAuth::Certificate { certificate },
            ) => match reply {
                Ok(private_key) => ClientStep::Done(
                    Ok(ClientCredential::Certificate { certificate, private_key }),
                ),
                Err(e) => ClientStep::Done(Err(ClientError::Reveal(e))),
            },
            (ClientStep::LookingUpCluster, ClientEvent::EksCluster(reply), _) => match reply {
                Ok(cluster) => ClientStep::GeneratingToken { cluster },
                Err(e) => ClientStep::Done(Err(ClientError::ClusterLookup(e))),
            },
            (ClientStep::GeneratingToken { .. }, ClientEvent::EksToken(reply), _) => match reply {
                Ok(token) => ClientStep::Done(Ok(ClientCredential::EksToken(token))),
                Err(e) => ClientStep::Done(Err(ClientError::TokenGeneration(e))),
            },
            _ => ClientStep::Done(Err(ClientError::UnexpectedAnswer)),
        }
    }

    /// The preparation after an answer.
    pub open spec fn after(self, event: ClientEvent<E>) -> Self {
        ClientSetup { options: self.options, step: self.step_after(event) }
    }

    /// Takes an answer of the gateway.
    pub fn resume(self, event: ClientEvent<E>) -> (next: Self)
        ensures
            next == self.after(event),
    {
        let ClientSetup { options, step } = self;
        let step: ClientStep<E> = match (step, event, &options.auth) {
            (ClientStep::Done(result), _, _) => ClientStep::Done(result),
            (ClientStep::RevealingToken, ClientEvent::Revealed(reply), _) => match reply {
                Ok(token) => ClientStep::Done(Ok(ClientCredential::Token(token))),
                Err(e) => ClientStep::Done(Err(ClientError::Reveal(e))),
            },
            (
                ClientStep::RevealingKey,
                ClientEvent::Revealed(reply),
                KubernetesTargetAuth::Certificate { certificate },
            ) => match reply {
                Ok(private_key) => ClientStep::Done(
                    Ok(
                        ClientCredential::Certificate {
                            certificate: certificate.clone(),
                            private_key,
                        },
                    ),
                ),
                Err(e) => ClientStep::Done(Err(ClientError::Reveal(e))),
            },
            (ClientStep::LookingUpCluster, ClientEvent::EksCluster(reply), _) => match reply {
                Ok(cluster) => ClientStep::GeneratingToken { cluster },
                Err(e) => ClientStep::Done(Err(ClientError::ClusterLookup(e))),
            },
            (ClientStep::GeneratingToken { .. }, ClientEvent::EksToken(reply), _) => match reply {
                Ok(token) => ClientStep::Done(Ok(ClientCredential::EksToken(token))),
                Err(e) => ClientStep::Done(Err(ClientError::TokenGeneration(e))),
            },
            _ => ClientStep::Done(Err(ClientError::UnexpectedAnswer)),
        };
        ClientSetup { options, step }
    }

    /// The builder of the client, once the preparation is over.
    pub fn into_client(self) -> (r: Result<reqwest::ClientBuilder, ClientError<E>>)
        ensures
            match self.step {
                ClientStep::Done(Ok(credential)) => match r {
                    Ok(client) => is_usable(credential) && is_client_for(
                        client,
                        self.options.tls,
                        credential,
                    ),
                    Err(error) => !is_usable(credential) && is_refusal(error, credential),
                },
                ClientStep::Done(Err(error)) => r == Err::<reqwest::ClientBuilder, _>(error),
                _ => r == Err::<reqwest::ClientBuilder, _>(ClientError::<E>::UnexpectedAnswer),
            },
    {
        let ClientSetup { options, step } = self;
        match step {
            ClientStep::Done(Ok(credential)) => authenticated_client(options.tls, &credential),
            ClientStep::Done(Err(error)) => Err(error),
            _ => Err(ClientError::UnexpectedAnswer),
        }
    }
}

/// All that the gateway can be asked about one target's credential.
pub struct ClientFacts<E> {
    pub secret: Result<String, E>,
    pub cluster: Result<EksClusterInfo, E>,
    pub eks_token: Result<String, E>,
}

impl<E> ClientFacts<E> {
    /// The answer to what a preparation waits for.
    pub open spec fn answer(self, step: ClientStep<E>) -> ClientEvent<E> {
        match step {
            ClientStep::LookingUpCluster => ClientEvent::EksCluster(self.cluster),
            ClientStep::GeneratingToken { .. } => ClientEvent::EksToken(self.eks_token),
            _ => ClientEvent::Revealed(self.secret),
        }
    }

    /// The credential for a target.
    pub open spec fn credential(self, options: TargetKubernetesOptions) -> Result<
        ClientCredential,
        ClientError<E>,
    > {
        match (options.auth, self.secret, self.cluster, self.eks_token) {
            (KubernetesTargetAuth::Token, Ok(token), _, _) => Ok(
                ClientCredential::Token(token),
            ),
            (KubernetesTargetAuth::Certificate { certificate }, Ok(private_key), _, _) => Ok(
                ClientCredential::Certificate { certificate, private_key },
            ),
            (KubernetesTargetAuth::IamRole, _, Ok(_), Ok(token)) => Ok(
                ClientCredential::EksToken(token),
            ),
            (KubernetesTargetAuth::IamRole, _, Err(e), _) => Err(ClientError::ClusterLookup(e)),
            (KubernetesTargetAuth::IamRole, _, Ok(_), Err(e)) => Err(
                ClientError::TokenGeneration(e),
            ),
            (_, Err(e), _, _) => Err(ClientError::Reveal(e)),
        }
    }
}

/// The preparation of a client comes to the credential for the target within two answers.
pub proof fn lemma_client_credential<'a, E>(
    facts: ClientFacts<E>,
    options: &'a TargetKubernetesOptions,
)
    ensures
        ({
            let first = ClientSetup::<'a, E>::start(options);
            let second = first.after(facts.answer(first.step));
            second.after(facts.answer(second.step)).step == ClientStep::Done(
                facts.credential(*options),
            )
        }),
{
}

/// A client that presents a token sends it in the `authorization` header, beside the header that
/// every client sends, and has no identity; one that presents a certificate sends no `authorization`
/// header.
pub proof fn lemma_credential_presented(
    client: reqwest::ClientBuilder,
    tls: TlsOptions,
    credential: ClientCredential,
)
    requires
        is_client_for(client, tls, credential),
        is_usable(credential),
    ensures
        default_headers_of(client).contains_key("accept"@),
        default_headers_of(client).contains_key("authorization"@) <==> credential !is Certificate,
        identity_of(client) is Some <==> credential is Certificate,
{
    reveal_strlit("accept");
    reveal_strlit("authorization");
    assert("accept"@.len() != "authorization"@.len());
}

/// A gateway, as far as the credential for a cluster goes: what it answers to each question that it
/// can be asked.
pub struct ClientGateway<E> {
    pub token: Result<String, E>,
    pub private_key: Result<String, E>,
    /// The cluster with a URL.
    pub cluster: spec_fn(Seq<char>) -> Result<EksClusterInfo, E>,
    /// A token for the cluster of a name in a region.
    pub eks_token: spec_fn(Seq<char>, Seq<char>) -> Result<String, E>,
}

impl<E> ClientGateway<E> {
    /// The answer to a question.
    pub open spec fn answer(self, action: ClientAction<'_>) -> ClientEvent<E> {
        match action {
            ClientAction::RevealToken => ClientEvent::Revealed(self.token),
            ClientAction::RevealPrivateKey => ClientEvent::Revealed(self.private_key),
            ClientAction::FindEksCluster(url) => ClientEvent::EksCluster((self.cluster)(url@)),
            ClientAction::GenerateEksToken(cluster) => ClientEvent::EksToken(
                (self.eks_token)(cluster.name@, cluster.region@),
            ),
            ClientAction::Finished => ClientEvent::Revealed(self.token),
        }
    }

    /// The preparation after the gateway answered a number of its questions.
    pub open spec fn serve<'a>(self, setup: ClientSetup<'a, E>, questions: nat) -> ClientSetup<'a, E>
        decreases questions,
    {
        if questions == 0 {
            setup
        } else {
            self.serve(setup.after(self.answer(setup.spec_pending())), (questions - 1) as nat)
        }
    }
}

/// The credential for a cluster is what the target is configured with: its own token; its own
/// certificate, with its own private key; or a token that is generated for the cluster which its URL
/// leads to. A fault is reported as what it was a fault of, and ends the preparation.
pub proof fn lemma_credential_of_target<'a, E>(
    gateway: ClientGateway<E>,
    options: &'a TargetKubernetesOptions,
)
    ensures
        ({
            let start = ClientSetup::<'a, E>::start(options);
            match options.auth {
                KubernetesTargetAuth::Token => gateway.serve(start, 1).step == (
                match gateway.token {
                    Ok(token) => ClientStep::<E>::Done(Ok(ClientCredential::Token(token))),
                    Err(e) => ClientStep::Done(Err(ClientError::Reveal(e))),
                }),
                KubernetesTargetAuth::Certificate { certificate } => gateway.serve(start, 1).step
                    == (match gateway.private_key {
                    Ok(private_key) => ClientStep::<E>::Done(
                        Ok(ClientCredential::Certificate { certificate, private_key }),
                    ),
                    Err(e) => ClientStep::Done(Err(ClientError::Reveal(e))),
                }),
                KubernetesTargetAuth::IamRole => match (gateway.cluster)(options.cluster_url@) {
                    Err(e) => gateway.serve(start, 1).step == ClientStep::<E>::Done(
                        Err(ClientError::ClusterLookup(e)),
                    ),
                    Ok(cluster) => gateway.serve(start, 2).step == (match (gateway.eks_token)(
                        cluster.name@,
                        cluster.region@,
                    ) {
                        Ok(token) => ClientStep::<E>::Done(Ok(ClientCredential::EksToken(token))),
                        Err(e) => ClientStep::Done(Err(ClientError::TokenGeneration(e))),
                    }),
                },
            }
        }),
        gateway.serve(ClientSetup::<'a, E>::start(options), 1).options == options,
        gateway.serve(ClientSetup::<'a, E>::start(options), 2).options == options,
{
    reveal_with_fuel(ClientGateway::serve, 3);
}

/// A preparation that is over asks for nothing and keeps its result; one that is not over and gets
/// an answer to another question than its own has no credential to give.
pub proof fn lemma_client_fails_closed<'a, E>(setup: ClientSetup<'a, E>, event: ClientEvent<E>)
    ensures
        setup.step is Done ==> setup.after(event) == setup && setup.spec_pending() is Finished,
        setup.step !is Done ==> setup.spec_pending() !is Finished,
        setup.step !is Done && !(match setup.spec_pending() {
            ClientAction::RevealToken => event is Revealed,
            ClientAction::RevealPrivateKey => event is Revealed,
            ClientAction::FindEksCluster(_) => event is EksCluster,
            ClientAction::GenerateEksToken(_) => event is EksToken,
            ClientAction::Finished => false,
        }) ==> setup.after(event).step == ClientStep::<E>::Done(Err(ClientError::UnexpectedAnswer)),
{
}

/// A client for a cluster accepts certificates that do not verify exactly where the target says so.
/// One with a token, the target's own or a generated one, sends `Bearer`, a space and the token, and
/// presents no identity. One with a certificate presents the identity of the certificate and its key,
/// and sends nothing of it. All send what a new client sends, and nothing else.
pub proof fn lemma_client_settings(
    client: reqwest::ClientBuilder,
    tls: TlsOptions,
    credential: ClientCredential,
)
    requires
        is_client_for(client, tls, credential),
    ensures
        accepts_invalid_certs(client) <==> !tls.verify,
        match credential {
            ClientCredential::Token(token) => {
                &&& identity_of(client) is None
                &&& default_headers_of(client) == new_client_headers().insert(
                    "authorization"@,
                    seq![encode_utf8("Bearer "@ + token@)],
                )
            },
            ClientCredential::EksToken(token) => {
                &&& identity_of(client) is None
                &&& default_headers_of(client) == new_client_headers().insert(
                    "authorization"@,
                    seq![encode_utf8("Bearer "@ + token@)],
                )
            },
            ClientCredential::Certificate { certificate, private_key } => {
                &&& default_headers_of(client) == new_client_headers()
                &&& exists|text: Seq<char>|
                    {
                        &&& is_bundle_of(text, certificate@, private_key@)
                        &&& identity_of(client) == pem_identity(#[trigger] encode_utf8(text))
                    }
            },
        },
{
    if let ClientCredential::Certificate { certificate, private_key } = credential {
        let text = pem_bundle(certificate@, private_key@);
        lemma_bundle(certificate@, private_key@);
        assert(identity_of(client) == pem_identity(encode_utf8(text)));
    }
}

/// A PEM text of a certificate and a key: both as they are but for line feeds at the end, of which
/// each has one.
pub open spec fn is_bundle_of(text: Seq<char>, certificate: Seq<char>, private_key: Seq<char>) -> bool {
    exists|first: Seq<char>, second: Seq<char>|
        {
            &&& text == #[trigger] (first + seq!['\n'] + second + seq!['\n'])
            &&& agree_but_for_trailing(first, certificate, '\n')
            &&& agree_but_for_trailing(second, private_key, '\n')
            &&& first.len() > 0 ==> first.last() != '\n'
            &&& second.len() > 0 ==> second.last() != '\n'
        }
}

/// A certificate and a key are bundled as they are but for line feeds at the end, of which each has
/// one.
pub proof fn lemma_bundle(certificate: Seq<char>, private_key: Seq<char>)
    ensures
        is_bundle_of(pem_bundle(certificate, private_key), certificate, private_key),
{
    let first = without_trailing(certificate, '\n');
    let second = without_trailing(private_key, '\n');
    reveal_strlit("\n");
    assert("\n"@ =~= seq!['\n']);
    lemma_without_trailing(certificate, '\n');
    lemma_without_trailing(private_key, '\n');
    assert(without_trailing(first, '\n') == first);
    assert(without_trailing(second, '\n') == second);
    lemma_same_but_for_trailing(first, certificate, '\n');
    lemma_same_but_for_trailing(second, private_key, '\n');
    assert(pem_bundle(certificate, private_key) == first + seq!['\n'] + second + seq!['\n']);
}

/// A token can be used exactly when every byte of it may stand in a header: none but tabs, printable
/// ASCII and what is beyond ASCII. A certificate can be used exactly when it makes an identity with
/// its key.
pub proof fn lemma_usable_credential(token: String, certificate: String, private_key: String)
    ensures
        is_usable(ClientCredential::Token(token)) <==> is_usable(ClientCredential::EksToken(token)),
        is_usable(ClientCredential::Token(token)) <==> forall|i: int|
            0 <= i < encode_utf8("Bearer "@ + token@).len() ==> {
                let b = #[trigger] encode_utf8("Bearer "@ + token@)[i];
                b == 9 || 32 <= b < 127 || 128 <= b
            },
        is_usable(ClientCredential::Certificate { certificate, private_key }) <==> pem_identity(
            encode_utf8(pem_bundle(certificate@, private_key@)),
        ) is Some,
{
    let sent = encode_utf8("Bearer "@ + token@);
    if is_header_value(sent) {
        assert forall|i: int| 0 <= i < sent.len() implies {
            let b = #[trigger] sent[i];
            b == 9 || 32 <= b < 127 || 128 <= b
        } by {
            assert(is_header_byte(sent[i]));
        }
    }
}

/// A credential that cannot be used is reported as what it is: a token in a header, a generated token
/// in a header, or a certificate with its key.
pub proof fn lemma_refusal_of_credential<E>(error: ClientError<E>, credential: ClientCredential)
    requires
        is_refusal(error, credential),
    ensures
        error is AuthorizationHeader <==> credential is Token,
        error is EksAuthorizationHeader <==> credential is EksToken,
        error is ClientCertificate <==> credential is Certificate,
        error.spec_context() == Some(
            match credential {
                ClientCredential::Token(_) => "setting Authorization header"@,
                ClientCredential::EksToken(_) => "setting Authorization header for EKS token"@,
                ClientCredential::Certificate { .. } =>
                    "Invalid client certificate/key for Kubernetes upstream"@,
            },
        ),
{
}

/// What the gateway could not do is said with the gateway's error; a secret that could not be
/// revealed speaks for itself.
pub proof fn lemma_context_of_fault<E>(fault: E)
    ensures
        ClientError::ClusterLookup(fault).spec_context() == Some("EKS cluster lookup"@),
        ClientError::TokenGeneration(fault).spec_context() == Some("EKS token generation"@),
        ClientError::Reveal(fault).spec_context() is None,
        ClientError::<E>::UnexpectedAnswer.spec_context() is None,
{
}

} // verus!
