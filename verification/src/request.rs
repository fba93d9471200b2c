//! The transport credentials of a request.

use vstd::prelude::*;

use crate::text::{starts_with, strip_prefix};

verus! {

/// What a request presents to prove who it comes from.
pub struct RequestCredentials {
    /// The value of the `authorization` header.
    pub authorization: Option<Vec<u8>>,
    /// The DER form of the client certificate of the TLS connection.
    pub client_certificate: Option<Vec<u8>>,
}

/// The bytes that a header value may hold to count as text.
pub open spec fn is_visible_ascii(b: u8) -> bool {
    32 <= b < 127 || b == 9
}

/// A header value as text, where it is text.
pub open spec fn header_text(value: Seq<u8>) -> Option<Seq<char>> {
    if forall|i: int| 0 <= i < value.len() ==> is_visible_ascii(#[trigger] value[i]) {
        Some(Seq::new(value.len(), |i: int| value[i] as char))
    } else {
        None
    }
}

/// `HeaderValue::to_str` on the header value with these bytes: the text where all bytes are visible
/// ASCII or tabs, an error otherwise. `HeaderValue::from_bytes`, which makes the header value,
/// rejects only bytes that `to_str` rejects too.
#[verifier::external_body]
fn header_to_str(value: &[u8]) -> (r: Option<String>)
    ensures
        r is Some == header_text(value@) is Some,
        r matches Some(text) ==> Some(text@) == header_text(value@),
{
    let value = reqwest::header::HeaderValue::from_bytes(value).ok()?;
    value.to_str().ok().map(|text| text.to_string())
}

impl RequestCredentials {
    /// The token of an `authorization: Bearer` header.
    pub open spec fn spec_bearer_token(self) -> Option<Seq<char>> {
        match self.authorization {
            Some(value) => match header_text(value@) {
                Some(text) => if starts_with(text, "Bearer "@) {
                    Some(text.skip(7))
                } else {
                    None
                },
                None => None,
            },
            None => None,
        }
    }

    pub fn bearer_token(&self) -> (token: Option<String>)
        ensures
            token is Some == self.spec_bearer_token() is Some,
            token matches Some(t) ==> Some(t@) == self.spec_bearer_token(),
    {
        proof {
            reveal_strlit("Bearer ");
        }
        match &self.authorization {
            Some(value) => match header_to_str(value.as_slice()) {
                Some(text) => strip_prefix(text.as_str(), "Bearer "),
                None => None,
            },
            None => None,
        }
    }
}

/// What kind of credential the client presented, for audit and rate-limiting.
/// `None` means no credential was presented at all: an unauthenticated probe,
/// not a failed login attempt.
pub open spec fn credential_kind_of(request: RequestCredentials) -> Option<Seq<char>> {
    if request.spec_bearer_token() is Some {
        Some("token"@)
    } else if request.client_certificate is Some {
        Some("certificate"@)
    } else {
        None
    }
}

/// The kind of credential that a request presents: a bearer token before a client certificate.
pub fn presented_credential_kind(request: &RequestCredentials) -> (kind: Option<&'static str>)
    ensures
        kind is Some == credential_kind_of(*request) is Some,
        kind matches Some(k) ==> Some(k@) == credential_kind_of(*request),
{
    if request.bearer_token().is_some() {
        Some("token")
    } else if request.client_certificate.is_some() {
        Some("certificate")
    } else {
        None
    }
}

/// The bytes of `Bearer`, with the space after it.
pub open spec fn bearer_prefix() -> Seq<u8> {
    seq![66u8, 101, 97, 114, 101, 114, 32]
}

/// A header presents a token: it is the token after `Bearer` and one space, byte for byte, and holds
/// nothing but printable ASCII and tabs.
pub open spec fn presents_token(value: Seq<u8>, token: Seq<char>) -> bool {
    &&& value.len() == 7 + token.len()
    &&& value.take(7) == bearer_prefix()
    &&& forall|i: int| 0 <= i < token.len() ==> #[trigger] token[i] == value[7 + i] as char
    &&& forall|i: int|
        0 <= i < value.len() ==> 32 <= #[trigger] value[i] <= 126 || value[i] == 9
}

/// A request has a bearer token exactly when its header presents that token.
pub proof fn lemma_bearer_token(request: RequestCredentials, token: Seq<char>)
    ensures
        request.spec_bearer_token() == Some(token) <==> request.authorization is Some
            && presents_token(request.authorization->0@, token),
{
    reveal_strlit("Bearer ");
    if let Some(header) = request.authorization {
        let value = header@;
        if request.spec_bearer_token() == Some(token) {
            let text = header_text(value)->0;
            assert(text.take(7)[0] == text[0] && text.take(7)[1] == text[1] && text.take(7)[2]
                == text[2] && text.take(7)[3] == text[3] && text.take(7)[4] == text[4]
                && text.take(7)[5] == text[5] && text.take(7)[6] == text[6]);
            assert forall|i: int| 0 <= i < value.len() implies 32 <= #[trigger] value[i] <= 126
                || value[i] == 9 by {
                assert(is_visible_ascii(value[i]));
            }
            assert(value.take(7) =~= bearer_prefix());
            assert forall|i: int| 0 <= i < token.len() implies #[trigger] token[i] == value[7
                + i] as char by {
                assert(token[i] == text[7 + i]);
            }
        }
        if presents_token(value, token) {
            assert forall|i: int| 0 <= i < value.len() implies is_visible_ascii(
                #[trigger] value[i],
            ) by {}
            let text = header_text(value)->0;
            assert(value.take(7)[0] == value[0] && value.take(7)[1] == value[1] && value.take(
                7,
            )[2] == value[2] && value.take(7)[3] == value[3] && value.take(7)[4] == value[4]
                && value.take(7)[5] == value[5] && value.take(7)[6] == value[6]);
            assert(text.take(7) =~= "Bearer "@);
            assert(text.skip(7) =~= token);
        }
    }
}

/// A request with a bearer token presents a `token`, whether or not it has a client certificate;
/// one with a client certificate alone presents a `certificate`; any other presents nothing.
pub proof fn lemma_kind_of_credential(request: RequestCredentials)
    ensures
        request.spec_bearer_token() is Some ==> credential_kind_of(request) == Some("token"@),
        request.spec_bearer_token() is None && request.client_certificate is Some
            ==> credential_kind_of(request) == Some("certificate"@),
        request.spec_bearer_token() is None && request.client_certificate is None
            ==> credential_kind_of(request) is None,
{
}

} // verus!
