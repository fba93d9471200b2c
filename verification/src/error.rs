//! The ways in which a request can be turned down, and the responses that say so.

use vstd::prelude::*;

verus! {

/// Why a request is not let through. `E` is the gateway's own error: it is passed on as it is.
#[derive(Debug)]
pub enum AuthError<E> {
    /// No valid credential, or one that does not satisfy the credential policy.
    Unauthorized,
    /// The user may not use the target.
    AccessDenied { target_name: String },
    /// There is no Kubernetes target of that name.
    TargetNotFound { target_name: String },
    /// The SSO user could not be looked up.
    SsoResolution { reason: String },
    /// SSO resolved to a user that does not exist.
    UserNotFound { username: String },
    /// The stored user is malformed.
    UserConversion { reason: String },
    /// The client certificate could not be checked.
    CertificateValidation { reason: String },
    /// A fault of the gateway.
    Backend(E),
}

/// `poem::Error`: a response in place of the requested one. Opaque here.
#[verifier::external_type_specification]
#[verifier::external_body]
pub struct ExPoemError(poem::Error);

/// The HTTP status of a response.
pub uninterp spec fn response_status(error: poem::Error) -> u16;

/// The text of a response.
pub uninterp spec fn response_text(error: poem::Error) -> Seq<char>;

/// `poem::Error::from_string` makes a response with the status and the text that it is given. A
/// status outside of three digits is none that HTTP knows.
#[verifier::external_body]
fn error_from_string(message: String, status: u16) -> (error: poem::Error)
    requires
        100 <= status <= 999,
    ensures
        response_status(error) == status,
        response_text(error) == message@,
{
    poem::Error::from_string(message, poem::http::StatusCode::from_u16(status).unwrap())
}

/// The answer to a request without a valid credential.
pub fn unauthorized() -> (error: poem::Error)
    ensures
        response_status(error) == 401,
        response_text(error)
            == "Unauthorized: provide a valid Bearer token or client certificate"@,
{
    error_from_string(
        "Unauthorized: provide a valid Bearer token or client certificate".to_string(),
        401,
    )
}

/// The answer to a request for a target that the user may not use.
pub fn access_denied(target_name: &str) -> (error: poem::Error)
    ensures
        response_status(error) == 403,
        response_text(error) == "Access denied to target: "@ + target_name@,
{
    error_from_string("Access denied to target: ".to_string().concat(target_name), 403)
}

impl<E> AuthError<E> {
    /// The HTTP status that reports the error; a fault of the gateway reports itself.
    pub open spec fn spec_status(self) -> Option<u16> {
        match self {
            AuthError::Unauthorized => Some(401),
            AuthError::AccessDenied { .. } => Some(403),
            AuthError::TargetNotFound { .. } => Some(404),
            AuthError::SsoResolution { .. } => Some(500),
            AuthError::UserNotFound { .. } => Some(401),
            AuthError::UserConversion { .. } => Some(500),
            AuthError::CertificateValidation { .. } => Some(500),
            AuthError::Backend(_) => None,
        }
    }

    /// The text that reports the error.
    pub open spec fn spec_message(self) -> Option<Seq<char>> {
        match self {
            AuthError::Unauthorized => Some(
                "Unauthorized: provide a valid Bearer token or client certificate"@,
            ),
            AuthError::AccessDenied { target_name } => Some(
                "Access denied to target: "@ + target_name@,
            ),
            AuthError::TargetNotFound { target_name } => Some(
                "Kubernetes target not found: "@ + target_name@,
            ),
            AuthError::SsoResolution { reason } => Some("SSO user resolution failed: "@ + reason@),
            AuthError::UserNotFound { username } => Some(
                "User not found after SSO resolution: "@ + username@,
            ),
            AuthError::UserConversion { reason } => Some("Failed to convert user model: "@ + reason@),
            AuthError::CertificateValidation { reason } => Some(
                "Client certificate validation failed: "@ + reason@,
            ),
            AuthError::Backend(_) => None,
        }
    }

    /// The response that reports the error, or the gateway's own error.
    pub fn into_error(self) -> (r: Result<poem::Error, E>)
        ensures
            match r {
                Ok(error) => {
                    &&& self.spec_status() == Some(response_status(error))
                    &&& self.spec_message() == Some(response_text(error))
                },
                Err(e) => self == AuthError::Backend(e),
            },
    {
        let (status, message): (u16, String) = match self {
            AuthError::Unauthorized => {
                return Ok(unauthorized());
            },
            AuthError::AccessDenied { target_name } => {
                return Ok(access_denied(target_name.as_str()));
            },
            AuthError::TargetNotFound { target_name } => (
                404,
                "Kubernetes target not found: ".to_string().concat(target_name.as_str()),
            ),
            AuthError::SsoResolution { reason } => (
                500,
                "SSO user resolution failed: ".to_string().concat(reason.as_str()),
            ),
            AuthError::UserNotFound { username } => (
                401,
                "User not found after SSO resolution: ".to_string().concat(username.as_str()),
            ),
            AuthError::UserConversion { reason } => (
                500,
                "Failed to convert user model: ".to_string().concat(reason.as_str()),
            ),
            AuthError::CertificateValidation { reason } => (
                500,
                "Client certificate validation failed: ".to_string().concat(reason.as_str()),
            ),
            AuthError::Backend(e) => {
                return Err(e);
            },
        };
        Ok(error_from_string(message, status))
    }
}

/// What the client is told, by whose concern it is: a caller who is not known gets 401, one who may
/// not use the target 403, one who asks for a target that is not there 404, and every fault in
/// between 500. A fault of the gateway's own is not put into other words.
pub proof fn lemma_status_of_error<E>(error: AuthError<E>)
    ensures
        error.spec_status() == Some(401u16) <==> error is Unauthorized || error is UserNotFound,
        error.spec_status() == Some(403u16) <==> error is AccessDenied,
        error.spec_status() == Some(404u16) <==> error is TargetNotFound,
        error.spec_status() == Some(500u16) <==> error is SsoResolution || error is UserConversion
            || error is CertificateValidation,
        error.spec_status() is None <==> error is Backend,
        error.spec_message() is None <==> error is Backend,
{
}

/// What the client is told names what the error is about.
pub proof fn lemma_message_of_error<E>(text: String)
    ensures
        AuthError::<E>::Unauthorized.spec_message() == Some(
            "Unauthorized: provide a valid Bearer token or client certificate"@,
        ),
        (AuthError::<E>::AccessDenied { target_name: text }).spec_message() == Some(
            "Access denied to target: "@ + text@,
        ),
        (AuthError::<E>::TargetNotFound { target_name: text }).spec_message() == Some(
            "Kubernetes target not found: "@ + text@,
        ),
        (AuthError::<E>::SsoResolution { reason: text }).spec_message() == Some(
            "SSO user resolution failed: "@ + text@,
        ),
        (AuthError::<E>::UserNotFound { username: text }).spec_message() == Some(
            "User not found after SSO resolution: "@ + text@,
        ),
        (AuthError::<E>::UserConversion { reason: text }).spec_message() == Some(
            "Failed to convert user model: "@ + text@,
        ),
        (AuthError::<E>::CertificateValidation { reason: text }).spec_message() == Some(
            "Client certificate validation failed: "@ + text@,
        ),
{
}

} // verus!
