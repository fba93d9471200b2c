//! Authentication and authorization of Kubernetes requests at an access gateway.
//!
//! A request proves who it comes from by an API token, an OIDC ID token or a client certificate
//! ([`login`], [`transport`], [`certificate`]). The user is then authorized for a target, by an
//! active self-service ticket or by an access role, under the user's credential policy ([`target`],
//! [`policy`]). [`client`] makes the HTTP client for the target's cluster.
//!
//! What the gateway has to do on the way (look something up, wait for an approval) the library asks
//! for: each procedure says by `pending` what it waits for, and takes the answer by `resume`. An
//! answer to a question that was not asked never lets a request through.

use vstd::prelude::*;

pub mod certificate;
pub mod client;
pub mod error;
pub mod identity;
pub mod login;
pub mod pem;
pub mod policy;
pub mod request;
pub mod target;
pub mod text;
pub mod transport;

verus! {

/// The name under which the gateway knows the protocol.
pub const PROTOCOL_NAME: &'static str = "Kubernetes";

} // verus!
