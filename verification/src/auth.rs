//! Data exchanged with the login collaborator.
//!
//! The login and consent flow itself (redirects, token exchange, session
//! storage) lives outside the engine; these are the plain values it hands
//! back.

use vstd::prelude::*;

verus! {

/// The authorization callback's query data: the one-time code and the state
/// echoed back for forgery protection.
pub struct AuthRequest {
    pub code: String,
    pub state: String,
}

/// Marker that a request must be sent to the login flow before it can be
/// served.
pub struct AuthRedirect;

/// The profile data served back to an authenticated caller.
pub struct UserData {
    pub name: String,
}

} // verus!
