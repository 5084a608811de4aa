//! Credentials for the legacy login flow. The flow itself (an HTTP round
//! trip) lives outside the verified core.

use vstd::prelude::*;

verus! {

/// Credentials and endpoint of the login service.
pub struct AuthConfig {
    pub login_url: String,
    pub username: String,
    pub password: String,
}

} // verus!
