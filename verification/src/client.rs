//! The client's fixed configuration: credentials, request timeout and the
//! base URL, set once at construction and read-only afterwards. The
//! transport that uses it lives outside the library; everything here is
//! plain data.
use vstd::prelude::*;

verus! {

/// The configuration of one API client. The password is carried as given:
/// it is protected by the transport, not obscured by the library.
#[derive(Clone, Debug, PartialEq)]
pub struct APIClient {
    pub username: String,
    pub password: String,
    pub timeout_seconds: u64,
    pub base_url: String,
}

impl APIClient {
    /// Builds a client configuration against the fixed API endpoint.
    pub fn new(username: &str, password: &str, timeout_seconds: u64) -> (res: APIClient)
        ensures
            res.username@ == username@,
            res.password@ == password@,
            res.timeout_seconds == timeout_seconds,
            res.base_url@ == "https://api.meteomatics.com"@,
    {
        APIClient {
            username: String::from_str(username),
            password: String::from_str(password),
            timeout_seconds,
            base_url: String::from_str(crate::net::default_api_base_url()),
        }
    }
}

} // verus!
