//! The per-request switches of the HTTP client.
use vstd::prelude::*;

verus! {

/// Whether redirects are followed and whether TLS certificates are checked.
#[derive(PartialEq, Eq, Structural, Clone, Copy, Debug)]
pub struct RequestSettings {
    pub follow_redirects: bool,
    pub verify_ssl: bool,
}

impl Default for RequestSettings {
    /// Redirects followed and certificates checked.
    fn default() -> (s: RequestSettings)
        ensures
            s.follow_redirects && s.verify_ssl,
    {
        RequestSettings { follow_redirects: true, verify_ssl: true }
    }
}

impl RequestSettings {
    /// Turns following redirects on or off.
    pub fn toggle_follow_redirects(&mut self)
        ensures
            final(self).follow_redirects == !old(self).follow_redirects,
            final(self).verify_ssl == old(self).verify_ssl,
    {
        self.follow_redirects = !self.follow_redirects;
    }

    /// Turns checking certificates on or off.
    pub fn toggle_verify_ssl(&mut self)
        ensures
            final(self).verify_ssl == !old(self).verify_ssl,
            final(self).follow_redirects == old(self).follow_redirects,
    {
        self.verify_ssl = !self.verify_ssl;
    }
}

} // verus!
