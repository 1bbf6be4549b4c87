//! The client's settings.

use vstd::prelude::*;

verus! {

/// What the client needs to reach the service.
#[derive(Debug)]
pub struct Config {
    /// The key sent with every request; `None` while logged out.
    pub api_key: Option<String>,
    /// The address of the service.
    pub api_url: String,
}

/// The address of the service where none is configured.
pub fn default_api_url() -> (r: String)
    ensures
        r@ == "https://api.rngo.dev"@,
{
    "https://api.rngo.dev".to_owned()
}

impl Default for Config {
    /// Settings with no key and no address.
    fn default() -> (r: Config)
        ensures
            r.api_key is None,
            r.api_url@ == Seq::<char>::empty(),
    {
        Config { api_key: None, api_url: String::new() }
    }
}

impl Config {
    /// Whether a key is held.
    pub fn is_logged_in(&self) -> (r: bool)
        ensures
            r == self.api_key is Some,
    {
        self.api_key.is_some()
    }

    /// The settings after logging in with `api_key`: the key is replaced, the
    /// rest kept.
    pub fn login(self, api_key: String) -> (r: Config)
        ensures
            r.api_key == Some(api_key),
            r.api_url == self.api_url,
    {
        Config { api_key: Some(api_key), api_url: self.api_url }
    }

    /// The settings after logging out: the key is gone, the rest kept.
    pub fn logout(self) -> (r: Config)
        ensures
            r.api_key is None,
            r.api_url == self.api_url,
    {
        Config { api_key: None, api_url: self.api_url }
    }
}

} // verus!
