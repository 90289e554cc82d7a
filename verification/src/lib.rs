//! Client library for the SchoolSoft school-information REST API.
//!
//! The heart of the crate is the schedule engine: it parses textual
//! week-range recurrence patterns, resolves base/exclude/include week
//! masks into concrete week lists, and lays occasions out over a
//! 53-week calendar anchored at an arbitrary date. All of that logic
//! is verified. Network transport and JSON decoding are deliberately
//! kept out of this crate's core; callers hand in plain records and
//! get typed results back.

pub mod date;
pub mod deserializers;
pub mod school;
pub mod schedule;
pub mod occasion;
pub mod uuid;
pub mod weeks;
pub mod errors;
pub mod types;
pub mod utils;

use vstd::prelude::*;
use vstd::string::StringExecFns;

verus! {

/// Builder holding the configuration of an API client.
///
/// `base_url` defaults to `https://sms.schoolsoft.se` and `device_id`
/// defaults to the empty string when left unset.
pub struct ClientBuilder {
    pub base_url: Option<String>,
    pub device_id: Option<String>,
}

impl ClientBuilder {
    /// Create a builder with both settings unset.
    pub fn new() -> (r: ClientBuilder)
        ensures
            r.base_url is None,
            r.device_id is None,
    {
        ClientBuilder { base_url: None, device_id: None }
    }

    /// Set the base url.
    pub fn base_url(self, base_url: String) -> (r: ClientBuilder)
        ensures
            r.base_url == Some(base_url),
            r.device_id == self.device_id,
    {
        ClientBuilder { base_url: Some(base_url), ..self }
    }

    /// Set the device id sent when requesting a token.
    pub fn device_id(self, device_id: String) -> (r: ClientBuilder)
        ensures
            r.device_id == Some(device_id),
            r.base_url == self.base_url,
    {
        ClientBuilder { device_id: Some(device_id), ..self }
    }

    /// The base url a client built from this builder uses: the
    /// configured one, or the public service url.
    pub fn resolved_base_url(&self) -> (r: String)
        ensures
            self.base_url is Some ==> r@ == self.base_url->Some_0@,
            self.base_url is None ==> r@ == "https://sms.schoolsoft.se"@,
    {
        match &self.base_url {
            Some(url) => url.clone(),
            None => String::from_str("https://sms.schoolsoft.se"),
        }
    }

    /// The device id a client built from this builder uses: the
    /// configured one, or the empty string.
    pub fn resolved_device_id(&self) -> (r: String)
        ensures
            self.device_id is Some ==> r@ == self.device_id->Some_0@,
            self.device_id is None ==> r@ == ""@,
    {
        proof {
            reveal_strlit("");
        }
        match &self.device_id {
            Some(id) => id.clone(),
            None => String::new(),
        }
    }
}

} // verus!
