//! Configuration of the API gateway.
use vstd::prelude::*;

verus! {

/// Where the gateway listens, and whether it allows cross-origin requests.
#[derive(Debug, Clone)]
pub struct ApiConfig {
    pub host: String,
    pub port: u16,
    pub enable_cors: bool,
}

impl Default for ApiConfig {
    /// All interfaces ("0.0.0.0"), port 8080, cross-origin requests allowed.
    fn default() -> (c: Self)
        ensures
            c.host@ == "0.0.0.0"@,
            c.port == 8080,
            c.enable_cors,
    {
        ApiConfig { host: String::from_str("0.0.0.0"), port: 8080, enable_cors: true }
    }
}

impl ApiConfig {
    /// The address to bind: host, ':', port.
    pub fn address(&self) -> (s: String)
        ensures
            s@ == self.host@ + ":"@ + crate::text::int_text(self.port as int),
    {
        let port = crate::text::int_to_text(self.port as i64);
        crate::text::concat3(self.host.as_str(), ":", port.as_str())
    }
}

} // verus!
