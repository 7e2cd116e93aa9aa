//! Settings of the HTTP transport.

use vstd::prelude::*;

verus! {

/// Default timeout for connecting, reading and writing, in milliseconds.
pub const DEFAULT_TIMEOUT_MILLIS: u64 = 5000;

/// Where the HTTP intermediary listens.
pub struct HttpConfig {
    /// Address of the intermediary (IP address or DNS name).
    pub addr: String,
    /// Port it listens on.
    pub port: u16,
    /// Timeout for connecting, reading and writing, in milliseconds.
    pub timeout_ms: u64,
}

impl Default for HttpConfig {
    /// The local intermediary on its usual port, with a five-second timeout.
    fn default() -> (r: HttpConfig)
        ensures
            r.addr@ == "127.0.0.1"@,
            r.port == 12345,
            r.timeout_ms == DEFAULT_TIMEOUT_MILLIS,
    {
        HttpConfig { addr: "127.0.0.1".to_owned(), port: 12345, timeout_ms: DEFAULT_TIMEOUT_MILLIS }
    }
}

} // verus!
