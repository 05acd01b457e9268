//! The records that the server keeps: route definitions, request logs,
//! the listening configuration and the saved database connections.
use vstd::prelude::*;

verus! {

/// One registered route: the request it answers and how it answers.
pub struct MockApi {
    /// The registry key, `"{METHOD} {path}"`.
    pub id: String,
    /// The request path, starting with `/`; a trailing `*` marks a prefix route.
    pub path: String,
    /// An upper-case HTTP method, or `ANY`.
    pub method: String,
    /// The literal body, the script source or the proxy target, by `response_type`.
    pub response_body: String,
    /// The status sent unless a script sets another.
    pub status_code: u16,
    /// One of `json`, `html`, `raw`, `js` or `proxy`; anything else answers as `raw`.
    pub response_type: String,
}

impl MockApi {
    /// A copy of this definition.
    pub fn duplicate(&self) -> (r: MockApi)
        ensures
            r == *self,
    {
        MockApi {
            id: self.id.clone(),
            path: self.path.clone(),
            method: self.method.clone(),
            response_body: self.response_body.clone(),
            status_code: self.status_code,
            response_type: self.response_type.clone(),
        }
    }
}

/// One answered request, as the log keeps it.
pub struct RequestLog {
    pub id: String,
    pub method: String,
    pub path: String,
    pub status_code: u16,
    pub duration_ms: u64,
    pub timestamp: u64,
    pub request_body: Option<String>,
    pub response_body: Option<String>,
}

/// Where the server listens, and whether it starts.
pub struct ServerConfig {
    pub port: u16,
    /// `0.0.0.0` or `127.0.0.1`.
    pub host: String,
    pub running: bool,
}

impl Default for ServerConfig {
    /// Port 3000 on the loopback address, started.
    fn default() -> (r: ServerConfig)
        ensures
            r.port == 3000,
            r.host@ == "127.0.0.1"@,
            r.running,
    {
        ServerConfig { port: 3000, host: String::from_str("127.0.0.1"), running: true }
    }
}

/// A saved database connection: its name and its URL.
pub struct DbConfig {
    pub name: String,
    pub url: String,
}

} // verus!
