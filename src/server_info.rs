//! What the server announces about itself when a client connects.
use vstd::prelude::*;

verus! {

/// The server's metadata, taken from its `INFO` line.
#[derive(Clone, Debug)]
pub struct ServerInfo {
    pub server_id: String,
    pub version: String,
    pub go: String,
    pub host: String,
    pub port: i32,
    pub auth_required: bool,
    pub ssl_required: bool,
    pub max_payload: i64,
}

impl Default for ServerInfo {
    /// Empty texts, zero numbers and cleared flags: what a record without
    /// fields decodes to.
    fn default() -> (r: ServerInfo)
        ensures
            r.server_id@ == Seq::<char>::empty(),
            r.version@ == Seq::<char>::empty(),
            r.go@ == Seq::<char>::empty(),
            r.host@ == Seq::<char>::empty(),
            r.port == 0,
            !r.auth_required,
            !r.ssl_required,
            r.max_payload == 0,
    {
        ServerInfo {
            server_id: String::new(),
            version: String::new(),
            go: String::new(),
            host: String::new(),
            port: 0,
            auth_required: false,
            ssl_required: false,
            max_payload: 0,
        }
    }
}

} // verus!
