//! Connection configuration and the derived server addresses.

use vstd::prelude::*;
use vstd::string::StringExecFns;
use crate::numeral::{dec_rep, u64_to_string};

verus! {

/// Default server host.
pub const DEFAULT_HOST: &'static str = "127.0.0.1";

/// Default server port.
pub const DEFAULT_PORT: u16 = 1337;

/// Default maximum payload size (128 MB).
pub const DEFAULT_MAX_PAYLOAD: usize = 128 * 1024 * 1024;

/// Connection configuration.
#[derive(Debug, Clone, PartialEq, Eq)]
pub struct ConnectionConfig {
    /// Server host.
    pub host: String,
    /// Server port.
    pub port: u16,
    /// Use TLS.
    pub tls: bool,
    /// Maximum payload size in bytes.
    pub max_payload: usize,
}

/// The HTTP scheme that a TLS flag selects.
pub open spec fn http_scheme(tls: bool) -> Seq<char> {
    if tls {
        "https"@
    } else {
        "http"@
    }
}

/// The WebSocket scheme that a TLS flag selects.
pub open spec fn ws_scheme(tls: bool) -> Seq<char> {
    if tls {
        "wss"@
    } else {
        "ws"@
    }
}

/// An address text: scheme, separator, host and port.
pub open spec fn addr_of(scheme: Seq<char>, host: Seq<char>, port: u16) -> Seq<char> {
    scheme + "://"@ + host + ":"@ + dec_rep(port as nat)
}

/// The default configuration's field values.
pub open spec fn spec_default_config(c: ConnectionConfig) -> bool {
    &&& c.host@ == "127.0.0.1"@
    &&& c.port == 1337u16
    &&& !c.tls
    &&& c.max_payload == 128 * 1024 * 1024
}

impl Default for ConnectionConfig {
    /// The default configuration: local host, default port, no TLS.
    fn default() -> (r: Self)
        ensures
            spec_default_config(r),
    {
        ConnectionConfig {
            host: DEFAULT_HOST.to_owned(),
            port: DEFAULT_PORT,
            tls: false,
            max_payload: DEFAULT_MAX_PAYLOAD,
        }
    }
}

impl ConnectionConfig {
    /// Create a new connection configuration for a host and port, with the
    /// remaining fields at their defaults.
    pub fn new(host: &str, port: u16) -> (r: Self)
        ensures
            r.host@ == host@,
            r.port == port,
            !r.tls,
            r.max_payload == DEFAULT_MAX_PAYLOAD,
    {
        ConnectionConfig {
            host: host.to_owned(),
            port,
            tls: false,
            max_payload: DEFAULT_MAX_PAYLOAD,
        }
    }

    /// Enable TLS.
    pub fn with_tls(self) -> (r: Self)
        ensures
            r == (ConnectionConfig { tls: true, ..self }),
    {
        ConnectionConfig { tls: true, ..self }
    }

    /// Set the maximum payload size.
    pub fn with_max_payload(self, max_payload: usize) -> (r: Self)
        ensures
            r == (ConnectionConfig { max_payload, ..self }),
    {
        ConnectionConfig { max_payload, ..self }
    }
}

/// Connection addresses.
#[derive(Debug, Clone, PartialEq, Eq)]
pub struct ConnectionAddress {
    /// HTTP address for health checks.
    pub http: String,
    /// WebSocket address for protocol communication.
    pub websocket: String,
}

/// A connection object: the derived addresses and the payload bound.
#[derive(Debug, Clone, PartialEq, Eq)]
pub struct Connection {
    /// Maximum payload size.
    pub max_payload: usize,
    /// Connection addresses.
    pub address: ConnectionAddress,
}

impl Connection {
    /// Derive the connection addresses from a configuration.  The address
    /// schemes are selected by the TLS flag alone, always as a consistent
    /// pair.
    pub fn from_config(config: &ConnectionConfig) -> (r: Self)
        ensures
            r.max_payload == config.max_payload,
            r.address.http@ == addr_of(http_scheme(config.tls), config.host@, config.port),
            r.address.websocket@ == addr_of(ws_scheme(config.tls), config.host@, config.port),
    {
        let scheme = if config.tls { "https" } else { "http" };
        let ws = if config.tls { "wss" } else { "ws" };
        let port_str = u64_to_string(config.port as u64);
        let mut http = scheme.to_owned();
        http.append("://");
        http.append(config.host.as_str());
        http.append(":");
        http.append(port_str.as_str());
        let mut websocket = ws.to_owned();
        websocket.append("://");
        websocket.append(config.host.as_str());
        websocket.append(":");
        websocket.append(port_str.as_str());
        proof {
            assert(http@ =~= addr_of(http_scheme(config.tls), config.host@, config.port));
            assert(websocket@ =~= addr_of(ws_scheme(config.tls), config.host@, config.port));
        }
        Connection { max_payload: config.max_payload, address: ConnectionAddress { http, websocket } }
    }
}

/// Create a connection object from an optional configuration, falling back
/// to the defaults.
pub fn create_connection_object(config: Option<ConnectionConfig>) -> (r: Connection)
    ensures
        match config {
            Option::Some(c) => {
                &&& r.max_payload == c.max_payload
                &&& r.address.http@ == addr_of(http_scheme(c.tls), c.host@, c.port)
                &&& r.address.websocket@ == addr_of(ws_scheme(c.tls), c.host@, c.port)
            },
            Option::None => {
                &&& r.max_payload == 128 * 1024 * 1024
                &&& r.address.http@ == addr_of(http_scheme(false), "127.0.0.1"@, 1337u16)
                &&& r.address.websocket@ == addr_of(ws_scheme(false), "127.0.0.1"@, 1337u16)
            },
        },
{
    match config {
        Option::Some(c) => Connection::from_config(&c),
        Option::None => {
            let c = ConnectionConfig::default();
            Connection::from_config(&c)
        }
    }
}

/// The health endpoint of a connection's HTTP address.
pub fn health_url(connection: &Connection) -> (r: String)
    ensures
        r@ == connection.address.http@ + "/health"@,
{
    let mut r = connection.address.http.clone();
    r.append("/health");
    r
}

/// Interaction type for client connections.
#[derive(Debug, Clone, Copy, PartialEq, Eq, Structural)]
pub enum InteractionType {
    /// Long-running connection (persists across multiple requests).
    LongRunning,
    /// One-time connection (closes after a request).
    OneTime,
}

/// The derived addresses always begin with the scheme pair that the TLS
/// flag selects: `https` with `wss` when TLS is on, `http` with `ws` when it
/// is off — never a mixed pair.
pub proof fn lemma_scheme_pairing(tls: bool, host: Seq<char>, port: u16)
    ensures
        addr_of(http_scheme(tls), host, port).subrange(0, http_scheme(tls).len() as int)
            == http_scheme(tls),
        addr_of(ws_scheme(tls), host, port).subrange(0, ws_scheme(tls).len() as int)
            == ws_scheme(tls),
        tls <==> http_scheme(tls) == "https"@,
        !tls <==> http_scheme(tls) == "http"@,
        tls <==> ws_scheme(tls) == "wss"@,
        !tls <==> ws_scheme(tls) == "ws"@,
{
    reveal_strlit("https");
    reveal_strlit("http");
    reveal_strlit("wss");
    reveal_strlit("ws");
    assert("https"@.len() == 5 && "http"@.len() == 4);
    assert("wss"@.len() == 3 && "ws"@.len() == 2);
    let h = addr_of(http_scheme(tls), host, port);
    let w = addr_of(ws_scheme(tls), host, port);
    assert(h.subrange(0, http_scheme(tls).len() as int) =~= http_scheme(tls));
    assert(w.subrange(0, ws_scheme(tls).len() as int) =~= ws_scheme(tls));
}

} // verus!
