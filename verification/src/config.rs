//! What the node was configured with, as far as it is told to the registry or used to find peers.

use vstd::prelude::*;

use crate::text::{optional_text, texts};

verus! {

/// A country and a subdivision of it.
#[derive(Debug, Clone)]
pub struct ScopePattern {
    pub country: String,
    pub subdivision: String,
}

/// The configuration of a node.
#[derive(Debug, Clone)]
pub struct Config {
    /// Where the registry answers.
    pub orbitdb_url: String,
    /// The port for QUIC.
    pub quic_port: u16,
    /// The port for HTTP.
    pub port: u16,
    /// The address at which others reach this node.
    pub announce_address: Option<String>,
    /// The relays by which others reach this node.
    pub relay_urls: Vec<String>,
    /// What this node guards.
    pub guardian_scope: Vec<ScopePattern>,
    /// The address of the proxy that this node stands behind.
    pub wesense_proxy: Option<String>,
    /// The port for QUIC of that proxy, where it is not the one of this node.
    pub wesense_proxy_iroh_port: Option<u16>,
    /// Whether HTTP is spoken over TLS.
    pub tls_enabled: bool,
    /// The certificate file.
    pub tls_certfile: Option<String>,
}

/// The mathematical form of a `Config`.
pub struct ConfigView {
    pub orbitdb_url: Seq<char>,
    pub quic_port: u16,
    pub port: u16,
    pub announce_address: Option<Seq<char>>,
    pub relay_urls: Seq<Seq<char>>,
    pub guardian_scope: Seq<(Seq<char>, Seq<char>)>,
    pub wesense_proxy: Option<Seq<char>>,
    pub wesense_proxy_iroh_port: Option<u16>,
    pub tls_enabled: bool,
    pub tls_certfile: Option<Seq<char>>,
}

impl View for Config {
    type V = ConfigView;

    open spec fn view(&self) -> ConfigView {
        ConfigView {
            orbitdb_url: self.orbitdb_url@,
            quic_port: self.quic_port,
            port: self.port,
            announce_address: optional_text(self.announce_address),
            relay_urls: texts(self.relay_urls@),
            guardian_scope: self.guardian_scope@.map_values(
                |pattern: ScopePattern| (pattern.country@, pattern.subdivision@),
            ),
            wesense_proxy: optional_text(self.wesense_proxy),
            wesense_proxy_iroh_port: self.wesense_proxy_iroh_port,
            tls_enabled: self.tls_enabled,
            tls_certfile: optional_text(self.tls_certfile),
        }
    }
}

} // verus!
