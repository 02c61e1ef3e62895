//! The proxy that a node may stand behind: who it is, and how it is reached over the local
//! network.

use vstd::prelude::*;
use vstd::string::*;

use crate::config::{Config, ConfigView};
use crate::http::{scheme, scheme_of};
use crate::ids::{id_bytes, node_key_of, parse_node_key};
use crate::json::{json_document, parse_json, Json, JsonTree};
use crate::peers::{discovered, is_success, status_is_success, text_member};
use crate::peers::{AddressView, DiscoveredPeer, DiscoveredView, IpAddress, PeerAddress};
use crate::registry::{GetRequest, GetView};
use crate::text::{optional_text, texts};

verus! {

/// Seconds after which a request to the proxy is given up.
pub const PROXY_TIMEOUT_SECS: u64 = 5;

/// Where, at the address of the proxy, its status is told.
pub const STATUS_PLACE: &'static str = ":4400/status";

/// The key of the first peer whose node ID is one.
pub open spec fn first_key_of(peers: Seq<DiscoveredView>) -> Option<Seq<u8>>
    decreases peers.len(),
{
    if peers.len() == 0 {
        None
    } else {
        match node_key_of(peers[0].node_id) {
            Some(key) => Some(key),
            None => first_key_of(peers.drop_first()),
        }
    }
}

/// The request for the status of the proxy.
pub open spec fn status_request_of(tls_enabled: bool, proxy: Seq<char>) -> GetView {
    GetView {
        url: scheme_of(tls_enabled) + "://"@ + proxy + STATUS_PLACE@,
        timeout_secs: PROXY_TIMEOUT_SECS,
    }
}

/// The node ID that a status tells.
pub open spec fn reported_id_of(status: JsonTree) -> Option<Seq<char>> {
    status.member("node_id"@).text()
}

/// The key of the proxy, by its answer to the request for its status.
pub open spec fn reported_key_of(status: u16, body: Seq<u8>) -> Option<Seq<u8>> {
    if !is_success(status) {
        None
    } else {
        match json_document(body) {
            Some(document) => match reported_id_of(document) {
                Some(node_id) => node_key_of(node_id),
                None => None,
            },
            None => None,
        }
    }
}

/// How the proxy is reached: at its address, by the port configured for it or else the one of
/// this node.
pub open spec fn proxy_address_of(config: ConfigView, key: Seq<u8>, ip: IpAddress) -> AddressView {
    AddressView {
        key,
        direct: Some(
            (
                ip,
                match config.wesense_proxy_iroh_port {
                    Some(port) => port,
                    None => config.quic_port,
                },
            ),
        ),
        relays: Seq::empty(),
    }
}

/// The key of the first peer whose node ID is one.
pub fn first_key(peers: &Vec<DiscoveredPeer>) -> (key: Option<[u8; 32]>)
    ensures
        id_bytes(key) == first_key_of(discovered(peers@)),
{
    let ghost all = discovered(peers@);
    assert(all.skip(0) =~= all);
    for i in 0..peers.len()
        invariant
            all == discovered(peers@),
            first_key_of(all) == first_key_of(all.skip(i as int)),
    {
        proof {
            assert(all.skip(i as int)[0] == peers@[i as int]@);
            assert(all.skip(i as int).drop_first() =~= all.skip(i + 1));
        }
        let key: Option<[u8; 32]> = parse_node_key(peers[i].node_id.as_str());
        if key.is_some() {
            return key;
        }
    }
    None
}

/// The request for the status of the proxy.
pub fn status_request(config: &Config, proxy: &str) -> (request: GetRequest)
    ensures
        request@ == status_request_of(config@.tls_enabled, proxy@),
{
    let mut url = scheme(config.tls_enabled);
    url.append("://");
    url.append(proxy);
    url.append(STATUS_PLACE);
    GetRequest { url, timeout_secs: PROXY_TIMEOUT_SECS }
}

/// The node ID that a status tells.
pub fn reported_id(status: &Json) -> (node_id: Option<String>)
    ensures
        optional_text(node_id) == reported_id_of(status.tree()),
{
    text_member(status, "node_id")
}

/// The key of the proxy, by its answer to the request for its status.
pub fn reported_key(status: u16, body: &[u8]) -> (key: Option<[u8; 32]>)
    ensures
        id_bytes(key) == reported_key_of(status, body@),
{
    if !status_is_success(status) {
        return None;
    }
    match parse_json(body) {
        Some(document) => match reported_id(&document) {
            Some(node_id) => parse_node_key(node_id.as_str()),
            None => None,
        },
        None => None,
    }
}

/// How the proxy is reached.
pub fn proxy_address(config: &Config, key: [u8; 32], ip: IpAddress) -> (address: PeerAddress)
    ensures
        address@ == proxy_address_of(config@, key@, ip),
{
    let port: u16 = match config.wesense_proxy_iroh_port {
        Some(port) => port,
        None => config.quic_port,
    };
    let relays: Vec<String> = Vec::new();
    assert(texts(relays@) =~= Seq::empty());
    PeerAddress { key, direct: Some((ip, port)), relays }
}

} // verus!
