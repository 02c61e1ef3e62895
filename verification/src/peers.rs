//! Peers: what the registry says of other nodes, and how they are reached.

use vstd::prelude::*;
use vstd::string::*;

use crate::config::Config;
use crate::http::{scheme, scheme_of};
use crate::ids::{id_bytes, node_key_of, parse_node_key, parse_relay_url, relay_url_of};
use crate::json::{json_document, parse_json, Json, JsonTree};
use crate::text::{decimal, decimal_text, optional_text, same_text, texts};

verus! {

/// The port for QUIC of a node that registered none.
pub const DEFAULT_QUIC_PORT: u64 = 4401;

/// The port for HTTP of a node that registered none.
pub const DEFAULT_HTTP_PORT: u64 = 4400;

/// The address of a machine.
#[derive(Debug, Clone, Copy)]
pub enum IpAddress {
    V4([u8; 4]),
    V6([u8; 16]),
}

/// What is known of a discovered peer.
#[derive(Debug, Clone)]
pub struct DiscoveredPeer {
    pub node_id: String,
    /// Where it answers HTTP, if it registered an address.
    pub http_url: Option<String>,
}

/// The mathematical form of a `DiscoveredPeer`.
pub struct DiscoveredView {
    pub node_id: Seq<char>,
    pub http_url: Option<Seq<char>>,
}

impl View for DiscoveredPeer {
    type V = DiscoveredView;

    open spec fn view(&self) -> DiscoveredView {
        DiscoveredView { node_id: self.node_id@, http_url: optional_text(self.http_url) }
    }
}

/// What the registry says of a node, as far as it is a text, a number or a list of texts.
#[derive(Debug)]
pub struct NodeRecord {
    pub node_id: Option<String>,
    pub address: Option<String>,
    pub quic_port: Option<u64>,
    pub http_port: Option<u64>,
    pub relay_urls: Vec<String>,
}

/// The mathematical form of a `NodeRecord`.
pub struct RecordView {
    pub node_id: Option<Seq<char>>,
    pub address: Option<Seq<char>>,
    pub quic_port: Option<u64>,
    pub http_port: Option<u64>,
    pub relay_urls: Seq<Seq<char>>,
}

impl View for NodeRecord {
    type V = RecordView;

    open spec fn view(&self) -> RecordView {
        RecordView {
            node_id: optional_text(self.node_id),
            address: optional_text(self.address),
            quic_port: self.quic_port,
            http_port: self.http_port,
            relay_urls: texts(self.relay_urls@),
        }
    }
}

/// How a node is reached.
#[derive(Debug)]
pub struct PeerAddress {
    /// The key of the node.
    pub key: [u8; 32],
    /// Where it answers itself.
    pub direct: Option<(IpAddress, u16)>,
    /// The relays that lead to it.
    pub relays: Vec<String>,
}

/// The mathematical form of a `PeerAddress`.
pub struct AddressView {
    pub key: Seq<u8>,
    pub direct: Option<(IpAddress, u16)>,
    pub relays: Seq<Seq<char>>,
}

impl View for PeerAddress {
    type V = AddressView;

    open spec fn view(&self) -> AddressView {
        AddressView { key: self.key@, direct: self.direct, relays: texts(self.relays@) }
    }
}

impl AddressView {
    /// Whether there is any way to reach the node.
    pub open spec fn reachable(self) -> bool {
        self.direct is Some || self.relays.len() > 0
    }
}

/// A peer that a node is to know of.
#[derive(Debug)]
pub struct Peer {
    pub node_id: String,
    pub http_url: Option<String>,
    pub address: PeerAddress,
}

/// The mathematical form of a `Peer`.
pub struct PeerView {
    pub node_id: Seq<char>,
    pub http_url: Option<Seq<char>>,
    pub address: AddressView,
}

impl View for Peer {
    type V = PeerView;

    open spec fn view(&self) -> PeerView {
        PeerView {
            node_id: self.node_id@,
            http_url: optional_text(self.http_url),
            address: self.address@,
        }
    }
}

/// What a discovery found.
#[derive(Debug)]
pub struct Discovery {
    /// The peers.
    pub peers: Vec<DiscoveredPeer>,
    /// Those of them that can be reached, and how.
    pub reachable: Vec<PeerAddress>,
}

/// The mathematical forms of a list of discovered peers.
pub open spec fn discovered(peers: Seq<DiscoveredPeer>) -> Seq<DiscoveredView> {
    peers.map_values(|peer: DiscoveredPeer| peer@)
}

/// The mathematical forms of a list of addresses.
pub open spec fn addresses(list: Seq<PeerAddress>) -> Seq<AddressView> {
    list.map_values(|address: PeerAddress| address@)
}

/// The mathematical forms of a list of records.
pub open spec fn records(list: Seq<NodeRecord>) -> Seq<RecordView> {
    list.map_values(|record: NodeRecord| record@)
}

/// Why the nodes could not be listed.
#[derive(Debug, Clone, Copy, PartialEq, Eq, Structural)]
pub enum DiscoveryError {
    /// The registry answered with this status.
    Status(u16),
    /// The answer is no JSON document.
    InvalidJson,
}

/// Whether an HTTP status tells of success.
pub open spec fn is_success(status: u16) -> bool {
    200 <= status < 300
}

/// Whether an HTTP status tells of success.
pub fn status_is_success(status: u16) -> (success: bool)
    ensures
        success == is_success(status),
{
    200 <= status && status < 300
}

/// The texts among the items of an array, in their order.
pub open spec fn text_items(items: Seq<JsonTree>) -> Seq<Seq<char>>
    decreases items.len(),
{
    if items.len() == 0 {
        Seq::empty()
    } else {
        let front = text_items(items.drop_last());
        match items.last().text() {
            Some(text) => front.push(text),
            None => front,
        }
    }
}

/// The texts in an array; none where it is no array.
pub open spec fn text_array(tree: JsonTree) -> Seq<Seq<char>> {
    match tree.items() {
        Some(items) => text_items(items),
        None => Seq::empty(),
    }
}

/// What a document says of a node.
pub open spec fn record_of(node: JsonTree) -> RecordView {
    RecordView {
        node_id: node.member("iroh_node_id"@).text(),
        address: node.member("iroh_address"@).text(),
        quic_port: node.member("iroh_quic_port"@).unsigned(),
        http_port: node.member("archive_replicator_port"@).unsigned(),
        relay_urls: text_array(node.member("iroh_relay_urls"@)),
    }
}

/// What a listing says of the registered nodes; nothing where it holds no list of them.
pub open spec fn listed_nodes(listing: JsonTree) -> Seq<RecordView> {
    match listing.member("nodes"@).items() {
        Some(nodes) => nodes.map_values(|node: JsonTree| record_of(node)),
        None => Seq::empty(),
    }
}

/// What an answer of the registry says of the registered nodes.
pub open spec fn listing_of(status: u16, body: Seq<u8>) -> Result<
    Seq<RecordView>,
    DiscoveryError,
> {
    if !is_success(status) {
        Err(DiscoveryError::Status(status))
    } else {
        match json_document(body) {
            Some(listing) => Ok(listed_nodes(listing)),
            None => Err(DiscoveryError::InvalidJson),
        }
    }
}

/// The text of a member of an object.
pub fn text_member(json: &Json, key: &str) -> (text: Option<String>)
    ensures
        optional_text(text) == json.tree().member(key@).text(),
{
    match json.member(key) {
        Some(value) => match value.text() {
            Some(text) => Some(text.to_owned()),
            None => None,
        },
        None => None,
    }
}

/// The texts in a member of an object.
fn text_array_member(json: &Json, key: &str) -> (list: Vec<String>)
    ensures
        texts(list@) == text_array(json.tree().member(key@)),
{
    let mut list: Vec<String> = Vec::new();
    assert(texts(list@) =~= Seq::empty());
    let value = match json.member(key) {
        Some(value) => value,
        None => {
            return list;
        },
    };
    match value.items() {
        Some(items) => {
            let ghost trees = Seq::new(items@.len(), |i: int| items@[i].tree());
            assert(trees.take(0) =~= Seq::empty());
            for i in 0..items.len()
                invariant
                    trees == Seq::new(items@.len(), |i: int| items@[i].tree()),
                    texts(list@) == text_items(trees.take(i as int)),
            {
                let ghost before = texts(list@);
                proof {
                    assert(trees.take(i + 1).drop_last() =~= trees.take(i as int));
                    assert(trees.take(i + 1).last() == items@[i as int].tree());
                }
                match items[i].text() {
                    Some(text) => {
                        list.push(text.to_owned());
                        assert(texts(list@) =~= before.push(text@));
                    },
                    None => {},
                }
            }
            assert(trees.take(trees.len() as int) =~= trees);
            list
        },
        None => list,
    }
}

/// The unsigned integer in a member of an object.
fn unsigned_member(json: &Json, key: &str) -> (number: Option<u64>)
    ensures
        number == json.tree().member(key@).unsigned(),
{
    match json.member(key) {
        Some(value) => value.unsigned(),
        None => None,
    }
}

/// Reads what a document says of a node.
pub fn read_node(node: &Json) -> (record: NodeRecord)
    ensures
        record@ == record_of(node.tree()),
{
    NodeRecord {
        node_id: text_member(node, "iroh_node_id"),
        address: text_member(node, "iroh_address"),
        quic_port: unsigned_member(node, "iroh_quic_port"),
        http_port: unsigned_member(node, "archive_replicator_port"),
        relay_urls: text_array_member(node, "iroh_relay_urls"),
    }
}

/// Reads what a listing says of the registered nodes.
pub fn read_listing(listing: &Json) -> (nodes: Vec<NodeRecord>)
    ensures
        records(nodes@) == listed_nodes(listing.tree()),
{
    let mut nodes: Vec<NodeRecord> = Vec::new();
    assert(records(nodes@) =~= Seq::empty());
    let value = match listing.member("nodes") {
        Some(value) => value,
        None => {
            return nodes;
        },
    };
    match value.items() {
        Some(items) => {
            for i in 0..items.len()
                invariant
                    nodes@.len() == i,
                    forall|k: int|
                        0 <= k < i ==> (#[trigger] nodes@[k])@ == record_of(items@[k].tree()),
            {
                nodes.push(read_node(&items[i]));
            }
            assert(records(nodes@) =~= listed_nodes(listing.tree()));
            nodes
        },
        None => nodes,
    }
}

/// The mathematical form of what was listed.
pub open spec fn listing_view(
    listing: Result<Vec<NodeRecord>, DiscoveryError>,
) -> Result<Seq<RecordView>, DiscoveryError> {
    match listing {
        Ok(nodes) => Ok(records(nodes@)),
        Err(error) => Err(error),
    }
}

/// Reads an answer of the registry.
pub fn decode_listing(status: u16, body: &[u8]) -> (listing: Result<
    Vec<NodeRecord>,
    DiscoveryError,
>)
    ensures
        listing_view(listing) == listing_of(status, body@),
{
    if !status_is_success(status) {
        return Err(DiscoveryError::Status(status));
    }
    match parse_json(body) {
        Some(listing) => Ok(read_listing(&listing)),
        None => Err(DiscoveryError::InvalidJson),
    }
}

/// A port that was registered, or else the usual one, cut to sixteen bits.
pub open spec fn port_of(registered: Option<u64>, usual: u64) -> u16 {
    let port = match registered {
        Some(port) => port,
        None => usual,
    };
    (port % 65536) as u16
}

/// An address as it stands in a URL: one of sixteen bytes, in brackets.
pub open spec fn host_of(address: Seq<char>, ip: Option<IpAddress>) -> Seq<char> {
    match ip {
        Some(IpAddress::V6(_)) => "["@ + address + "]"@,
        _ => address,
    }
}

/// Where a node answers HTTP, given the address that its own text stands for: at the address and
/// the port that it registered.
pub open spec fn http_url_of(
    tls_enabled: bool,
    record: RecordView,
    ip: Option<IpAddress>,
) -> Option<Seq<char>> {
    if record.address is Some && record.address->0.len() > 0 {
        Some(
            scheme_of(tls_enabled) + "://"@ + host_of(record.address->0, ip) + ":"@ + decimal(
                port_of(record.http_port, DEFAULT_HTTP_PORT) as nat,
            ),
        )
    } else {
        None
    }
}

/// The node ID of a record that may be a peer: there is one, and it is not this node's.
pub open spec fn candidate_of(own_node_id: Seq<char>, record: RecordView) -> Option<Seq<char>> {
    match record.node_id {
        Some(node_id) => if node_id.len() > 0 && node_id != own_node_id {
            Some(node_id)
        } else {
            None
        },
        None => None,
    }
}

/// Where a node answers itself, given the address that its own text stands for.
pub open spec fn direct_of(record: RecordView, ip: Option<IpAddress>) -> Option<
    (IpAddress, u16),
> {
    if record.address is Some && record.address->0.len() > 0 && ip is Some {
        Some((ip->0, port_of(record.quic_port, DEFAULT_QUIC_PORT)))
    } else {
        None
    }
}

/// The normal forms of those texts that are relay addresses, in their order.
pub open spec fn relays_of(list: Seq<Seq<char>>) -> Seq<Seq<char>>
    decreases list.len(),
{
    if list.len() == 0 {
        Seq::empty()
    } else {
        let front = relays_of(list.drop_last());
        match relay_url_of(list.last()) {
            Some(url) => front.push(url),
            None => front,
        }
    }
}

/// The peer that a record tells of, given what its texts stand for.
pub open spec fn assembled(
    tls_enabled: bool,
    own_node_id: Seq<char>,
    record: RecordView,
    key: Option<Seq<u8>>,
    ip: Option<IpAddress>,
    relays: Seq<Seq<char>>,
) -> Option<PeerView> {
    match candidate_of(own_node_id, record) {
        Some(node_id) => match key {
            Some(key) => Some(
                PeerView {
                    node_id,
                    http_url: http_url_of(tls_enabled, record, ip),
                    address: AddressView { key, direct: direct_of(record, ip), relays },
                },
            ),
            None => None,
        },
        None => None,
    }
}

/// The peer that a record tells of, given the address that its text stands for.
pub open spec fn peer_of(
    tls_enabled: bool,
    own_node_id: Seq<char>,
    record: RecordView,
    ip: Option<IpAddress>,
) -> Option<PeerView> {
    let key = match record.node_id {
        Some(node_id) => node_key_of(node_id),
        None => None,
    };
    assembled(tls_enabled, own_node_id, record, key, ip, relays_of(record.relay_urls))
}

/// The peers that a listing tells of, in its order.
pub open spec fn peers_of(
    tls_enabled: bool,
    own_node_id: Seq<char>,
    list: Seq<RecordView>,
    ips: Seq<Option<IpAddress>>,
) -> Seq<PeerView>
    decreases list.len(),
{
    if list.len() == 0 {
        Seq::empty()
    } else {
        let front = peers_of(tls_enabled, own_node_id, list.drop_last(), ips);
        match peer_of(tls_enabled, own_node_id, list.last(), ips[list.len() - 1]) {
            Some(peer) => front.push(peer),
            None => front,
        }
    }
}

/// What is to be known of some peers.
pub open spec fn known_of(peers: Seq<PeerView>) -> Seq<DiscoveredView> {
    peers.map_values(
        |peer: PeerView| DiscoveredView { node_id: peer.node_id, http_url: peer.http_url },
    )
}

/// The addresses of those peers that can be reached.
pub open spec fn reachable_of(peers: Seq<PeerView>) -> Seq<AddressView> {
    peers.map_values(|peer: PeerView| peer.address).filter(
        |address: AddressView| address.reachable(),
    )
}

/// The mathematical form of a list of peers.
pub open spec fn peer_views(list: Seq<Peer>) -> Seq<PeerView> {
    list.map_values(|peer: Peer| peer@)
}

/// The mathematical form of an optional peer.
pub open spec fn optional_peer(peer: Option<Peer>) -> Option<PeerView> {
    match peer {
        Some(peer) => Some(peer@),
        None => None,
    }
}

/// Whether a record may tell of a peer.
fn is_candidate(own_node_id: &str, record: &NodeRecord) -> (candidate: bool)
    ensures
        candidate == (candidate_of(own_node_id@, record@) is Some),
{
    match &record.node_id {
        Some(node_id) => !node_id.as_str().is_empty() && !same_text(
            node_id.as_str(),
            own_node_id,
        ),
        None => false,
    }
}

/// A port that was registered, or else the usual one.
fn port(registered: Option<u64>, usual: u64) -> (port: u16)
    ensures
        port == port_of(registered, usual),
{
    let port: u64 = match registered {
        Some(port) => port,
        None => usual,
    };
    assert(port as u16 == (port % 65536) as u16) by (bit_vector);
    #[verifier::truncate]
    let cut: u16 = port as u16;
    cut
}

/// Where a node answers HTTP, given the address that its own text stands for.
pub fn http_url(tls_enabled: bool, record: &NodeRecord, ip: Option<IpAddress>) -> (url: Option<
    String,
>)
    ensures
        optional_text(url) == http_url_of(tls_enabled, record@, ip),
{
    match &record.address {
        Some(address) => {
            if address.as_str().is_empty() {
                return None;
            }
            let mut url = scheme(tls_enabled);
            url.append("://");
            match ip {
                Some(IpAddress::V6(_)) => {
                    url.append("[");
                    url.append(address.as_str());
                    url.append("]");
                },
                _ => {
                    url.append(address.as_str());
                },
            }
            url.append(":");
            url.append(decimal_text(port(record.http_port, DEFAULT_HTTP_PORT) as u64).as_str());
            assert(url@ =~= http_url_of(tls_enabled, record@, ip)->0);
            Some(url)
        },
        None => None,
    }
}

/// The peer that a record tells of, given what its texts stand for: the key, the address and the
/// relays.
pub fn assemble(
    tls_enabled: bool,
    own_node_id: &str,
    record: &NodeRecord,
    key: Option<[u8; 32]>,
    ip: Option<IpAddress>,
    relays: Vec<String>,
) -> (peer: Option<Peer>)
    ensures
        optional_peer(peer) == assembled(
            tls_enabled,
            own_node_id@,
            record@,
            id_bytes(key),
            ip,
            texts(relays@),
        ),
{
    if !is_candidate(own_node_id, record) {
        return None;
    }
    let node_id = match &record.node_id {
        Some(node_id) => node_id.clone(),
        None => {
            return None;
        },
    };
    let has_address: bool = match &record.address {
        Some(address) => !address.as_str().is_empty(),
        None => false,
    };
    let direct: Option<(IpAddress, u16)> = match ip {
        Some(ip) => if has_address {
            Some((ip, port(record.quic_port, DEFAULT_QUIC_PORT)))
        } else {
            None
        },
        None => None,
    };
    match key {
        Some(key) => Some(
            Peer {
                node_id,
                http_url: http_url(tls_enabled, record, ip),
                address: PeerAddress { key, direct, relays },
            },
        ),
        None => None,
    }
}

/// Reads relay addresses, and leaves out what is none.
pub fn read_relays(list: &Vec<String>) -> (relays: Vec<String>)
    ensures
        texts(relays@) == relays_of(texts(list@)),
{
    let mut relays: Vec<String> = Vec::new();
    assert(texts(relays@) =~= Seq::empty());
    assert(texts(list@).take(0) =~= Seq::empty());
    for i in 0..list.len()
        invariant
            texts(relays@) == relays_of(texts(list@).take(i as int)),
    {
        let ghost before = texts(relays@);
        proof {
            assert(texts(list@).take(i + 1).drop_last() =~= texts(list@).take(i as int));
            assert(texts(list@).take(i + 1).last() == list@[i as int]@);
        }
        match parse_relay_url(list[i].as_str()) {
            Some(url) => {
                relays.push(url);
                assert(texts(relays@) =~= before.push(url@));
            },
            None => {},
        }
    }
    assert(texts(list@).take(list@.len() as int) =~= texts(list@));
    relays
}

/// The peer that a record tells of, given the address that its text stands for.
pub fn read_peer(
    tls_enabled: bool,
    own_node_id: &str,
    record: &NodeRecord,
    ip: Option<IpAddress>,
) -> (peer: Option<Peer>)
    ensures
        optional_peer(peer) == peer_of(tls_enabled, own_node_id@, record@, ip),
{
    if !is_candidate(own_node_id, record) {
        return None;
    }
    let key: Option<[u8; 32]> = match &record.node_id {
        Some(node_id) => parse_node_key(node_id.as_str()),
        None => None,
    };
    assemble(tls_enabled, own_node_id, record, key, ip, read_relays(&record.relay_urls))
}

/// Lists some peers, and those of them that can be reached.
pub fn discovery_of(found: Vec<Peer>) -> (discovery: Discovery)
    ensures
        discovered(discovery.peers@) == known_of(peer_views(found@)),
        addresses(discovery.reachable@) == reachable_of(peer_views(found@)),
{
    let mut peers: Vec<DiscoveredPeer> = Vec::new();
    let mut reachable: Vec<PeerAddress> = Vec::new();
    let ghost all = peer_views(found@);
    let ghost places = all.map_values(|peer: PeerView| peer.address);
    let ghost wanted = |address: AddressView| address.reachable();
    proof {
        reveal(Seq::filter);
        assert(discovered(peers@) =~= known_of(all).take(0));
        assert(places.take(0) =~= Seq::empty());
        assert(addresses(reachable@) =~= places.take(0).filter(wanted));
    }
    for peer in it: found.into_iter()
        invariant
            it.seq() == found@,
            all == peer_views(found@),
            places == all.map_values(|peer: PeerView| peer.address),
            wanted == (|address: AddressView| address.reachable()),
            discovered(peers@) == known_of(all).take(it.index() as int),
            addresses(reachable@) == places.take(it.index() as int).filter(wanted),
    {
        let ghost at = it.index() as int;
        let ghost peers_before = discovered(peers@);
        let ghost reachable_before = addresses(reachable@);
        proof {
            reveal(Seq::filter);
            assert(all[at] == peer@);
            assert(known_of(all).take(at + 1) =~= known_of(all).take(at).push(
                DiscoveredView { node_id: peer.node_id@, http_url: optional_text(peer.http_url) },
            ));
            assert(places.take(at + 1).drop_last() =~= places.take(at));
            assert(places.take(at + 1).last() == peer.address@);
        }
        let can_reach: bool = peer.address.direct.is_some() || peer.address.relays.len() > 0;
        let known = DiscoveredPeer { node_id: peer.node_id, http_url: peer.http_url };
        peers.push(known);
        assert(discovered(peers@) =~= peers_before.push(known@));
        if can_reach {
            reachable.push(peer.address);
            assert(addresses(reachable@) =~= reachable_before.push(peer.address@));
        }
    }
    proof {
        assert(known_of(all).take(all.len() as int) =~= known_of(all));
        assert(places.take(places.len() as int) =~= places);
    }
    Discovery { peers, reachable }
}

/// The peers that a listing tells of. `ips` holds, for each record, the address that its text
/// stands for.
pub fn discover_peers(
    config: &Config,
    own_node_id: &str,
    list: &Vec<NodeRecord>,
    ips: &Vec<Option<IpAddress>>,
) -> (discovery: Discovery)
    requires
        ips@.len() == list@.len(),
    ensures
        discovered(discovery.peers@) == known_of(
            peers_of(config@.tls_enabled, own_node_id@, records(list@), ips@),
        ),
        addresses(discovery.reachable@) == reachable_of(
            peers_of(config@.tls_enabled, own_node_id@, records(list@), ips@),
        ),
{
    let mut found: Vec<Peer> = Vec::new();
    let ghost all = records(list@);
    assert(all.take(0) =~= Seq::empty());
    assert(peer_views(found@) =~= Seq::empty());
    for i in 0..list.len()
        invariant
            ips@.len() == list@.len(),
            all == records(list@),
            peer_views(found@) == peers_of(
                config@.tls_enabled,
                own_node_id@,
                all.take(i as int),
                ips@,
            ),
    {
        let ghost before = peer_views(found@);
        proof {
            assert(all.take(i + 1).drop_last() =~= all.take(i as int));
            assert(all.take(i + 1).last() == list@[i as int]@);
        }
        match read_peer(config.tls_enabled, own_node_id, &list[i], ips[i]) {
            Some(peer) => {
                found.push(peer);
                assert(peer_views(found@) =~= before.push(peer@));
            },
            None => {},
        }
    }
    assert(all.take(all.len() as int) =~= all);
    discovery_of(found)
}

} // verus!
