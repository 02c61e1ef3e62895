//! What holds of listings, peers and the proxy, said of members, records and addresses.

use vstd::prelude::*;
use vstd::string::*;

use crate::config::ConfigView;
use crate::ids::{node_key_of, relay_url_of};
use crate::json::{json_document, JsonTree};
use crate::laws::registered_nodes_are_found;
use crate::peers::{addresses, assembled, discovered, http_url_of, is_success, known_of, listing_of};
use crate::peers::{listing_view, optional_peer, peer_of, peer_views, peers_of, port_of};
use crate::peers::{reachable_of, record_of, records, relays_of, text_items};
use crate::peers::{AddressView, DiscoveredPeer, DiscoveryError, IpAddress, NodeRecord, Peer};
use crate::peers::{PeerAddress, PeerView, RecordView};
use crate::proxy::{first_key_of, proxy_address_of, reported_key_of, status_request_of};
use crate::registry::node_registration;
use crate::text::decimal;

verus! {

/// Records, addresses and peers are seen field by field, and lists of them one by one.
pub proof fn peers_are_seen(record: NodeRecord, address: PeerAddress, peer: Peer)
    ensures
        record.node_id matches Some(text) ==> record@.node_id == Some(text@),
        record.node_id is None ==> record@.node_id is None,
        record.address matches Some(text) ==> record@.address == Some(text@),
        record.address is None ==> record@.address is None,
        record@.quic_port == record.quic_port,
        record@.http_port == record.http_port,
        record@.relay_urls.len() == record.relay_urls@.len(),
        forall|i: int|
            0 <= i < record.relay_urls@.len() ==> #[trigger] record@.relay_urls[i]
                == record.relay_urls@[i]@,
        address@.key == address.key@,
        address@.direct == address.direct,
        address@.relays.len() == address.relays@.len(),
        forall|i: int|
            0 <= i < address.relays@.len() ==> #[trigger] address@.relays[i]
                == address.relays@[i]@,
        peer@.node_id == peer.node_id@,
        peer.http_url matches Some(text) ==> peer@.http_url == Some(text@),
        peer.http_url is None ==> peer@.http_url is None,
        peer@.address == peer.address@,
        optional_peer(Some(peer)) == Some(peer@),
        optional_peer(None) is None,
{
}

/// Lists are seen whole and in their order.
pub proof fn lists_of_peers_are_seen_whole(
    found: Seq<DiscoveredPeer>,
    list: Seq<PeerAddress>,
    nodes: Seq<NodeRecord>,
    peers: Seq<Peer>,
)
    ensures
        discovered(found).len() == found.len(),
        forall|i: int|
            0 <= i < found.len() ==> (#[trigger] discovered(found)[i]).node_id
                == found[i].node_id@,
        forall|i: int|
            0 <= i < found.len() && found[i].http_url is None ==> (#[trigger] discovered(
                found,
            )[i]).http_url is None,
        forall|i: int|
            0 <= i < found.len() && found[i].http_url is Some ==> (#[trigger] discovered(
                found,
            )[i]).http_url == Some(found[i].http_url->0@),
        addresses(list).len() == list.len(),
        forall|i: int| 0 <= i < list.len() ==> #[trigger] addresses(list)[i] == list[i]@,
        records(nodes).len() == nodes.len(),
        forall|i: int| 0 <= i < nodes.len() ==> #[trigger] records(nodes)[i] == nodes[i]@,
        peer_views(peers).len() == peers.len(),
        forall|i: int| 0 <= i < peers.len() ==> #[trigger] peer_views(peers)[i] == peers[i]@,
{
}

/// What was listed is seen as it is, an error too.
pub proof fn listings_are_seen(nodes: Vec<NodeRecord>, error: DiscoveryError)
    ensures
        listing_view(Ok(nodes)) == Ok::<_, DiscoveryError>(records(nodes@)),
        listing_view(Err(error)) == Err::<Seq<RecordView>, _>(error),
{
}

/// Of an array, the texts are read, all of them and in their order, and nothing else: one item
/// more adds its text, if it is one.
pub proof fn texts_are_read_item_by_item(items: Seq<JsonTree>, item: JsonTree, text: Seq<char>)
    ensures
        text_items(Seq::empty()).len() == 0,
        text_items(items.push(JsonTree::Text(text))) == text_items(items).push(text),
        !(item is Text) ==> text_items(items.push(item)) == text_items(items),
{
    assert(items.push(JsonTree::Text(text)).drop_last() =~= items);
    assert(items.push(item).drop_last() =~= items);
}

/// A record holds what the members of the document say of the node; of the relays, the texts.
pub proof fn records_say_what_the_document_says(node: JsonTree)
    ensures
        record_of(node).node_id == node.member("iroh_node_id"@).text(),
        record_of(node).address == node.member("iroh_address"@).text(),
        record_of(node).quic_port == node.member("iroh_quic_port"@).unsigned(),
        record_of(node).http_port == node.member("archive_replicator_port"@).unsigned(),
        node.member("iroh_relay_urls"@) matches JsonTree::List(items) ==> record_of(node).relay_urls
            == text_items(items),
        !(node.member("iroh_relay_urls"@) is List) ==> record_of(node).relay_urls.len() == 0,
{
}

/// An answer tells of success from 200 to 299, and at no other number.
pub proof fn success_has_its_numbers(status: u16)
    ensures
        is_success(status) <==> 200 <= status && status <= 299,
{
}

/// A listing has exactly as many records as its array `nodes` has items, and each record is what
/// the item at its place says. Where there is no such array, it has none.
pub proof fn listings_are_read_whole(status: u16, body: Seq<u8>, listing: JsonTree)
    requires
        200 <= status <= 299,
        json_document(body) == Some(listing),
    ensures
        listing_of(status, body) is Ok,
        listing.member("nodes"@) matches JsonTree::List(nodes) ==> {
            let list = listing_of(status, body)->Ok_0;
            &&& list.len() == nodes.len()
            &&& forall|i: int| 0 <= i < nodes.len() ==> #[trigger] list[i] == record_of(nodes[i])
        },
        !(listing.member("nodes"@) is List) ==> listing_of(status, body)->Ok_0.len() == 0,
{
}

/// An answer that does not tell of success is refused with its status, whatever it holds; one that
/// does, and is no document, is refused as that.
pub proof fn bad_listings_are_refused(status: u16, body: Seq<u8>)
    ensures
        status < 200 || status > 299 ==> listing_of(status, body) == Err::<Seq<RecordView>, _>(
            DiscoveryError::Status(status),
        ),
        200 <= status <= 299 && json_document(body) is None ==> listing_of(status, body) == Err::<
            Seq<RecordView>,
            _,
        >(DiscoveryError::InvalidJson),
{
}

/// A node whose registration stands anywhere in the array of a listing is among the peers that
/// every other node finds by it, with its own ID and key; and among those that are joined, wherever
/// it gave an address that was read, or a relay.
pub proof fn whoever_is_registered_is_discovered(
    status: u16,
    body: Seq<u8>,
    listing: JsonTree,
    nodes: Seq<JsonTree>,
    at: int,
    config: ConfigView,
    node_id: Seq<char>,
    key: Seq<u8>,
    tls_enabled: bool,
    own_node_id: Seq<char>,
    ips: Seq<Option<IpAddress>>,
)
    requires
        200 <= status <= 299,
        json_document(body) == Some(listing),
        listing.member("nodes"@) == JsonTree::List(nodes),
        0 <= at < nodes.len(),
        nodes[at] == node_registration(config, node_id).body,
        node_key_of(node_id) == Some(key),
        node_id != own_node_id,
    ensures
        ({
            let found = peers_of(tls_enabled, own_node_id, listing_of(status, body)->Ok_0, ips);
            &&& exists|k: int|
                0 <= k < found.len() && (#[trigger] found[k]).node_id == node_id
                    && found[k].address.key == key
            &&& config.wesense_proxy is None && config.announce_address is Some
                && config.announce_address->0.len() > 0 && ips[at] is Some ==> exists|k: int|
                0 <= k < reachable_of(found).len() && (#[trigger] reachable_of(found)[k]).key == key
                    && reachable_of(found)[k].direct == Some((ips[at]->0, config.quic_port))
            &&& relays_of(config.relay_urls).len() > 0 ==> exists|k: int|
                0 <= k < reachable_of(found).len() && (#[trigger] reachable_of(found)[k]).key == key
                    && reachable_of(found)[k].relays == relays_of(config.relay_urls)
        }),
{
    let list = listing_of(status, body)->Ok_0;
    listings_are_read_whole(status, body, listing);
    assert(list[at] == record_of(nodes[at]));
    registered_nodes_are_found(config, node_id, key, tls_enabled, own_node_id, list, ips, at);
    let found = peers_of(tls_enabled, own_node_id, list, ips);
    let address = crate::laws::registered_address(config, key, ips[at]);
    let peer = PeerView {
        node_id,
        http_url: crate::laws::registered_url(config, tls_enabled, ips[at]),
        address,
    };
    let k = choose|k: int| 0 <= k < found.len() && found[k] == peer;
    assert(found[k].node_id == node_id);
    if address.reachable() {
        let k = choose|k: int| 0 <= k < reachable_of(found).len() && reachable_of(found)[k]
            == address;
        assert(reachable_of(found)[k].key == key);
    }
}

/// A port is what was registered, or else the usual one, less all multiples of 65536.
pub proof fn ports_are_cut_to_sixteen_bits(registered: u64, usual: u64)
    ensures
        registered <= 65535 ==> port_of(Some(registered), usual) == registered,
        (registered - port_of(Some(registered), usual)) % 65536 == 0,
        port_of(None, usual) == port_of(Some(usual), usual),
{
}

/// The usual port for HTTP in decimal digits.
proof fn lemma_usual_port()
    ensures
        decimal(4400) == seq!['4', '4', '0', '0'],
{
    reveal_with_fuel(decimal, 5);
    assert(decimal(4400) =~= seq!['4', '4', '0', '0']);
}

/// Whoever registered an address has a URL there, at the HTTP port that was registered or else
/// 4400; an address of sixteen bytes stands in brackets. Who registered none has no URL.
pub proof fn urls_are_made_of_address_and_port(
    tls_enabled: bool,
    record: RecordView,
    ip: Option<IpAddress>,
    address: Seq<char>,
)
    ensures
        record.address is None ==> http_url_of(tls_enabled, record, ip) is None,
        record.address == Some(address) && address.len() == 0 ==> http_url_of(
            tls_enabled,
            record,
            ip,
        ) is None,
        record.address == Some(address) && address.len() > 0 ==> {
            let scheme = if tls_enabled {
                "https"@
            } else {
                "http"@
            };
            let host = if ip matches Some(IpAddress::V6(_)) {
                "["@ + address + "]"@
            } else {
                address
            };
            let port = match record.http_port {
                Some(port) => decimal((port % 65536) as nat),
                None => seq!['4', '4', '0', '0'],
            };
            http_url_of(tls_enabled, record, ip) == Some(scheme + "://"@ + host + ":"@ + port)
        },
{
    lemma_usual_port();
}

/// A record tells of a peer exactly where it has an ID that is not empty, not this node's own, and
/// a key; and the peer has that ID, that key, the URL and all the relays that the record gives.
pub proof fn peers_follow_their_records(
    tls_enabled: bool,
    own_node_id: Seq<char>,
    record: RecordView,
    ip: Option<IpAddress>,
)
    ensures
        peer_of(tls_enabled, own_node_id, record, ip) is Some <==> record.node_id is Some
            && record.node_id->0.len() > 0 && record.node_id->0 != own_node_id && node_key_of(
            record.node_id->0,
        ) is Some,
        peer_of(tls_enabled, own_node_id, record, ip) matches Some(peer) ==> {
            &&& Some(peer.node_id) == record.node_id
            &&& Some(peer.address.key) == node_key_of(peer.node_id)
            &&& peer.http_url == http_url_of(tls_enabled, record, ip)
            &&& peer.address.relays == relays_of(record.relay_urls)
        },
{
}

/// A peer is made of what was read of its record: the key, the address and all the relays, as they
/// were read; without a key there is none.
pub proof fn peers_are_made_of_what_was_read(
    tls_enabled: bool,
    own_node_id: Seq<char>,
    record: RecordView,
    node_id: Seq<char>,
    key: Seq<u8>,
    ip: Option<IpAddress>,
    relays: Seq<Seq<char>>,
)
    requires
        record.node_id == Some(node_id),
        node_id.len() > 0,
        node_id != own_node_id,
    ensures
        assembled(tls_enabled, own_node_id, record, None, ip, relays) is None,
        assembled(tls_enabled, own_node_id, record, Some(key), ip, relays) matches Some(peer)
            && peer.node_id == node_id && peer.address.key == key && peer.address.relays == relays
            && peer.http_url == http_url_of(tls_enabled, record, ip),
        assembled(tls_enabled, node_id, record, Some(key), ip, relays) is None,
{
}

/// A peer answers itself exactly where it registered an address and that was read: there, at the
/// QUIC port that it registered or else 4401.
pub proof fn direct_addresses_follow_their_records(
    tls_enabled: bool,
    own_node_id: Seq<char>,
    record: RecordView,
    ip: IpAddress,
)
    requires
        peer_of(tls_enabled, own_node_id, record, Some(ip)) is Some,
    ensures
        ({
            let direct = peer_of(tls_enabled, own_node_id, record, Some(ip))->0.address.direct;
            &&& record.address is None ==> direct is None
            &&& record.address matches Some(text) ==> (direct is Some <==> text.len() > 0)
            &&& direct matches Some((at, port)) ==> at == ip
            &&& direct matches Some((at, port)) ==> record.quic_port is None ==> port == 4401
            &&& direct matches Some((at, port)) ==> (record.quic_port matches Some(registered)
                ==> registered <= 65535 ==> port == registered)
            &&& direct matches Some((at, port)) ==> (record.quic_port matches Some(registered)
                ==> (registered - port) % 65536 == 0)
        }),
        peer_of(tls_enabled, own_node_id, record, None) is Some,
        peer_of(tls_enabled, own_node_id, record, None)->0.address.direct is None,
{
}

/// Of the relays of a node all are read that are relays, in their order, and nothing else: one text
/// more adds its normal form, if it has one.
pub proof fn relays_are_read_one_by_one(list: Seq<Seq<char>>, text: Seq<char>, url: Seq<char>)
    ensures
        relays_of(Seq::empty()).len() == 0,
        relay_url_of(text) == Some(url) ==> relays_of(list.push(text)) == relays_of(list).push(url),
        relay_url_of(text) is None ==> relays_of(list.push(text)) == relays_of(list),
{
    assert(list.push(text).drop_last() =~= list);
}

/// Of a listing all records are read: one record more adds the peer that it tells of, if it tells
/// of one, after those before, and changes nothing of them.
pub proof fn peers_are_found_one_by_one(
    tls_enabled: bool,
    own_node_id: Seq<char>,
    list: Seq<RecordView>,
    record: RecordView,
    ips: Seq<Option<IpAddress>>,
)
    requires
        ips.len() > list.len(),
    ensures
        peers_of(tls_enabled, own_node_id, Seq::empty(), ips).len() == 0,
        peer_of(tls_enabled, own_node_id, record, ips[list.len() as int]) matches Some(peer)
            ==> peers_of(tls_enabled, own_node_id, list.push(record), ips) == peers_of(
            tls_enabled,
            own_node_id,
            list,
            ips,
        ).push(peer),
        peer_of(tls_enabled, own_node_id, record, ips[list.len() as int]) is None ==> peers_of(
            tls_enabled,
            own_node_id,
            list.push(record),
            ips,
        ) == peers_of(tls_enabled, own_node_id, list, ips),
{
    assert(list.push(record).drop_last() =~= list);
}

/// Every peer that is found is known afterwards, in their order, by its ID and its URL.
pub proof fn found_peers_are_known(peers: Seq<PeerView>)
    ensures
        known_of(peers).len() == peers.len(),
        forall|i: int|
            0 <= i < peers.len() ==> (#[trigger] known_of(peers)[i]).node_id == peers[i].node_id
                && known_of(peers)[i].http_url == peers[i].http_url,
{
}

/// Of the peers all are joined that answer themselves or have a relay, in their order: one peer
/// more adds its address, if it can be reached.
pub proof fn peers_are_joined_one_by_one(peers: Seq<PeerView>, peer: PeerView)
    ensures
        reachable_of(Seq::empty()).len() == 0,
        peer.address.direct is Some || peer.address.relays.len() > 0 ==> reachable_of(
            peers.push(peer),
        ) == reachable_of(peers).push(peer.address),
        peer.address.direct is None && peer.address.relays.len() == 0 ==> reachable_of(
            peers.push(peer),
        ) == reachable_of(peers),
        peer.address.reachable() <==> peer.address.direct is Some || peer.address.relays.len() > 0,
{
    reveal(Seq::filter);
    let none = Seq::<PeerView>::empty();
    assert(none.map_values(|peer: PeerView| peer.address) =~= Seq::<AddressView>::empty());
    let places = peers.map_values(|peer: PeerView| peer.address);
    let more = peers.push(peer).map_values(|peer: PeerView| peer.address);
    assert(more =~= places.push(peer.address));
    assert(more.drop_last() =~= places);
}

/// The key that is taken for the proxy's is that of the first peer whose ID is one.
pub proof fn the_first_key_is_taken(peers: Seq<crate::peers::DiscoveredView>)
    ensures
        forall|i: int|
            0 <= i < peers.len() && node_key_of((#[trigger] peers[i]).node_id) is Some && (forall|
                j: int,
            |
                0 <= j < i ==> node_key_of((#[trigger] peers[j]).node_id) is None) ==> first_key_of(
                peers,
            ) == node_key_of(peers[i].node_id),
        (forall|i: int| 0 <= i < peers.len() ==> node_key_of((#[trigger] peers[i]).node_id) is None)
            ==> first_key_of(peers) is None,
    decreases peers.len(),
{
    if peers.len() > 0 {
        let rest = peers.drop_first();
        the_first_key_is_taken(rest);
        assert forall|i: int|
            0 <= i < peers.len() && node_key_of((#[trigger] peers[i]).node_id) is Some && (forall|
                j: int,
            |
                0 <= j < i ==> node_key_of((#[trigger] peers[j]).node_id)
                    is None) implies first_key_of(peers) == node_key_of(peers[i].node_id) by {
            if i > 0 {
                assert(node_key_of(peers[0].node_id) is None);
                assert(rest[i - 1] == peers[i]);
                assert forall|j: int| 0 <= j < i - 1 implies node_key_of(
                    (#[trigger] rest[j]).node_id,
                ) is None by {
                    assert(rest[j] == peers[j + 1]);
                }
            }
        }
        if forall|i: int| 0 <= i < peers.len() ==> node_key_of((#[trigger] peers[i]).node_id)
            is None {
            assert(node_key_of(peers[0].node_id) is None);
            assert forall|i: int| 0 <= i < rest.len() implies node_key_of(
                (#[trigger] rest[i]).node_id,
            ) is None by {
                assert(rest[i] == peers[i + 1]);
            }
        }
    }
}

/// The status of the proxy is asked for at its address, over TLS exactly where that is enabled.
pub proof fn the_proxy_is_asked_at_its_address(proxy: Seq<char>)
    ensures
        status_request_of(false, proxy).url == "http://"@ + proxy + ":4400/status"@,
        status_request_of(true, proxy).url == "https://"@ + proxy + ":4400/status"@,
        status_request_of(false, proxy).timeout_secs == 5,
        status_request_of(true, proxy).timeout_secs == 5,
{
    reveal_strlit("http");
    reveal_strlit("https");
    reveal_strlit("://");
    reveal_strlit("http://");
    reveal_strlit("https://");
    assert("http"@ + "://"@ =~= "http://"@);
    assert("https"@ + "://"@ =~= "https://"@);
}

/// The proxy tells its key by its member `node_id`, in an answer of success that is a document; by
/// any other answer it tells none.
pub proof fn the_proxy_tells_its_key(status: u16, body: Seq<u8>)
    ensures
        200 <= status <= 299 ==> (json_document(body) matches Some(document) ==> (document.member(
            "node_id"@,
        ) matches JsonTree::Text(node_id) ==> reported_key_of(status, body) == node_key_of(
            node_id,
        ))),
        200 <= status <= 299 ==> (json_document(body) matches Some(document) ==> (!(document.member(
            "node_id"@,
        ) is Text) ==> reported_key_of(status, body) is None)),
        json_document(body) is None ==> reported_key_of(status, body) is None,
        status < 200 || status > 299 ==> reported_key_of(status, body) is None,
{
}

/// The proxy is reached by its key, directly and by no relay, at its address and the port that was
/// configured for it, or else this node's own.
pub proof fn the_proxy_is_reached_directly(config: ConfigView, key: Seq<u8>, ip: IpAddress)
    ensures
        ({
            let address = proxy_address_of(config, key, ip);
            &&& address.key == key
            &&& address.relays.len() == 0
            &&& config.wesense_proxy_iroh_port matches Some(port) ==> address.direct == Some(
                (ip, port),
            )
            &&& config.wesense_proxy_iroh_port is None ==> address.direct == Some(
                (ip, config.quic_port),
            )
        }),
{
}

} // verus!
