use archive_replicator::config::{Config, ScopePattern};
use archive_replicator::discovery::{
    DiscoveryAction, DiscoveryEvent, DiscoveryLoop, BACKOFF_SECS, REGISTRATION_ATTEMPTS,
    ROUND_SECS,
};
use archive_replicator::http::{http_settings, neighbour, FilePlace, CA_FILE};
use archive_replicator::json::Json;
use archive_replicator::peers::{
    assemble, decode_listing, discover_peers, http_url, read_node, read_relays, status_is_success,
    DiscoveredPeer, DiscoveryError, IpAddress, NodeRecord, PeerAddress,
};
use archive_replicator::proxy::{first_key, proxy_address, reported_key, status_request};
use archive_replicator::registry::{
    list_nodes, register_guardian_scope, register_node, GetRequest, PutRequest,
};

fn key(seed: u8) -> [u8; 32] {
    *iroh::SecretKey::from_bytes(&[seed; 32]).public().as_bytes()
}

fn key_text(seed: u8) -> String {
    iroh::SecretKey::from_bytes(&[seed; 32]).public().to_string()
}

fn config() -> Config {
    Config {
        orbitdb_url: "http://registry:5200".to_string(),
        quic_port: 4401,
        port: 4400,
        announce_address: Some("203.0.113.7".to_string()),
        relay_urls: vec!["https://relay.example.com".to_string()],
        guardian_scope: vec![
            ScopePattern { country: "nz".to_string(), subdivision: "wgn".to_string() },
            ScopePattern { country: "*".to_string(), subdivision: "*".to_string() },
        ],
        wesense_proxy: None,
        wesense_proxy_iroh_port: None,
        tls_enabled: false,
        tls_certfile: None,
    }
}

fn proxied() -> Config {
    Config { wesense_proxy: Some("192.168.1.2".to_string()), ..config() }
}

const V4: IpAddress = IpAddress::V4([192, 168, 1, 2]);

fn is_v4(ip: &IpAddress) -> bool {
    matches!(ip, IpAddress::V4([192, 168, 1, 2]))
}

fn text_of<'a>(json: &'a Json, name: &str) -> Option<&'a str> {
    json.member(name).and_then(|value| value.text())
}

fn texts_of(json: &Json, name: &str) -> Vec<String> {
    match json.member(name).and_then(|value| value.items()) {
        Some(items) => items.iter().map(|item| item.text().unwrap().to_string()).collect(),
        None => Vec::new(),
    }
}

fn record(node_id: Option<String>) -> NodeRecord {
    NodeRecord { node_id, address: None, quic_port: None, http_port: None, relay_urls: Vec::new() }
}

fn put(action: DiscoveryAction) -> PutRequest {
    match action {
        DiscoveryAction::Put(request) => request,
        other => panic!("not put: {:?}", other),
    }
}

fn get(action: DiscoveryAction) -> GetRequest {
    match action {
        DiscoveryAction::Get(request) => request,
        other => panic!("not got: {:?}", other),
    }
}

fn resolve(action: DiscoveryAction) -> Vec<Option<String>> {
    match action {
        DiscoveryAction::Resolve(texts) => texts,
        other => panic!("not resolved: {:?}", other),
    }
}

fn connect(action: DiscoveryAction) -> Vec<PeerAddress> {
    match action {
        DiscoveryAction::Connect(peers) => peers,
        other => panic!("not connected: {:?}", other),
    }
}

fn answer(status: u16, body: &str) -> DiscoveryEvent {
    DiscoveryEvent::Answered { status, body: body.as_bytes().to_vec() }
}

fn waiting(config: Config) -> DiscoveryLoop {
    let mut discovery = DiscoveryLoop::new(config, key_text(9));
    put(discovery.step(DiscoveryEvent::Started));
    assert!(matches!(discovery.step(answer(200, "")), DiscoveryAction::AwaitTick(60)));
    discovery
}

fn listing(config: Config) -> DiscoveryLoop {
    let mut discovery = waiting(config);
    put(discovery.step(DiscoveryEvent::Ticked));
    assert!(matches!(discovery.step(answer(200, "")), DiscoveryAction::CountBlobs));
    put(discovery.step(DiscoveryEvent::Counted(3)));
    get(discovery.step(answer(200, "")));
    discovery
}

fn peer_list() -> String {
    format!(
        r#"{{"nodes": [
            {{"iroh_node_id": "{}", "iroh_address": "192.168.1.2", "iroh_quic_port": 65537}},
            {{"iroh_node_id": "{}", "iroh_address": "ignored"}},
            {{"iroh_node_id": "{}"}},
            {{"iroh_node_id": "no key", "iroh_address": "192.168.1.2"}},
            {{"iroh_node_id": ""}},
            {{"other": 1}},
            {{"iroh_node_id": "{}", "iroh_relay_urls": ["https://r.example", 7, "none"]}}
        ]}}"#,
        key_text(1),
        key_text(9),
        key_text(2),
        key_text(3)
    )
}

#[test]
fn nodes_register_what_they_are() {
    let id = key_text(9);
    let request = register_node(&config(), &id);
    assert_eq!(
        request.url,
        format!("http://registry:5200/nodes/archive-replicator-{}", &id[..16])
    );
    assert_eq!(request.timeout_secs, 10);
    let body = &request.body;
    assert_eq!(text_of(body, "iroh_node_id"), Some(id.as_str()));
    assert_eq!(body.member("iroh_quic_port").unwrap().unsigned(), Some(4401));
    assert_eq!(body.member("archive_replicator_port").unwrap().unsigned(), Some(4400));
    assert_eq!(text_of(body, "type"), Some("archive-replicator"));
    assert_eq!(text_of(body, "iroh_address"), Some("203.0.113.7"));
    assert_eq!(texts_of(body, "iroh_relay_urls"), vec!["https://relay.example.com"]);
}

#[test]
fn short_node_ids_are_kept_whole() {
    let request = register_node(&config(), "tiny");
    assert_eq!(request.url, "http://registry:5200/nodes/archive-replicator-tiny");
}

#[test]
fn nodes_behind_a_proxy_keep_their_address_to_themselves() {
    let request = register_node(&proxied(), &key_text(9));
    assert!(request.body.member("iroh_address").is_none());
    assert_eq!(texts_of(&request.body, "iroh_relay_urls").len(), 1);
}

#[test]
fn what_a_node_has_not_is_not_registered() {
    let bare = Config { announce_address: None, relay_urls: Vec::new(), ..config() };
    let request = register_node(&bare, &key_text(9));
    assert!(request.body.member("iroh_address").is_none());
    assert!(request.body.member("iroh_relay_urls").is_none());
}

#[test]
fn guardians_register_their_scope() {
    let id = key_text(9);
    let request = register_guardian_scope(&config(), &id, 12);
    assert_eq!(
        request.url,
        format!("http://registry:5200/stores/archive-replicator-{}", &id[..16])
    );
    assert_eq!(request.timeout_secs, 10);
    assert_eq!(texts_of(&request.body, "guardian_scope"), vec!["nz/wgn", "*/*"]);
    assert_eq!(request.body.member("blob_count").unwrap().unsigned(), Some(12));
    assert_eq!(text_of(&request.body, "iroh_node_id"), Some(id.as_str()));
    assert_eq!(text_of(&request.body, "type"), Some("archive-replicator"));
}

#[test]
fn nodes_are_listed() {
    let request = list_nodes(&config());
    assert_eq!(request.url, "http://registry:5200/nodes");
    assert_eq!(request.timeout_secs, 10);
}

#[test]
fn registrations_read_back() {
    let record = read_node(&register_node(&config(), &key_text(9)).body);
    assert_eq!(record.node_id, Some(key_text(9)));
    assert_eq!(record.address, Some("203.0.113.7".to_string()));
    assert_eq!(record.quic_port, Some(4401));
    assert_eq!(record.http_port, Some(4400));
    assert_eq!(record.relay_urls, vec!["https://relay.example.com".to_string()]);
    let hidden = read_node(&register_node(&proxied(), &key_text(9)).body);
    assert_eq!(hidden.address, None);
}

#[test]
fn registered_nodes_are_found_by_others() {
    let list = vec![read_node(&register_node(&config(), &key_text(1)).body)];
    let found = discover_peers(&config(), &key_text(9), &list, &vec![Some(V4)]);
    assert_eq!(found.peers.len(), 1);
    assert_eq!(found.peers[0].node_id, key_text(1));
    assert_eq!(found.peers[0].http_url, Some("http://203.0.113.7:4400".to_string()));
    assert_eq!(found.reachable[0].key, key(1));
    assert!(matches!(&found.reachable[0].direct, Some((ip, 4401)) if is_v4(ip)));
    assert_eq!(found.reachable[0].relays, vec!["https://relay.example.com/".to_string()]);
    let alone = discover_peers(&config(), &key_text(1), &list, &vec![Some(V4)]);
    assert!(alone.peers.is_empty());
    assert!(alone.reachable.is_empty());
}

#[test]
fn success_is_two_hundred_and_on() {
    assert!(!status_is_success(199));
    assert!(status_is_success(200));
    assert!(status_is_success(299));
    assert!(!status_is_success(300));
    assert!(!status_is_success(0));
}

#[test]
fn listings_are_decoded() {
    let list = decode_listing(200, peer_list().as_bytes()).unwrap();
    assert_eq!(list.len(), 7);
    assert_eq!(list[0].node_id, Some(key_text(1)));
    assert_eq!(list[0].quic_port, Some(65537));
    assert_eq!(list[5].node_id, None);
    assert_eq!(list[6].relay_urls, vec!["https://r.example".to_string(), "none".to_string()]);
    assert_eq!(decode_listing(200, b"{}").unwrap().len(), 0);
    assert_eq!(decode_listing(200, br#"{"nodes": 1}"#).unwrap().len(), 0);
    assert_eq!(decode_listing(200, b"[]").unwrap().len(), 0);
}

#[test]
fn bad_listings_are_refused() {
    assert!(matches!(decode_listing(503, b"{}"), Err(DiscoveryError::Status(503))));
    assert!(matches!(decode_listing(404, b"no json"), Err(DiscoveryError::Status(404))));
    assert!(matches!(decode_listing(200, b"no json"), Err(DiscoveryError::InvalidJson)));
}

#[test]
fn peers_are_other_nodes_with_keys() {
    let list = decode_listing(200, peer_list().as_bytes()).unwrap();
    let ips = vec![Some(V4), None, None, Some(V4), None, None, Some(V4)];
    let found = discover_peers(&config(), &key_text(9), &list, &ips);
    let ids: Vec<&str> = found.peers.iter().map(|peer| peer.node_id.as_str()).collect();
    assert_eq!(ids, vec![key_text(1), key_text(2), key_text(3)]);
    // The second peer cannot be reached.
    assert_eq!(found.reachable.len(), 2);
    assert_eq!(found.reachable[0].key, key(1));
    // The port is cut to sixteen bits.
    assert!(matches!(&found.reachable[0].direct, Some((ip, 1)) if is_v4(ip)));
    assert!(found.reachable[0].relays.is_empty());
    // Without an address there is no place, whatever stands for it.
    assert_eq!(found.reachable[1].key, key(3));
    assert!(found.reachable[1].direct.is_none());
    assert_eq!(found.reachable[1].relays, vec!["https://r.example/".to_string()]);
}

#[test]
fn peers_are_assembled_of_what_was_read() {
    let mut node = record(Some("id".to_string()));
    node.address = Some("somewhere".to_string());
    let peer = assemble(false, "own", &node, Some([5u8; 32]), Some(V4), vec!["r".to_string()]).unwrap();
    assert_eq!(peer.node_id, "id");
    assert_eq!(peer.address.key, [5u8; 32]);
    // Nodes that register no port answer at the usual one.
    assert!(matches!(&peer.address.direct, Some((ip, 4401)) if is_v4(ip)));
    assert_eq!(peer.address.relays, vec!["r".to_string()]);
    assert!(assemble(false, "own", &node, None, Some(V4), Vec::new()).is_none());
    assert!(assemble(false, "id", &node, Some([5u8; 32]), Some(V4), Vec::new()).is_none());
    node.address = Some(String::new());
    let hidden = assemble(false, "own", &node, Some([5u8; 32]), Some(V4), Vec::new()).unwrap();
    assert!(hidden.address.direct.is_none());
    assert!(assemble(false, "own", &record(None), Some([5u8; 32]), None, Vec::new()).is_none());
    let empty = record(Some(String::new()));
    assert!(assemble(false, "own", &empty, Some([5u8; 32]), None, Vec::new()).is_none());
}

#[test]
fn relays_that_are_none_are_left_out() {
    let list = vec!["https://a.example".to_string(), "none".to_string(), String::new()];
    assert_eq!(read_relays(&list), vec!["https://a.example/".to_string()]);
}

#[test]
fn the_first_key_among_peers_is_taken() {
    let peers = vec![
        DiscoveredPeer { node_id: "none".to_string(), http_url: None },
        DiscoveredPeer { node_id: key_text(4), http_url: None },
        DiscoveredPeer { node_id: key_text(5), http_url: None },
    ];
    assert_eq!(first_key(&peers), Some(key(4)));
    assert_eq!(first_key(&Vec::new()), None);
}

#[test]
fn the_status_of_the_proxy_is_asked_for() {
    let request = status_request(&config(), "192.168.1.2");
    assert_eq!(request.url, "http://192.168.1.2:4400/status");
    assert_eq!(request.timeout_secs, 5);
    let secure = Config { tls_enabled: true, ..config() };
    assert_eq!(status_request(&secure, "10.0.0.1").url, "https://10.0.0.1:4400/status");
}

#[test]
fn the_status_of_the_proxy_tells_its_key() {
    let body = format!(r#"{{"node_id": "{}"}}"#, key_text(6));
    assert_eq!(reported_key(200, body.as_bytes()), Some(key(6)));
    assert_eq!(reported_key(500, body.as_bytes()), None);
    assert_eq!(reported_key(200, b"{}"), None);
    assert_eq!(reported_key(200, br#"{"node_id": "none"}"#), None);
    assert_eq!(reported_key(200, b"no json"), None);
}

#[test]
fn the_proxy_has_a_port_of_its_own_or_ours() {
    let address = proxy_address(&proxied(), key(6), V4);
    assert_eq!(address.key, key(6));
    assert!(matches!(&address.direct, Some((ip, 4401)) if is_v4(ip)));
    assert!(address.relays.is_empty());
    let other = Config { wesense_proxy_iroh_port: Some(5500), ..proxied() };
    assert!(matches!(proxy_address(&other, key(6), V4).direct, Some((_, 5500))));
}

#[test]
fn registration_is_tried_five_times() {
    assert_eq!(REGISTRATION_ATTEMPTS, 5);
    assert_eq!(BACKOFF_SECS, 5);
    assert_eq!(ROUND_SECS, 60);
    let mut discovery = DiscoveryLoop::new(config(), key_text(9));
    let mut request = put(discovery.step(DiscoveryEvent::Started));
    for secs in [5u64, 10, 15, 20] {
        assert!(request.url.contains("/nodes/"));
        match discovery.step(DiscoveryEvent::Unanswered) {
            DiscoveryAction::Sleep(wait) => assert_eq!(wait, secs),
            other => panic!("no wait: {:?}", other),
        }
        request = put(discovery.step(DiscoveryEvent::Slept));
    }
    assert!(matches!(discovery.step(DiscoveryEvent::Unanswered), DiscoveryAction::AwaitTick(60)));
}

#[test]
fn any_answer_ends_the_first_registration() {
    let mut discovery = DiscoveryLoop::new(config(), key_text(9));
    put(discovery.step(DiscoveryEvent::Started));
    assert!(matches!(discovery.step(answer(500, "")), DiscoveryAction::AwaitTick(60)));
}

#[test]
fn a_round_goes_on_whatever_is_answered() {
    let mut discovery = waiting(config());
    assert!(put(discovery.step(DiscoveryEvent::Ticked)).url.contains("/nodes/"));
    assert!(matches!(discovery.step(DiscoveryEvent::Unanswered), DiscoveryAction::CountBlobs));
    let guardian = put(discovery.step(DiscoveryEvent::Counted(3)));
    assert!(guardian.url.contains("/stores/"));
    assert_eq!(guardian.body.member("blob_count").unwrap().unsigned(), Some(3));
    let list = get(discovery.step(DiscoveryEvent::Unanswered));
    assert_eq!(list.url, "http://registry:5200/nodes");
    assert!(matches!(discovery.step(DiscoveryEvent::Unanswered), DiscoveryAction::AwaitTick(60)));
}

#[test]
fn a_round_finds_and_joins_peers() {
    let mut discovery = listing(config());
    let texts = resolve(discovery.step(answer(200, &peer_list())));
    assert_eq!(texts.len(), 7);
    assert_eq!(texts[0], Some("192.168.1.2".to_string()));
    assert_eq!(texts[2], None);
    let ips = vec![Some(V4), None, None, Some(V4), None, None, None];
    let joined = connect(discovery.step(DiscoveryEvent::Resolved(ips)));
    assert_eq!(joined.len(), 2);
    assert!(discovery.peers().is_empty());
    assert!(matches!(discovery.step(DiscoveryEvent::Connected), DiscoveryAction::AwaitTick(60)));
    assert_eq!(discovery.peers().len(), 3);
    // The next round begins like the first.
    put(discovery.step(DiscoveryEvent::Ticked));
}

#[test]
fn peers_out_of_reach_are_known_but_not_joined() {
    let mut discovery = listing(config());
    let body = format!(r#"{{"nodes": [{{"iroh_node_id": "{}"}}]}}"#, key_text(2));
    resolve(discovery.step(answer(200, &body)));
    let action = discovery.step(DiscoveryEvent::Resolved(vec![None]));
    assert!(matches!(action, DiscoveryAction::AwaitTick(60)));
    assert_eq!(discovery.peers()[0].node_id, key_text(2));
}

#[test]
fn failed_listings_keep_the_peers() {
    let mut discovery = listing(config());
    let body = format!(r#"{{"nodes": [{{"iroh_node_id": "{}"}}]}}"#, key_text(2));
    resolve(discovery.step(answer(200, &body)));
    discovery.step(DiscoveryEvent::Resolved(vec![None]));
    for bad in [answer(500, ""), answer(200, "no json"), DiscoveryEvent::Unanswered] {
        put(discovery.step(DiscoveryEvent::Ticked));
        discovery.step(answer(200, ""));
        put(discovery.step(DiscoveryEvent::Counted(0)));
        get(discovery.step(answer(200, "")));
        assert!(matches!(discovery.step(bad), DiscoveryAction::AwaitTick(60)));
        assert_eq!(discovery.peers().len(), 1);
    }
    put(discovery.step(DiscoveryEvent::Ticked));
    discovery.step(answer(200, ""));
    put(discovery.step(DiscoveryEvent::Counted(0)));
    get(discovery.step(answer(200, "")));
    resolve(discovery.step(answer(200, "{}")));
    discovery.step(DiscoveryEvent::Resolved(Vec::new()));
    assert!(discovery.peers().is_empty());
}

#[test]
fn a_known_proxy_is_joined_without_asking() {
    let mut discovery = listing(proxied());
    let body = format!(r#"{{"nodes": [{{"iroh_node_id": "{}"}}]}}"#, key_text(2));
    resolve(discovery.step(answer(200, &body)));
    let texts = resolve(discovery.step(DiscoveryEvent::Resolved(vec![None])));
    assert_eq!(texts, vec![Some("192.168.1.2".to_string())]);
    let joined = connect(discovery.step(DiscoveryEvent::Resolved(vec![Some(V4)])));
    assert_eq!(joined.len(), 1);
    assert_eq!(joined[0].key, key(2));
    assert!(matches!(&joined[0].direct, Some((ip, 4401)) if is_v4(ip)));
    assert!(matches!(discovery.step(DiscoveryEvent::Connected), DiscoveryAction::AwaitTick(60)));
}

#[test]
fn an_unknown_proxy_is_asked_who_it_is() {
    let mut discovery = listing(proxied());
    resolve(discovery.step(DiscoveryEvent::Unanswered));
    let request = get(discovery.step(DiscoveryEvent::Resolved(vec![Some(V4)])));
    assert_eq!(request.url, "http://192.168.1.2:4400/status");
    let body = format!(r#"{{"node_id": "{}"}}"#, key_text(6));
    let joined = connect(discovery.step(answer(200, &body)));
    assert_eq!(joined[0].key, key(6));
    assert!(matches!(discovery.step(DiscoveryEvent::Connected), DiscoveryAction::AwaitTick(60)));
    assert!(discovery.peers().is_empty());
}

#[test]
fn a_proxy_that_does_not_tell_is_left() {
    for reply in [answer(500, ""), answer(200, "{}"), DiscoveryEvent::Unanswered] {
        let mut discovery = listing(proxied());
        resolve(discovery.step(DiscoveryEvent::Unanswered));
        get(discovery.step(DiscoveryEvent::Resolved(vec![Some(V4)])));
        assert!(matches!(discovery.step(reply), DiscoveryAction::AwaitTick(60)));
    }
}

#[test]
fn a_proxy_without_an_address_is_left() {
    let mut discovery = listing(proxied());
    resolve(discovery.step(DiscoveryEvent::Unanswered));
    let action = discovery.step(DiscoveryEvent::Resolved(vec![None]));
    assert!(matches!(action, DiscoveryAction::AwaitTick(60)));
}

#[test]
fn unexpected_events_change_nothing() {
    let mut discovery = DiscoveryLoop::new(config(), key_text(9));
    for event in [
        DiscoveryEvent::Slept,
        DiscoveryEvent::Ticked,
        DiscoveryEvent::Counted(1),
        DiscoveryEvent::Connected,
        DiscoveryEvent::Unanswered,
        DiscoveryEvent::Resolved(Vec::new()),
        answer(200, "{}"),
    ] {
        assert!(matches!(discovery.step(event), DiscoveryAction::Unexpected));
    }
    put(discovery.step(DiscoveryEvent::Started));
    assert!(matches!(discovery.step(DiscoveryEvent::Started), DiscoveryAction::Unexpected));
    assert!(matches!(discovery.step(answer(200, "")), DiscoveryAction::AwaitTick(60)));
    let mut listed = listing(config());
    resolve(listed.step(answer(200, &peer_list())));
    let short = listed.step(DiscoveryEvent::Resolved(vec![None]));
    assert!(matches!(short, DiscoveryAction::Unexpected));
    let ips = vec![None, None, None, None, None, None, None];
    assert_eq!(connect(listed.step(DiscoveryEvent::Resolved(ips))).len(), 1);
}

#[test]
fn without_tls_there_is_nothing_to_set() {
    let plain = Config { tls_certfile: Some("/etc/node/cert.pem".to_string()), ..config() };
    let settings = http_settings(&plain);
    assert!(!settings.accept_invalid_hostnames);
    assert!(settings.authority.is_none());
}

#[test]
fn with_tls_the_authority_of_the_deployment_is_trusted() {
    let secure = Config {
        tls_enabled: true,
        tls_certfile: Some("/etc/node/cert.pem".to_string()),
        ..config()
    };
    let settings = http_settings(&secure);
    assert!(settings.accept_invalid_hostnames);
    assert!(matches!(settings.authority, Some(FilePlace::At(path)) if path == "/etc/node/ca.pem"));
    let without = http_settings(&Config { tls_enabled: true, ..config() });
    assert!(without.accept_invalid_hostnames);
    assert!(without.authority.is_none());
}

#[test]
fn files_beside_plain_paths_have_a_path() {
    for (file, path) in [
        ("/etc/node/cert.pem", "/etc/node/ca.pem"),
        ("certs/cert.pem", "certs/ca.pem"),
        ("../certs/cert.pem", "../certs/ca.pem"),
        ("../cert.pem", "../ca.pem"),
        ("/cert.pem", "/ca.pem"),
        ("cert.pem", "ca.pem"),
        ("a//b/cert.pem", "a//b/ca.pem"),
        ("dir/..", "dir/ca.pem"),
    ] {
        assert!(matches!(neighbour(file, CA_FILE), FilePlace::At(found) if found == path));
        // As the standard library has it.
        let parent = std::path::Path::new(file).parent().unwrap();
        assert_eq!(parent.join(CA_FILE), std::path::Path::new(path));
    }
}

#[test]
fn files_beside_other_paths_are_left_to_the_platform() {
    for path in ["", "/", "certs/", "certs/.", "./cert.pem", "a//cert.pem", "//a/b", "C:cert.pem", "a\\b"] {
        match neighbour(path, "ca.pem") {
            FilePlace::Beside { file, name } => {
                assert_eq!(file, path);
                assert_eq!(name, "ca.pem");
            }
            other => panic!("has a path: {:?}", other),
        }
    }
}

#[test]
fn peers_with_an_address_have_a_url() {
    let mut node = record(Some("id".to_string()));
    assert_eq!(http_url(false, &node, Some(V4)), None);
    node.address = Some(String::new());
    assert_eq!(http_url(false, &node, Some(V4)), None);
    node.address = Some("192.168.1.2".to_string());
    assert_eq!(http_url(false, &node, Some(V4)), Some("http://192.168.1.2:4400".to_string()));
    node.http_port = Some(8080);
    assert_eq!(http_url(true, &node, Some(V4)), Some("https://192.168.1.2:8080".to_string()));
    node.http_port = Some(65536 + 80);
    assert_eq!(http_url(false, &node, None), Some("http://192.168.1.2:80".to_string()));
    node.address = Some("::1".to_string());
    let v6 = Some(IpAddress::V6([0, 0, 0, 0, 0, 0, 0, 0, 0, 0, 0, 0, 0, 0, 0, 1]));
    assert_eq!(http_url(false, &node, v6), Some("http://[::1]:80".to_string()));
}

#[test]
fn a_round_tells_the_urls_of_peers() {
    let mut discovery = listing(Config { tls_enabled: true, ..config() });
    resolve(discovery.step(answer(200, &peer_list())));
    let ips = vec![Some(V4), None, None, Some(V4), None, None, None];
    connect(discovery.step(DiscoveryEvent::Resolved(ips)));
    discovery.step(DiscoveryEvent::Connected);
    let urls: Vec<Option<String>> =
        discovery.peers().iter().map(|peer| peer.http_url.clone()).collect();
    assert_eq!(urls, vec![Some("https://192.168.1.2:4400".to_string()), None, None]);
}
