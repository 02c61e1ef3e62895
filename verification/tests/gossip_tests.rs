use archive_replicator::gossip::{
    fetch_request, ArchiveAnnouncement, ArchivePlace, FetchRequest, GossipAction, GossipError,
    GossipEvent, GossipHandle, CATCH_UP_BATCH,
};
use archive_replicator::index::{IndexEntry, IndexedArchive, PathIndex};

fn announcement(node_id: &str, date: &str, path: &str) -> ArchiveAnnouncement {
    ArchiveAnnouncement {
        msg_type: "archive_available".to_string(),
        country: "nz".to_string(),
        subdivision: "wgn".to_string(),
        date: date.to_string(),
        hash: "abcd".to_string(),
        node_id: node_id.to_string(),
        path: path.to_string(),
        size: 42,
    }
}

fn forwarded(action: GossipAction) -> FetchRequest {
    match action {
        GossipAction::Forward(request) => request,
        other => panic!("not forwarded: {:?}", other),
    }
}

fn place() -> Option<ArchivePlace> {
    Some(ArchivePlace {
        country: "nz".to_string(),
        subdivision: "wgn".to_string(),
        date: "2026-03-05".to_string(),
    })
}

fn archives(count: usize) -> Vec<IndexedArchive> {
    (0..count)
        .map(|i| IndexedArchive {
            path: format!("nz/wgn/{}", i),
            entry: IndexEntry { hash: format!("hash {}", i), size: i as u64 },
        })
        .collect()
}

#[test]
fn the_topic_is_named_by_the_digest_of_its_name() {
    let subscription = GossipHandle::new("wesense", "me".to_string(), true).start();
    assert_eq!(subscription.topic_id, *blake3::hash(b"wesense").as_bytes());
    assert!(subscription.peers.is_empty());
}

#[test]
fn peers_are_joined_once_the_topic_is() {
    let mut handle = GossipHandle::new("t", "me".to_string(), true);
    assert_eq!(handle.join_peers(vec![[1u8; 32]]), None);
    assert_eq!(handle.finish_start(false), Err(GossipError::SubscribeFailed));
    assert_eq!(handle.join_peers(vec![[1u8; 32]]), None);
    assert_eq!(handle.finish_start(true), Ok(()));
    assert_eq!(handle.join_peers(vec![[1u8; 32], [2u8; 32]]), Some(vec![[1u8; 32], [2u8; 32]]));
    assert_eq!(handle.join_peers(vec![]), Some(vec![]));
}

#[test]
fn archives_are_announced() {
    let mut handle = GossipHandle::new("t", "me".to_string(), true);
    let early = handle.announce_archive("nz", "wgn", "2026-03-05", "abcd", "nz/wgn/x", 42);
    assert!(!early.ready);
    handle.finish_start(true).unwrap();
    let outgoing = handle.announce_archive("nz", "wgn", "2026-03-05", "abcd", "nz/wgn/x", 42);
    assert!(outgoing.ready);
    let said = outgoing.announcement;
    assert_eq!(said.msg_type, "archive_available");
    assert_eq!(said.country, "nz");
    assert_eq!(said.subdivision, "wgn");
    assert_eq!(said.date, "2026-03-05");
    assert_eq!(said.hash, "abcd");
    assert_eq!(said.node_id, "me");
    assert_eq!(said.path, "nz/wgn/x");
    assert_eq!(said.size, 42);
}

#[test]
fn own_announcements_come_to_nothing() {
    let mut handle = GossipHandle::new("t", "me".to_string(), true);
    let said = handle.announce_archive("nz", "wgn", "d", "h", "p", 1).announcement;
    assert!(matches!(handle.receive(GossipEvent::Received(Some(said))), GossipAction::Ignore));
}

#[test]
fn announcements_of_others_are_forwarded() {
    let other = GossipHandle::new("t", "other".to_string(), false);
    let mut handle = GossipHandle::new("t", "me".to_string(), true);
    let said = other.announce_archive("nz", "wgn", "d", "abcd", "nz/wgn/x", 42).announcement;
    let request = forwarded(handle.receive(GossipEvent::Received(Some(said))));
    assert_eq!(request.hash, "abcd");
    assert_eq!(request.path, "nz/wgn/x");
    assert_eq!(request.country, "nz");
    assert_eq!(request.subdivision, "wgn");
    assert_eq!(request.size, 42);
    assert_eq!(request.source_node, "other");
}

#[test]
fn nothing_is_forwarded_without_a_replicator() {
    let mut handle = GossipHandle::new("t", "me".to_string(), false);
    let said = announcement("other", "2026-03-05", "p");
    assert!(matches!(handle.receive(GossipEvent::Received(Some(said))), GossipAction::Ignore));
}

#[test]
fn paths_follow_from_place_and_date() {
    let request = fetch_request(&announcement("other", "2026-03-05", "")).unwrap();
    assert_eq!(request.path, "nz/wgn/2026/03/05/archive.parquet");
    let odd = fetch_request(&announcement("other", "--", "")).unwrap();
    assert_eq!(odd.path, "nz/wgn////archive.parquet");
}

#[test]
fn paths_need_a_date_of_three_parts() {
    assert!(fetch_request(&announcement("other", "2026-03", "")).is_none());
    assert!(fetch_request(&announcement("other", "", "")).is_none());
    assert!(fetch_request(&announcement("other", "2026-03-05-06", "")).is_none());
    assert!(fetch_request(&announcement("other", "2026-03", "p")).is_some());
    let mut handle = GossipHandle::new("t", "me".to_string(), true);
    let said = announcement("other", "2026-03", "");
    assert!(matches!(handle.receive(GossipEvent::Received(Some(said))), GossipAction::Ignore));
}

#[test]
fn connected_peers_are_counted() {
    let mut handle = GossipHandle::new("t", "me".to_string(), true);
    assert_eq!(handle.connected_peers(), 0);
    handle.receive(GossipEvent::NeighborUp);
    handle.receive(GossipEvent::NeighborUp);
    assert_eq!(handle.connected_peers(), 2);
    handle.receive(GossipEvent::NeighborDown);
    handle.receive(GossipEvent::Lagged);
    handle.receive(GossipEvent::Failed);
    handle.receive(GossipEvent::Received(None));
    assert_eq!(handle.connected_peers(), 1);
}

#[test]
fn the_count_of_peers_stops_at_zero() {
    let mut handle = GossipHandle::new("t", "me".to_string(), true);
    handle.receive(GossipEvent::NeighborDown);
    assert_eq!(handle.connected_peers(), 0);
    handle.receive(GossipEvent::NeighborUp);
    assert_eq!(handle.connected_peers(), 1);
}

#[test]
fn catching_up_needs_an_index_and_a_topic() {
    let mut handle = GossipHandle::new("t", "me".to_string(), true);
    assert!(matches!(handle.receive(GossipEvent::NeighborUp), GossipAction::Ignore));
    handle.set_index();
    assert!(matches!(handle.receive(GossipEvent::NeighborUp), GossipAction::Ignore));
    handle.finish_start(true).unwrap();
    assert!(matches!(handle.receive(GossipEvent::NeighborUp), GossipAction::CatchUp));
    assert!(matches!(handle.receive(GossipEvent::NeighborDown), GossipAction::Ignore));
}

#[test]
fn other_events_are_ignored() {
    let mut handle = GossipHandle::new("t", "me".to_string(), true);
    assert!(matches!(handle.receive(GossipEvent::Received(None)), GossipAction::Ignore));
    assert!(matches!(handle.receive(GossipEvent::Lagged), GossipAction::Ignore));
    assert!(matches!(handle.receive(GossipEvent::Failed), GossipAction::Ignore));
}

#[test]
fn a_catch_up_announces_every_archive_with_a_place() {
    let handle = GossipHandle::new("t", "me".to_string(), true);
    let mut index = PathIndex::new();
    index.insert("nz/wgn/a", "hash a".to_string(), 1);
    index.insert("_sync/index.json", "hash b".to_string(), 2);
    index.insert("nz/wgn/c", "hash c".to_string(), 3);
    let mut catch_up = handle.catch_up(index.dump());
    let mut paths = Vec::new();
    loop {
        let placed = match catch_up.current() {
            Some(archive) => !archive.path.starts_with("_sync/"),
            None => break,
        };
        let said = catch_up.announcement(if placed { place() } else { None });
        assert_eq!(said.is_some(), placed);
        if let Some(said) = &said {
            assert_eq!(said.node_id, "me");
            assert_eq!(said.msg_type, "archive_available");
            assert_eq!(said.country, "nz");
            assert_eq!(said.date, "2026-03-05");
            paths.push((said.path.clone(), said.hash.clone(), said.size));
        }
        catch_up.advance(said.is_some());
    }
    assert_eq!(catch_up.announced_count(), 2);
    assert!(catch_up.announcement(place()).is_none());
    paths.sort();
    assert_eq!(
        paths,
        vec![
            ("nz/wgn/a".to_string(), "hash a".to_string(), 1),
            ("nz/wgn/c".to_string(), "hash c".to_string(), 3)
        ]
    );
}

#[test]
fn a_catch_up_leads_to_requests() {
    let handle = GossipHandle::new("t", "me".to_string(), true);
    let mut other = GossipHandle::new("t", "other".to_string(), true);
    let catch_up = handle.catch_up(archives(1));
    let said = catch_up.announcement(place());
    let request = forwarded(other.receive(GossipEvent::Received(said)));
    assert_eq!(request.path, "nz/wgn/0");
    assert_eq!(request.hash, "hash 0");
    assert_eq!(request.source_node, "me");
}

#[test]
fn a_catch_up_pauses_every_thousand_announcements() {
    assert_eq!(CATCH_UP_BATCH, 1000);
    let handle = GossipHandle::new("t", "me".to_string(), true);
    let mut catch_up = handle.catch_up(archives(2002));
    // Nothing announced yet: a multiple of a thousand.
    assert!(catch_up.advance(false));
    for i in 1..=2000u64 {
        assert_eq!(catch_up.advance(true), i % 1000 == 0);
    }
    // Still two thousand.
    assert!(catch_up.advance(false));
    assert!(catch_up.current().is_none());
    assert_eq!(catch_up.announced_count(), 2000);
}

#[test]
fn a_catch_up_of_nothing_is_over() {
    let catch_up = GossipHandle::new("t", "me".to_string(), true).catch_up(Vec::new());
    assert!(catch_up.current().is_none());
    assert_eq!(catch_up.announced_count(), 0);
}

#[test]
fn requests_are_forwarded_in_order_with_repeats() {
    let mut handle = GossipHandle::new("t", "me".to_string(), true);
    let mut paths = Vec::new();
    for event in [
        GossipEvent::Received(Some(announcement("other", "d", "a"))),
        GossipEvent::NeighborUp,
        GossipEvent::Received(Some(announcement("me", "d", "own"))),
        GossipEvent::Received(Some(announcement("third", "d", "b"))),
        GossipEvent::Received(None),
        GossipEvent::Received(Some(announcement("other", "no date", ""))),
        GossipEvent::Received(Some(announcement("other", "d", "a"))),
    ] {
        if let GossipAction::Forward(request) = handle.receive(event) {
            paths.push(request.path);
        }
    }
    assert_eq!(paths, vec!["a", "b", "a"]);
}
