use archive_replicator::gossip::{FetchRequest, GossipAction, GossipEvent, GossipHandle};
use archive_replicator::index::PathIndex;
use archive_replicator::replicator::{
    download_plan, skip_reason, FetchDecision, FetchError, ReplicationStats, Replicator, Skip,
};
use archive_replicator::store::BlobStore;

fn key(seed: u8) -> [u8; 32] {
    *iroh::SecretKey::from_bytes(&[seed; 32]).public().as_bytes()
}

fn key_text(seed: u8) -> String {
    iroh::SecretKey::from_bytes(&[seed; 32]).public().to_string()
}

fn request(path: &str) -> FetchRequest {
    FetchRequest {
        hash: "0b".repeat(32),
        path: path.to_string(),
        country: "nz".to_string(),
        subdivision: "wgn".to_string(),
        size: 9,
        source_node: key_text(1),
    }
}

fn store() -> BlobStore {
    BlobStore::open(PathIndex::new()).0
}

fn replicator() -> Replicator {
    Replicator::new(ReplicationStats::new())
}

fn counts(replicator: &Replicator) -> (u64, u64, u64, u64) {
    let stats = replicator.stats();
    (stats.replicated(), stats.skipped_existing(), stats.skipped_scope(), stats.failed())
}

#[test]
fn counters_begin_at_zero() {
    let stats = ReplicationStats::new();
    assert_eq!(stats.replicated(), 0);
    assert_eq!(stats.skipped_existing(), 0);
    assert_eq!(stats.skipped_scope(), 0);
    assert_eq!(stats.failed(), 0);
    assert_eq!(stats.last_replicated(), None);
    assert_eq!(stats.last_reconciliation(), None);
}

#[test]
fn counters_count() {
    let mut stats = ReplicationStats::new();
    stats.record_replicated("a");
    stats.record_replicated("b");
    stats.record_existing();
    stats.record_out_of_scope();
    stats.record_out_of_scope();
    stats.record_out_of_scope();
    stats.record_failure();
    assert_eq!(stats.replicated(), 2);
    assert_eq!(stats.skipped_existing(), 1);
    assert_eq!(stats.skipped_scope(), 3);
    assert_eq!(stats.failed(), 1);
    assert_eq!(stats.last_replicated(), Some("b".to_string()));
}

#[test]
fn reconciliations_are_noted() {
    let mut stats = ReplicationStats::new();
    stats.record_reconciliation_at("2026-03-05T00:00:00+00:00".to_string());
    assert_eq!(stats.last_reconciliation(), Some("2026-03-05T00:00:00+00:00".to_string()));
    stats.record_reconciliation();
    let now = stats.last_reconciliation().unwrap();
    assert!(now.len() >= 25);
    assert!(now.contains('T'));
    assert!(now.ends_with("+00:00"));
    assert_ne!(now, "2026-03-05T00:00:00+00:00");
    assert_eq!(stats.replicated(), 0);
}

#[test]
fn skipping_has_its_reasons() {
    assert_eq!(skip_reason("nz/a", false, false), Some(Skip::OutOfScope));
    assert_eq!(skip_reason("nz/a", false, true), Some(Skip::OutOfScope));
    assert_eq!(skip_reason("nz/a", true, true), Some(Skip::Existing));
    assert_eq!(skip_reason("nz/a", true, false), None);
    assert_eq!(skip_reason("_sync/a", false, true), None);
    assert_eq!(skip_reason("_sync", false, false), Some(Skip::OutOfScope));
}

#[test]
fn downloads_need_a_hash_and_a_source() {
    assert!(matches!(download_plan(None, Some([1u8; 32])), Err(FetchError::InvalidHash)));
    assert!(matches!(download_plan(None, None), Err(FetchError::InvalidHash)));
    assert!(matches!(download_plan(Some([1u8; 32]), None), Err(FetchError::InvalidNodeId)));
    match download_plan(Some([1u8; 32]), Some([2u8; 32])) {
        Ok(FetchDecision::Download(download)) => {
            assert_eq!(download.hash, [1u8; 32]);
            assert_eq!(download.providers, vec![[2u8; 32]]);
        }
        other => panic!("no download: {:?}", other),
    }
}

#[test]
fn archives_are_downloaded_and_registered() {
    let mut store = store();
    let mut replicator = replicator();
    let request = request("nz/wgn/a");
    match replicator.handle_fetch_request(&store, &request, true) {
        Ok(FetchDecision::Download(download)) => {
            assert_eq!(download.hash, [0x0bu8; 32]);
            assert_eq!(download.providers, vec![key(1)]);
        }
        other => panic!("no download: {:?}", other),
    }
    assert_eq!(counts(&replicator), (0, 0, 0, 0));
    assert_eq!(replicator.finish_download(&mut store, &request, true, true), Ok(()));
    assert_eq!(counts(&replicator), (1, 0, 0, 0));
    assert_eq!(replicator.stats().last_replicated(), Some("nz/wgn/a".to_string()));
    assert_eq!(store.get("nz/wgn/a"), Ok(Some([0x0bu8; 32])));
    assert_eq!(store.index().get("nz/wgn/a").unwrap().size, 9);
}

#[test]
fn indexed_archives_are_skipped() {
    let mut store = store();
    let mut replicator = replicator();
    let request = request("nz/wgn/a");
    replicator.finish_download(&mut store, &request, true, true).unwrap();
    assert!(matches!(
        replicator.handle_fetch_request(&store, &request, true),
        Ok(FetchDecision::Skip(Skip::Existing))
    ));
    assert_eq!(counts(&replicator), (1, 1, 0, 0));
}

#[test]
fn archives_out_of_scope_are_skipped() {
    let mut replicator = replicator();
    let mut bad = request("nz/wgn/a");
    bad.hash = "no hash".to_string();
    assert!(matches!(
        replicator.handle_fetch_request(&store(), &bad, false),
        Ok(FetchDecision::Skip(Skip::OutOfScope))
    ));
    assert_eq!(counts(&replicator), (0, 0, 1, 0));
}

#[test]
fn synchronisation_is_never_skipped() {
    let mut store = store();
    let mut replicator = replicator();
    let request = request("_sync/index.json");
    replicator.finish_download(&mut store, &request, true, true).unwrap();
    assert!(matches!(
        replicator.handle_fetch_request(&store, &request, false),
        Ok(FetchDecision::Download(_))
    ));
}

#[test]
fn bad_requests_fail() {
    let mut replicator = replicator();
    let mut bad = request("nz/wgn/a");
    bad.source_node = "nobody".to_string();
    assert!(matches!(
        replicator.handle_fetch_request(&store(), &bad, true),
        Err(FetchError::InvalidNodeId)
    ));
    bad.hash = "no hash".to_string();
    assert!(matches!(
        replicator.handle_fetch_request(&store(), &bad, true),
        Err(FetchError::InvalidHash)
    ));
    assert_eq!(counts(&replicator), (0, 0, 0, 0));
}

#[test]
fn the_hash_is_looked_at_before_the_source() {
    let store = store();
    let mut replicator = replicator();
    let bad = FetchRequest {
        hash: "zz".to_string(),
        path: "_sync/index.json".to_string(),
        country: String::new(),
        subdivision: String::new(),
        size: 1,
        source_node: "yy".to_string(),
    };
    assert!(matches!(
        replicator.handle_fetch_request(&store, &bad, false),
        Err(FetchError::InvalidHash)
    ));
    assert_eq!(counts(&replicator), (0, 0, 0, 0));
    assert_eq!(store.blob_count(), 0);
}

#[test]
fn failures_are_counted_at_the_end() {
    let mut replicator = replicator();
    replicator.count_outcome(&Ok(()));
    assert_eq!(counts(&replicator), (0, 0, 0, 0));
    replicator.count_outcome(&Err(FetchError::InvalidHash));
    replicator.count_outcome(&Err(FetchError::DownloadFailed));
    assert_eq!(counts(&replicator), (0, 0, 0, 2));
}

#[test]
fn the_latest_records_are_kept() {
    let mut stats = ReplicationStats::new();
    assert_eq!(ReplicationStats::try_last_replicated(Some(&stats)), None);
    stats.record_replicated("a");
    stats.record_failure();
    stats.record_replicated("b");
    stats.record_existing();
    stats.record_reconciliation_at("then".to_string());
    assert_eq!(ReplicationStats::try_last_replicated(Some(&stats)), Some("b".to_string()));
    assert_eq!(ReplicationStats::try_last_reconciliation(Some(&stats)), Some("then".to_string()));
}

#[test]
fn nothing_is_known_of_counters_that_are_being_written() {
    assert_eq!(ReplicationStats::try_last_replicated(None), None);
    assert_eq!(ReplicationStats::try_last_reconciliation(None), None);
}

#[test]
fn failed_downloads_are_not_registered() {
    let mut store = store();
    let mut replicator = replicator();
    let request = request("nz/wgn/a");
    assert_eq!(
        replicator.finish_download(&mut store, &request, false, true),
        Err(FetchError::DownloadFailed)
    );
    assert_eq!(
        replicator.finish_download(&mut store, &request, true, false),
        Err(FetchError::RegisterFailed)
    );
    assert_eq!(counts(&replicator), (0, 0, 0, 0));
    assert_eq!(replicator.stats().last_replicated(), None);
    assert!(!store.contains("nz/wgn/a"));
}

#[test]
fn every_request_is_counted_once() {
    let mut store = store();
    let mut replicator = replicator();
    let mut bad = request("nz/c");
    bad.hash = String::new();
    for (request, in_scope) in
        [(request("nz/a"), true), (request("nz/a"), true), (request("nz/b"), false), (bad, true)]
    {
        let outcome = match replicator.handle_fetch_request(&store, &request, in_scope) {
            Ok(FetchDecision::Download(_)) => {
                replicator.finish_download(&mut store, &request, true, true)
            }
            Ok(FetchDecision::Skip(_)) => Ok(()),
            Err(error) => Err(error),
        };
        replicator.count_outcome(&outcome);
    }
    assert_eq!(counts(&replicator), (1, 1, 1, 1));
}

#[test]
fn archives_travel_from_node_to_node() {
    let data = b"readings";
    let hash = *blake3::hash(data).as_bytes();
    let mut here = store();
    let plan = here.import("nz/wgn/x", data);
    let text = here.finish_import("nz/wgn/x", plan.size, Some(hash), true).unwrap();
    let sender = GossipHandle::new("t", key_text(1), true);
    let said = sender.announce_archive("nz", "wgn", "2026-03-05", &text, "nz/wgn/x", plan.size);

    let mut there = store();
    let mut receiver = GossipHandle::new("t", key_text(2), true);
    let mut replicator = replicator();
    let request = match receiver.receive(GossipEvent::Received(Some(said.announcement))) {
        GossipAction::Forward(request) => request,
        other => panic!("not forwarded: {:?}", other),
    };
    match replicator.handle_fetch_request(&there, &request, true) {
        Ok(FetchDecision::Download(download)) => {
            assert_eq!(download.hash, hash);
            assert_eq!(download.providers, vec![key(1)]);
        }
        other => panic!("no download: {:?}", other),
    }
    replicator.finish_download(&mut there, &request, true, true).unwrap();
    assert_eq!(there.get("nz/wgn/x"), Ok(Some(hash)));
    assert_eq!(there.index().get("nz/wgn/x").unwrap().size, 8);
}
