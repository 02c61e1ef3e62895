//! What holds of replication, said of the characters of paths, of hashes, keys and counts.

use vstd::prelude::*;
use vstd::string::*;

use crate::gossip::FetchView;
use crate::ids::{blob_hash_of, hex_text, lemma_blob_hash_round_trip, node_key_of};
use crate::index::EntryView;
use crate::replicator::{counted, decision_of, is_sync, is_utc_time, outcome_counted, outcome_view};
use crate::replicator::{stats_after, DecisionView, Download, FetchDecision, FetchError};
use crate::replicator::{download_of, skip_of, Skip, StatsView};

verus! {

/// Whether the first characters of a path are `_sync/`.
pub open spec fn begins_with_sync(path: Seq<char>) -> bool {
    &&& path.len() >= 6
    &&& path[0] == '_'
    &&& path[1] == 's'
    &&& path[2] == 'y'
    &&& path[3] == 'n'
    &&& path[4] == 'c'
    &&& path[5] == '/'
}

/// Kept for synchronisation are the paths that begin with `_sync/`, and no others.
pub proof fn synchronisation_has_its_prefix(path: Seq<char>)
    ensures
        is_sync(path) <==> begins_with_sync(path),
{
    reveal_strlit("_sync/");
    let prefix = "_sync/"@;
    if begins_with_sync(path) {
        assert(prefix =~= path.take(6));
        assert(path.subrange(0, 6) =~= path.take(6));
    }
    if is_sync(path) {
        assert(prefix =~= path.subrange(0, 6));
        assert(path[0] == prefix[0] && path[1] == prefix[1] && path[2] == prefix[2]);
        assert(path[3] == prefix[3] && path[4] == prefix[4] && path[5] == prefix[5]);
    }
}

/// An archive whose path does not begin with `_sync/` is skipped where it is out of scope,
/// whatever is indexed and whatever else the request says; and, in scope, it is skipped where the
/// index has its path.
pub proof fn other_archives_are_skipped_out_of_scope_or_indexed(
    index: Map<Seq<char>, EntryView>,
    request: FetchView,
)
    requires
        !begins_with_sync(request.path),
    ensures
        decision_of(index, request, false) == Ok::<_, FetchError>(
            DecisionView::Skip(Skip::OutOfScope),
        ),
        index.contains_key(request.path) ==> decision_of(index, request, true) == Ok::<
            _,
            FetchError,
        >(DecisionView::Skip(Skip::Existing)),
        !index.contains_key(request.path) ==> !(decision_of(index, request, true) matches Ok(
            DecisionView::Skip(_),
        )),
        skip_of(request.path, false, true) == Some(Skip::OutOfScope),
        skip_of(request.path, false, false) == Some(Skip::OutOfScope),
        skip_of(request.path, true, true) == Some(Skip::Existing),
        skip_of(request.path, true, false) is None,
{
    synchronisation_has_its_prefix(request.path);
}

/// A path that begins with `_sync/` is never skipped: neither the scope nor the index makes a
/// difference.
pub proof fn synchronisation_knows_no_scope(
    index: Map<Seq<char>, EntryView>,
    other: Map<Seq<char>, EntryView>,
    request: FetchView,
    in_scope: bool,
)
    requires
        begins_with_sync(request.path),
    ensures
        decision_of(index, request, in_scope) == decision_of(other, request, !in_scope),
        !(decision_of(index, request, in_scope) matches Ok(DecisionView::Skip(_))),
{
    synchronisation_has_its_prefix(request.path);
}

/// A request that is not skipped is downloaded: the blob of its hash, from its source alone. A hash
/// that is none is told first, then a source that is none; neither the place nor the size makes a
/// difference.
pub proof fn downloads_follow_hash_and_source(
    index: Map<Seq<char>, EntryView>,
    request: FetchView,
    in_scope: bool,
    hash: Seq<u8>,
    key: Seq<u8>,
)
    requires
        begins_with_sync(request.path) || (in_scope && !index.contains_key(request.path)),
    ensures
        blob_hash_of(request.hash) is None ==> decision_of(index, request, in_scope) == Err::<
            DecisionView,
            _,
        >(FetchError::InvalidHash),
        blob_hash_of(request.hash) is Some && node_key_of(request.source_node) is None
            ==> decision_of(index, request, in_scope) == Err::<DecisionView, _>(
            FetchError::InvalidNodeId,
        ),
        blob_hash_of(request.hash) == Some(hash) && node_key_of(request.source_node) == Some(key)
            ==> decision_of(index, request, in_scope) == Ok::<_, FetchError>(
            DecisionView::Download { hash, providers: seq![key] },
        ),
        hash.len() == 32 && request.hash == hex_text(hash) && node_key_of(request.source_node)
            == Some(key) ==> decision_of(index, request, in_scope) == Ok::<_, FetchError>(
            DecisionView::Download { hash, providers: seq![key] },
        ),
{
    synchronisation_has_its_prefix(request.path);
    if hash.len() == 32 {
        lemma_blob_hash_round_trip(hash);
    }
}

/// A download needs a hash and a source: it has that hash, and that source alone. Without a hash
/// it fails for that, with or without a source.
pub proof fn downloads_need_hash_and_source(hash: Seq<u8>, source: Option<Seq<u8>>, key: Seq<u8>)
    ensures
        download_of(None, source) == Err::<DecisionView, _>(FetchError::InvalidHash),
        download_of(Some(hash), None) == Err::<DecisionView, _>(FetchError::InvalidNodeId),
        download_of(Some(hash), Some(key)) == Ok::<_, FetchError>(
            DecisionView::Download { hash, providers: seq![key] },
        ),
{
}

/// A counter goes up by one, and from the highest number on to zero.
pub proof fn counters_go_up_by_one(count: u64)
    ensures
        count < u64::MAX ==> counted(count) == count + 1,
        count == u64::MAX ==> counted(count) == 0,
{
}

/// What is recorded raises its own counter by one and no other; a replicated archive is noted by
/// its path, and nothing touches the time of the last reconciliation.
pub proof fn records_raise_their_own_counter(stats: StatsView, path: Seq<char>)
    requires
        stats.replicated < u64::MAX,
        stats.skipped_existing < u64::MAX,
        stats.skipped_scope < u64::MAX,
        stats.failed < u64::MAX,
    ensures
        stats.with_replicated(path) == (StatsView {
            replicated: (stats.replicated + 1) as u64,
            skipped_existing: stats.skipped_existing,
            skipped_scope: stats.skipped_scope,
            failed: stats.failed,
            last_replicated: Some(path),
            last_reconciliation: stats.last_reconciliation,
        }),
        stats.with_existing() == (StatsView {
            replicated: stats.replicated,
            skipped_existing: (stats.skipped_existing + 1) as u64,
            skipped_scope: stats.skipped_scope,
            failed: stats.failed,
            last_replicated: stats.last_replicated,
            last_reconciliation: stats.last_reconciliation,
        }),
        stats.with_out_of_scope() == (StatsView {
            replicated: stats.replicated,
            skipped_existing: stats.skipped_existing,
            skipped_scope: (stats.skipped_scope + 1) as u64,
            failed: stats.failed,
            last_replicated: stats.last_replicated,
            last_reconciliation: stats.last_reconciliation,
        }),
        stats.with_failure() == (StatsView {
            replicated: stats.replicated,
            skipped_existing: stats.skipped_existing,
            skipped_scope: stats.skipped_scope,
            failed: (stats.failed + 1) as u64,
            last_replicated: stats.last_replicated,
            last_reconciliation: stats.last_reconciliation,
        }),
{
}

/// A counter at its highest number goes on to zero, and leaves the others.
pub proof fn full_counters_begin_anew(stats: StatsView, path: Seq<char>)
    ensures
        stats.replicated == u64::MAX ==> stats.with_replicated(path) == (StatsView {
            replicated: 0,
            last_replicated: Some(path),
            ..stats
        }),
        stats.skipped_existing == u64::MAX ==> stats.with_existing() == (StatsView {
            skipped_existing: 0,
            ..stats
        }),
        stats.skipped_scope == u64::MAX ==> stats.with_out_of_scope() == (StatsView {
            skipped_scope: 0,
            ..stats
        }),
        stats.failed == u64::MAX ==> stats.with_failure() == (StatsView { failed: 0, ..stats }),
{
}

/// A decision is counted by what it is: a skip raises the counter of its reason by one; a download
/// that begins and a failure change nothing yet; and at the end a failure, whichever it is, raises
/// the failures by one and a success nothing.
pub proof fn decisions_are_counted_by_what_they_are(
    stats: StatsView,
    hash: Seq<u8>,
    providers: Seq<Seq<u8>>,
    error: FetchError,
)
    requires
        stats.skipped_existing < u64::MAX,
        stats.skipped_scope < u64::MAX,
        stats.failed < u64::MAX,
    ensures
        stats_after(stats, Ok(DecisionView::Skip(Skip::OutOfScope))) == (StatsView {
            skipped_scope: (stats.skipped_scope + 1) as u64,
            ..stats
        }),
        stats_after(stats, Ok(DecisionView::Skip(Skip::Existing))) == (StatsView {
            skipped_existing: (stats.skipped_existing + 1) as u64,
            ..stats
        }),
        stats_after(stats, Ok(DecisionView::Download { hash, providers })) == stats,
        stats_after(stats, Err(error)) == stats,
        outcome_counted(stats, Ok(())) == stats,
        outcome_counted(stats, Err(error)) == (StatsView {
            failed: (stats.failed + 1) as u64,
            ..stats
        }),
{
}

/// A decision is seen as what it is: a download with its hash and all its providers, in order.
pub proof fn decisions_are_seen(skip: Skip, download: Download, error: FetchError)
    ensures
        FetchDecision::Skip(skip)@ == DecisionView::Skip(skip),
        FetchDecision::Download(download)@ is Download,
        FetchDecision::Download(download)@->hash == download.hash@,
        FetchDecision::Download(download)@->providers.len() == download.providers@.len(),
        forall|i: int|
            0 <= i < download.providers@.len()
                ==> #[trigger] FetchDecision::Download(download)@->providers[i]
                == download.providers@[i]@,
        outcome_view(Ok(FetchDecision::Download(download))) == Ok::<_, FetchError>(
            FetchDecision::Download(download)@,
        ),
        outcome_view(Ok(FetchDecision::Skip(skip))) == Ok::<_, FetchError>(
            DecisionView::Skip(skip),
        ),
        outcome_view(Err(error)) == Err::<DecisionView, _>(error),
{
}

/// The text of a time in UTC has a date and a time to the second at least, and ends with the
/// offset zero.
pub proof fn times_end_with_their_offset(text: Seq<char>)
    ensures
        is_utc_time(text) ==> text.len() >= 25 && text.skip(text.len() - 6) == seq![
            '+',
            '0',
            '0',
            ':',
            '0',
            '0',
        ],
{
    reveal_strlit("+00:00");
    if is_utc_time(text) {
        let end = text.subrange(text.len() - 6, text.len() as int);
        assert("+00:00"@ =~= end);
        assert(text.skip(text.len() - 6) =~= end);
        assert("+00:00"@ =~= seq!['+', '0', '0', ':', '0', '0']);
    }
}

} // verus!
