//! Replication: which announced archives are downloaded, from whom, and what is counted of it.

use vstd::prelude::*;
use vstd::string::*;

use crate::gossip::{FetchRequest, FetchView};
use crate::ids::{blob_hash_of, id_bytes, node_key_of, parse_blob_hash, parse_node_key};
use crate::index::EntryView;
use crate::store::BlobStore;
use crate::text::{optional_text, starts_with};

verus! {

/// Paths below this are kept for the synchronisation of the nodes themselves: they are wanted by
/// every node, and their blobs change.
pub const SYNC_PREFIX: &'static str = "_sync/";

/// Counters of replication.
pub struct ReplicationStats {
    replicated: u64,
    skipped_existing: u64,
    skipped_scope: u64,
    failed: u64,
    last_replicated: Option<String>,
    last_reconciliation: Option<String>,
}

/// The mathematical form of `ReplicationStats`.
pub struct StatsView {
    pub replicated: u64,
    pub skipped_existing: u64,
    pub skipped_scope: u64,
    pub failed: u64,
    pub last_replicated: Option<Seq<char>>,
    pub last_reconciliation: Option<Seq<char>>,
}

/// The next value of a counter that wraps.
pub open spec fn counted(count: u64) -> u64 {
    if count == u64::MAX {
        0
    } else {
        (count + 1) as u64
    }
}

impl StatsView {
    /// One archive more was replicated, the one at `path`.
    pub open spec fn with_replicated(self, path: Seq<char>) -> StatsView {
        StatsView {
            replicated: counted(self.replicated),
            last_replicated: Some(path),
            ..self
        }
    }

    /// One archive more was there already.
    pub open spec fn with_existing(self) -> StatsView {
        StatsView { skipped_existing: counted(self.skipped_existing), ..self }
    }

    /// One archive more was out of scope.
    pub open spec fn with_out_of_scope(self) -> StatsView {
        StatsView { skipped_scope: counted(self.skipped_scope), ..self }
    }

    /// One request more failed.
    pub open spec fn with_failure(self) -> StatsView {
        StatsView { failed: counted(self.failed), ..self }
    }
}

impl View for ReplicationStats {
    type V = StatsView;

    closed spec fn view(&self) -> StatsView {
        StatsView {
            replicated: self.replicated,
            skipped_existing: self.skipped_existing,
            skipped_scope: self.skipped_scope,
            failed: self.failed,
            last_replicated: optional_text(self.last_replicated),
            last_reconciliation: optional_text(self.last_reconciliation),
        }
    }
}

/// Whether a text has the form of a time in UTC, as far as all such texts share it: a date and a
/// time to the second at least, and the offset zero at the end.
pub open spec fn is_utc_time(text: Seq<char>) -> bool {
    text.len() >= 25 && "+00:00"@.is_suffix_of(text)
}

/// `chrono::Utc::now` and `DateTime::to_rfc3339`: the time of the call, as text, in UTC with the
/// offset written out. Nothing is said of which time that is. The clock of the machine must not
/// stand before 1970.
#[verifier::external_body]
fn outside_now() -> (now: String)
    ensures
        is_utc_time(now@),
{
    chrono::Utc::now().to_rfc3339()
}

impl ReplicationStats {
    /// Counters at zero.
    pub fn new() -> (stats: Self)
        ensures
            stats@ == (StatsView {
                replicated: 0,
                skipped_existing: 0,
                skipped_scope: 0,
                failed: 0,
                last_replicated: None,
                last_reconciliation: None,
            }),
    {
        ReplicationStats {
            replicated: 0,
            skipped_existing: 0,
            skipped_scope: 0,
            failed: 0,
            last_replicated: None,
            last_reconciliation: None,
        }
    }

    /// How many archives were replicated.
    pub fn replicated(&self) -> (count: u64)
        ensures
            count == self@.replicated,
    {
        self.replicated
    }

    /// How many archives were there already.
    pub fn skipped_existing(&self) -> (count: u64)
        ensures
            count == self@.skipped_existing,
    {
        self.skipped_existing
    }

    /// How many archives were out of scope.
    pub fn skipped_scope(&self) -> (count: u64)
        ensures
            count == self@.skipped_scope,
    {
        self.skipped_scope
    }

    /// How many requests failed.
    pub fn failed(&self) -> (count: u64)
        ensures
            count == self@.failed,
    {
        self.failed
    }

    /// The path of the archive that was replicated last.
    pub fn last_replicated(&self) -> (path: Option<String>)
        ensures
            optional_text(path) == self@.last_replicated,
    {
        match &self.last_replicated {
            Some(path) => Some(path.clone()),
            None => None,
        }
    }

    /// The time of the last reconciliation.
    pub fn last_reconciliation(&self) -> (time: Option<String>)
        ensures
            optional_text(time) == self@.last_reconciliation,
    {
        match &self.last_reconciliation {
            Some(time) => Some(time.clone()),
            None => None,
        }
    }

    /// The path of the archive that was replicated last, for one who does not wait: `stats` is
    /// `None` while the counters are being written, and then nothing is known.
    pub fn try_last_replicated(stats: Option<&ReplicationStats>) -> (path: Option<String>)
        ensures
            optional_text(path) == (match stats {
                Some(stats) => stats@.last_replicated,
                None => None,
            }),
    {
        match stats {
            Some(stats) => stats.last_replicated(),
            None => None,
        }
    }

    /// The time of the last reconciliation, for one who does not wait.
    pub fn try_last_reconciliation(stats: Option<&ReplicationStats>) -> (time: Option<String>)
        ensures
            optional_text(time) == (match stats {
                Some(stats) => stats@.last_reconciliation,
                None => None,
            }),
    {
        match stats {
            Some(stats) => stats.last_reconciliation(),
            None => None,
        }
    }

    /// Counts a replicated archive.
    pub fn record_replicated(&mut self, path: &str)
        ensures
            final(self)@ == old(self)@.with_replicated(path@),
    {
        self.replicated = self.replicated.wrapping_add(1);
        self.last_replicated = Some(path.to_owned());
    }

    /// Counts an archive that was there already.
    pub fn record_existing(&mut self)
        ensures
            final(self)@ == old(self)@.with_existing(),
    {
        self.skipped_existing = self.skipped_existing.wrapping_add(1);
    }

    /// Counts an archive that was out of scope.
    pub fn record_out_of_scope(&mut self)
        ensures
            final(self)@ == old(self)@.with_out_of_scope(),
    {
        self.skipped_scope = self.skipped_scope.wrapping_add(1);
    }

    /// Counts a request that failed.
    pub fn record_failure(&mut self)
        ensures
            final(self)@ == old(self)@.with_failure(),
    {
        self.failed = self.failed.wrapping_add(1);
    }

    /// Notes that a reconciliation took place at `now`.
    pub fn record_reconciliation_at(&mut self, now: String)
        ensures
            final(self)@ == (StatsView { last_reconciliation: Some(now@), ..old(self)@ }),
    {
        self.last_reconciliation = Some(now);
    }

    /// Notes that a reconciliation takes place now.
    pub fn record_reconciliation(&mut self)
        ensures
            final(self)@.last_reconciliation is Some,
            is_utc_time(final(self)@.last_reconciliation->0),
            final(self)@ == (StatsView {
                last_reconciliation: final(self)@.last_reconciliation,
                ..old(self)@
            }),
    {
        let now = outside_now();
        self.record_reconciliation_at(now);
    }
}

/// Why a fetch request failed.
#[derive(Debug, Clone, Copy, PartialEq, Eq, Structural)]
pub enum FetchError {
    /// The hash is none.
    InvalidHash,
    /// The source node is none.
    InvalidNodeId,
    /// The blob could not be downloaded.
    DownloadFailed,
    /// The downloaded blob could not be registered in the index.
    RegisterFailed,
}

/// Why a fetch request is skipped.
#[derive(Debug, Clone, Copy, PartialEq, Eq, Structural)]
pub enum Skip {
    /// The archive is outside the scope of this node.
    OutOfScope,
    /// The archive is there already.
    Existing,
}

/// A download to be made.
#[derive(Debug)]
pub struct Download {
    /// The blob.
    pub hash: [u8; 32],
    /// The nodes to ask.
    pub providers: Vec<[u8; 32]>,
}

/// What is to be done about a fetch request.
#[derive(Debug)]
pub enum FetchDecision {
    Skip(Skip),
    Download(Download),
}

/// The mathematical form of a `FetchDecision`.
pub enum DecisionView {
    Skip(Skip),
    Download { hash: Seq<u8>, providers: Seq<Seq<u8>> },
}

impl View for FetchDecision {
    type V = DecisionView;

    open spec fn view(&self) -> DecisionView {
        match self {
            FetchDecision::Skip(skip) => DecisionView::Skip(*skip),
            FetchDecision::Download(download) => DecisionView::Download {
                hash: download.hash@,
                providers: download.providers@.map_values(|key: [u8; 32]| key@),
            },
        }
    }
}

/// The mathematical form of the outcome of a decision.
pub open spec fn outcome_view(
    outcome: Result<FetchDecision, FetchError>,
) -> Result<DecisionView, FetchError> {
    match outcome {
        Ok(decision) => Ok(decision@),
        Err(error) => Err(error),
    }
}

/// Whether a path is one of those kept for synchronisation.
pub open spec fn is_sync(path: Seq<char>) -> bool {
    SYNC_PREFIX@.is_prefix_of(path)
}

/// Why a request for `path` is skipped, if it is: paths kept for synchronisation never are.
pub open spec fn skip_of(path: Seq<char>, in_scope: bool, indexed: bool) -> Option<Skip> {
    if is_sync(path) {
        None
    } else if !in_scope {
        Some(Skip::OutOfScope)
    } else if indexed {
        Some(Skip::Existing)
    } else {
        None
    }
}

/// What follows from the hash and the source of a request, as they were read.
pub open spec fn download_of(
    hash: Option<Seq<u8>>,
    source: Option<Seq<u8>>,
) -> Result<DecisionView, FetchError> {
    match hash {
        None => Err(FetchError::InvalidHash),
        Some(hash) => match source {
            None => Err(FetchError::InvalidNodeId),
            Some(source) => Ok(DecisionView::Download { hash, providers: seq![source] }),
        },
    }
}

/// What is to be done about a request, given the index and whether the archive is in scope.
pub open spec fn decision_of(
    index: Map<Seq<char>, EntryView>,
    request: FetchView,
    in_scope: bool,
) -> Result<DecisionView, FetchError> {
    match skip_of(request.path, in_scope, index.contains_key(request.path)) {
        Some(skip) => Ok(DecisionView::Skip(skip)),
        None => download_of(blob_hash_of(request.hash), node_key_of(request.source_node)),
    }
}

/// What is counted of a decision.
pub open spec fn stats_after(
    stats: StatsView,
    outcome: Result<DecisionView, FetchError>,
) -> StatsView {
    match outcome {
        Ok(DecisionView::Skip(Skip::OutOfScope)) => stats.with_out_of_scope(),
        Ok(DecisionView::Skip(Skip::Existing)) => stats.with_existing(),
        Ok(DecisionView::Download { .. }) => stats,
        Err(_) => stats,
    }
}

/// What is counted of a request once it is through.
pub open spec fn outcome_counted(stats: StatsView, outcome: Result<(), FetchError>) -> StatsView {
    match outcome {
        Ok(_) => stats,
        Err(_) => stats.with_failure(),
    }
}

/// Why a request for `path` is skipped, if it is.
pub fn skip_reason(path: &str, in_scope: bool, indexed: bool) -> (skip: Option<Skip>)
    ensures
        skip == skip_of(path@, in_scope, indexed),
{
    if starts_with(path, SYNC_PREFIX) {
        None
    } else if !in_scope {
        Some(Skip::OutOfScope)
    } else if indexed {
        Some(Skip::Existing)
    } else {
        None
    }
}

/// The download that follows from a hash and a source, as they were read.
pub fn download_plan(hash: Option<[u8; 32]>, source: Option<[u8; 32]>) -> (outcome: Result<
    FetchDecision,
    FetchError,
>)
    ensures
        outcome_view(outcome) == download_of(id_bytes(hash), id_bytes(source)),
{
    match hash {
        None => Err(FetchError::InvalidHash),
        Some(hash) => match source {
            None => Err(FetchError::InvalidNodeId),
            Some(source) => {
                let mut providers: Vec<[u8; 32]> = Vec::new();
                providers.push(source);
                assert(providers@.map_values(|key: [u8; 32]| key@) =~= seq![source@]);
                Ok(FetchDecision::Download(Download { hash, providers }))
            },
        },
    }
}

/// Decides about fetch requests, and counts what becomes of them.
pub struct Replicator {
    stats: ReplicationStats,
}

impl View for Replicator {
    type V = StatsView;

    closed spec fn view(&self) -> StatsView {
        self.stats@
    }
}

impl Replicator {
    /// A replicator that goes on counting.
    pub fn new(stats: ReplicationStats) -> (replicator: Self)
        ensures
            replicator@ == stats@,
    {
        Replicator { stats }
    }

    /// The counters.
    pub fn stats(&self) -> (stats: &ReplicationStats)
        ensures
            stats@ == self@,
    {
        &self.stats
    }

    /// Decides about one fetch request. A request that is skipped is counted here, one that leads
    /// to a download by `finish_download`; one that fails changes nothing until `count_outcome`.
    /// `in_scope` says whether the node stores archives of the country and subdivision.
    pub fn handle_fetch_request(
        &mut self,
        store: &BlobStore,
        request: &FetchRequest,
        in_scope: bool,
    ) -> (outcome: Result<FetchDecision, FetchError>)
        requires
            store.wf(),
        ensures
            outcome_view(outcome) == decision_of(store@, request@, in_scope),
            final(self)@ == stats_after(old(self)@, decision_of(store@, request@, in_scope)),
            outcome is Err ==> final(self)@ == old(self)@,
    {
        let path = request.path.as_str();
        let indexed: bool = store.contains(path);
        match skip_reason(path, in_scope, indexed) {
            Some(Skip::OutOfScope) => {
                self.stats.record_out_of_scope();
                Ok(FetchDecision::Skip(Skip::OutOfScope))
            },
            Some(Skip::Existing) => {
                self.stats.record_existing();
                Ok(FetchDecision::Skip(Skip::Existing))
            },
            None => {
                let hash = parse_blob_hash(request.hash.as_str());
                let source = parse_node_key(request.source_node.as_str());
                download_plan(hash, source)
            },
        }
    }

    /// Ends a download: `downloaded` says whether the blob came in, `written` whether the
    /// entry could be written to the lasting index. Only where both hold does the store take the
    /// archive in; else nothing changes.
    pub fn finish_download(
        &mut self,
        store: &mut BlobStore,
        request: &FetchRequest,
        downloaded: bool,
        written: bool,
    ) -> (result: Result<(), FetchError>)
        requires
            old(store).wf(),
        ensures
            final(store).wf(),
            result == (if !downloaded {
                Err(FetchError::DownloadFailed)
            } else if !written {
                Err(FetchError::RegisterFailed)
            } else {
                Ok(())
            }),
            result is Ok ==> final(store)@ == old(store)@.insert(
                request.path@,
                EntryView { hash: request.hash@, size: request.size },
            ) && final(self)@ == old(self)@.with_replicated(request.path@),
            result is Err ==> final(store)@ == old(store)@ && final(self)@ == old(self)@,
    {
        if !downloaded {
            return Err(FetchError::DownloadFailed);
        }
        let indexed = store.register_downloaded(
            request.path.as_str(),
            request.hash.as_str(),
            request.size,
            written,
        );
        if indexed.is_err() {
            return Err(FetchError::RegisterFailed);
        }
        self.stats.record_replicated(request.path.as_str());
        Ok(())
    }

    /// Counts a request that is through: one that failed raises the failures.
    pub fn count_outcome(&mut self, outcome: &Result<(), FetchError>)
        ensures
            final(self)@ == outcome_counted(old(self)@, *outcome),
    {
        if outcome.is_err() {
            self.stats.record_failure();
        }
    }
}

} // verus!
