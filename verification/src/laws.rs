//! What holds of the parts taken together: of an archive on its way from one node to another, of
//! a node on its way into the peers of another, and of the counters and loops through all that
//! happens to them.

use vstd::prelude::*;
use vstd::string::*;

use crate::config::ConfigView;
use crate::discovery::{ActionView, EventView, LoopView, PhaseView, Step};
use crate::discovery::{BACKOFF_SECS, REGISTRATION_ATTEMPTS};
use crate::gossip::{announcement_of, dated_path, fetch_of, fetch_path};
use crate::gossip::{AnnouncementView, ArchivePlace, CatchUpView, FetchView, GossipView};
use crate::http::scheme_of;
use crate::ids::{blob_hash_of, hex_text, lemma_blob_hash_round_trip, node_key_of};
use crate::index::{archive_map, distinct_paths, lemma_archive_map, EntryView};
use crate::json::{lookup, JsonTree};
use crate::peers::{host_of, listing_of, peer_of, peers_of, reachable_of, record_of, relays_of};
use crate::peers::{text_items, AddressView, IpAddress, PeerView, RecordView};
use crate::proxy::first_key_of;
use crate::registry::{address_members, base_members, relay_members};
use crate::registry::{guardian_registration, node_listing, node_registration};
use crate::replicator::{decision_of, download_of, is_sync, outcome_counted, stats_after};
use crate::replicator::{DecisionView, FetchError, Skip, StatsView};
use crate::store::{located, tag_of, StoreError};
use crate::text::{decimal, replaced, split_on};
use crate::text::{lemma_split_count, lemma_split_join, lemma_split_plain};

verus! {

/// A tag is flat: no `/` occurs in it.
pub proof fn tags_are_flat(path: Seq<char>)
    ensures
        !tag_of(path).contains('/'),
{
    reveal_strlit("path:");
    let tag = tag_of(path);
    if tag.contains('/') {
        let i = choose|i: int| 0 <= i < tag.len() && tag[i] == '/';
        if i >= 5 {
            assert(tag[i] == replaced(path, '/', ':')[i - 5]);
        }
    }
}

/// Paths in which no `:` occurs are told apart by their tags.
pub proof fn tags_tell_paths_apart(a: Seq<char>, b: Seq<char>)
    requires
        !a.contains(':'),
        !b.contains(':'),
        tag_of(a) == tag_of(b),
    ensures
        a == b,
{
    reveal_strlit("path:");
    let flat_a = replaced(a, '/', ':');
    let flat_b = replaced(b, '/', ':');
    assert(tag_of(a).len() == 5 + a.len());
    assert(tag_of(b).len() == 5 + b.len());
    assert forall|i: int| 0 <= i < a.len() implies a[i] == b[i] by {
        assert(tag_of(a)[5 + i] == flat_a[i]);
        assert(tag_of(b)[5 + i] == flat_b[i]);
        assert(a.contains(a[i]));
        assert(b.contains(b[i]));
    }
    assert(a =~= b);
}

/// What was imported at a path is what is read there, and what is read at other paths stays.
pub proof fn imported_blobs_are_read(
    index: Map<Seq<char>, EntryView>,
    path: Seq<char>,
    hash: Seq<u8>,
    size: u64,
    other: Seq<char>,
)
    requires
        hash.len() == 32,
        other != path,
    ensures
        located(index.insert(path, EntryView { hash: hex_text(hash), size }), path) == Ok::<
            _,
            StoreError,
        >(Some(hash)),
        located(index.insert(path, EntryView { hash: hex_text(hash), size }), other) == located(
            index,
            other,
        ),
{
    lemma_blob_hash_round_trip(hash);
}

/// A blob that is put at a path takes the place of the one before: it is the one that is read,
/// and no more paths are indexed than before.
pub proof fn imports_replace(
    index: Map<Seq<char>, EntryView>,
    path: Seq<char>,
    before: EntryView,
    after: EntryView,
)
    requires
        index.dom().finite(),
    ensures
        index.insert(path, before).insert(path, after) == index.insert(path, after),
        index.insert(path, before).insert(path, after).len() == index.insert(path, before).len(),
{
    assert(index.insert(path, before).insert(path, after) =~= index.insert(path, after));
    assert(index.insert(path, before).insert(path, after).dom() =~= index.insert(
        path,
        before,
    ).dom());
}

/// Whatever a node announced is ignored where it comes back to it.
pub proof fn own_announcements_are_ignored(
    gossip: GossipView,
    announcement: AnnouncementView,
)
    requires
        announcement.node_id == gossip.node_id,
    ensures
        gossip.reaction(crate::gossip::EventView::Received(Some(announcement)))
            == crate::gossip::ActionView::Ignore,
{
}

/// An announced archive is asked for by every other node that replicates: by the announced path
/// and hash, from the node that announced it.
pub proof fn announced_archives_are_requested(
    gossip: GossipView,
    node_id: Seq<char>,
    country: Seq<char>,
    subdivision: Seq<char>,
    date: Seq<char>,
    hash: Seq<char>,
    path: Seq<char>,
    size: u64,
)
    requires
        gossip.forwards,
        gossip.node_id != node_id,
        path.len() > 0,
    ensures
        gossip.reaction(
            crate::gossip::EventView::Received(
                Some(announcement_of(node_id, country, subdivision, date, hash, path, size)),
            ),
        ) == crate::gossip::ActionView::Forward(
            FetchView { hash, path, country, subdivision, size, source_node: node_id },
        ),
{
}

/// An announcement without a path but with a date `year-month-day` is kept below its place and
/// date.
pub proof fn dated_announcements_have_paths(
    announcement: AnnouncementView,
    year: Seq<char>,
    month: Seq<char>,
    day: Seq<char>,
)
    requires
        announcement.path.len() == 0,
        announcement.date == year.push('-') + month.push('-') + day,
        !year.contains('-'),
        !month.contains('-'),
        !day.contains('-'),
    ensures
        fetch_path(announcement) == Some(
            dated_path(announcement.country, announcement.subdivision, year, month, day),
        ),
{
    let rest = month.push('-') + day;
    assert(announcement.date =~= year.push('-') + rest);
    lemma_split_join(year, rest, '-');
    lemma_split_join(month, day, '-');
    lemma_split_plain(year, '-');
    lemma_split_plain(month, '-');
    lemma_split_plain(day, '-');
    assert(split_on(announcement.date, '-') =~= seq![year, month, day]);
}

/// An announcement without a path leads to a request if and only if its date has two dashes.
pub proof fn pathless_announcements_need_a_date(announcement: AnnouncementView)
    requires
        announcement.path.len() == 0,
    ensures
        fetch_of(announcement) is Some <==> announcement.date.filter(
            |c: char| c == '-',
        ).len() == 2,
{
    lemma_split_count(announcement.date, '-');
}

/// The state of a gossip handle after some events.
pub open spec fn after_events(
    gossip: GossipView,
    events: Seq<crate::gossip::EventView>,
) -> GossipView
    decreases events.len(),
{
    if events.len() == 0 {
        gossip
    } else {
        after_events(gossip, events.drop_last()).after(events.last())
    }
}

/// How many peers connected, less how many disconnected.
pub open spec fn balance(events: Seq<crate::gossip::EventView>) -> int
    decreases events.len(),
{
    if events.len() == 0 {
        0
    } else {
        balance(events.drop_last()) + (match events.last() {
            crate::gossip::EventView::NeighborUp => 1int,
            crate::gossip::EventView::NeighborDown => -1int,
            _ => 0int,
        })
    }
}

/// The requests that a gossip handle forwards over some events, in their order.
pub open spec fn forwarded(gossip: GossipView, events: Seq<crate::gossip::EventView>) -> Seq<
    FetchView,
>
    decreases events.len(),
{
    if events.len() == 0 {
        Seq::empty()
    } else {
        let before = forwarded(gossip, events.drop_last());
        match after_events(gossip, events.drop_last()).reaction(events.last()) {
            crate::gossip::ActionView::Forward(request) => before.push(request),
            _ => before,
        }
    }
}

/// The request that an event asks of node `node_id`: one for the archive that another node
/// announced, where there is a path to keep it at.
pub open spec fn asked_by(node_id: Seq<char>, event: crate::gossip::EventView) -> Option<FetchView> {
    match event {
        crate::gossip::EventView::Received(Some(announcement)) => if announcement.node_id
            == node_id {
            None
        } else {
            fetch_of(announcement)
        },
        _ => None,
    }
}

/// The requests that some events ask of node `node_id`, in their order, repeats kept.
pub open spec fn asked(node_id: Seq<char>, events: Seq<crate::gossip::EventView>) -> Seq<FetchView>
    decreases events.len(),
{
    if events.len() == 0 {
        Seq::empty()
    } else {
        let before = asked(node_id, events.drop_last());
        match asked_by(node_id, events.last()) {
            Some(request) => before.push(request),
            None => before,
        }
    }
}

/// No event changes who a node is or whether it replicates.
proof fn lemma_events_keep_the_node(gossip: GossipView, events: Seq<crate::gossip::EventView>)
    ensures
        after_events(gossip, events) == (GossipView {
            connected: after_events(gossip, events).connected,
            ..gossip
        }),
    decreases events.len(),
{
    if events.len() > 0 {
        lemma_events_keep_the_node(gossip, events.drop_last());
    }
}

/// Over any events, a node that replicates forwards the requests for what other nodes announced,
/// each as often as it was announced and in that order, and nothing else; one that does not
/// replicate forwards nothing.
pub proof fn forwarded_requests_are_those_asked_for(
    gossip: GossipView,
    events: Seq<crate::gossip::EventView>,
)
    ensures
        forwarded(gossip, events) == (if gossip.forwards {
            asked(gossip.node_id, events)
        } else {
            Seq::empty()
        }),
    decreases events.len(),
{
    if events.len() > 0 {
        forwarded_requests_are_those_asked_for(gossip, events.drop_last());
        lemma_events_keep_the_node(gossip, events.drop_last());
    }
}

/// As long as no more peers disconnect than are connected, the handle counts the connected
/// peers; and nothing else of it changes by any event.
pub proof fn connected_peers_are_counted(
    gossip: GossipView,
    events: Seq<crate::gossip::EventView>,
)
    requires
        forall|n: int|
            0 <= n <= events.len() ==> 0 <= gossip.connected + #[trigger] balance(events.take(n))
                <= usize::MAX,
    ensures
        after_events(gossip, events) == (GossipView {
            connected: (gossip.connected + balance(events)) as usize,
            ..gossip
        }),
    decreases events.len(),
{
    assert(events.take(events.len() as int) =~= events);
    if events.len() > 0 {
        let front = events.drop_last();
        assert forall|n: int| 0 <= n <= front.len() implies 0 <= gossip.connected
            + #[trigger] balance(front.take(n)) <= usize::MAX by {
            assert(front.take(n) =~= events.take(n));
        }
        assert(front.take(front.len() as int) =~= front);
        connected_peers_are_counted(gossip, front);
    }
}

/// A handle with no connected peers counts none after a disconnection.
pub proof fn no_fewer_than_none_are_connected(gossip: GossipView)
    requires
        gossip.connected == 0,
    ensures
        gossip.after(crate::gossip::EventView::NeighborDown) == gossip,
{
}

/// A catch-up that went on past some archives; for each, whether there was an announcement of it.
pub open spec fn after_archives(state: CatchUpView, made: Seq<bool>) -> CatchUpView
    decreases made.len(),
{
    if made.len() == 0 {
        state
    } else {
        after_archives(state, made.drop_last()).after(made.last())
    }
}

/// A catch-up comes by every archive, one after the other and each once, and counts those of
/// which there was an announcement.
pub proof fn catch_ups_come_by_every_archive(state: CatchUpView, made: Seq<bool>)
    requires
        state.position == 0,
        state.announced == 0,
        made.len() <= state.archives.len(),
    ensures
        after_archives(state, made) == (CatchUpView {
            position: made.len() as int,
            announced: made.filter(|m: bool| m).len() as int,
            ..state
        }),
        after_archives(state, made).wf(),
    decreases made.len(),
{
    reveal(Seq::filter);
    if made.len() > 0 {
        catch_ups_come_by_every_archive(state, made.drop_last());
    }
}

/// A catch-up after it went on `n` times. `places` gives the place that a path names.
pub open spec fn catch_up_at(
    state: CatchUpView,
    places: spec_fn(Seq<char>) -> Option<ArchivePlace>,
    n: nat,
) -> CatchUpView
    decreases n,
{
    if n == 0 {
        state
    } else {
        let before = catch_up_at(state, places, (n - 1) as nat);
        before.after(before.next(places(before.archives[before.position].path@)) is Some)
    }
}

/// What a catch-up has said after it went on `n` times.
pub open spec fn catch_up_said(
    state: CatchUpView,
    places: spec_fn(Seq<char>) -> Option<ArchivePlace>,
    n: nat,
) -> Seq<AnnouncementView>
    decreases n,
{
    if n == 0 {
        Seq::empty()
    } else {
        let before = catch_up_at(state, places, (n - 1) as nat);
        let said = catch_up_said(state, places, (n - 1) as nat);
        match before.next(places(before.archives[before.position].path@)) {
            Some(announcement) => said.push(announcement),
            None => said,
        }
    }
}

/// What node `node_id` says of an entry of its index, given the place that its path names.
pub open spec fn entry_announcement(
    node_id: Seq<char>,
    place: ArchivePlace,
    path: Seq<char>,
    entry: EntryView,
) -> AnnouncementView {
    announcement_of(
        node_id,
        place.country@,
        place.subdivision@,
        place.date@,
        entry.hash,
        path,
        entry.size,
    )
}

/// How far a catch-up is after it went on `n` times, and what it has said: of each archive that is
/// behind and whose path names a place, in their order.
proof fn lemma_catch_up(
    state: CatchUpView,
    places: spec_fn(Seq<char>) -> Option<ArchivePlace>,
    n: nat,
)
    requires
        state.position == 0,
        state.announced == 0,
        n <= state.archives.len(),
        distinct_paths(state.archives),
    ensures
        catch_up_at(state, places, n) == (CatchUpView {
            position: n as int,
            announced: catch_up_said(state, places, n).len() as int,
            ..state
        }),
        forall|k: int|
            0 <= k < catch_up_said(state, places, n).len() ==> exists|i: int|
                0 <= i < n && (#[trigger] catch_up_said(state, places, n)[k]).path == (
                #[trigger] state.archives[i]).path@ && places(state.archives[i].path@) is Some
                    && catch_up_said(state, places, n)[k] == entry_announcement(
                    state.node_id,
                    places(state.archives[i].path@)->0,
                    state.archives[i].path@,
                    state.archives[i].entry@,
                ),
        forall|i: int|
            0 <= i < n && places((#[trigger] state.archives[i]).path@) is Some
                ==> catch_up_said(state, places, n).contains(
                entry_announcement(
                    state.node_id,
                    places(state.archives[i].path@)->0,
                    state.archives[i].path@,
                    state.archives[i].entry@,
                ),
            ),
        forall|k: int, l: int|
            0 <= k < l < catch_up_said(state, places, n).len() ==> (
            #[trigger] catch_up_said(state, places, n)[k]).path != (#[trigger] catch_up_said(
                state,
                places,
                n,
            )[l]).path,
    decreases n,
{
    if n > 0 {
        let m = (n - 1) as nat;
        lemma_catch_up(state, places, m);
        let said = catch_up_said(state, places, m);
        let all = catch_up_said(state, places, n);
        let archive = state.archives[m as int];
        if places(archive.path@) is Some {
            let new = entry_announcement(
                state.node_id,
                places(archive.path@)->0,
                archive.path@,
                archive.entry@,
            );
            assert(all == said.push(new));
            assert(all[said.len() as int] == new);
            assert forall|k: int| 0 <= k < said.len() implies (#[trigger] said[k]).path
                != archive.path@ by {
                let i = choose|i: int|
                    0 <= i < m && said[k].path == (#[trigger] state.archives[i]).path@ && places(
                        state.archives[i].path@,
                    ) is Some && said[k] == entry_announcement(
                        state.node_id,
                        places(state.archives[i].path@)->0,
                        state.archives[i].path@,
                        state.archives[i].entry@,
                    );
                assert(state.archives[i].path@ == said[k].path);
                assert(state.archives[m as int].path@ == archive.path@);
            }
        } else {
            assert(all == said);
        }
        assert forall|k: int| 0 <= k < all.len() implies exists|i: int|
            0 <= i < n && (#[trigger] all[k]).path == (#[trigger] state.archives[i]).path@
                && places(state.archives[i].path@) is Some && all[k] == entry_announcement(
                state.node_id,
                places(state.archives[i].path@)->0,
                state.archives[i].path@,
                state.archives[i].entry@,
            ) by {
            if k < said.len() {
                assert(all[k] == said[k]);
            } else {
                assert(all[k].path == state.archives[m as int].path@);
            }
        }
        assert forall|i: int|
            0 <= i < n && places((#[trigger] state.archives[i]).path@) is Some implies all.contains(
            entry_announcement(
                state.node_id,
                places(state.archives[i].path@)->0,
                state.archives[i].path@,
                state.archives[i].entry@,
            ),
        ) by {
            if i < m {
                let wanted = entry_announcement(
                    state.node_id,
                    places(state.archives[i].path@)->0,
                    state.archives[i].path@,
                    state.archives[i].entry@,
                );
                assert(said.contains(wanted));
                let k = choose|k: int| 0 <= k < said.len() && said[k] == wanted;
                assert(all[k] == wanted);
            }
        }
    }
}

/// A whole catch-up over the archives of an index announces every entry whose path names a place,
/// as it stands in the index; it announces nothing else, and nothing twice; and it counts what it
/// announced.
pub proof fn catch_ups_announce_the_index(
    state: CatchUpView,
    places: spec_fn(Seq<char>) -> Option<ArchivePlace>,
    index: Map<Seq<char>, EntryView>,
)
    requires
        state.position == 0,
        state.announced == 0,
        distinct_paths(state.archives),
        archive_map(state.archives) == index,
    ensures
        ({
            let said = catch_up_said(state, places, state.archives.len());
            let end = catch_up_at(state, places, state.archives.len());
            &&& end.position == state.archives.len()
            &&& end.announced == said.len()
            &&& forall|path: Seq<char>| #[trigger]
                index.contains_key(path) && places(path) is Some ==> said.contains(
                    entry_announcement(state.node_id, places(path)->0, path, index[path]),
                )
            &&& forall|k: int|
                0 <= k < said.len() ==> {
                    let path = (#[trigger] said[k]).path;
                    &&& index.contains_key(path)
                    &&& places(path) is Some
                    &&& said[k] == entry_announcement(
                        state.node_id,
                        places(path)->0,
                        path,
                        index[path],
                    )
                }
            &&& forall|k: int, l: int|
                0 <= k < l < said.len() ==> (#[trigger] said[k]).path != (#[trigger] said[l]).path
        }),
{
    lemma_catch_up(state, places, state.archives.len());
    lemma_archive_map(state.archives);
    let said = catch_up_said(state, places, state.archives.len());
    assert forall|path: Seq<char>| #[trigger]
        index.contains_key(path) && places(path) is Some implies said.contains(
        entry_announcement(state.node_id, places(path)->0, path, index[path]),
    ) by {
        let i = choose|i: int|
            0 <= i < state.archives.len() && #[trigger] state.archives[i].path@ == path;
        assert(state.archives[i].path@ == path);
    }
}

/// What a catch-up says of an archive is what every other node that replicates asks for.
pub proof fn catch_ups_lead_to_requests(
    state: CatchUpView,
    place: ArchivePlace,
    gossip: GossipView,
)
    requires
        state.wf(),
        state.position < state.archives.len(),
        state.archives[state.position].path@.len() > 0,
        gossip.forwards,
        gossip.node_id != state.node_id,
    ensures
        state.next(Some(place)) is Some,
        gossip.reaction(crate::gossip::EventView::Received(state.next(Some(place))))
            == crate::gossip::ActionView::Forward(
            FetchView {
                hash: state.archives[state.position].entry@.hash,
                path: state.archives[state.position].path@,
                country: place.country@,
                subdivision: place.subdivision@,
                size: state.archives[state.position].entry@.size,
                source_node: state.node_id,
            },
        ),
{
}

/// Once an archive is indexed, a further request for it is skipped.
pub proof fn indexed_archives_are_not_fetched_again(
    index: Map<Seq<char>, EntryView>,
    request: FetchView,
    entry: EntryView,
)
    requires
        !is_sync(request.path),
    ensures
        decision_of(index.insert(request.path, entry), request, true) == Ok::<_, FetchError>(
            DecisionView::Skip(Skip::Existing),
        ),
{
}

/// An archive outside the scope of a node is never fetched, whatever the request says of it and
/// whatever is indexed.
pub proof fn archives_out_of_scope_are_not_fetched(
    index: Map<Seq<char>, EntryView>,
    request: FetchView,
)
    requires
        !is_sync(request.path),
    ensures
        decision_of(index, request, false) == Ok::<_, FetchError>(
            DecisionView::Skip(Skip::OutOfScope),
        ),
{
}

/// What is kept for synchronisation is fetched whatever the scope is and whatever is indexed.
pub proof fn synchronisation_is_never_skipped(
    index: Map<Seq<char>, EntryView>,
    request: FetchView,
    in_scope: bool,
)
    requires
        is_sync(request.path),
    ensures
        decision_of(index, request, in_scope) == download_of(
            blob_hash_of(request.hash),
            node_key_of(request.source_node),
        ),
{
}

/// An archive that one node imported and announced is the archive that another downloads and
/// then reads: the same blob, from the node that announced it, at the same path.
pub proof fn archives_travel(
    gossip: GossipView,
    index: Map<Seq<char>, EntryView>,
    node_id: Seq<char>,
    key: Seq<u8>,
    country: Seq<char>,
    subdivision: Seq<char>,
    date: Seq<char>,
    hash: Seq<u8>,
    path: Seq<char>,
    size: u64,
)
    requires
        gossip.forwards,
        gossip.node_id != node_id,
        node_key_of(node_id) == Some(key),
        hash.len() == 32,
        path.len() > 0,
        is_sync(path) || !index.contains_key(path),
    ensures
        ({
            let announcement = announcement_of(
                node_id,
                country,
                subdivision,
                date,
                hex_text(hash),
                path,
                size,
            );
            let action = gossip.reaction(
                crate::gossip::EventView::Received(Some(announcement)),
            );
            &&& action is Forward
            &&& decision_of(index, action->Forward_0, true) == Ok::<_, FetchError>(
                DecisionView::Download { hash, providers: seq![key] },
            )
            &&& located(
                index.insert(
                    action->Forward_0.path,
                    EntryView { hash: action->Forward_0.hash, size: action->Forward_0.size },
                ),
                path,
            ) == Ok::<_, StoreError>(Some(hash))
        }),
{
    lemma_blob_hash_round_trip(hash);
}

/// The sum of the counters.
pub open spec fn total_count(stats: StatsView) -> int {
    stats.replicated + stats.skipped_existing + stats.skipped_scope + stats.failed
}

/// The counters after a request: after the decision; after the download, where one was decided on,
/// which ended as `finished` says; and after the count of what failed.
pub open spec fn stats_of_request(
    stats: StatsView,
    path: Seq<char>,
    outcome: Result<DecisionView, FetchError>,
    finished: Result<(), FetchError>,
) -> StatsView {
    let decided = stats_after(stats, outcome);
    match outcome {
        Ok(DecisionView::Skip(_)) => outcome_counted(decided, Ok(())),
        Ok(DecisionView::Download { .. }) => outcome_counted(
            if finished is Ok {
                decided.with_replicated(path)
            } else {
                decided
            },
            finished,
        ),
        Err(error) => outcome_counted(decided, Err(error)),
    }
}

/// What becomes of a request.
pub enum Fate {
    Replicated,
    Existing,
    OutOfScope,
    Failed,
}

/// What becomes of a request, by the decision and, where that is a download, by how it ended.
pub open spec fn fate_of(
    outcome: Result<DecisionView, FetchError>,
    finished: Result<(), FetchError>,
) -> Fate {
    match outcome {
        Ok(DecisionView::Skip(Skip::OutOfScope)) => Fate::OutOfScope,
        Ok(DecisionView::Skip(Skip::Existing)) => Fate::Existing,
        Ok(DecisionView::Download { .. }) => if finished is Ok {
            Fate::Replicated
        } else {
            Fate::Failed
        },
        Err(_) => Fate::Failed,
    }
}

/// The counter of a fate.
pub open spec fn counter_of(stats: StatsView, fate: Fate) -> u64 {
    match fate {
        Fate::Replicated => stats.replicated,
        Fate::Existing => stats.skipped_existing,
        Fate::OutOfScope => stats.skipped_scope,
        Fate::Failed => stats.failed,
    }
}

/// Whatever becomes of a request, it is counted once, by the counter of its fate.
pub proof fn requests_are_counted_once(
    stats: StatsView,
    path: Seq<char>,
    outcome: Result<DecisionView, FetchError>,
    finished: Result<(), FetchError>,
)
    requires
        counter_of(stats, fate_of(outcome, finished)) < u64::MAX,
    ensures
        total_count(stats_of_request(stats, path, outcome, finished)) == total_count(stats) + 1,
        forall|fate: Fate| #[trigger]
            counter_of(stats_of_request(stats, path, outcome, finished), fate) == counter_of(
                stats,
                fate,
            ) + (if fate == fate_of(outcome, finished) {
                1int
            } else {
                0
            }),
{
}

/// A request that is through: its path, the decision about it and how its download ended.
pub struct Handled {
    pub path: Seq<char>,
    pub outcome: Result<DecisionView, FetchError>,
    pub finished: Result<(), FetchError>,
}

/// The counters after some requests.
pub open spec fn stats_of_requests(stats: StatsView, requests: Seq<Handled>) -> StatsView
    decreases requests.len(),
{
    if requests.len() == 0 {
        stats
    } else {
        stats_of_request(
            stats_of_requests(stats, requests.drop_last()),
            requests.last().path,
            requests.last().outcome,
            requests.last().finished,
        )
    }
}

/// How many of some requests have a fate.
pub open spec fn fate_count(requests: Seq<Handled>, fate: Fate) -> nat
    decreases requests.len(),
{
    if requests.len() == 0 {
        0
    } else {
        fate_count(requests.drop_last(), fate) + (if fate_of(
            requests.last().outcome,
            requests.last().finished,
        ) == fate {
            1nat
        } else {
            0
        })
    }
}

/// Over any requests, each counter grows by the number of those with its fate, the failures by the
/// number of those that failed, and all counters together by the number of requests.
pub proof fn all_requests_are_counted(stats: StatsView, requests: Seq<Handled>)
    requires
        forall|fate: Fate|
            counter_of(stats, fate) + #[trigger] fate_count(requests, fate) <= u64::MAX,
    ensures
        forall|fate: Fate| #[trigger]
            counter_of(stats_of_requests(stats, requests), fate) == counter_of(stats, fate)
                + fate_count(requests, fate),
        total_count(stats_of_requests(stats, requests)) == total_count(stats) + requests.len(),
    decreases requests.len(),
{
    if requests.len() > 0 {
        let front = requests.drop_last();
        let last = requests.last();
        let before = stats_of_requests(stats, front);
        let fate = fate_of(last.outcome, last.finished);
        assert forall|fate: Fate|
            counter_of(stats, fate) + #[trigger] fate_count(front, fate) <= u64::MAX by {
            assert(fate_count(requests, fate) >= fate_count(front, fate));
        }
        all_requests_are_counted(stats, front);
        assert(fate_count(requests, fate) == fate_count(front, fate) + 1);
        assert(counter_of(before, fate) < u64::MAX);
        requests_are_counted_once(before, last.path, last.outcome, last.finished);
    }
}

/// A request that fails raises the failures and changes no other counter, whether it fails at the
/// decision or in the download.
pub proof fn failures_change_no_other_counter(
    stats: StatsView,
    path: Seq<char>,
    outcome: Result<DecisionView, FetchError>,
    finished: Result<(), FetchError>,
)
    requires
        outcome is Err || (outcome matches Ok(DecisionView::Download { .. }) && finished is Err),
    ensures
        stats_of_request(stats, path, outcome, finished) == stats.with_failure(),
{
}

/// Something that the counters take in.
pub enum Record {
    Replicated(Seq<char>),
    Existing,
    OutOfScope,
    Failure,
    Reconciliation(Seq<char>),
}

/// The counters after some records.
pub open spec fn after_records(stats: StatsView, records: Seq<Record>) -> StatsView
    decreases records.len(),
{
    if records.len() == 0 {
        stats
    } else {
        let before = after_records(stats, records.drop_last());
        match records.last() {
            Record::Replicated(path) => before.with_replicated(path),
            Record::Existing => before.with_existing(),
            Record::OutOfScope => before.with_out_of_scope(),
            Record::Failure => before.with_failure(),
            Record::Reconciliation(now) => StatsView { last_reconciliation: Some(now), ..before },
        }
    }
}

/// The path of the last archive that was recorded as replicated.
pub open spec fn latest_replicated(records: Seq<Record>) -> Option<Seq<char>>
    decreases records.len(),
{
    if records.len() == 0 {
        None
    } else {
        match records.last() {
            Record::Replicated(path) => Some(path),
            _ => latest_replicated(records.drop_last()),
        }
    }
}

/// The time of the last recorded reconciliation.
pub open spec fn latest_reconciliation(records: Seq<Record>) -> Option<Seq<char>>
    decreases records.len(),
{
    if records.len() == 0 {
        None
    } else {
        match records.last() {
            Record::Reconciliation(now) => Some(now),
            _ => latest_reconciliation(records.drop_last()),
        }
    }
}

/// Of new counters, the last replicated archive and the last reconciliation are the latest that
/// were recorded, and none where none was.
pub proof fn the_latest_records_are_kept(stats: StatsView, records: Seq<Record>)
    requires
        stats.last_replicated is None,
        stats.last_reconciliation is None,
    ensures
        after_records(stats, records).last_replicated == latest_replicated(records),
        after_records(stats, records).last_reconciliation == latest_reconciliation(records),
    decreases records.len(),
{
    if records.len() > 0 {
        the_latest_records_are_kept(stats, records.drop_last());
    }
}

/// The member that was added last is found first.
proof fn lemma_lookup_push(
    members: Seq<(Seq<char>, JsonTree)>,
    member: (Seq<char>, JsonTree),
    key: Seq<char>,
)
    ensures
        lookup(members.push(member), key) == (if member.0 == key {
            member.1
        } else {
            lookup(members, key)
        }),
{
    assert(members.push(member).drop_last() =~= members);
}

/// The texts in an array of strings are those that it was made of.
proof fn lemma_text_items(list: Seq<Seq<char>>)
    ensures
        text_items(list.map_values(|text: Seq<char>| JsonTree::Text(text))) == list,
    decreases list.len(),
{
    let trees = list.map_values(|text: Seq<char>| JsonTree::Text(text));
    if list.len() > 0 {
        lemma_text_items(list.drop_last());
        assert(trees.drop_last() =~= list.drop_last().map_values(
            |text: Seq<char>| JsonTree::Text(text),
        ));
        assert(list.drop_last().push(list.last()) =~= list);
    } else {
        assert(text_items(trees) =~= list);
    }
}

/// What a node registers of itself is what other nodes read: its ID, its port, its relays, and
/// its address unless it stands behind a proxy.
pub proof fn registrations_are_read_back(config: ConfigView, node_id: Seq<char>)
    ensures
        record_of(node_registration(config, node_id).body) == (RecordView {
            node_id: Some(node_id),
            address: if config.wesense_proxy is None {
                config.announce_address
            } else {
                None
            },
            quic_port: Some(config.quic_port as u64),
            http_port: Some(config.port as u64),
            relay_urls: config.relay_urls,
        }),
{
    reveal_strlit("iroh_node_id");
    reveal_strlit("iroh_quic_port");
    reveal_strlit("archive_replicator_port");
    reveal_strlit("type");
    reveal_strlit("iroh_address");
    reveal_strlit("iroh_relay_urls");
    assert("iroh_node_id"@.len() == 12 && "iroh_node_id"@[5] == 'n');
    assert("iroh_address"@.len() == 12 && "iroh_address"@[5] == 'a');
    assert("iroh_quic_port"@.len() == 14);
    assert("iroh_relay_urls"@.len() == 15);
    assert("archive_replicator_port"@.len() == 23);
    assert("type"@.len() == 4);
    let none = Seq::<(Seq<char>, JsonTree)>::empty();
    let m1 = ("iroh_node_id"@, JsonTree::Text(node_id));
    let m2 = ("iroh_quic_port"@, JsonTree::Number(Some(config.quic_port as u64)));
    let m3 = ("archive_replicator_port"@, JsonTree::Number(Some(config.port as u64)));
    let m4 = ("type"@, JsonTree::Text(crate::registry::NODE_TYPE@));
    let base = base_members(config, node_id);
    assert(base =~= none.push(m1).push(m2).push(m3).push(m4));
    let with_address = base + address_members(config);
    let all = with_address + relay_members(config);
    assert forall|key: Seq<char>| #[trigger] lookup(base, key) == (if key == m4.0 {
        m4.1
    } else if key == m3.0 {
        m3.1
    } else if key == m2.0 {
        m2.1
    } else if key == m1.0 {
        m1.1
    } else {
        JsonTree::Null
    }) by {
        lemma_lookup_push(none, m1, key);
        lemma_lookup_push(none.push(m1), m2, key);
        lemma_lookup_push(none.push(m1).push(m2), m3, key);
        lemma_lookup_push(none.push(m1).push(m2).push(m3), m4, key);
    }
    assert forall|key: Seq<char>| #[trigger] lookup(with_address, key) == (if key
        == "iroh_address"@ && address_members(config).len() > 0 {
        address_members(config)[0].1
    } else {
        lookup(base, key)
    }) by {
        if address_members(config).len() > 0 {
            assert(with_address =~= base.push(address_members(config)[0]));
            lemma_lookup_push(base, address_members(config)[0], key);
        } else {
            assert(with_address =~= base);
        }
    }
    assert forall|key: Seq<char>| #[trigger] lookup(all, key) == (if key == "iroh_relay_urls"@
        && relay_members(config).len() > 0 {
        relay_members(config)[0].1
    } else {
        lookup(with_address, key)
    }) by {
        if relay_members(config).len() > 0 {
            assert(all =~= with_address.push(relay_members(config)[0]));
            lemma_lookup_push(with_address, relay_members(config)[0], key);
        } else {
            assert(all =~= with_address);
        }
    }
    lemma_text_items(config.relay_urls);
    let record = record_of(node_registration(config, node_id).body);
    assert(node_registration(config, node_id).body == JsonTree::Object(all));
    assert(record.relay_urls =~= config.relay_urls);
}

/// A peer was registered by another node, under an ID that is a key.
pub proof fn peers_are_other_nodes(
    tls_enabled: bool,
    own_node_id: Seq<char>,
    list: Seq<RecordView>,
    ips: Seq<Option<IpAddress>>,
)
    ensures
        forall|i: int|
            0 <= i < peers_of(tls_enabled, own_node_id, list, ips).len() ==> {
                let peer = #[trigger] peers_of(tls_enabled, own_node_id, list, ips)[i];
                &&& peer.node_id != own_node_id
                &&& peer.node_id.len() > 0
                &&& node_key_of(peer.node_id) == Some(peer.address.key)
            },
    decreases list.len(),
{
    if list.len() > 0 {
        peers_are_other_nodes(tls_enabled, own_node_id, list.drop_last(), ips);
    }
}

/// Whoever is listed and is a peer is found.
pub proof fn listed_peers_are_found(
    tls_enabled: bool,
    own_node_id: Seq<char>,
    list: Seq<RecordView>,
    ips: Seq<Option<IpAddress>>,
    i: int,
)
    requires
        0 <= i < list.len(),
        peer_of(tls_enabled, own_node_id, list[i], ips[i]) is Some,
    ensures
        peers_of(tls_enabled, own_node_id, list, ips).contains(peer_of(tls_enabled, own_node_id, list[i], ips[i])->0),
    decreases list.len(),
{
    let peer = peer_of(tls_enabled, own_node_id, list[i], ips[i])->0;
    let all = peers_of(tls_enabled, own_node_id, list, ips);
    let front = peers_of(tls_enabled, own_node_id, list.drop_last(), ips);
    if i == list.len() - 1 {
        assert(all[all.len() - 1] == peer);
    } else {
        listed_peers_are_found(tls_enabled, own_node_id, list.drop_last(), ips, i);
        let k = choose|k: int| 0 <= k < front.len() && front[k] == peer;
        assert(all[k] == peer);
    }
}

/// Whoever is found is listed, with the ID, the URL and the address that follow from the listing.
pub proof fn found_peers_are_listed(
    tls_enabled: bool,
    own_node_id: Seq<char>,
    list: Seq<RecordView>,
    ips: Seq<Option<IpAddress>>,
)
    ensures
        forall|k: int|
            0 <= k < peers_of(tls_enabled, own_node_id, list, ips).len() ==> exists|i: int|
                0 <= i < list.len() && peer_of(tls_enabled, own_node_id, #[trigger] list[i], ips[i])
                    == Some(#[trigger] peers_of(tls_enabled, own_node_id, list, ips)[k]),
    decreases list.len(),
{
    if list.len() > 0 {
        let front = list.drop_last();
        let found = peers_of(tls_enabled, own_node_id, front, ips);
        let all = peers_of(tls_enabled, own_node_id, list, ips);
        found_peers_are_listed(tls_enabled, own_node_id, front, ips);
        assert forall|k: int| 0 <= k < all.len() implies exists|i: int|
            0 <= i < list.len() && peer_of(tls_enabled, own_node_id, #[trigger] list[i], ips[i])
                == Some(#[trigger] all[k]) by {
            if k < found.len() {
                let i = choose|i: int|
                    0 <= i < front.len() && peer_of(
                        tls_enabled,
                        own_node_id,
                        #[trigger] front[i],
                        ips[i],
                    ) == Some(found[k]);
                assert(list[i] == front[i]);
            } else {
                assert(list[list.len() - 1] == list.last());
            }
        }
    }
}

/// Only peers that can be reached are joined, and all of them are.
pub proof fn reachable_peers_are_joined(peers: Seq<PeerView>)
    ensures
        forall|i: int|
            0 <= i < reachable_of(peers).len() ==> (#[trigger] reachable_of(peers)[i]).reachable(),
        forall|i: int|
            0 <= i < peers.len() && (#[trigger] peers[i]).address.reachable() ==> reachable_of(
                peers,
            ).contains(peers[i].address),
{
    let places = peers.map_values(|peer: PeerView| peer.address);
    let wanted = |address: AddressView| address.reachable();
    places.filter_lemma(wanted);
    assert forall|i: int|
        0 <= i < peers.len() && (#[trigger] peers[i]).address.reachable() implies reachable_of(
        peers,
    ).contains(peers[i].address) by {
        assert(wanted(places[i]));
    }
}

/// How a node is reached, by its registration and the address that its text stands for.
pub open spec fn registered_address(
    config: ConfigView,
    key: Seq<u8>,
    ip: Option<IpAddress>,
) -> AddressView {
    AddressView {
        key,
        direct: if config.wesense_proxy is None && config.announce_address is Some
            && config.announce_address->0.len() > 0 && ip is Some {
            Some((ip->0, config.quic_port))
        } else {
            None
        },
        relays: relays_of(config.relay_urls),
    }
}

/// Where a node answers HTTP, by its registration and the address that its text stands for: at
/// the address and the port that it was configured with, unless it stands behind a proxy.
pub open spec fn registered_url(
    config: ConfigView,
    tls_enabled: bool,
    ip: Option<IpAddress>,
) -> Option<Seq<char>> {
    if config.wesense_proxy is None && config.announce_address is Some
        && config.announce_address->0.len() > 0 {
        Some(
            scheme_of(tls_enabled) + "://"@ + host_of(config.announce_address->0, ip) + ":"@
                + decimal(config.port as nat),
        )
    } else {
        None
    }
}

/// A registered node is found by every other node to which the registry lists it, under its key
/// and with its URL, its port and its relays; and it is joined where it can be reached.
pub proof fn registered_nodes_are_found(
    config: ConfigView,
    node_id: Seq<char>,
    key: Seq<u8>,
    tls_enabled: bool,
    own_node_id: Seq<char>,
    list: Seq<RecordView>,
    ips: Seq<Option<IpAddress>>,
    i: int,
)
    requires
        node_key_of(node_id) == Some(key),
        node_id != own_node_id,
        0 <= i < list.len(),
        list[i] == record_of(node_registration(config, node_id).body),
    ensures
        peers_of(tls_enabled, own_node_id, list, ips).contains(
            PeerView {
                node_id,
                http_url: registered_url(config, tls_enabled, ips[i]),
                address: registered_address(config, key, ips[i]),
            },
        ),
        registered_address(config, key, ips[i]).reachable() ==> reachable_of(
            peers_of(tls_enabled, own_node_id, list, ips),
        ).contains(registered_address(config, key, ips[i])),
{
    registrations_are_read_back(config, node_id);
    listed_peers_are_found(tls_enabled, own_node_id, list, ips, i);
    let peer = peer_of(tls_enabled, own_node_id, list[i], ips[i])->0;
    let peers = peers_of(tls_enabled, own_node_id, list, ips);
    let k = choose|k: int| 0 <= k < peers.len() && peers[k] == peer;
    reachable_peers_are_joined(peers);
    assert(peers[k] == peer);
}

/// The proxy is asked who it is only where no peer found last has an ID that is a key; else the
/// first such peer is taken for it.
pub proof fn known_proxies_are_not_asked(state: LoopView, ip: IpAddress)
    requires
        state.phase == PhaseView::ResolvingProxy,
        state.config.wesense_proxy is Some,
    ensures
        match first_key_of(state.peers) {
            Some(key) => state.after(EventView::Resolved(seq![Some(ip)])) == state.join_proxy(
                key,
                ip,
            ),
            None => state.after(EventView::Resolved(seq![Some(ip)])).action is Get,
        },
{
}

/// Whatever happens, a discovery loop stays valid, and neither its configuration nor its node ID
/// changes.
pub proof fn discovery_keeps_its_identity(state: LoopView, event: EventView)
    requires
        state.wf(),
    ensures
        state.after(event).state.wf(),
        state.after(event).state.config == state.config,
        state.after(event).state.node_id == state.node_id,
{
}

/// The peers found last are replaced when a discovery is through, and at no other time.
pub proof fn peers_change_by_discovery_alone(state: LoopView, event: EventView)
    requires
        state.after(event).state.peers != state.peers,
    ensures
        state.phase is Resolving || state.phase is Joining,
{
}

/// An event that was not awaited changes nothing.
pub proof fn unexpected_events_change_nothing(state: LoopView, event: EventView)
    requires
        state.after(event).action is Unexpected,
    ensures
        state.after(event).state == state,
{
}

/// Whether an event tells how a request ended.
pub open spec fn ends_request(event: EventView) -> bool {
    event is Answered || event is Unanswered
}

/// Whether an event can come of an action.
pub open spec fn comes_of(event: EventView, action: ActionView) -> bool {
    match action {
        ActionView::Put(_) => ends_request(event),
        ActionView::Get(_) => ends_request(event),
        ActionView::Sleep(_) => event is Slept,
        ActionView::AwaitTick(_) => event is Ticked,
        ActionView::CountBlobs => event is Counted,
        ActionView::Resolve(list) => event matches EventView::Resolved(ips) && ips.len()
            == list.len(),
        ActionView::Connect(_) => event is Connected,
        ActionView::Unexpected => false,
    }
}

/// The loop never stops: whatever comes of what it asks for is awaited, and leads to something
/// else to do.
pub proof fn discovery_goes_on(state: LoopView, event: EventView, next: EventView)
    requires
        comes_of(next, state.after(event).action),
    ensures
        !(state.after(event).state.after(next).action is Unexpected),
{
}

/// A round goes on whatever the registry answers: the node registers anew, its blobs are counted
/// and told, and the nodes are listed.
pub proof fn rounds_go_on(
    state: LoopView,
    heartbeat: EventView,
    count: usize,
    guardian: EventView,
)
    requires
        state.phase == PhaseView::Waiting,
        ends_request(heartbeat),
        ends_request(guardian),
    ensures
        ({
            let s1 = state.after(EventView::Ticked);
            let s2 = s1.state.after(heartbeat);
            let s3 = s2.state.after(EventView::Counted(count));
            let s4 = s3.state.after(guardian);
            &&& s1.action == ActionView::Put(node_registration(state.config, state.node_id))
            &&& s2.action == ActionView::CountBlobs
            &&& s3.action == ActionView::Put(
                guardian_registration(state.config, state.node_id, count),
            )
            &&& s4 == state.to(PhaseView::Listing, ActionView::Get(node_listing(state.config)))
        }),
{
}

/// A listing that fails keeps the peers found before.
pub proof fn failed_listings_keep_peers(state: LoopView, status: u16, body: Seq<u8>)
    requires
        state.phase == PhaseView::Listing,
        listing_of(status, body) is Err,
    ensures
        state.after(EventView::Answered { status, body }) == state.turn_to_proxy(),
        state.after(EventView::Unanswered) == state.turn_to_proxy(),
        state.turn_to_proxy().state.peers == state.peers,
{
}

/// A loop that was begun and then was not answered `failures` times, waiting in between.
pub open spec fn after_failures(state: LoopView, failures: nat) -> Step
    decreases failures,
{
    if failures == 0 {
        state.after(EventView::Started)
    } else {
        let before = after_failures(state, (failures - 1) as nat).state;
        let trying = if failures == 1 {
            before
        } else {
            before.after(EventView::Slept).state
        };
        trying.after(EventView::Unanswered)
    }
}

/// The first registration is tried five times, with a wait of five seconds after the first
/// failure, ten after the second, and so on; after the last the loop goes on without.
pub proof fn registration_is_tried_five_times(state: LoopView, failures: nat)
    requires
        state.phase == PhaseView::Idle,
        1 <= failures <= REGISTRATION_ATTEMPTS,
    ensures
        failures < REGISTRATION_ATTEMPTS ==> after_failures(state, failures) == state.to(
            PhaseView::BackingOff(failures as u32),
            ActionView::Sleep((BACKOFF_SECS * failures) as u64),
        ),
        failures == REGISTRATION_ATTEMPTS ==> after_failures(state, failures) == state.rest(),
    decreases failures,
{
    reveal_with_fuel(after_failures, 2);
    if failures > 1 {
        registration_is_tried_five_times(state, (failures - 1) as nat);
    }
}

} // verus!
