//! What holds of gossip, said of what is announced, received and asked for.

use vstd::prelude::*;
use vstd::string::*;

use crate::gossip::{announcement_of, counted_down, counted_up, fetch_of, fetch_path};
use crate::gossip::{ActionView, AnnouncementView, ArchiveAnnouncement, ArchivePlace, CatchUpView};
use crate::gossip::{EventView, FetchRequest, FetchView, GossipAction, GossipEvent, GossipView};
use crate::text::{lemma_split_count, lemma_split_join, lemma_split_plain, split_on};

verus! {

/// An announcement is seen field by field.
pub proof fn announcements_are_seen(said: ArchiveAnnouncement)
    ensures
        said@.msg_type == said.msg_type@,
        said@.country == said.country@,
        said@.subdivision == said.subdivision@,
        said@.date == said.date@,
        said@.hash == said.hash@,
        said@.node_id == said.node_id@,
        said@.path == said.path@,
        said@.size == said.size,
{
}

/// A fetch request is seen field by field.
pub proof fn requests_are_seen(request: FetchRequest)
    ensures
        request@.hash == request.hash@,
        request@.path == request.path@,
        request@.country == request.country@,
        request@.subdivision == request.subdivision@,
        request@.size == request.size,
        request@.source_node == request.source_node@,
{
}

/// Events and actions are seen as what they are.
pub proof fn events_and_actions_are_seen(said: ArchiveAnnouncement, request: FetchRequest)
    ensures
        GossipEvent::Received(Some(said))@ == EventView::Received(Some(said@)),
        GossipEvent::Received(None)@ == EventView::Received(None),
        GossipEvent::NeighborUp@ == EventView::NeighborUp,
        GossipEvent::NeighborDown@ == EventView::NeighborDown,
        GossipEvent::Lagged@ == EventView::Lagged,
        GossipEvent::Failed@ == EventView::Failed,
        GossipAction::Ignore@ == ActionView::Ignore,
        GossipAction::Forward(request)@ == ActionView::Forward(request@),
        GossipAction::CatchUp@ == ActionView::CatchUp,
{
}

/// An announcement says what it was made of, and that an archive is available.
pub proof fn announcements_say_what_is_available(
    node_id: Seq<char>,
    country: Seq<char>,
    subdivision: Seq<char>,
    date: Seq<char>,
    hash: Seq<char>,
    path: Seq<char>,
    size: u64,
)
    ensures
        ({
            let said = announcement_of(node_id, country, subdivision, date, hash, path, size);
            &&& said.msg_type == "archive_available"@
            &&& said.country == country
            &&& said.subdivision == subdivision
            &&& said.date == date
            &&& said.hash == hash
            &&& said.node_id == node_id
            &&& said.path == path
            &&& said.size == size
        }),
{
}

/// The path of a request is the announced one, character for character, where there is one. Where
/// there is none and the date is `year-month-day`, it is made of the place and the date.
pub proof fn paths_are_announced_or_dated(
    said: AnnouncementView,
    year: Seq<char>,
    month: Seq<char>,
    day: Seq<char>,
)
    ensures
        said.path.len() > 0 ==> fetch_path(said) == Some(said.path),
        said.path.len() == 0 && said.date == year + "-"@ + month + "-"@ + day && !year.contains('-')
            && !month.contains('-') && !day.contains('-') ==> fetch_path(said) == Some(
            said.country + "/"@ + said.subdivision + "/"@ + year + "/"@ + month + "/"@ + day
                + "/archive.parquet"@,
        ),
        said.path.len() == 0 && said.date.filter(|c: char| c == '-').len() != 2 ==> fetch_path(said)
            is None,
{
    reveal_strlit("-");
    reveal_strlit("/");
    reveal_strlit("archive.parquet");
    reveal_strlit("/archive.parquet");
    lemma_split_count(said.date, '-');
    if said.path.len() == 0 && said.date == year + "-"@ + month + "-"@ + day && !year.contains('-')
        && !month.contains('-') && !day.contains('-') {
        let rest = month.push('-') + day;
        assert(said.date =~= year.push('-') + rest);
        lemma_split_join(year, rest, '-');
        lemma_split_join(month, day, '-');
        lemma_split_plain(year, '-');
        lemma_split_plain(month, '-');
        lemma_split_plain(day, '-');
        assert(split_on(said.date, '-') =~= seq![year, month, day]);
        assert("/archive.parquet"@ =~= "/"@ + "archive.parquet"@);
        assert(fetch_path(said)->0 =~= said.country + "/"@ + said.subdivision + "/"@ + year + "/"@
            + month + "/"@ + day + "/archive.parquet"@);
    }
}

/// A request keeps the hash, the place and the size that were announced, and names the announcing
/// node as its source; there is one exactly where there is a path.
pub proof fn requests_keep_what_was_announced(said: AnnouncementView)
    ensures
        fetch_of(said) is Some <==> fetch_path(said) is Some,
        fetch_of(said) matches Some(request) ==> {
            &&& request.hash == said.hash
            &&& fetch_path(said) == Some(request.path)
            &&& request.country == said.country
            &&& request.subdivision == said.subdivision
            &&& request.size == said.size
            &&& request.source_node == said.node_id
        },
{
}

/// Whatever the type, the place, the hash, the path or the size of an announcement: of another
/// node's, a node that replicates asks for the archive wherever there is a path to keep it at; a
/// node's own, and all that a node hears which does not replicate, come to nothing.
pub proof fn announcements_of_others_are_asked_for(gossip: GossipView, said: AnnouncementView)
    ensures
        gossip.node_id == said.node_id ==> gossip.reaction(EventView::Received(Some(said)))
            == ActionView::Ignore,
        !gossip.forwards ==> gossip.reaction(EventView::Received(Some(said)))
            == ActionView::Ignore,
        gossip.forwards && gossip.node_id != said.node_id && said.path.len() > 0
            ==> gossip.reaction(EventView::Received(Some(said))) == ActionView::Forward(
            FetchView {
                hash: said.hash,
                path: said.path,
                country: said.country,
                subdivision: said.subdivision,
                size: said.size,
                source_node: said.node_id,
            },
        ),
        gossip.forwards && gossip.node_id != said.node_id && fetch_path(said) is Some
            ==> gossip.reaction(EventView::Received(Some(said))) is Forward,
        fetch_path(said) is None ==> gossip.reaction(EventView::Received(Some(said)))
            == ActionView::Ignore,
{
}

/// When a peer connects, the local archives are announced again, whoever and however many are
/// connected: wherever there is an index and the topic was joined, and nowhere else.
pub proof fn every_new_neighbour_is_caught_up(gossip: GossipView)
    ensures
        gossip.catches_up && gossip.joined ==> gossip.reaction(EventView::NeighborUp)
            == ActionView::CatchUp,
        !gossip.catches_up ==> gossip.reaction(EventView::NeighborUp) == ActionView::Ignore,
        !gossip.joined ==> gossip.reaction(EventView::NeighborUp) == ActionView::Ignore,
{
}

/// A disconnection, missed messages, a failure and a message that is no announcement come to
/// nothing.
pub proof fn other_events_come_to_nothing(gossip: GossipView)
    ensures
        gossip.reaction(EventView::NeighborDown) == ActionView::Ignore,
        gossip.reaction(EventView::Lagged) == ActionView::Ignore,
        gossip.reaction(EventView::Failed) == ActionView::Ignore,
        gossip.reaction(EventView::Received(None)) == ActionView::Ignore,
{
}

/// A connection raises the count by one and a disconnection lowers it by one, but not below
/// nothing; no other event touches it, and none touches anything else.
pub proof fn neighbours_are_counted_one_by_one(gossip: GossipView, event: EventView)
    ensures
        ({
            let after = gossip.after(event);
            &&& after.topic_id == gossip.topic_id
            &&& after.node_id == gossip.node_id
            &&& after.forwards == gossip.forwards
            &&& after.joined == gossip.joined
            &&& after.catches_up == gossip.catches_up
            &&& event is NeighborUp && gossip.connected < usize::MAX ==> after.connected
                == gossip.connected + 1
            &&& event is NeighborDown && gossip.connected > 0 ==> after.connected
                == gossip.connected - 1
            &&& event is NeighborDown && gossip.connected == 0 ==> after.connected == 0
            &&& !(event is NeighborUp) && !(event is NeighborDown) ==> after.connected
                == gossip.connected
        }),
{
}

/// A connection and a disconnection after it leave the count as it was.
pub proof fn coming_and_going_cancel_out(gossip: GossipView)
    requires
        gossip.connected < usize::MAX,
    ensures
        gossip.after(EventView::NeighborUp).after(EventView::NeighborDown) == gossip,
        counted_down(counted_up(gossip.connected)) == gossip.connected,
{
}

/// The next archive of a catch-up is announced as it stands in the list, by this node and with its
/// place, wherever its path names one; after the last there is nothing to announce.
pub proof fn catch_ups_say_what_is_listed(state: CatchUpView, place: ArchivePlace)
    ensures
        0 <= state.position < state.archives.len() ==> {
            let archive = state.archives[state.position];
            &&& state.next(Some(place)) is Some
            &&& state.next(Some(place))->0.msg_type == "archive_available"@
            &&& state.next(Some(place))->0.country == place.country@
            &&& state.next(Some(place))->0.subdivision == place.subdivision@
            &&& state.next(Some(place))->0.date == place.date@
            &&& state.next(Some(place))->0.hash == archive.entry.hash@
            &&& state.next(Some(place))->0.node_id == state.node_id
            &&& state.next(Some(place))->0.path == archive.path@
            &&& state.next(Some(place))->0.size == archive.entry.size
        },
        state.next(None) is None,
        state.position >= state.archives.len() ==> state.next(Some(place)) is None,
{
}

/// A catch-up goes on by one archive, and counts one more where it announced one.
pub proof fn catch_ups_go_on_one_by_one(state: CatchUpView)
    ensures
        state.after(true).position == state.position + 1,
        state.after(false).position == state.position + 1,
        state.after(true).announced == state.announced + 1,
        state.after(false).announced == state.announced,
        state.after(true).archives == state.archives && state.after(false).archives
            == state.archives,
        state.after(true).node_id == state.node_id && state.after(false).node_id == state.node_id,
        state.wf() <==> 0 <= state.announced && state.announced <= state.position && state.position
            <= state.archives.len(),
{
}

} // verus!
