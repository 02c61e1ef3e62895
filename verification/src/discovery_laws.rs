//! What holds of the discovery loop, said step by step: what each event leads to in each phase,
//! what is to be done then, and what stays.

use vstd::prelude::*;
use vstd::string::*;

use crate::discovery::{optional_texts, ActionView, DiscoveryAction, DiscoveryEvent, EventView};
use crate::discovery::{LoopView, Phase, PhaseView, Step};
use crate::peers::{addresses, discovered, known_of, listing_of, peers_of, reachable_of, records};
use crate::peers::{DiscoveredView, IpAddress, RecordView};
use crate::proxy::{first_key_of, proxy_address_of, reported_key_of, status_request_of};
use crate::registry::{guardian_registration, node_listing, node_registration};
use crate::text::has_short_id;

verus! {

/// Whether a loop is still that of the same node, with the same configuration and peers.
pub open spec fn same_node_and_peers(a: LoopView, b: LoopView) -> bool {
    a.config == b.config && a.node_id == b.node_id && a.peers == b.peers
}

/// Whether a step ends the round: the next is awaited, sixty seconds from one to the next.
pub open spec fn ends_the_round(step: Step) -> bool {
    step.state.phase == PhaseView::Waiting && step.action == ActionView::AwaitTick(60)
}

/// Whether a step turns to the proxy, where one is configured, and ends the round where none is.
pub open spec fn goes_on_with_the_proxy(step: Step) -> bool {
    match step.state.config.wesense_proxy {
        Some(proxy) => step.state.phase == PhaseView::ResolvingProxy && step.action
            == ActionView::Resolve(seq![Some(proxy)]),
        None => ends_the_round(step),
    }
}

/// Phases are seen as what they are.
pub proof fn phases_are_seen(
    attempt: u32,
    list: Vec<crate::peers::NodeRecord>,
    found: Vec<crate::peers::DiscoveredPeer>,
    ip: IpAddress,
)
    ensures
        Phase::Idle@ == PhaseView::Idle,
        Phase::Registering(attempt)@ == PhaseView::Registering(attempt),
        Phase::BackingOff(attempt)@ == PhaseView::BackingOff(attempt),
        Phase::Waiting@ == PhaseView::Waiting,
        Phase::Heartbeat@ == PhaseView::Heartbeat,
        Phase::Counting@ == PhaseView::Counting,
        Phase::Guarding@ == PhaseView::Guarding,
        Phase::Listing@ == PhaseView::Listing,
        Phase::Resolving(list)@ == PhaseView::Resolving(records(list@)),
        Phase::Joining(found)@ == PhaseView::Joining(discovered(found@)),
        Phase::ResolvingProxy@ == PhaseView::ResolvingProxy,
        Phase::AskingProxy(ip)@ == PhaseView::AskingProxy(ip),
        Phase::JoiningProxy@ == PhaseView::JoiningProxy,
{
}

/// Events are seen as what they are.
pub proof fn events_are_seen(
    status: u16,
    body: Vec<u8>,
    count: usize,
    ips: Vec<Option<IpAddress>>,
)
    ensures
        DiscoveryEvent::Started@ == EventView::Started,
        (DiscoveryEvent::Answered { status, body })@ == (EventView::Answered {
            status,
            body: body@,
        }),
        DiscoveryEvent::Unanswered@ == EventView::Unanswered,
        DiscoveryEvent::Slept@ == EventView::Slept,
        DiscoveryEvent::Ticked@ == EventView::Ticked,
        DiscoveryEvent::Counted(count)@ == EventView::Counted(count),
        DiscoveryEvent::Resolved(ips)@ == EventView::Resolved(ips@),
        DiscoveryEvent::Connected@ == EventView::Connected,
{
}

/// Actions are seen as what they are, the texts to be read one by one.
pub proof fn actions_are_seen(
    put: crate::registry::PutRequest,
    get: crate::registry::GetRequest,
    secs: u64,
    list: Vec<Option<String>>,
    peers: Vec<crate::peers::PeerAddress>,
)
    ensures
        DiscoveryAction::Put(put)@ == ActionView::Put(put@),
        DiscoveryAction::Get(get)@ == ActionView::Get(get@),
        DiscoveryAction::Sleep(secs)@ == ActionView::Sleep(secs),
        DiscoveryAction::AwaitTick(secs)@ == ActionView::AwaitTick(secs),
        DiscoveryAction::CountBlobs@ == ActionView::CountBlobs,
        DiscoveryAction::Resolve(list)@ == ActionView::Resolve(optional_texts(list@)),
        DiscoveryAction::Connect(peers)@ == ActionView::Connect(addresses(peers@)),
        DiscoveryAction::Unexpected@ == ActionView::Unexpected,
        optional_texts(list@).len() == list@.len(),
        forall|i: int|
            0 <= i < list@.len() && list@[i] is None ==> #[trigger] optional_texts(list@)[i]
                is None,
        forall|i: int|
            0 <= i < list@.len() && list@[i] is Some ==> #[trigger] optional_texts(list@)[i]
                == Some(list@[i]->0@),
{
}

/// The loop begins with the first attempt to register.
pub proof fn the_loop_begins_by_registering(state: LoopView)
    requires
        state.phase == PhaseView::Idle,
    ensures
        ({
            let step = state.after(EventView::Started);
            &&& step.state.phase == PhaseView::Registering(1)
            &&& step.action == ActionView::Put(node_registration(state.config, state.node_id))
            &&& same_node_and_peers(step.state, state)
        }),
{
}

/// Any answer ends the first registration. Without one, the first four attempts are followed by a
/// wait of five seconds for each so far and by another attempt, and the fifth by none.
pub proof fn attempts_are_followed_by_others(
    state: LoopView,
    attempt: u32,
    status: u16,
    body: Seq<u8>,
)
    requires
        state.phase == PhaseView::Registering(attempt),
        1 <= attempt <= 5,
    ensures
        ({
            let answered = state.after(EventView::Answered { status, body });
            let silent = state.after(EventView::Unanswered);
            let again = silent.state.after(EventView::Slept);
            &&& ends_the_round(answered)
            &&& same_node_and_peers(answered.state, state)
            &&& same_node_and_peers(silent.state, state)
            &&& attempt == 5 ==> ends_the_round(silent)
            &&& attempt < 5 ==> silent.state.phase == PhaseView::BackingOff(attempt)
                && silent.action == ActionView::Sleep((5 * attempt) as u64)
            &&& attempt < 5 ==> again.state.phase == PhaseView::Registering((attempt + 1) as u32)
                && again.action == ActionView::Put(node_registration(state.config, state.node_id))
                && same_node_and_peers(again.state, state)
        }),
{
}

/// A round begins by registering anew; then, whatever is answered and whether anything is, the
/// blobs are counted, their number is registered, and the nodes are listed.
pub proof fn a_round_has_its_order(
    state: LoopView,
    status: u16,
    body: Seq<u8>,
    count: usize,
)
    ensures
        state.phase == PhaseView::Waiting ==> {
            let step = state.after(EventView::Ticked);
            &&& step.state.phase == PhaseView::Heartbeat
            &&& step.action == ActionView::Put(node_registration(state.config, state.node_id))
            &&& same_node_and_peers(step.state, state)
        },
        state.phase == PhaseView::Heartbeat ==> {
            let step = state.after(EventView::Answered { status, body });
            &&& step.state.phase == PhaseView::Counting
            &&& step.action == ActionView::CountBlobs
            &&& same_node_and_peers(step.state, state)
            &&& state.after(EventView::Unanswered) == step
        },
        state.phase == PhaseView::Counting ==> {
            let step = state.after(EventView::Counted(count));
            &&& step.state.phase == PhaseView::Guarding
            &&& step.action == ActionView::Put(
                guardian_registration(state.config, state.node_id, count),
            )
            &&& same_node_and_peers(step.state, state)
        },
        state.phase == PhaseView::Guarding ==> {
            let step = state.after(EventView::Answered { status, body });
            &&& step.state.phase == PhaseView::Listing
            &&& step.action == ActionView::Get(node_listing(state.config))
            &&& same_node_and_peers(step.state, state)
            &&& state.after(EventView::Unanswered) == step
        },
{
}

/// Of a listing that was read, every node's address is asked for, in their order; a listing that
/// was refused or did not come leads on to the proxy, and keeps the peers.
pub proof fn listings_lead_to_addresses(state: LoopView, status: u16, body: Seq<u8>)
    requires
        state.phase == PhaseView::Listing,
    ensures
        ({
            let step = state.after(EventView::Answered { status, body });
            let silent = state.after(EventView::Unanswered);
            &&& same_node_and_peers(step.state, state)
            &&& same_node_and_peers(silent.state, state)
            &&& goes_on_with_the_proxy(silent)
            &&& listing_of(status, body) is Err ==> goes_on_with_the_proxy(step)
            &&& listing_of(status, body) matches Ok(list) ==> {
                &&& step.state.phase == PhaseView::Resolving(list)
                &&& step.action is Resolve
                &&& step.action->Resolve_0.len() == list.len()
                &&& forall|i: int|
                    0 <= i < list.len() ==> #[trigger] step.action->Resolve_0[i] == list[i].address
            }
        }),
{
}

/// The peers that a listing tells of are joined, all that can be reached, and are the known ones
/// from then on; where none can be reached they are known at once. Either way the proxy is turned
/// to next, with the peers found.
pub proof fn found_peers_are_joined_then_the_proxy(
    state: LoopView,
    list: Seq<RecordView>,
    ips: Seq<Option<IpAddress>>,
)
    requires
        state.phase == PhaseView::Resolving(list),
        ips.len() == list.len(),
    ensures
        ({
            let found = peers_of(state.config.tls_enabled, state.node_id, list, ips);
            let step = state.after(EventView::Resolved(ips));
            let joined = step.state.after(EventView::Connected);
            &&& reachable_of(found).len() > 0 ==> {
                &&& step.state.phase == PhaseView::Joining(known_of(found))
                &&& step.action == ActionView::Connect(reachable_of(found))
                &&& same_node_and_peers(step.state, state)
                &&& goes_on_with_the_proxy(joined)
                &&& joined.state.peers == known_of(found)
                &&& joined.state.config == state.config && joined.state.node_id == state.node_id
            }
            &&& reachable_of(found).len() == 0 ==> {
                &&& goes_on_with_the_proxy(step)
                &&& step.state.peers == known_of(found)
                &&& step.state.config == state.config && step.state.node_id == state.node_id
            }
        }),
{
}

/// A round of a proxied node does not end before the proxy was turned to: once the peers are
/// joined, the address of the proxy is read, whichever peers were found.
pub proof fn joined_peers_do_not_stand_for_the_proxy(
    state: LoopView,
    found: Seq<DiscoveredView>,
    proxy: Seq<char>,
)
    requires
        state.phase == PhaseView::Joining(found),
        state.config.wesense_proxy == Some(proxy),
    ensures
        state.after(EventView::Connected).action == ActionView::Resolve(seq![Some(proxy)]),
        state.after(EventView::Connected).state.phase == PhaseView::ResolvingProxy,
        state.after(EventView::Connected).state.peers == found,
        state.after(EventView::Connected).state.config == state.config,
        state.after(EventView::Connected).state.node_id == state.node_id,
{
}

/// From the listing and the peers, whatever happens, a round ends only where no proxy is
/// configured.
pub proof fn rounds_end_without_the_proxy_only_where_there_is_none(
    state: LoopView,
    event: EventView,
)
    requires
        state.phase is Listing || state.phase is Resolving || state.phase is Joining,
        state.after(event).state.phase is Waiting,
    ensures
        state.config.wesense_proxy is None,
        state.after(event).action == ActionView::AwaitTick(60),
{
}

/// A proxy whose address was read is joined at once where a peer's key is known, and else asked
/// who it is; one without an address is left for this round.
pub proof fn the_proxy_is_joined_or_asked(state: LoopView, ip: IpAddress, proxy: Seq<char>)
    requires
        state.phase == PhaseView::ResolvingProxy,
        state.config.wesense_proxy == Some(proxy),
    ensures
        ({
            let step = state.after(EventView::Resolved(seq![Some(ip)]));
            let left = state.after(EventView::Resolved(seq![None]));
            &&& same_node_and_peers(step.state, state)
            &&& same_node_and_peers(left.state, state)
            &&& ends_the_round(left)
            &&& first_key_of(state.peers) matches Some(key) ==> step.state.phase
                == PhaseView::JoiningProxy && step.action == ActionView::Connect(
                seq![proxy_address_of(state.config, key, ip)],
            )
            &&& first_key_of(state.peers) is None ==> step.state.phase == PhaseView::AskingProxy(ip)
                && step.action == ActionView::Get(
                status_request_of(state.config.tls_enabled, proxy),
            )
        }),
{
}

/// A proxy that tells its key is joined at the address where it was asked; one that does not, or
/// does not answer, is left for this round. Once it is joined the round ends.
pub proof fn the_proxy_is_joined_where_it_was_asked(
    state: LoopView,
    ip: IpAddress,
    status: u16,
    body: Seq<u8>,
)
    ensures
        state.phase == PhaseView::AskingProxy(ip) ==> {
            let step = state.after(EventView::Answered { status, body });
            let silent = state.after(EventView::Unanswered);
            &&& same_node_and_peers(step.state, state)
            &&& same_node_and_peers(silent.state, state)
            &&& ends_the_round(silent)
            &&& reported_key_of(status, body) is None ==> ends_the_round(step)
            &&& reported_key_of(status, body) matches Some(key) ==> step.state.phase
                == PhaseView::JoiningProxy && step.action == ActionView::Connect(
                seq![proxy_address_of(state.config, key, ip)],
            )
        },
        state.phase == PhaseView::JoiningProxy ==> ends_the_round(
            state.after(EventView::Connected),
        ) && same_node_and_peers(state.after(EventView::Connected).state, state),
{
}

/// Whether an event is awaited in a phase.
pub open spec fn is_awaited(state: LoopView, event: EventView) -> bool {
    match event {
        EventView::Started => state.phase is Idle,
        EventView::Slept => state.phase is BackingOff,
        EventView::Ticked => state.phase is Waiting,
        EventView::Counted(_) => state.phase is Counting,
        EventView::Connected => state.phase is Joining || state.phase is JoiningProxy,
        EventView::Resolved(ips) => {
            ||| state.phase matches PhaseView::Resolving(list) && ips.len() == list.len()
            ||| state.phase is ResolvingProxy && ips.len() == 1
                && state.config.wesense_proxy is Some
        },
        _ => state.phase is Registering || state.phase is Heartbeat || state.phase is Guarding
            || state.phase is Listing || state.phase is AskingProxy,
    }
}

/// An event leads to something to do exactly where it is awaited; anywhere else it changes nothing.
pub proof fn only_awaited_events_lead_on(state: LoopView, event: EventView)
    ensures
        is_awaited(state, event) <==> !(state.after(event).action is Unexpected),
        !is_awaited(state, event) ==> state.after(event).state == state,
{
}

/// A valid loop has a node ID that can be shortened, and is in none but the first to the fifth
/// attempt to register, of which the last is not waited after.
pub proof fn valid_loops_make_five_attempts(state: LoopView)
    ensures
        state.wf() <==> {
            &&& has_short_id(state.node_id)
            &&& state.phase matches PhaseView::Registering(attempt) ==> 1 <= attempt && attempt <= 5
            &&& state.phase matches PhaseView::BackingOff(attempt) ==> 1 <= attempt && attempt <= 4
        },
{
}

} // verus!
