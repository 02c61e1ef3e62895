//! Discovery: a node registers itself, then, again and again, registers anew, tells what it
//! guards, and looks for peers and for its proxy. The loop is driven from outside: it says what
//! is to be done, and is told what came of it.

use vstd::prelude::*;
use vstd::string::*;

use crate::config::{Config, ConfigView};
use crate::peers::{addresses, discovered, known_of, records};
use crate::peers::{decode_listing, discover_peers, listing_of, peers_of, reachable_of};
use crate::peers::{AddressView, DiscoveredPeer, DiscoveredView, IpAddress};
use crate::peers::{NodeRecord, PeerAddress, RecordView};
use crate::proxy::{first_key, first_key_of, proxy_address, proxy_address_of};
use crate::proxy::{reported_key, reported_key_of, status_request, status_request_of};
use crate::registry::{guardian_registration, node_listing, node_registration};
use crate::registry::{list_nodes, register_guardian_scope, register_node};
use crate::registry::{GetRequest, GetView, PutRequest, PutView};
use crate::text::{has_short_id, optional_text};

verus! {

/// How often the first registration is tried.
pub const REGISTRATION_ATTEMPTS: u32 = 5;

/// Seconds to wait after the first attempt; after the n-th, n times as many.
pub const BACKOFF_SECS: u64 = 5;

/// Seconds between two rounds.
pub const ROUND_SECS: u64 = 60;

/// Where the loop stands.
pub enum Phase {
    /// Nothing was done yet.
    Idle,
    /// The node registers for the first time, by this attempt.
    Registering(u32),
    /// This attempt failed, and another follows.
    BackingOff(u32),
    /// The next round is awaited.
    Waiting,
    /// The node registers anew.
    Heartbeat,
    /// The blobs are counted.
    Counting,
    /// The node registers what it guards.
    Guarding,
    /// The nodes are listed.
    Listing,
    /// The addresses of the listed nodes are read.
    Resolving(Vec<NodeRecord>),
    /// These peers were found, and those that can be reached are joined.
    Joining(Vec<DiscoveredPeer>),
    /// The address of the proxy is read.
    ResolvingProxy,
    /// The proxy at this address is asked who it is.
    AskingProxy(IpAddress),
    /// The proxy is joined.
    JoiningProxy,
}

/// The mathematical form of a `Phase`.
pub enum PhaseView {
    Idle,
    Registering(u32),
    BackingOff(u32),
    Waiting,
    Heartbeat,
    Counting,
    Guarding,
    Listing,
    Resolving(Seq<RecordView>),
    Joining(Seq<DiscoveredView>),
    ResolvingProxy,
    AskingProxy(IpAddress),
    JoiningProxy,
}

impl View for Phase {
    type V = PhaseView;

    open spec fn view(&self) -> PhaseView {
        match self {
            Phase::Idle => PhaseView::Idle,
            Phase::Registering(attempt) => PhaseView::Registering(*attempt),
            Phase::BackingOff(attempt) => PhaseView::BackingOff(*attempt),
            Phase::Waiting => PhaseView::Waiting,
            Phase::Heartbeat => PhaseView::Heartbeat,
            Phase::Counting => PhaseView::Counting,
            Phase::Guarding => PhaseView::Guarding,
            Phase::Listing => PhaseView::Listing,
            Phase::Resolving(list) => PhaseView::Resolving(records(list@)),
            Phase::Joining(peers) => PhaseView::Joining(discovered(peers@)),
            Phase::ResolvingProxy => PhaseView::ResolvingProxy,
            Phase::AskingProxy(ip) => PhaseView::AskingProxy(*ip),
            Phase::JoiningProxy => PhaseView::JoiningProxy,
        }
    }
}

/// What came of an action.
#[derive(Debug)]
pub enum DiscoveryEvent {
    /// The loop is to begin.
    Started,
    /// A request was answered.
    Answered { status: u16, body: Vec<u8> },
    /// A request was not answered, or its answer could not be read.
    Unanswered,
    /// The wait is over.
    Slept,
    /// A round begins.
    Ticked,
    /// So many blobs are indexed.
    Counted(usize),
    /// For each text, the address that it stands for.
    Resolved(Vec<Option<IpAddress>>),
    /// The peers were made known and joined, as far as that went.
    Connected,
}

/// The mathematical form of a `DiscoveryEvent`.
pub enum EventView {
    Started,
    Answered { status: u16, body: Seq<u8> },
    Unanswered,
    Slept,
    Ticked,
    Counted(usize),
    Resolved(Seq<Option<IpAddress>>),
    Connected,
}

impl View for DiscoveryEvent {
    type V = EventView;

    open spec fn view(&self) -> EventView {
        match self {
            DiscoveryEvent::Started => EventView::Started,
            DiscoveryEvent::Answered { status, body } => EventView::Answered {
                status: *status,
                body: body@,
            },
            DiscoveryEvent::Unanswered => EventView::Unanswered,
            DiscoveryEvent::Slept => EventView::Slept,
            DiscoveryEvent::Ticked => EventView::Ticked,
            DiscoveryEvent::Counted(count) => EventView::Counted(*count),
            DiscoveryEvent::Resolved(ips) => EventView::Resolved(ips@),
            DiscoveryEvent::Connected => EventView::Connected,
        }
    }
}

/// What is to be done next.
#[derive(Debug)]
pub enum DiscoveryAction {
    /// Put a document.
    Put(PutRequest),
    /// Get a document.
    Get(GetRequest),
    /// Wait for so many seconds.
    Sleep(u64),
    /// Wait for the next round; there are so many seconds from one to the next.
    AwaitTick(u64),
    /// Count the indexed blobs.
    CountBlobs,
    /// Read each text as the address of a machine.
    Resolve(Vec<Option<String>>),
    /// Make these peers known to the endpoint, with their relays, and join them all.
    Connect(Vec<PeerAddress>),
    /// Nothing: the event is none that was awaited.
    Unexpected,
}

/// The mathematical form of a `DiscoveryAction`.
pub enum ActionView {
    Put(PutView),
    Get(GetView),
    Sleep(u64),
    AwaitTick(u64),
    CountBlobs,
    Resolve(Seq<Option<Seq<char>>>),
    Connect(Seq<AddressView>),
    Unexpected,
}

/// The texts of a list of optional strings.
pub open spec fn optional_texts(list: Seq<Option<String>>) -> Seq<Option<Seq<char>>> {
    list.map_values(|text: Option<String>| optional_text(text))
}

impl View for DiscoveryAction {
    type V = ActionView;

    open spec fn view(&self) -> ActionView {
        match self {
            DiscoveryAction::Put(request) => ActionView::Put(request@),
            DiscoveryAction::Get(request) => ActionView::Get(request@),
            DiscoveryAction::Sleep(secs) => ActionView::Sleep(*secs),
            DiscoveryAction::AwaitTick(secs) => ActionView::AwaitTick(*secs),
            DiscoveryAction::CountBlobs => ActionView::CountBlobs,
            DiscoveryAction::Resolve(list) => ActionView::Resolve(optional_texts(list@)),
            DiscoveryAction::Connect(list) => ActionView::Connect(addresses(list@)),
            DiscoveryAction::Unexpected => ActionView::Unexpected,
        }
    }
}

/// What a discovery loop stands at.
pub struct LoopView {
    pub config: ConfigView,
    pub node_id: Seq<char>,
    /// The peers found last.
    pub peers: Seq<DiscoveredView>,
    pub phase: PhaseView,
}

/// A state of the loop, and what is to be done there.
pub struct Step {
    pub state: LoopView,
    pub action: ActionView,
}

impl LoopView {
    /// The same loop in another phase, with something to do.
    pub open spec fn to(self, phase: PhaseView, action: ActionView) -> Step {
        Step { state: LoopView { phase, ..self }, action }
    }

    /// The end of a round.
    pub open spec fn rest(self) -> Step {
        self.to(PhaseView::Waiting, ActionView::AwaitTick(ROUND_SECS))
    }

    /// An attempt to register.
    pub open spec fn register(self, phase: PhaseView) -> Step {
        self.to(phase, ActionView::Put(node_registration(self.config, self.node_id)))
    }

    /// After the peers, the proxy, where there is one.
    pub open spec fn turn_to_proxy(self) -> Step {
        match self.config.wesense_proxy {
            Some(proxy) => self.to(
                PhaseView::ResolvingProxy,
                ActionView::Resolve(seq![Some(proxy)]),
            ),
            None => self.rest(),
        }
    }

    /// The proxy with the given key is joined.
    pub open spec fn join_proxy(self, key: Seq<u8>, ip: IpAddress) -> Step {
        self.to(
            PhaseView::JoiningProxy,
            ActionView::Connect(seq![proxy_address_of(self.config, key, ip)]),
        )
    }

    /// What an answer to a request leads to.
    pub open spec fn after_answer(self, status: u16, body: Seq<u8>) -> Step {
        match self.phase {
            PhaseView::Registering(_) => self.rest(),
            PhaseView::Heartbeat => self.to(PhaseView::Counting, ActionView::CountBlobs),
            PhaseView::Guarding => self.to(
                PhaseView::Listing,
                ActionView::Get(node_listing(self.config)),
            ),
            PhaseView::Listing => match listing_of(status, body) {
                Ok(list) => self.to(
                    PhaseView::Resolving(list),
                    ActionView::Resolve(list.map_values(|record: RecordView| record.address)),
                ),
                Err(_) => self.turn_to_proxy(),
            },
            PhaseView::AskingProxy(ip) => match reported_key_of(status, body) {
                Some(key) => self.join_proxy(key, ip),
                None => self.rest(),
            },
            _ => Step { state: self, action: ActionView::Unexpected },
        }
    }

    /// What a request that was not answered leads to.
    pub open spec fn after_silence(self) -> Step {
        match self.phase {
            PhaseView::Registering(attempt) => if attempt >= REGISTRATION_ATTEMPTS {
                self.rest()
            } else {
                self.to(
                    PhaseView::BackingOff(attempt),
                    ActionView::Sleep((BACKOFF_SECS * attempt) as u64),
                )
            },
            PhaseView::Heartbeat => self.to(PhaseView::Counting, ActionView::CountBlobs),
            PhaseView::Guarding => self.to(
                PhaseView::Listing,
                ActionView::Get(node_listing(self.config)),
            ),
            PhaseView::Listing => self.turn_to_proxy(),
            PhaseView::AskingProxy(_) => self.rest(),
            _ => Step { state: self, action: ActionView::Unexpected },
        }
    }

    /// What the addresses lead to that some texts stand for.
    pub open spec fn after_resolution(self, ips: Seq<Option<IpAddress>>) -> Step {
        match self.phase {
            PhaseView::Resolving(list) => if ips.len() != list.len() {
                Step { state: self, action: ActionView::Unexpected }
            } else {
                let found = peers_of(self.config.tls_enabled, self.node_id, list, ips);
                if reachable_of(found).len() > 0 {
                    self.to(
                        PhaseView::Joining(known_of(found)),
                        ActionView::Connect(reachable_of(found)),
                    )
                } else {
                    LoopView { peers: known_of(found), ..self }.turn_to_proxy()
                }
            },
            PhaseView::ResolvingProxy => if ips.len() != 1 || self.config.wesense_proxy is None {
                Step { state: self, action: ActionView::Unexpected }
            } else {
                match ips[0] {
                    Some(ip) => match first_key_of(self.peers) {
                        Some(key) => self.join_proxy(key, ip),
                        None => self.to(
                            PhaseView::AskingProxy(ip),
                            ActionView::Get(
                                status_request_of(
                                    self.config.tls_enabled,
                                    self.config.wesense_proxy->0,
                                ),
                            ),
                        ),
                    },
                    None => self.rest(),
                }
            },
            _ => Step { state: self, action: ActionView::Unexpected },
        }
    }

    /// What an event leads to.
    pub open spec fn after(self, event: EventView) -> Step {
        match (event, self.phase) {
            (EventView::Started, PhaseView::Idle) => self.register(PhaseView::Registering(1)),
            (EventView::Slept, PhaseView::BackingOff(attempt)) => self.register(
                PhaseView::Registering((attempt + 1) as u32),
            ),
            (EventView::Ticked, PhaseView::Waiting) => self.register(PhaseView::Heartbeat),
            (EventView::Counted(count), PhaseView::Counting) => self.to(
                PhaseView::Guarding,
                ActionView::Put(guardian_registration(self.config, self.node_id, count)),
            ),
            (EventView::Answered { status, body }, _) => self.after_answer(status, body),
            (EventView::Unanswered, _) => self.after_silence(),
            (EventView::Resolved(ips), _) => self.after_resolution(ips),
            (EventView::Connected, PhaseView::Joining(found)) => LoopView {
                peers: found,
                ..self
            }.turn_to_proxy(),
            (EventView::Connected, PhaseView::JoiningProxy) => self.rest(),
            _ => Step { state: self, action: ActionView::Unexpected },
        }
    }
}

/// A discovery loop.
pub struct DiscoveryLoop {
    config: Config,
    node_id: String,
    peers: Vec<DiscoveredPeer>,
    phase: Phase,
}

impl View for DiscoveryLoop {
    type V = LoopView;

    closed spec fn view(&self) -> LoopView {
        LoopView {
            config: self.config@,
            node_id: self.node_id@,
            peers: discovered(self.peers@),
            phase: self.phase@,
        }
    }
}

impl LoopView {
    /// No attempt follows the last, and the node ID can be shortened.
    pub open spec fn wf(self) -> bool {
        &&& has_short_id(self.node_id)
        &&& self.phase matches PhaseView::Registering(attempt) ==> 1 <= attempt
            <= REGISTRATION_ATTEMPTS
        &&& self.phase matches PhaseView::BackingOff(attempt) ==> 1 <= attempt
            < REGISTRATION_ATTEMPTS
    }
}

impl DiscoveryLoop {
    /// A loop that was not begun yet.
    pub fn new(config: Config, node_id: String) -> (discovery: Self)
        requires
            has_short_id(node_id@),
        ensures
            discovery@.wf(),
            discovery@.config == config@,
            discovery@.node_id == node_id@,
            discovery@.peers.len() == 0,
            discovery@.phase == PhaseView::Idle,
    {
        DiscoveryLoop { config, node_id, peers: Vec::new(), phase: Phase::Idle }
    }

    /// The peers found last.
    pub fn peers(&self) -> (peers: &Vec<DiscoveredPeer>)
        ensures
            discovered(peers@) == self@.peers,
    {
        &self.peers
    }

    fn rest(&mut self) -> (action: DiscoveryAction)
        ensures
            final(self)@ == old(self)@.rest().state,
            action@ == old(self)@.rest().action,
    {
        self.phase = Phase::Waiting;
        DiscoveryAction::AwaitTick(ROUND_SECS)
    }

    fn turn_to_proxy(&mut self) -> (action: DiscoveryAction)
        ensures
            final(self)@ == old(self)@.turn_to_proxy().state,
            action@ == old(self)@.turn_to_proxy().action,
    {
        let proxy: Option<String> = match &self.config.wesense_proxy {
            Some(proxy) => Some(proxy.clone()),
            None => None,
        };
        match proxy {
            Some(proxy) => {
                self.phase = Phase::ResolvingProxy;
                let mut list: Vec<Option<String>> = Vec::new();
                list.push(Some(proxy));
                assert(optional_texts(list@) =~= seq![Some(proxy@)]);
                DiscoveryAction::Resolve(list)
            },
            None => self.rest(),
        }
    }

    fn join_proxy(&mut self, key: [u8; 32], ip: IpAddress) -> (action: DiscoveryAction)
        ensures
            final(self)@ == old(self)@.join_proxy(key@, ip).state,
            action@ == old(self)@.join_proxy(key@, ip).action,
    {
        self.phase = Phase::JoiningProxy;
        let mut list: Vec<PeerAddress> = Vec::new();
        list.push(proxy_address(&self.config, key, ip));
        assert(addresses(list@) =~= seq![proxy_address_of(self.config@, key@, ip)]);
        DiscoveryAction::Connect(list)
    }

    fn after_answer(&mut self, status: u16, body: &Vec<u8>) -> (action: DiscoveryAction)
        ensures
            final(self)@ == old(self)@.after_answer(status, body@).state,
            action@ == old(self)@.after_answer(status, body@).action,
    {
        match &self.phase {
            Phase::Registering(_) => self.rest(),
            Phase::Heartbeat => {
                self.phase = Phase::Counting;
                DiscoveryAction::CountBlobs
            },
            Phase::Guarding => {
                self.phase = Phase::Listing;
                DiscoveryAction::Get(list_nodes(&self.config))
            },
            Phase::Listing => match decode_listing(status, body.as_slice()) {
                Ok(list) => {
                    let texts: Vec<Option<String>> = address_texts(&list);
                    self.phase = Phase::Resolving(list);
                    DiscoveryAction::Resolve(texts)
                },
                Err(_) => self.turn_to_proxy(),
            },
            Phase::AskingProxy(ip) => {
                let ip: IpAddress = *ip;
                match reported_key(status, body.as_slice()) {
                    Some(key) => self.join_proxy(key, ip),
                    None => self.rest(),
                }
            },
            _ => DiscoveryAction::Unexpected,
        }
    }

    fn after_silence(&mut self) -> (action: DiscoveryAction)
        requires
            old(self)@.wf(),
        ensures
            final(self)@ == old(self)@.after_silence().state,
            action@ == old(self)@.after_silence().action,
    {
        match &self.phase {
            Phase::Registering(attempt) => {
                let attempt: u32 = *attempt;
                if attempt >= REGISTRATION_ATTEMPTS {
                    self.rest()
                } else {
                    self.phase = Phase::BackingOff(attempt);
                    DiscoveryAction::Sleep(BACKOFF_SECS * (attempt as u64))
                }
            },
            Phase::Heartbeat => {
                self.phase = Phase::Counting;
                DiscoveryAction::CountBlobs
            },
            Phase::Guarding => {
                self.phase = Phase::Listing;
                DiscoveryAction::Get(list_nodes(&self.config))
            },
            Phase::Listing => self.turn_to_proxy(),
            Phase::AskingProxy(_) => self.rest(),
            _ => DiscoveryAction::Unexpected,
        }
    }

    fn after_resolution(&mut self, ips: &Vec<Option<IpAddress>>) -> (action: DiscoveryAction)
        ensures
            final(self)@ == old(self)@.after_resolution(ips@).state,
            action@ == old(self)@.after_resolution(ips@).action,
    {
        match &self.phase {
            Phase::Resolving(list) => {
                if ips.len() != list.len() {
                    return DiscoveryAction::Unexpected;
                }
                let found = discover_peers(&self.config, self.node_id.as_str(), list, ips);
                if found.reachable.len() > 0 {
                    self.phase = Phase::Joining(found.peers);
                    DiscoveryAction::Connect(found.reachable)
                } else {
                    self.peers = found.peers;
                    self.turn_to_proxy()
                }
            },
            Phase::ResolvingProxy => {
                if ips.len() != 1 {
                    return DiscoveryAction::Unexpected;
                }
                let request = match &self.config.wesense_proxy {
                    Some(proxy) => status_request(&self.config, proxy.as_str()),
                    None => {
                        return DiscoveryAction::Unexpected;
                    },
                };
                match ips[0] {
                    Some(ip) => match first_key(&self.peers) {
                        Some(key) => self.join_proxy(key, ip),
                        None => {
                            self.phase = Phase::AskingProxy(ip);
                            DiscoveryAction::Get(request)
                        },
                    },
                    None => self.rest(),
                }
            },
            _ => DiscoveryAction::Unexpected,
        }
    }

    /// Takes in what came of the last action, and says what is to be done next. An event that
    /// was not awaited changes nothing.
    pub fn step(&mut self, event: DiscoveryEvent) -> (action: DiscoveryAction)
        requires
            old(self)@.wf(),
        ensures
            final(self)@.wf(),
            final(self)@ == old(self)@.after(event@).state,
            action@ == old(self)@.after(event@).action,
    {
        match event {
            DiscoveryEvent::Answered { status, body } => self.after_answer(status, &body),
            DiscoveryEvent::Unanswered => self.after_silence(),
            DiscoveryEvent::Resolved(ips) => self.after_resolution(&ips),
            DiscoveryEvent::Started => match &self.phase {
                Phase::Idle => {
                    self.phase = Phase::Registering(1);
                    DiscoveryAction::Put(register_node(&self.config, self.node_id.as_str()))
                },
                _ => DiscoveryAction::Unexpected,
            },
            DiscoveryEvent::Slept => match &self.phase {
                Phase::BackingOff(attempt) => {
                    let next: u32 = *attempt + 1;
                    self.phase = Phase::Registering(next);
                    DiscoveryAction::Put(register_node(&self.config, self.node_id.as_str()))
                },
                _ => DiscoveryAction::Unexpected,
            },
            DiscoveryEvent::Ticked => match &self.phase {
                Phase::Waiting => {
                    self.phase = Phase::Heartbeat;
                    DiscoveryAction::Put(register_node(&self.config, self.node_id.as_str()))
                },
                _ => DiscoveryAction::Unexpected,
            },
            DiscoveryEvent::Counted(count) => match &self.phase {
                Phase::Counting => {
                    self.phase = Phase::Guarding;
                    DiscoveryAction::Put(
                        register_guardian_scope(&self.config, self.node_id.as_str(), count),
                    )
                },
                _ => DiscoveryAction::Unexpected,
            },
            DiscoveryEvent::Connected => {
                let mut phase = Phase::JoiningProxy;
                std::mem::swap(&mut phase, &mut self.phase);
                match phase {
                    Phase::Joining(found) => {
                        self.peers = found;
                        self.turn_to_proxy()
                    },
                    Phase::JoiningProxy => self.rest(),
                    other => {
                        self.phase = other;
                        DiscoveryAction::Unexpected
                    },
                }
            },
        }
    }
}

/// The texts in which the nodes of a listing give their addresses.
fn address_texts(list: &Vec<NodeRecord>) -> (result: Vec<Option<String>>)
    ensures
        optional_texts(result@) == records(list@).map_values(|record: RecordView| record.address),
{
    let mut result: Vec<Option<String>> = Vec::new();
    for i in 0..list.len()
        invariant
            result@.len() == i,
            forall|k: int|
                0 <= k < i ==> optional_text(#[trigger] result@[k]) == list@[k]@.address,
    {
        result.push(
            match &list[i].address {
                Some(address) => Some(address.clone()),
                None => None,
            },
        );
    }
    assert(optional_texts(result@) =~= records(list@).map_values(
        |record: RecordView| record.address,
    ));
    result
}

} // verus!
