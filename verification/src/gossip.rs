//! Gossip: joining the topic, announcing archives, and turning the announcements of others into
//! fetch requests.

use vstd::prelude::*;
use vstd::string::*;
use vstd::utf8::*;

use crate::ids::{blake3_of, topic_id};
use crate::index::IndexedArchive;
use crate::text::{split, split_on};

verus! {

/// The message type of an archive announcement.
pub const ARCHIVE_AVAILABLE: &'static str = "archive_available";

/// The file name of an archive whose announcement names no path.
pub const DEFAULT_ARCHIVE: &'static str = "archive.parquet";

/// After how many announcements a catch-up makes room for other work.
pub const CATCH_UP_BATCH: u64 = 1000;

/// An archive announcement broadcast over gossip.
#[derive(Debug, Clone)]
pub struct ArchiveAnnouncement {
    pub msg_type: String,
    pub country: String,
    pub subdivision: String,
    pub date: String,
    pub hash: String,
    pub node_id: String,
    /// Logical path of the archive (e.g. "nz/wgn/2026/03/05/readings.parquet").
    pub path: String,
    /// Size in bytes.
    pub size: u64,
}

/// The mathematical form of an `ArchiveAnnouncement`.
pub struct AnnouncementView {
    pub msg_type: Seq<char>,
    pub country: Seq<char>,
    pub subdivision: Seq<char>,
    pub date: Seq<char>,
    pub hash: Seq<char>,
    pub node_id: Seq<char>,
    pub path: Seq<char>,
    pub size: u64,
}

impl View for ArchiveAnnouncement {
    type V = AnnouncementView;

    open spec fn view(&self) -> AnnouncementView {
        AnnouncementView {
            msg_type: self.msg_type@,
            country: self.country@,
            subdivision: self.subdivision@,
            date: self.date@,
            hash: self.hash@,
            node_id: self.node_id@,
            path: self.path@,
            size: self.size,
        }
    }
}

/// A request to fetch an archive from a peer, sent to the replicator.
#[derive(Debug, Clone)]
pub struct FetchRequest {
    /// BLAKE3 hash of the blob, as text.
    pub hash: String,
    /// Logical archive path.
    pub path: String,
    /// ISO country code.
    pub country: String,
    /// ISO subdivision code.
    pub subdivision: String,
    /// Size in bytes.
    pub size: u64,
    /// Node ID of the source peer.
    pub source_node: String,
}

/// The mathematical form of a `FetchRequest`.
pub struct FetchView {
    pub hash: Seq<char>,
    pub path: Seq<char>,
    pub country: Seq<char>,
    pub subdivision: Seq<char>,
    pub size: u64,
    pub source_node: Seq<char>,
}

impl View for FetchRequest {
    type V = FetchView;

    open spec fn view(&self) -> FetchView {
        FetchView {
            hash: self.hash@,
            path: self.path@,
            country: self.country@,
            subdivision: self.subdivision@,
            size: self.size,
            source_node: self.source_node@,
        }
    }
}

/// Where an archive belongs.
#[derive(Debug, Clone)]
pub struct ArchivePlace {
    pub country: String,
    pub subdivision: String,
    pub date: String,
}

/// What node `node_id` says of an archive.
pub open spec fn announcement_of(
    node_id: Seq<char>,
    country: Seq<char>,
    subdivision: Seq<char>,
    date: Seq<char>,
    hash: Seq<char>,
    path: Seq<char>,
    size: u64,
) -> AnnouncementView {
    AnnouncementView {
        msg_type: ARCHIVE_AVAILABLE@,
        country,
        subdivision,
        date,
        hash,
        node_id,
        path,
        size,
    }
}

/// The path `country/subdivision/year/month/day/archive.parquet`.
pub open spec fn dated_path(
    country: Seq<char>,
    subdivision: Seq<char>,
    year: Seq<char>,
    month: Seq<char>,
    day: Seq<char>,
) -> Seq<char> {
    country + "/"@ + subdivision + "/"@ + year + "/"@ + month + "/"@ + day + "/"@
        + DEFAULT_ARCHIVE@
}

/// The path at which an announced archive is to be kept: the announced one, or else one that
/// follows from the place and a date of three parts.
pub open spec fn fetch_path(announcement: AnnouncementView) -> Option<Seq<char>> {
    if announcement.path.len() > 0 {
        Some(announcement.path)
    } else {
        let parts = split_on(announcement.date, '-');
        if parts.len() == 3 {
            Some(
                dated_path(
                    announcement.country,
                    announcement.subdivision,
                    parts[0],
                    parts[1],
                    parts[2],
                ),
            )
        } else {
            None
        }
    }
}

/// The request that an announcement leads to.
pub open spec fn fetch_of(announcement: AnnouncementView) -> Option<FetchView> {
    match fetch_path(announcement) {
        Some(path) => Some(
            FetchView {
                hash: announcement.hash,
                path,
                country: announcement.country,
                subdivision: announcement.subdivision,
                size: announcement.size,
                source_node: announcement.node_id,
            },
        ),
        None => None,
    }
}

/// Copies a fetch request out of an announcement, where there is a path to keep it at.
pub fn fetch_request(announcement: &ArchiveAnnouncement) -> (request: Option<FetchRequest>)
    ensures
        match request {
            Some(request) => fetch_of(announcement@) == Some(request@),
            None => fetch_of(announcement@) is None,
        },
{
    let path = if announcement.path.as_str().is_empty() {
        let parts = split(announcement.date.as_str(), '-');
        if parts.len() != 3 {
            return None;
        }
        let mut path = announcement.country.clone();
        path.append("/");
        path.append(announcement.subdivision.as_str());
        path.append("/");
        path.append(parts[0].as_str());
        path.append("/");
        path.append(parts[1].as_str());
        path.append("/");
        path.append(parts[2].as_str());
        path.append("/");
        path.append(DEFAULT_ARCHIVE);
        path
    } else {
        announcement.path.clone()
    };
    Some(
        FetchRequest {
            hash: announcement.hash.clone(),
            path,
            country: announcement.country.clone(),
            subdivision: announcement.subdivision.clone(),
            size: announcement.size,
            source_node: announcement.node_id.clone(),
        },
    )
}

/// What comes in from the gossip topic.
#[derive(Debug)]
pub enum GossipEvent {
    /// A message; `None` where it is no announcement.
    Received(Option<ArchiveAnnouncement>),
    /// A peer connected.
    NeighborUp,
    /// A peer disconnected.
    NeighborDown,
    /// Messages were missed.
    Lagged,
    /// Receiving failed.
    Failed,
}

/// The mathematical form of a `GossipEvent`.
pub enum EventView {
    Received(Option<AnnouncementView>),
    NeighborUp,
    NeighborDown,
    Lagged,
    Failed,
}

impl View for GossipEvent {
    type V = EventView;

    open spec fn view(&self) -> EventView {
        match self {
            GossipEvent::Received(Some(announcement)) => EventView::Received(Some(announcement@)),
            GossipEvent::Received(None) => EventView::Received(None),
            GossipEvent::NeighborUp => EventView::NeighborUp,
            GossipEvent::NeighborDown => EventView::NeighborDown,
            GossipEvent::Lagged => EventView::Lagged,
            GossipEvent::Failed => EventView::Failed,
        }
    }
}

/// What is to be done about a gossip event.
#[derive(Debug)]
pub enum GossipAction {
    /// Nothing.
    Ignore,
    /// Hand the request to the replicator.
    Forward(FetchRequest),
    /// Announce every local archive again.
    CatchUp,
}

/// The mathematical form of a `GossipAction`.
pub enum ActionView {
    Ignore,
    Forward(FetchView),
    CatchUp,
}

impl View for GossipAction {
    type V = ActionView;

    open spec fn view(&self) -> ActionView {
        match self {
            GossipAction::Ignore => ActionView::Ignore,
            GossipAction::Forward(request) => ActionView::Forward(request@),
            GossipAction::CatchUp => ActionView::CatchUp,
        }
    }
}

/// A subscription to be made.
#[derive(Debug)]
pub struct Subscription {
    pub topic_id: [u8; 32],
    /// The peers to begin with.
    pub peers: Vec<[u8; 32]>,
}

/// An announcement to be broadcast.
#[derive(Debug)]
pub struct Outgoing {
    pub announcement: ArchiveAnnouncement,
    /// Whether there is a topic to send it to.
    pub ready: bool,
}

/// Why the topic was not joined.
#[derive(Debug, Clone, Copy, PartialEq, Eq, Structural)]
pub enum GossipError {
    /// The subscription failed.
    SubscribeFailed,
}

/// Membership of a gossip topic.
pub struct GossipHandle {
    topic_id: [u8; 32],
    node_id: String,
    forwards: bool,
    joined: bool,
    catches_up: bool,
    connected: usize,
}

/// The mathematical form of a `GossipHandle`.
pub struct GossipView {
    /// The identifier of the topic.
    pub topic_id: Seq<u8>,
    /// This node.
    pub node_id: Seq<char>,
    /// Whether there is a replicator to forward to.
    pub forwards: bool,
    /// Whether the topic was joined.
    pub joined: bool,
    /// Whether there is an index to announce again from.
    pub catches_up: bool,
    /// How many peers are connected.
    pub connected: usize,
}

impl View for GossipHandle {
    type V = GossipView;

    closed spec fn view(&self) -> GossipView {
        GossipView {
            topic_id: self.topic_id@,
            node_id: self.node_id@,
            forwards: self.forwards,
            joined: self.joined,
            catches_up: self.catches_up,
            connected: self.connected,
        }
    }
}

/// The next number of connected peers, of a counter that wraps.
pub open spec fn counted_up(connected: usize) -> usize {
    if connected == usize::MAX {
        0
    } else {
        (connected + 1) as usize
    }
}

/// The previous number of connected peers: never fewer than none.
pub open spec fn counted_down(connected: usize) -> usize {
    if connected == 0 {
        0
    } else {
        (connected - 1) as usize
    }
}

impl GossipView {
    /// The state after an event.
    pub open spec fn after(self, event: EventView) -> GossipView {
        match event {
            EventView::NeighborUp => GossipView { connected: counted_up(self.connected), ..self },
            EventView::NeighborDown => GossipView {
                connected: counted_down(self.connected),
                ..self
            },
            _ => self,
        }
    }

    /// What is to be done about an event.
    pub open spec fn reaction(self, event: EventView) -> ActionView {
        match event {
            EventView::Received(Some(announcement)) => if announcement.node_id == self.node_id
                || !self.forwards {
                ActionView::Ignore
            } else {
                match fetch_of(announcement) {
                    Some(request) => ActionView::Forward(request),
                    None => ActionView::Ignore,
                }
            },
            EventView::NeighborUp => if self.catches_up && self.joined {
                ActionView::CatchUp
            } else {
                ActionView::Ignore
            },
            _ => ActionView::Ignore,
        }
    }
}

impl GossipHandle {
    /// A handle on the topic called `topic_name`, not joined yet. `forwards` says whether there
    /// is a replicator to forward to.
    pub fn new(topic_name: &str, node_id: String, forwards: bool) -> (handle: Self)
        ensures
            handle@ == (GossipView {
                topic_id: blake3_of(encode_utf8(topic_name@)),
                node_id: node_id@,
                forwards,
                joined: false,
                catches_up: false,
                connected: 0,
            }),
    {
        GossipHandle {
            topic_id: topic_id(topic_name),
            node_id,
            forwards,
            joined: false,
            catches_up: false,
            connected: 0,
        }
    }

    /// From now on, local archives are announced again when a peer connects.
    pub fn set_index(&mut self)
        ensures
            final(self)@ == (GossipView { catches_up: true, ..old(self)@ }),
    {
        self.catches_up = true;
    }

    /// How many peers are connected.
    pub fn connected_peers(&self) -> (count: usize)
        ensures
            count == self@.connected,
    {
        self.connected
    }

    /// The peers to be added to the mesh: all of them, once the topic was joined.
    pub fn join_peers(&self, peers: Vec<[u8; 32]>) -> (joining: Option<Vec<[u8; 32]>>)
        ensures
            joining == (if self@.joined {
                Some(peers)
            } else {
                None
            }),
    {
        if self.joined {
            Some(peers)
        } else {
            None
        }
    }

    /// The subscription by which the topic is joined: no peers are known to begin with.
    pub fn start(&self) -> (subscription: Subscription)
        ensures
            subscription.topic_id@ == self@.topic_id,
            subscription.peers@.len() == 0,
    {
        Subscription { topic_id: self.topic_id, peers: Vec::new() }
    }

    /// Ends the joining of the topic.
    pub fn finish_start(&mut self, subscribed: bool) -> (result: Result<(), GossipError>)
        ensures
            subscribed ==> result is Ok && final(self)@ == (GossipView {
                joined: true,
                ..old(self)@
            }),
            !subscribed ==> result == Err::<(), GossipError>(GossipError::SubscribeFailed)
                && final(self)@ == old(self)@,
    {
        if subscribed {
            self.joined = true;
            Ok(())
        } else {
            Err(GossipError::SubscribeFailed)
        }
    }

    /// The announcement of an archive, and whether there is a topic to send it to.
    pub fn announce_archive(
        &self,
        country: &str,
        subdivision: &str,
        date: &str,
        hash: &str,
        path: &str,
        size: u64,
    ) -> (outgoing: Outgoing)
        ensures
            outgoing.announcement@ == announcement_of(
                self@.node_id,
                country@,
                subdivision@,
                date@,
                hash@,
                path@,
                size,
            ),
            outgoing.ready == self@.joined,
    {
        Outgoing {
            announcement: ArchiveAnnouncement {
                msg_type: ARCHIVE_AVAILABLE.to_owned(),
                country: country.to_owned(),
                subdivision: subdivision.to_owned(),
                date: date.to_owned(),
                hash: hash.to_owned(),
                node_id: self.node_id.clone(),
                path: path.to_owned(),
                size,
            },
            ready: self.joined,
        }
    }

    /// Takes in one gossip event, and says what is to be done about it.
    pub fn receive(&mut self, event: GossipEvent) -> (action: GossipAction)
        ensures
            final(self)@ == old(self)@.after(event@),
            action@ == old(self)@.reaction(event@),
    {
        match event {
            GossipEvent::Received(Some(announcement)) => {
                // A node hears its own announcements too.
                if announcement.node_id == self.node_id || !self.forwards {
                    return GossipAction::Ignore;
                }
                match fetch_request(&announcement) {
                    Some(request) => GossipAction::Forward(request),
                    None => GossipAction::Ignore,
                }
            },
            GossipEvent::Received(None) => GossipAction::Ignore,
            GossipEvent::NeighborUp => {
                self.connected = self.connected.wrapping_add(1);
                if self.catches_up && self.joined {
                    GossipAction::CatchUp
                } else {
                    GossipAction::Ignore
                }
            },
            GossipEvent::NeighborDown => {
                self.connected = self.connected.saturating_sub(1);
                GossipAction::Ignore
            },
            GossipEvent::Lagged => GossipAction::Ignore,
            GossipEvent::Failed => GossipAction::Ignore,
        }
    }

    /// Begins to announce the local archives again.
    pub fn catch_up(&self, archives: Vec<IndexedArchive>) -> (catch_up: CatchUp)
        ensures
            catch_up@ == (CatchUpView {
                node_id: self@.node_id,
                archives: archives@,
                position: 0,
                announced: 0,
            }),
            catch_up@.wf(),
    {
        CatchUp { node_id: self.node_id.clone(), archives, position: 0, announced: 0 }
    }
}

/// The local archives on their way to be announced again, one after the other.
pub struct CatchUp {
    node_id: String,
    archives: Vec<IndexedArchive>,
    position: usize,
    announced: u64,
}

/// The mathematical form of a `CatchUp`.
pub struct CatchUpView {
    /// This node.
    pub node_id: Seq<char>,
    /// The archives.
    pub archives: Seq<IndexedArchive>,
    /// How many archives are behind.
    pub position: int,
    /// How many archives were announced.
    pub announced: int,
}

impl View for CatchUp {
    type V = CatchUpView;

    closed spec fn view(&self) -> CatchUpView {
        CatchUpView {
            node_id: self.node_id@,
            archives: self.archives@,
            position: self.position as int,
            announced: self.announced as int,
        }
    }
}

impl CatchUpView {
    /// No more was announced than is behind, and no more is behind than there is.
    pub open spec fn wf(self) -> bool {
        0 <= self.announced <= self.position <= self.archives.len()
    }

    /// The announcement of the archive that is next, given the place that its path names.
    pub open spec fn next(self, place: Option<ArchivePlace>) -> Option<AnnouncementView> {
        if self.position < self.archives.len() && place is Some {
            Some(
                announcement_of(
                    self.node_id,
                    place->0.country@,
                    place->0.subdivision@,
                    place->0.date@,
                    self.archives[self.position].entry@.hash,
                    self.archives[self.position].path@,
                    self.archives[self.position].entry@.size,
                ),
            )
        } else {
            None
        }
    }

    /// One archive more is behind; `made` says whether there was an announcement of it.
    pub open spec fn after(self, made: bool) -> CatchUpView {
        CatchUpView {
            position: self.position + 1,
            announced: if made {
                self.announced + 1
            } else {
                self.announced
            },
            ..self
        }
    }
}

impl CatchUp {
    /// The archive that is next.
    pub fn current(&self) -> (archive: Option<&IndexedArchive>)
        requires
            self@.wf(),
        ensures
            match archive {
                Some(archive) => self@.position < self@.archives.len() && *archive
                    == self@.archives[self@.position],
                None => self@.position == self@.archives.len(),
            },
    {
        if self.position < self.archives.len() {
            Some(&self.archives[self.position])
        } else {
            None
        }
    }

    /// The announcement of the archive that is next, given the place that its path names. One
    /// whose path names none is passed over.
    pub fn announcement(&self, place: Option<ArchivePlace>) -> (announcement: Option<
        ArchiveAnnouncement,
    >)
        ensures
            match announcement {
                Some(announcement) => self@.next(place) == Some(announcement@),
                None => self@.next(place) is None,
            },
    {
        if self.position >= self.archives.len() {
            return None;
        }
        match place {
            Some(place) => {
                let archive = &self.archives[self.position];
                Some(
                    ArchiveAnnouncement {
                        msg_type: ARCHIVE_AVAILABLE.to_owned(),
                        country: place.country,
                        subdivision: place.subdivision,
                        date: place.date,
                        hash: archive.entry.hash.clone(),
                        node_id: self.node_id.clone(),
                        path: archive.path.clone(),
                        size: archive.entry.size,
                    },
                )
            },
            None => None,
        }
    }

    /// Goes on to the archive after the next, and says whether to make room for other work
    /// first. `made` says whether there was an announcement to send.
    pub fn advance(&mut self, made: bool) -> (pause: bool)
        requires
            old(self)@.wf(),
            old(self)@.position < old(self)@.archives.len(),
        ensures
            final(self)@ == old(self)@.after(made),
            final(self)@.wf(),
            pause == (final(self)@.announced % (CATCH_UP_BATCH as int) == 0),
    {
        assert(self.position < self.archives.len());
        self.position = self.position + 1;
        if made {
            self.announced = self.announced + 1;
        }
        self.announced % CATCH_UP_BATCH == 0
    }

    /// How many archives were announced.
    pub fn announced_count(&self) -> (count: u64)
        ensures
            count == self@.announced,
    {
        self.announced
    }
}

} // verus!
