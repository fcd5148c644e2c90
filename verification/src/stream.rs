//! Video stream fan-out.
//!
//! A room per peer id carries the frames of its publisher to any number of
//! viewers. When the publisher disconnects, the room is dropped and the viewers
//! see a clean close.

use vstd::hash_map::StringHashMap;
use vstd::prelude::*;

use crate::relay::{Forward, WsKind};

verus! {

/// How many frames a room keeps for viewers that lag behind.
pub const ROOM_CAPACITY: usize = 256;

/// How long a viewer's connection may idle before it is pinged, in seconds.
pub const HEARTBEAT_SECS: u64 = 60;

/// A room, by its number, and how many publishers it has.
#[derive(Debug, Clone, Copy, PartialEq, Eq, Structural)]
pub struct Room {
    pub id: u64,
    pub publishers: u64,
}

/// The rooms by peer id.
pub struct Rooms {
    rooms: StringHashMap<Room>,
    next: u64,
}

/// The rooms as the contracts see them. `next` is the number of the next new
/// room.
pub struct RoomsView {
    pub rooms: Map<Seq<char>, Room>,
    pub next: u64,
}

impl View for Rooms {
    type V = RoomsView;

    closed spec fn view(&self) -> RoomsView {
        RoomsView { rooms: self.rooms@, next: self.next }
    }
}

/// The room of a peer, which is opened where there is none.
pub open spec fn with_room(v: RoomsView, peer: Seq<char>) -> RoomsView {
    if v.rooms.contains_key(peer) {
        v
    } else {
        RoomsView {
            rooms: v.rooms.insert(peer, Room { id: v.next, publishers: 0 }),
            next: (v.next + 1) as u64,
        }
    }
}

/// The rooms after a publisher of `peer` has connected.
pub open spec fn with_publisher(v: RoomsView, peer: Seq<char>) -> RoomsView {
    let w = with_room(v, peer);
    let room = w.rooms[peer];
    RoomsView {
        rooms: w.rooms.insert(
            peer,
            Room { id: room.id, publishers: (room.publishers + 1) as u64 },
        ),
        next: w.next,
    }
}

/// The rooms after a publisher has left the room `id` of `peer`, and whether
/// the room is dropped: it is, with its last publisher.
pub open spec fn without_publisher(v: RoomsView, peer: Seq<char>, id: u64) -> (RoomsView, bool) {
    if v.rooms.contains_key(peer) && v.rooms[peer].id == id {
        let room = v.rooms[peer];
        if room.publishers <= 1 {
            (RoomsView { rooms: v.rooms.remove(peer), next: v.next }, true)
        } else {
            (
                RoomsView {
                    rooms: v.rooms.insert(
                        peer,
                        Room { id, publishers: (room.publishers - 1) as u64 },
                    ),
                    next: v.next,
                },
                false,
            )
        }
    } else {
        (v, false)
    }
}

/// Whether the numbers suffice for one more arrival in the room of `peer`.
pub open spec fn has_space(v: RoomsView, peer: Seq<char>) -> bool {
    if v.rooms.contains_key(peer) {
        v.rooms[peer].publishers < u64::MAX
    } else {
        v.next < u64::MAX
    }
}

impl Rooms {
    /// No room is open.
    pub fn new() -> (r: Self)
        ensures
            r@ == (RoomsView { rooms: Map::empty(), next: 0 }),
    {
        Rooms { rooms: StringHashMap::new(), next: 0 }
    }

    /// Whether one more can come to the room of `peer_id`.
    pub fn can_take(&self, peer_id: &str) -> (r: bool)
        ensures
            r == has_space(self@, peer_id@),
    {
        match self.rooms.get(peer_id) {
            Some(room) => room.publishers < u64::MAX,
            None => self.next < u64::MAX,
        }
    }

    /// Look up (or open) the room of `peer_id`.
    pub fn room_for(&mut self, peer_id: &str) -> (r: u64)
        requires
            has_space(old(self)@, peer_id@),
        ensures
            final(self)@ == with_room(old(self)@, peer_id@),
            r == final(self)@.rooms[peer_id@].id,
    {
        match self.rooms.get(peer_id) {
            Some(room) => {
                return room.id;
            },
            None => {},
        }
        let id = self.next;
        self.rooms.insert(peer_id.to_owned(), Room { id, publishers: 0 });
        self.next = id + 1;
        id
    }

    /// Let a publisher into the room of `peer_id`.
    pub fn publisher_joined(&mut self, peer_id: &str) -> (r: u64)
        requires
            has_space(old(self)@, peer_id@),
        ensures
            final(self)@ == with_publisher(old(self)@, peer_id@),
            r == final(self)@.rooms[peer_id@].id,
    {
        let id = self.room_for(peer_id);
        let publishers = match self.rooms.get(peer_id) {
            Some(room) => room.publishers + 1,
            None => 1,
        };
        self.rooms.insert(peer_id.to_owned(), Room { id, publishers });
        id
    }

    /// Let a publisher out of the room `id` of `peer_id`. The result tells
    /// whether the room is dropped.
    pub fn publisher_left(&mut self, peer_id: &str, id: u64) -> (r: bool)
        ensures
            (final(self)@, r) == without_publisher(old(self)@, peer_id@, id),
    {
        let room = match self.rooms.get(peer_id) {
            Some(room) => *room,
            None => {
                return false;
            },
        };
        if room.id != id {
            return false;
        }
        if room.publishers <= 1 {
            self.rooms.remove(peer_id);
            true
        } else {
            self.rooms.insert(peer_id.to_owned(), Room { id, publishers: room.publishers - 1 });
            false
        }
    }
}

/// A publisher's binary messages go to the room, until it closes. Other
/// messages are passed over.
pub fn handle_publisher(kind: WsKind) -> (r: Forward)
    ensures
        r == (match kind {
            WsKind::Binary => Forward::Send,
            WsKind::Close => Forward::Stop,
            _ => Forward::Skip,
        }),
{
    match kind {
        WsKind::Binary => Forward::Send,
        WsKind::Close => Forward::Stop,
        _ => Forward::Skip,
    }
}

/// A viewer does not talk back: its messages are passed over, until it closes.
pub fn viewer_message(kind: WsKind) -> (r: Forward)
    ensures
        r == (if kind == WsKind::Close {
            Forward::Stop
        } else {
            Forward::Skip
        }),
{
    match kind {
        WsKind::Close => Forward::Stop,
        _ => Forward::Skip,
    }
}

/// What happened to a viewer.
#[derive(Debug, Clone, Copy, PartialEq, Eq, Structural)]
pub enum ViewerEvent {
    /// Nothing, for `HEARTBEAT_SECS`.
    Idle,
    /// The room has a frame.
    Frame,
    /// The viewer was too slow, and the room has dropped frames.
    Lagged,
    /// The room is gone.
    Closed,
    /// The viewer has closed its connection, or the connection failed.
    Left,
    /// Sending to the viewer failed.
    SendFailed,
}

/// What to do for a viewer.
#[derive(Debug, Clone, Copy, PartialEq, Eq, Structural)]
pub enum ViewerStep {
    /// Send a ping, which keeps an idle connection alive through proxies.
    Ping,
    /// Send the frame as a binary message.
    SendFrame,
    /// Go on with the frames that are left.
    Wait,
    /// Close the connection.
    Close,
}

/// Decide what to do for a viewer.
pub fn handle_viewer(event: ViewerEvent) -> (r: ViewerStep)
    ensures
        r == (match event {
            ViewerEvent::Idle => ViewerStep::Ping,
            ViewerEvent::Frame => ViewerStep::SendFrame,
            ViewerEvent::Lagged => ViewerStep::Wait,
            ViewerEvent::Closed | ViewerEvent::Left | ViewerEvent::SendFailed => ViewerStep::Close,
        }),
{
    match event {
        ViewerEvent::Idle => ViewerStep::Ping,
        ViewerEvent::Frame => ViewerStep::SendFrame,
        ViewerEvent::Lagged => ViewerStep::Wait,
        ViewerEvent::Closed => ViewerStep::Close,
        ViewerEvent::Left => ViewerStep::Close,
        ViewerEvent::SendFailed => ViewerStep::Close,
    }
}

/// Whether every room has a number of its own, which no new room will get.
pub open spec fn rooms_apart(v: RoomsView) -> bool {
    &&& forall|p: Seq<char>| #[trigger] v.rooms.contains_key(p) ==> v.rooms[p].id < v.next
    &&& forall|p: Seq<char>, q: Seq<char>|
        #![trigger v.rooms.contains_key(p), v.rooms.contains_key(q)]
        v.rooms.contains_key(p) && v.rooms.contains_key(q) && p != q ==> v.rooms[p].id
            != v.rooms[q].id
}

/// Rooms never mix: whatever comes and goes, two peers have two rooms, and a
/// room that is opened has a number that no room had before.
pub proof fn law_rooms_stay_apart(v: RoomsView, peer: Seq<char>, id: u64)
    requires
        v.next < u64::MAX,
        rooms_apart(v),
    ensures
        rooms_apart(RoomsView { rooms: Map::empty(), next: 0 }),
        rooms_apart(with_room(v, peer)),
        rooms_apart(with_publisher(v, peer)),
        rooms_apart(without_publisher(v, peer, id).0),
        !v.rooms.contains_key(peer) ==> with_room(v, peer).rooms[peer].id == v.next,
        with_room(v, peer).next >= v.next,
        without_publisher(v, peer, id).0.next == v.next,
{
}

/// Publisher and viewers of a peer meet in the same room, whoever comes first.
pub proof fn law_same_room(v: RoomsView, peer: Seq<char>)
    requires
        v.next < u64::MAX,
    ensures
        with_room(with_room(v, peer), peer) == with_room(v, peer),
        with_room(with_publisher(v, peer), peer) == with_publisher(v, peer),
        with_publisher(v, peer).rooms[peer].id == with_room(v, peer).rooms[peer].id,
        with_publisher(with_room(v, peer), peer) == with_publisher(v, peer),
{
}

/// A lone publisher that leaves takes its room with it, and touches no other.
pub proof fn law_room_goes_with_its_publisher(v: RoomsView, peer: Seq<char>)
    requires
        v.next < u64::MAX,
        v.rooms.contains_key(peer) ==> v.rooms[peer].publishers == 0,
    ensures
        ({
            let joined = with_publisher(v, peer);
            let (left, dropped) = without_publisher(joined, peer, joined.rooms[peer].id);
            dropped && left.rooms == v.rooms.remove(peer)
        }),
{
    let joined = with_publisher(v, peer);
    assert(joined.rooms.remove(peer) =~= v.rooms.remove(peer));
}

/// The rooms after `n` publishers of `peer` have come.
pub open spec fn after_arrivals(v: RoomsView, peer: Seq<char>, n: nat) -> RoomsView
    decreases n,
{
    if n == 0 {
        v
    } else {
        with_publisher(after_arrivals(v, peer, (n - 1) as nat), peer)
    }
}

/// The rooms after `n` publishers have left the room `id` of `peer`.
pub open spec fn after_departures(v: RoomsView, peer: Seq<char>, id: u64, n: nat) -> RoomsView
    decreases n,
{
    if n == 0 {
        v
    } else {
        without_publisher(after_departures(v, peer, id, (n - 1) as nat), peer, id).0
    }
}

/// A room lasts until as many publishers have left as came, and its number with
/// it: before that no departure drops it, and the last one does. No other room
/// is touched.
pub proof fn law_room_lasts_until_the_last_publisher(
    v: RoomsView,
    peer: Seq<char>,
    came: nat,
    left: nat,
    other: Seq<char>,
)
    requires
        v.next < u64::MAX,
        !v.rooms.contains_key(peer),
        left < came <= u64::MAX,
        other != peer,
    ensures
        ({
            let full = after_arrivals(v, peer, came);
            let now = after_departures(full, peer, v.next, left);
            let (after, dropped) = without_publisher(now, peer, v.next);
            &&& full.rooms[peer].id == v.next
            &&& now.rooms.contains_key(peer)
            &&& now.rooms[peer].id == v.next
            &&& dropped <==> left + 1 == came
            &&& dropped <==> !after.rooms.contains_key(peer)
            &&& after.next == v.next + 1
            &&& after.rooms.contains_key(other) == v.rooms.contains_key(other)
            &&& v.rooms.contains_key(other) ==> after.rooms[other] == v.rooms[other]
        }),
{
    lemma_arrivals(v, peer, came, other);
    lemma_departures(after_arrivals(v, peer, came), peer, v.next, left, other);
}

proof fn lemma_arrivals(v: RoomsView, peer: Seq<char>, n: nat, other: Seq<char>)
    requires
        v.next < u64::MAX,
        !v.rooms.contains_key(peer),
        n <= u64::MAX,
        other != peer,
    ensures
        n > 0 ==> {
            let w = after_arrivals(v, peer, n);
            &&& w.rooms.contains_key(peer)
            &&& w.rooms[peer] == (Room { id: v.next, publishers: n as u64 })
            &&& w.next == v.next + 1
            &&& w.rooms.contains_key(other) == v.rooms.contains_key(other)
            &&& v.rooms.contains_key(other) ==> w.rooms[other] == v.rooms[other]
        },
    decreases n,
{
    if n > 0 {
        lemma_arrivals(v, peer, (n - 1) as nat, other);
        assert(after_arrivals(v, peer, 0) == v);
    }
}

proof fn lemma_departures(v: RoomsView, peer: Seq<char>, id: u64, n: nat, other: Seq<char>)
    requires
        v.rooms.contains_key(peer),
        v.rooms[peer].id == id,
        n < v.rooms[peer].publishers,
        other != peer,
    ensures
        ({
            let w = after_departures(v, peer, id, n);
            &&& w.rooms.contains_key(peer)
            &&& w.rooms[peer] == (Room { id, publishers: (v.rooms[peer].publishers - n) as u64 })
            &&& w.next == v.next
            &&& w.rooms.contains_key(other) == v.rooms.contains_key(other)
            &&& v.rooms.contains_key(other) ==> w.rooms[other] == v.rooms[other]
        }),
    decreases n,
{
    if n > 0 {
        lemma_departures(v, peer, id, (n - 1) as nat, other);
    }
}

/// To leave a room that is not the peer's changes nothing, and drops nothing.
pub proof fn law_wrong_room_is_left_alone(v: RoomsView, peer: Seq<char>, id: u64)
    requires
        !v.rooms.contains_key(peer) || v.rooms[peer].id != id,
    ensures
        without_publisher(v, peer, id) == (v, false),
{
}

/// A viewer finds the room that is there, as it is, or opens one without a
/// publisher under the next number. Neither it nor a publisher changes another
/// room. There is space as long as the numbers suffice.
pub proof fn law_coming_to_a_room(v: RoomsView, peer: Seq<char>, other: Seq<char>)
    requires
        v.next < u64::MAX,
        other != peer,
    ensures
        v.rooms.contains_key(peer) ==> with_room(v, peer) == v,
        !v.rooms.contains_key(peer) ==> {
            let w = with_room(v, peer);
            &&& w.rooms == v.rooms.insert(peer, Room { id: v.next, publishers: 0 })
            &&& w.next == v.next + 1
        },
        with_publisher(v, peer).rooms.contains_key(other) == v.rooms.contains_key(other),
        v.rooms.contains_key(other) ==> with_publisher(v, peer).rooms[other] == v.rooms[other],
        v.rooms.contains_key(peer) && v.rooms[peer].publishers < u64::MAX ==> has_space(v, peer)
            && with_publisher(v, peer).rooms[peer].publishers == v.rooms[peer].publishers + 1,
        v.rooms.contains_key(peer) && v.rooms[peer].publishers == u64::MAX ==> !has_space(v, peer),
        !v.rooms.contains_key(peer) ==> has_space(v, peer),
        !v.rooms.contains_key(peer) ==> !has_space(RoomsView { next: u64::MAX, ..v }, peer),
{
}

/// What a publisher and a viewer send, and what is done for a viewer: only a
/// publisher's binary messages are frames, a close ends either, and a viewer is
/// pinged when idle, sent each frame, and let go when the room is gone, it has
/// left or cannot be sent to. Frames that it missed do not end its session.
pub proof fn law_what_viewers_get(
    kind: WsKind,
    published: Forward,
    said: Forward,
    event: ViewerEvent,
    step: ViewerStep,
)
    requires
        call_ensures(handle_publisher, (kind,), published),
        call_ensures(viewer_message, (kind,), said),
        call_ensures(handle_viewer, (event,), step),
    ensures
        published == Forward::Send <==> kind == WsKind::Binary,
        published == Forward::Stop <==> kind == WsKind::Close,
        said == Forward::Stop <==> kind == WsKind::Close,
        said != Forward::Send,
        step == ViewerStep::Ping <==> event == ViewerEvent::Idle,
        step == ViewerStep::SendFrame <==> event == ViewerEvent::Frame,
        step == ViewerStep::Wait <==> event == ViewerEvent::Lagged,
        step == ViewerStep::Close <==> event == ViewerEvent::Closed || event == ViewerEvent::Left
            || event == ViewerEvent::SendFailed,
{
}

/// A publisher and a viewer of the same peer are given the same room, whoever
/// comes first, and the room is gone for both once the publisher has left it.
pub proof fn law_publisher_and_viewer_share_a_room(
    rooms: &mut Rooms,
    peer: &str,
    published: u64,
    then: &mut Rooms,
    viewed: u64,
    last: &mut Rooms,
    dropped: bool,
)
    requires
        has_space(rooms@, peer@),
        !rooms@.rooms.contains_key(peer@),
        call_ensures(Rooms::publisher_joined, (rooms, peer), published),
        *then == *final(rooms),
        call_ensures(Rooms::room_for, (then, peer), viewed),
        *last == *final(then),
        call_ensures(Rooms::publisher_left, (last, peer, published), dropped),
    ensures
        published == viewed,
        dropped,
        final(last)@.rooms == old(rooms)@.rooms,
{
    assert(final(last)@.rooms =~= rooms@.rooms);
}

/// Whoever can come gets a room: it stays the same room for the next one, and
/// no other peer's room is touched. A room that exists takes more publishers as
/// long as they can be counted, and new rooms come as long as they can be
/// numbered.
pub proof fn law_taking_and_finding_a_room(
    s: &mut Rooms,
    peer: &str,
    can: bool,
    first: u64,
    then: &mut Rooms,
    second: u64,
    other: Seq<char>,
)
    requires
        call_ensures(Rooms::can_take, (&*s, peer), can),
        can,
        call_ensures(Rooms::room_for, (s, peer), first),
        *then == *final(s),
        call_ensures(Rooms::room_for, (then, peer), second),
        other != peer@,
    ensures
        first == second,
        old(s)@.rooms.contains_key(peer@) ==> first == old(s)@.rooms[peer@].id && final(s)@
            == old(s)@,
        !old(s)@.rooms.contains_key(peer@) ==> first == old(s)@.next && final(s)@.next == first + 1
            && final(s)@.rooms[peer@].publishers == 0,
        final(then)@ == final(s)@,
        final(s)@.rooms.contains_key(peer@),
        final(s)@.rooms.contains_key(other) == old(s)@.rooms.contains_key(other),
        old(s)@.rooms.contains_key(other) ==> final(s)@.rooms[other] == old(s)@.rooms[other],
{
}

/// When one more can come.
pub proof fn law_space(s: Rooms, peer: &str, can: bool)
    requires
        call_ensures(Rooms::can_take, (&s, peer), can),
    ensures
        s@.rooms.contains_key(peer@) ==> (can <==> s@.rooms[peer@].publishers
            < 0xffff_ffff_ffff_ffff),
        !s@.rooms.contains_key(peer@) ==> (can <==> s@.next < 0xffff_ffff_ffff_ffff),
{
}

/// A room keeps 256 frames, and an idle viewer is pinged once a minute.
pub proof fn law_room_limits()
    ensures
        ROOM_CAPACITY == 256,
        HEARTBEAT_SECS == 60,
{
}

} // verus!
