//! In-memory peer registry.
//!
//! A peer can be reachable over either UDP (native client) or a long-lived
//! WebSocket push channel (browser client).

use vstd::hash_map::StringHashMap;
use vstd::prelude::*;

verus! {

/// The address of a datagram peer.
#[derive(Debug, Clone, Copy, PartialEq, Eq, Structural)]
pub enum Endpoint {
    V4 { ip: u32, port: u16 },
    V6 { ip6: u128, port: u16, flowinfo: u32, scope_id: u32 },
}

/// A connection's outgoing queue, by the number that the connection was given.
/// No two connections share a number.
pub type Outbox = u64;

/// How a registered peer is reached to push it a server-initiated message.
#[derive(Debug, Clone, Copy, PartialEq, Eq, Structural)]
pub enum Reachable {
    /// Native client: send a `RendezvousMessage` over UDP.
    Udp(Endpoint),
    /// Web client: push into the queue of its WebSocket connection.
    WsPush(Outbox),
}

/// What the registry knows of a peer.
#[derive(Debug, Clone, Copy, PartialEq, Eq, Structural)]
pub struct PeerEntry {
    pub reach: Reachable,
    /// When the peer registered, in milliseconds of a monotonic clock.
    pub last_seen: u64,
}

/// The registered peers by id.
pub struct PeerRegistry {
    inner: StringHashMap<PeerEntry>,
}

impl View for PeerRegistry {
    type V = Map<Seq<char>, PeerEntry>;

    closed spec fn view(&self) -> Map<Seq<char>, PeerEntry> {
        self.inner@
    }
}

impl Default for PeerRegistry {
    /// A registry without peers.
    fn default() -> (r: Self)
        ensures
            r@ == Map::<Seq<char>, PeerEntry>::empty(),
    {
        PeerRegistry { inner: StringHashMap::new() }
    }
}

/// The registry after `id`'s channel `sender` has gone.
pub open spec fn without_ws(
    peers: Map<Seq<char>, PeerEntry>,
    id: Seq<char>,
    sender: Outbox,
) -> Map<Seq<char>, PeerEntry> {
    if peers.contains_key(id) && peers[id].reach == Reachable::WsPush(sender) {
        peers.remove(id)
    } else {
        peers
    }
}

impl PeerRegistry {
    /// A registry without peers.
    pub fn new() -> (r: Self)
        ensures
            r@ == Map::<Seq<char>, PeerEntry>::empty(),
    {
        Self::default()
    }

    /// Register a peer, or replace what was known of it.
    pub fn upsert(&mut self, id: String, reach: Reachable, now: u64)
        ensures
            final(self)@ == old(self)@.insert(id@, PeerEntry { reach, last_seen: now }),
    {
        self.inner.insert(id, PeerEntry { reach, last_seen: now });
    }

    /// How the peer is reached, if it is registered.
    pub fn get(&self, id: &str) -> (r: Option<Reachable>)
        ensures
            r == (if self@.contains_key(id@) {
                Some(self@[id@].reach)
            } else {
                None
            }),
    {
        match self.inner.get(id) {
            Some(entry) => Some(entry.reach),
            None => None,
        }
    }

    /// Drop a peer if its current entry is the push channel `sender`. Used on
    /// disconnect.
    pub fn remove_if_ws(&mut self, id: &str, sender: Outbox)
        ensures
            final(self)@ == without_ws(old(self)@, id@, sender),
    {
        let drop_it = match self.get(id) {
            Some(Reachable::WsPush(s)) => s == sender,
            _ => false,
        };
        if drop_it {
            self.inner.remove(id);
        }
    }
}

/// The end of a channel removes the entry of its peer, if that entry is the
/// channel, and nothing else: a peer that is reached otherwise stays, and so
/// does every other peer.
pub proof fn law_only_its_own_channel_is_removed(
    peers: Map<Seq<char>, PeerEntry>,
    id: Seq<char>,
    sender: Outbox,
    other: Seq<char>,
)
    ensures
        peers.contains_key(id) && peers[id].reach == Reachable::WsPush(sender) ==> !without_ws(
            peers,
            id,
            sender,
        ).contains_key(id),
        peers.contains_key(id) && peers[id].reach != Reachable::WsPush(sender) ==> without_ws(
            peers,
            id,
            sender,
        ).contains_key(id) && without_ws(peers, id, sender)[id] == peers[id],
        other != id ==> without_ws(peers, id, sender).contains_key(other) == peers.contains_key(
            other,
        ),
        other != id && peers.contains_key(other) ==> without_ws(peers, id, sender)[other]
            == peers[other],
        !peers.contains_key(id) ==> without_ws(peers, id, sender) == peers,
{
}

/// A peer is reached the way that it registered last, whatever happens to
/// others, and not at all once its own channel is gone.
pub proof fn law_last_registration_counts(
    reg: &mut PeerRegistry,
    id: String,
    reach: Reachable,
    now: u64,
    other: &str,
    before: Option<Reachable>,
    found: Option<Reachable>,
    then: &mut PeerRegistry,
    sender: Outbox,
    after: Option<Reachable>,
)
    requires
        call_ensures(PeerRegistry::get, (&*reg, other), before),
        call_ensures(PeerRegistry::upsert, (reg, id, reach, now), ()),
        call_ensures(PeerRegistry::get, (&*final(reg), other), found),
        *then == *final(reg),
        call_ensures(PeerRegistry::remove_if_ws, (then, other, sender), ()),
        call_ensures(PeerRegistry::get, (&*final(then), other), after),
    ensures
        other@ == id@ ==> found == Some(reach),
        other@ != id@ ==> found == before,
        found == Some(Reachable::WsPush(sender)) ==> after is None,
        found != Some(Reachable::WsPush(sender)) ==> after == found,
{
}

} // verus!
