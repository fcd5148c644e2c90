//! The relay: pair the next two connections and shovel bytes between them.
//!
//! Connections come over TCP or over WebSocket, and any two of them can be
//! paired: between a TCP and a WebSocket peer the relay rewraps the bytes.

use vstd::prelude::*;

verus! {

/// How many bytes the relay reads from a TCP connection at once.
pub const CHUNK: usize = 32768;

/// A connection, by its number.
#[derive(Debug, Clone, Copy, PartialEq, Eq, Structural)]
pub enum Side {
    Tcp(u64),
    Ws(u64),
}

/// Where a connection waits for its partner.
#[derive(Debug)]
pub struct WaitSlot {
    waiting: Option<Side>,
}

impl View for WaitSlot {
    /// The connection that waits, if one does.
    type V = Option<Side>;

    closed spec fn view(&self) -> Option<Side> {
        self.waiting
    }
}

impl WaitSlot {
    /// Nobody waits.
    pub fn new() -> (r: Self)
        ensures
            r@ == None::<Side>,
    {
        WaitSlot { waiting: None }
    }
}

/// The arrival of `side`: who waits afterwards, and the pair that it makes.
pub open spec fn arrive(waiting: Option<Side>, side: Side) -> (Option<Side>, Option<(Side, Side)>) {
    match waiting {
        Some(other) => (None, Some((side, other))),
        None => (Some(side), None),
    }
}

/// Pair `side` with the connection that waits, or let it wait.
pub fn pair_or_wait(slot: &mut WaitSlot, side: Side) -> (r: Option<(Side, Side)>)
    ensures
        (final(slot)@, r) == arrive(old(slot)@, side),
{
    match slot.waiting.take() {
        Some(other) => Some((side, other)),
        None => {
            slot.waiting = Some(side);
            None
        },
    }
}

/// How the bytes of a pair are moved.
#[derive(Debug, Clone, Copy, PartialEq, Eq, Structural)]
pub enum Pump {
    TcpTcp(u64, u64),
    WsWs(u64, u64),
    TcpWs { tcp: u64, ws: u64 },
}

/// Choose how the bytes of a pair are moved.
pub fn pump(a: Side, b: Side) -> (r: Pump)
    ensures
        r == pump_of(a, b),
{
    match (a, b) {
        (Side::Tcp(a), Side::Tcp(b)) => Pump::TcpTcp(a, b),
        (Side::Ws(a), Side::Ws(b)) => Pump::WsWs(a, b),
        (Side::Tcp(tcp), Side::Ws(ws)) => Pump::TcpWs { tcp, ws },
        (Side::Ws(ws), Side::Tcp(tcp)) => Pump::TcpWs { tcp, ws },
    }
}

/// How the bytes of a pair are moved.
pub open spec fn pump_of(a: Side, b: Side) -> Pump {
    match (a, b) {
        (Side::Tcp(a), Side::Tcp(b)) => Pump::TcpTcp(a, b),
        (Side::Ws(a), Side::Ws(b)) => Pump::WsWs(a, b),
        (Side::Tcp(tcp), Side::Ws(ws)) => Pump::TcpWs { tcp, ws },
        (Side::Ws(ws), Side::Tcp(tcp)) => Pump::TcpWs { tcp, ws },
    }
}

/// The kind of a WebSocket message.
#[derive(Debug, Clone, Copy, PartialEq, Eq, Structural)]
pub enum WsKind {
    Text,
    Binary,
    Ping,
    Pong,
    Close,
    Frame,
}

/// What to do with a message.
#[derive(Debug, Clone, Copy, PartialEq, Eq, Structural)]
pub enum Forward {
    /// Hand it on.
    Send,
    /// Pass over it.
    Skip,
    /// End this direction.
    Stop,
}

/// Between two WebSocket peers every message is handed on as it is, until one
/// of them closes.
pub fn pump_ws_ws(kind: WsKind) -> (r: Forward)
    ensures
        r == (if kind == WsKind::Close {
            Forward::Stop
        } else {
            Forward::Send
        }),
{
    match kind {
        WsKind::Close => Forward::Stop,
        _ => Forward::Send,
    }
}

/// From a WebSocket to a TCP peer the payloads of binary messages are handed
/// on, until the former closes. Other messages are passed over.
pub fn pump_ws_to_tcp(kind: WsKind) -> (r: Forward)
    ensures
        r == (match kind {
            WsKind::Binary => Forward::Send,
            WsKind::Close => Forward::Stop,
            _ => Forward::Skip,
        }),
{
    match kind {
        WsKind::Binary => Forward::Send,
        WsKind::Close => Forward::Stop,
        _ => Forward::Skip,
    }
}

/// From a TCP to a WebSocket peer each read of `n` bytes into `buf` becomes one
/// binary message with those bytes. `None` ends this direction: the TCP peer
/// sends no more.
pub fn pump_tcp_to_ws(buf: &[u8], n: usize) -> (r: Option<Vec<u8>>)
    requires
        n <= buf@.len(),
    ensures
        match r {
            Some(payload) => n > 0 && payload@ == buf@.take(n as int),
            None => n == 0,
        },
{
    if n == 0 {
        return None;
    }
    let mut payload: Vec<u8> = Vec::with_capacity(n);
    payload.extend_from_slice(vstd::slice::slice_subrange(buf, 0, n));
    assert(payload@ =~= buf@.take(n as int));
    Some(payload)
}

/// The pairs that the arrivals `sides` make, the first one first.
pub open spec fn pairs_of(waiting: Option<Side>, sides: Seq<Side>) -> Seq<(Side, Side)>
    decreases sides.len(),
{
    if sides.len() == 0 {
        Seq::empty()
    } else {
        let (next, pair) = arrive(waiting, sides[0]);
        let rest = pairs_of(next, sides.skip(1));
        match pair {
            Some(p) => seq![p] + rest,
            None => rest,
        }
    }
}

/// Connections are paired two by two in the order of their arrival, so each is
/// in one pair at most.
pub proof fn law_paired_in_order(sides: Seq<Side>)
    ensures
        pairs_of(None, sides).len() == sides.len() / 2,
        forall|i: int|
            0 <= i < sides.len() / 2 ==> #[trigger] pairs_of(None, sides)[i] == (
                sides[2 * i + 1],
                sides[2 * i],
            ),
    decreases sides.len(),
{
    if sides.len() >= 2 {
        let rest = sides.skip(1).skip(1);
        law_paired_in_order(rest);
        assert(pairs_of(None, sides) == pairs_of(Some(sides[0]), sides.skip(1)));
        assert(pairs_of(Some(sides[0]), sides.skip(1)) == seq![(sides[1], sides[0])] + pairs_of(
            None,
            rest,
        ));
        assert forall|i: int| 0 <= i < sides.len() / 2 implies #[trigger] pairs_of(None, sides)[i]
            == (sides[2 * i + 1], sides[2 * i]) by {
            if i > 0 {
                assert(pairs_of(None, sides)[i] == pairs_of(None, rest)[i - 1]);
                assert(rest[2 * (i - 1)] == sides[2 * i]);
                assert(rest[2 * (i - 1) + 1] == sides[2 * i + 1]);
            }
        }
    } else if sides.len() == 1 {
        assert(pairs_of(None, sides) == pairs_of(Some(sides[0]), sides.skip(1)));
    }
}

/// Between different transports it makes no difference who came first.
pub proof fn law_cross_transport(tcp: u64, ws: u64)
    ensures
        pump_of(Side::Tcp(tcp), Side::Ws(ws)) == (Pump::TcpWs { tcp, ws }),
        pump_of(Side::Ws(ws), Side::Tcp(tcp)) == (Pump::TcpWs { tcp, ws }),
{
}

/// A pair is pumped by its transports, and both its connections take part, each
/// under its own number.
pub proof fn law_both_sides_take_part(a: u64, b: u64)
    ensures
        pump_of(Side::Tcp(a), Side::Tcp(b)) == Pump::TcpTcp(a, b),
        pump_of(Side::Ws(a), Side::Ws(b)) == Pump::WsWs(a, b),
        pump_of(Side::Tcp(a), Side::Ws(b)) == (Pump::TcpWs { tcp: a, ws: b }),
        pump_of(Side::Ws(a), Side::Tcp(b)) == (Pump::TcpWs { tcp: b, ws: a }),
{
}

/// One arrival: it takes the waiting connection along and leaves none, or it
/// waits itself.
pub proof fn law_one_arrival(waiting: Option<Side>, side: Side)
    ensures
        waiting matches Some(other) ==> arrive(waiting, side) == (
            None::<Side>,
            Some((side, other)),
        ),
        waiting is None ==> arrive(waiting, side) == (Some(side), None::<(Side, Side)>),
{
}

/// Every read becomes one message with the bytes that were read.
pub proof fn law_reads_become_messages(buf: &[u8], n: usize, r: Option<Vec<u8>>)
    requires
        n <= buf@.len(),
        call_ensures(pump_tcp_to_ws, (buf, n), r),
    ensures
        n == 0 ==> r is None,
        n > 0 ==> r is Some && r->0@.len() == n && forall|i: int|
            0 <= i < n ==> #[trigger] r->0@[i] == buf@[i],
{
}

/// Two arrivals at an empty slot are paired with each other, and leave it
/// empty for the next two.
pub proof fn law_two_arrivals_make_a_pair(
    slot: &mut WaitSlot,
    then: &mut WaitSlot,
    a: Side,
    b: Side,
    first: Option<(Side, Side)>,
    second: Option<(Side, Side)>,
)
    requires
        slot@ is None,
        call_ensures(pair_or_wait, (slot, a), first),
        *then == *final(slot),
        call_ensures(pair_or_wait, (then, b), second),
    ensures
        first is None,
        second == Some((b, a)),
        final(then)@ is None,
{
}

/// What is handed on between the transports: everything but a close between
/// two WebSocket peers, and binary messages only to a TCP peer. A close ends
/// either direction.
pub proof fn law_what_is_handed_on(
    kind: WsKind,
    to_ws: Forward,
    to_tcp: Forward,
    a: Side,
    b: Side,
    p: Pump,
)
    requires
        call_ensures(pump_ws_ws, (kind,), to_ws),
        call_ensures(pump_ws_to_tcp, (kind,), to_tcp),
        call_ensures(pump, (a, b), p),
    ensures
        to_ws == Forward::Stop <==> kind == WsKind::Close,
        to_tcp == Forward::Stop <==> kind == WsKind::Close,
        kind != WsKind::Close ==> to_ws == Forward::Send,
        to_tcp == Forward::Send <==> kind == WsKind::Binary,
        p is TcpTcp <==> a is Tcp && b is Tcp,
        p is WsWs <==> a is Ws && b is Ws,
        p matches Pump::TcpTcp(x, y) ==> a == Side::Tcp(x) && b == Side::Tcp(y),
        p matches Pump::WsWs(x, y) ==> a == Side::Ws(x) && b == Side::Ws(y),
        p matches Pump::TcpWs { tcp, ws } ==> (a == Side::Tcp(tcp) && b == Side::Ws(ws)) || (a
            == Side::Ws(ws) && b == Side::Tcp(tcp)),
{
}

/// The relay reads 32 KiB at once at most.
pub proof fn law_chunk_size()
    ensures
        CHUNK == 32 * 1024,
{
}

} // verus!
