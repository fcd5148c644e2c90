//! The rendezvous server: what it does with each message.
//!
//! Three transports converge on a single dispatch:
//!   * UDP: native clients (single datagrams, no session).
//!   * TCP: native clients for the punch-hole handshake.
//!   * WebSocket: browser clients. Long-lived, bidirectional.
//!
//! Every function here takes one event and returns the actions that it calls
//! for, in their order. Whoever owns the sockets performs them.

use vstd::prelude::*;

use crate::audit::{str_of, Event, EventView};
use crate::json::{
    json_field, law_json_field, law_plain_text_is_written_as_it_is, string_field,
};
use crate::message::{
    register_peer_response, register_pk_response, relay_response, request_relay, MessageView,
    RendezvousMessage, Union,
};
use crate::pending::Pending;
use crate::registry::{without_ws, Endpoint, Outbox, PeerEntry, PeerRegistry, Reachable};

verus! {

/// How long the first frame of a TCP connection may take, in seconds.
pub const FIRST_FRAME_TIMEOUT_SECS: u64 = 15;

/// What the server knows: where the relay is, the registered peers, and the
/// punch requests that wait for an answer.
pub struct Rendezvous {
    relay_addr: String,
    registry: PeerRegistry,
    pending: Pending,
}

/// The server's knowledge as the contracts see it. `pending` maps a target to
/// the requester that waits for it.
pub struct RendezvousView {
    pub relay_addr: Seq<char>,
    pub registry: Map<Seq<char>, PeerEntry>,
    pub pending: Map<Seq<char>, Outbox>,
}

/// Something to do.
pub enum Action {
    /// Send a datagram.
    SendUdp { to: Endpoint, msg: RendezvousMessage },
    /// Push into a connection's outgoing queue.
    Push { outbox: Outbox, msg: RendezvousMessage },
    /// Emit an audit event.
    Audit(Event),
}

/// An action as the contracts see it.
pub enum ActionView {
    SendUdp { to: Endpoint, msg: MessageView },
    Push { outbox: Outbox, msg: MessageView },
    Audit(EventView),
}

impl View for Action {
    type V = ActionView;

    open spec fn view(&self) -> ActionView {
        match *self {
            Action::SendUdp { to, msg } => ActionView::SendUdp { to, msg: msg@ },
            Action::Push { outbox, msg } => ActionView::Push { outbox, msg: msg@ },
            Action::Audit(event) => ActionView::Audit(event@),
        }
    }
}

/// Actions as the contracts see them.
pub open spec fn actions_view(actions: Seq<Action>) -> Seq<ActionView> {
    actions.map_values(|a: Action| a@)
}

impl View for Rendezvous {
    type V = RendezvousView;

    closed spec fn view(&self) -> RendezvousView {
        RendezvousView {
            relay_addr: self.relay_addr@,
            registry: self.registry@,
            pending: self.pending@,
        }
    }
}

/// The transport that a message came in on.
#[derive(Debug, Clone, Copy, PartialEq, Eq, Structural)]
pub enum Transport {
    Udp,
    Tcp,
    Ws,
}

/// The transport's name in audit events.
pub open spec fn transport_name(t: Transport) -> Seq<char> {
    match t {
        Transport::Udp => "udp"@,
        Transport::Tcp => "tcp"@,
        Transport::Ws => "ws"@,
    }
}

/// The audit event of a message: its kind, the peer that it is about, the
/// address that it came from, and the transport.
pub open spec fn audit_event(
    kind: Seq<char>,
    peer_id: Option<Seq<char>>,
    addr: Seq<char>,
    transport: Transport,
) -> EventView {
    EventView {
        kind,
        peer_id,
        controller_peer_id: None,
        addr: Some(addr),
        meta: Some(json_field("transport"@, transport_name(transport))),
    }
}

/// The server after the peer `id` has registered.
pub open spec fn registered(
    v: RendezvousView,
    id: Seq<char>,
    reach: Reachable,
    now: u64,
) -> RendezvousView {
    RendezvousView {
        registry: v.registry.insert(id, PeerEntry { reach, last_seen: now }),
        ..v
    }
}

/// The action that sends `msg` to a peer.
pub open spec fn deliver(reach: Reachable, msg: MessageView) -> ActionView {
    match reach {
        Reachable::Udp(to) => ActionView::SendUdp { to, msg },
        Reachable::WsPush(outbox) => ActionView::Push { outbox, msg },
    }
}

/// A punch request for `target`. A registered target is told to go to the
/// relay, and the requester waits for it; for any other target nothing happens.
pub open spec fn punched(v: RendezvousView, target: Seq<char>, requester: Outbox) -> (
    RendezvousView,
    Seq<ActionView>,
) {
    if v.registry.contains_key(target) {
        (
            RendezvousView { pending: v.pending.insert(target, requester), ..v },
            seq![
                deliver(
                    v.registry[target].reach,
                    MessageView::RequestRelay { relay_server: v.relay_addr },
                ),
            ],
        )
    } else {
        (v, Seq::empty())
    }
}

/// The requester that waits for `target`, if one does, is told where the relay
/// is, and waits no more.
pub open spec fn answered(v: RendezvousView, target: Seq<char>) -> (
    RendezvousView,
    Seq<ActionView>,
) {
    if v.pending.contains_key(target) {
        (
            RendezvousView { pending: v.pending.remove(target), ..v },
            seq![
                ActionView::Push {
                    outbox: v.pending[target],
                    msg: MessageView::RelayResponse { relay_server: v.relay_addr },
                },
            ],
        )
    } else {
        (v, Seq::empty())
    }
}

/// A relay acknowledgement that names no target: one of the waiting requesters
/// is answered, and where none waits nothing happens.
pub open spec fn relay_acked(
    v: RendezvousView,
    after: RendezvousView,
    actions: Seq<ActionView>,
) -> bool {
    if v.pending == Map::<Seq<char>, Outbox>::empty() {
        after == v && actions == Seq::<ActionView>::empty()
    } else {
        exists|target: Seq<char>| #[trigger]
            v.pending.contains_key(target) && (after, actions) == answered(v, target)
    }
}

/// A relay acknowledgement of `peer`: the requester that waits for this very
/// peer is answered. Where nobody waits for it, or it is not known, the
/// acknowledgement names no target.
pub open spec fn peer_acked(
    v: RendezvousView,
    peer: Option<Seq<char>>,
    after: RendezvousView,
    actions: Seq<ActionView>,
) -> bool {
    match peer {
        Some(id) => if v.pending.contains_key(id) {
            (after, actions) == answered(v, id)
        } else {
            relay_acked(v, after, actions)
        },
        None => relay_acked(v, after, actions),
    }
}

/// What the server does with a datagram.
pub open spec fn udp_step(
    v: RendezvousView,
    datagram: Option<MessageView>,
    from: Endpoint,
    addr: Seq<char>,
    now: u64,
) -> (RendezvousView, Seq<ActionView>) {
    match datagram {
        Some(MessageView::RegisterPeer { id }) => (
            registered(v, id, Reachable::Udp(from), now),
            seq![
                ActionView::Audit(audit_event("register"@, Some(id), addr, Transport::Udp)),
                ActionView::SendUdp {
                    to: from,
                    msg: MessageView::RegisterPeerResponse { request_pk: false },
                },
            ],
        ),
        Some(MessageView::RegisterPk { id: _ }) => (
            v,
            seq![
                ActionView::SendUdp {
                    to: from,
                    msg: MessageView::RegisterPkResponse { result: 0, keep_alive: 0 },
                },
            ],
        ),
        _ => (v, Seq::empty()),
    }
}

/// What the first read of a TCP connection brought.
pub enum FirstFrame {
    Message(RendezvousMessage),
    /// A frame that holds no rendezvous message.
    Undecodable,
    /// The codec refused the frame.
    BadFrame,
    /// No frame within `FIRST_FRAME_TIMEOUT_SECS`.
    TimedOut,
    /// The peer closed the connection.
    Closed,
}

/// Why a TCP connection failed.
#[derive(Debug, Clone, Copy, PartialEq, Eq, Structural)]
pub enum TcpError {
    FirstFrameTimeout,
    Framing,
    Protobuf,
}

/// How a TCP connection goes on.
#[derive(Debug, Clone, Copy, PartialEq, Eq, Structural)]
pub enum TcpNext {
    /// Wait for one message in the connection's queue, send it, then close.
    AwaitPush,
    /// Close.
    Finish,
    /// Close with an error.
    Fail(TcpError),
}

/// What the server does with the first frame of a TCP connection: the server
/// after it, the actions, and how the connection goes on.
pub open spec fn tcp_step(
    v: RendezvousView,
    frame: FirstFrame,
    outbox: Outbox,
    addr: Seq<char>,
    after: RendezvousView,
    actions: Seq<ActionView>,
    next: TcpNext,
) -> bool {
    match frame {
        FirstFrame::Message(msg) => match msg@ {
            MessageView::PunchHoleRequest { id } => {
                &&& after == punched(v, id, outbox).0
                &&& actions == seq![
                    ActionView::Audit(
                        audit_event("punch_request"@, Some(id), addr, Transport::Tcp),
                    ),
                ] + punched(v, id, outbox).1
                &&& next == TcpNext::AwaitPush
            },
            MessageView::RelayResponse { relay_server: _ } => {
                &&& actions.len() > 0
                &&& actions[0] == ActionView::Audit(
                    audit_event("relay_ack"@, None, addr, Transport::Tcp),
                )
                &&& relay_acked(v, after, actions.skip(1))
                &&& next == TcpNext::Finish
            },
            _ => after == v && actions.len() == 0 && next == TcpNext::Finish,
        },
        FirstFrame::Undecodable => after == v && actions.len() == 0 && next == TcpNext::Fail(
            TcpError::Protobuf,
        ),
        FirstFrame::BadFrame => after == v && actions.len() == 0 && next == TcpNext::Fail(
            TcpError::Framing,
        ),
        FirstFrame::TimedOut => after == v && actions.len() == 0 && next == TcpNext::Fail(
            TcpError::FirstFrameTimeout,
        ),
        FirstFrame::Closed => after == v && actions.len() == 0 && next == TcpNext::Finish,
    }
}

/// What a WebSocket connection brought.
pub enum WsEvent {
    /// A binary frame that holds a rendezvous message.
    Message(RendezvousMessage),
    /// A binary frame that holds none.
    Undecodable,
    Text,
    Ping,
    Pong,
    Frame,
    Close,
    /// Reading failed.
    Failed,
    /// The stream ended.
    Ended,
}

/// A WebSocket connection: its outgoing queue, and the id that it registered
/// last.
pub struct WsSession {
    outbox: Outbox,
    my_id: Option<String>,
}

/// A WebSocket connection as the contracts see it.
pub struct WsSessionView {
    pub outbox: Outbox,
    pub my_id: Option<Seq<char>>,
}

impl View for WsSession {
    type V = WsSessionView;

    closed spec fn view(&self) -> WsSessionView {
        WsSessionView { outbox: self.outbox, my_id: crate::audit::text_of(self.my_id) }
    }
}

impl WsSession {
    /// A connection that has registered nothing.
    pub fn new(outbox: Outbox) -> (r: Self)
        ensures
            r@ == (WsSessionView { outbox, my_id: None }),
    {
        WsSession { outbox, my_id: None }
    }
}

/// The server after the connection `s` is gone: its registration is dropped,
/// unless someone else has taken the id over.
pub open spec fn disconnected(v: RendezvousView, s: WsSessionView) -> RendezvousView {
    match s.my_id {
        Some(id) => RendezvousView { registry: without_ws(v.registry, id, s.outbox), ..v },
        None => v,
    }
}

/// What the server does with an event of a WebSocket connection: the server
/// and the connection after it, the actions, and whether the connection is
/// over.
pub open spec fn ws_step(
    v: RendezvousView,
    s: WsSessionView,
    event: WsEvent,
    addr: Seq<char>,
    now: u64,
    after: RendezvousView,
    session: WsSessionView,
    actions: Seq<ActionView>,
    over: bool,
) -> bool {
    match event {
        WsEvent::Message(msg) => !over && match msg@ {
            MessageView::RegisterPeer { id } => {
                &&& after == registered(v, id, Reachable::WsPush(s.outbox), now)
                &&& session == WsSessionView { outbox: s.outbox, my_id: Some(id) }
                &&& actions == seq![
                    ActionView::Audit(audit_event("register"@, Some(id), addr, Transport::Ws)),
                    ActionView::Push {
                        outbox: s.outbox,
                        msg: MessageView::RegisterPeerResponse { request_pk: false },
                    },
                ]
            },
            MessageView::RegisterPk { id } => {
                &&& after == if id.len() > 0 {
                    registered(v, id, Reachable::WsPush(s.outbox), now)
                } else {
                    v
                }
                &&& session == if id.len() > 0 {
                    WsSessionView { outbox: s.outbox, my_id: Some(id) }
                } else {
                    s
                }
                &&& actions == seq![
                    ActionView::Push {
                        outbox: s.outbox,
                        msg: MessageView::RegisterPkResponse { result: 0, keep_alive: 0 },
                    },
                ]
            },
            MessageView::PunchHoleRequest { id } => {
                &&& after == punched(v, id, s.outbox).0
                &&& session == s
                &&& actions == seq![
                    ActionView::Audit(
                        audit_event("punch_request"@, Some(id), addr, Transport::Ws),
                    ),
                ] + punched(v, id, s.outbox).1
            },
            MessageView::RelayResponse { relay_server: _ } => {
                &&& session == s
                &&& actions.len() > 0
                &&& actions[0] == ActionView::Audit(
                    audit_event("relay_ack"@, None, addr, Transport::Ws),
                )
                &&& peer_acked(v, s.my_id, after, actions.skip(1))
            },
            _ => after == v && session == s && actions.len() == 0,
        },
        WsEvent::Close | WsEvent::Failed | WsEvent::Ended => over && after == disconnected(v, s)
            && session == s && actions.len() == 0,
        _ => !over && after == v && session == s && actions.len() == 0,
    }
}

/// The outcome of the first frame of a TCP connection.
pub struct TcpOutcome {
    pub actions: Vec<Action>,
    pub next: TcpNext,
}

/// The outcome of an event of a WebSocket connection.
pub struct WsOutcome {
    pub actions: Vec<Action>,
    pub over: bool,
}

/// The audit event of a message.
fn audit(kind: &str, peer_id: Option<String>, addr: &str, transport: Transport) -> (r: Action)
    ensures
        r@ == ActionView::Audit(
            audit_event(kind@, crate::audit::text_of(peer_id), addr@, transport),
        ),
{
    let name = match transport {
        Transport::Udp => "udp",
        Transport::Tcp => "tcp",
        Transport::Ws => "ws",
    };
    Action::Audit(
        Event {
            kind: kind.to_owned(),
            peer_id,
            controller_peer_id: None,
            addr: Some(addr.to_owned()),
            meta: Some(string_field("transport", name)),
        },
    )
}

impl Rendezvous {
    /// A server that knows no peer and hands out `relay_addr`.
    pub fn new(relay_addr: String) -> (r: Self)
        ensures
            r@ == (RendezvousView {
                relay_addr: relay_addr@,
                registry: Map::empty(),
                pending: Map::empty(),
            }),
    {
        Rendezvous { relay_addr, registry: PeerRegistry::new(), pending: Pending::new() }
    }

    /// Ask the target of a punch request to relay, and let the requester wait
    /// for it. A target that is not registered is passed over.
    pub fn dispatch_punch(&mut self, target_id: &str, requester: Outbox) -> (r: Vec<Action>)
        ensures
            (final(self)@, actions_view(r@)) == punched(old(self)@, target_id@, requester),
    {
        let mut actions: Vec<Action> = Vec::new();
        match self.registry.get(target_id) {
            Some(reach) => {
                let msg = request_relay(self.relay_addr.as_str());
                match reach {
                    Reachable::Udp(to) => actions.push(Action::SendUdp { to, msg }),
                    Reachable::WsPush(outbox) => actions.push(Action::Push { outbox, msg }),
                }
                self.pending.insert(target_id.to_owned(), requester);
            },
            None => {},
        }
        assert(actions_view(actions@) =~= punched(old(self)@, target_id@, requester).1);
        actions
    }

    /// Answer the requester that waits for `target_id`, if one does.
    pub fn answer_requester(&mut self, target_id: &str) -> (r: Vec<Action>)
        ensures
            (final(self)@, actions_view(r@)) == answered(old(self)@, target_id@),
    {
        let mut actions: Vec<Action> = Vec::new();
        match self.pending.remove(target_id) {
            Some(outbox) => {
                let msg = relay_response(self.relay_addr.as_str());
                actions.push(Action::Push { outbox, msg });
            },
            None => {
                assert(self.pending@ =~= old(self).pending@);
            },
        }
        assert(actions_view(actions@) =~= answered(old(self)@, target_id@).1);
        actions
    }

    /// Answer the requester that waits for `peer`, the peer that acknowledges.
    /// Where nobody waits for it, or it is not known, one of those that wait.
    pub fn dispatch_relay_ack(&mut self, peer: Option<&str>) -> (r: Vec<Action>)
        ensures
            peer_acked(old(self)@, str_of(peer), final(self)@, actions_view(r@)),
    {
        match peer {
            Some(id) => {
                let answer = self.answer_requester(id);
                if answer.len() > 0 {
                    assert(actions_view(answer@).len() > 0);
                    return answer;
                }
                assert(actions_view(answer@).len() == 0);
            },
            None => {},
        }
        match self.pending.any_target() {
            Some(target) => {
                assert(self@.pending.contains_key(target@));
                self.answer_requester(target.as_str())
            },
            None => {
                let none: Vec<Action> = Vec::new();
                assert(actions_view(none@) =~= Seq::empty());
                none
            },
        }
    }

    /// Handle a datagram from `from`, whose address reads `addr`. `None` is a
    /// datagram that holds no rendezvous message.
    pub fn handle_udp(
        &mut self,
        datagram: Option<RendezvousMessage>,
        from: Endpoint,
        addr: &str,
        now: u64,
    ) -> (r: Vec<Action>)
        ensures
            (final(self)@, actions_view(r@)) == udp_step(
                old(self)@,
                match datagram {
                    Some(m) => Some(m@),
                    None => None,
                },
                from,
                addr@,
                now,
            ),
    {
        let mut actions: Vec<Action> = Vec::new();
        let union = match datagram {
            Some(m) => m.union,
            None => None,
        };
        match union {
            Some(Union::RegisterPeer(rp)) => {
                actions.push(audit("register", Some(rp.id.clone()), addr, Transport::Udp));
                self.registry.upsert(rp.id, Reachable::Udp(from), now);
                actions.push(Action::SendUdp { to: from, msg: register_peer_response() });
            },
            Some(Union::RegisterPk(_)) => {
                actions.push(Action::SendUdp { to: from, msg: register_pk_response() });
            },
            _ => {},
        }
        assert(actions_view(actions@) =~= udp_step(
            old(self)@,
            match datagram {
                Some(m) => Some(m@),
                None => None,
            },
            from,
            addr@,
            now,
        ).1);
        actions
    }

    /// Handle the first frame of a TCP connection. The TCP path is single-shot:
    /// after a punch request the connection carries one push and closes.
    pub fn handle_tcp(&mut self, frame: FirstFrame, outbox: Outbox, addr: &str) -> (r: TcpOutcome)
        ensures
            tcp_step(
                old(self)@,
                frame,
                outbox,
                addr@,
                final(self)@,
                actions_view(r.actions@),
                r.next,
            ),
    {
        let none: Vec<Action> = Vec::new();
        let msg = match frame {
            FirstFrame::Message(msg) => msg,
            FirstFrame::Undecodable => {
                return TcpOutcome { actions: none, next: TcpNext::Fail(TcpError::Protobuf) };
            },
            FirstFrame::BadFrame => {
                return TcpOutcome { actions: none, next: TcpNext::Fail(TcpError::Framing) };
            },
            FirstFrame::TimedOut => {
                return TcpOutcome {
                    actions: none,
                    next: TcpNext::Fail(TcpError::FirstFrameTimeout),
                };
            },
            FirstFrame::Closed => {
                return TcpOutcome { actions: none, next: TcpNext::Finish };
            },
        };
        match msg.union {
            Some(Union::PunchHoleRequest(ph)) => {
                let first = audit("punch_request", Some(ph.id.clone()), addr, Transport::Tcp);
                let rest = self.dispatch_punch(ph.id.as_str(), outbox);
                TcpOutcome { actions: prepend(first, rest), next: TcpNext::AwaitPush }
            },
            Some(Union::RelayResponse(_)) => {
                let first = audit("relay_ack", None, addr, Transport::Tcp);
                let rest = self.dispatch_relay_ack(None);
                TcpOutcome { actions: prepend(first, rest), next: TcpNext::Finish }
            },
            _ => TcpOutcome { actions: none, next: TcpNext::Finish },
        }
    }

    /// Handle an event of a WebSocket connection.
    pub fn handle_ws(
        &mut self,
        session: &mut WsSession,
        event: WsEvent,
        addr: &str,
        now: u64,
    ) -> (r: WsOutcome)
        ensures
            ws_step(
                old(self)@,
                old(session)@,
                event,
                addr@,
                now,
                final(self)@,
                final(session)@,
                actions_view(r.actions@),
                r.over,
            ),
    {
        let mut actions: Vec<Action> = Vec::new();
        let msg = match event {
            WsEvent::Message(msg) => msg,
            WsEvent::Close | WsEvent::Failed | WsEvent::Ended => {
                match &session.my_id {
                    Some(id) => self.registry.remove_if_ws(id.as_str(), session.outbox),
                    None => {},
                }
                return WsOutcome { actions, over: true };
            },
            _ => {
                return WsOutcome { actions, over: false };
            },
        };
        let outbox = session.outbox;
        match msg.union {
            Some(Union::RegisterPeer(rp)) => {
                actions.push(audit("register", Some(rp.id.clone()), addr, Transport::Ws));
                self.registry.upsert(rp.id.clone(), Reachable::WsPush(outbox), now);
                actions.push(Action::Push { outbox, msg: register_peer_response() });
                let ghost id = rp.id@;
                session.my_id = Some(rp.id);
                assert(actions_view(actions@) =~= seq![
                    ActionView::Audit(audit_event("register"@, Some(id), addr@, Transport::Ws)),
                    ActionView::Push {
                        outbox,
                        msg: MessageView::RegisterPeerResponse { request_pk: false },
                    },
                ]);
            },
            Some(Union::RegisterPk(rk)) => {
                if !rk.id.as_str().is_empty() {
                    self.registry.upsert(rk.id.clone(), Reachable::WsPush(outbox), now);
                    session.my_id = Some(rk.id);
                }
                actions.push(Action::Push { outbox, msg: register_pk_response() });
                assert(actions_view(actions@) =~= seq![
                    ActionView::Push {
                        outbox,
                        msg: MessageView::RegisterPkResponse { result: 0, keep_alive: 0 },
                    },
                ]);
            },
            Some(Union::PunchHoleRequest(ph)) => {
                let first = audit("punch_request", Some(ph.id.clone()), addr, Transport::Ws);
                let rest = self.dispatch_punch(ph.id.as_str(), outbox);
                actions = prepend(first, rest);
            },
            Some(Union::RelayResponse(_)) => {
                let first = audit("relay_ack", None, addr, Transport::Ws);
                let peer = match &session.my_id {
                    Some(id) => Some(id.as_str()),
                    None => None,
                };
                let rest = self.dispatch_relay_ack(peer);
                actions = prepend(first, rest);
            },
            _ => {},
        }
        WsOutcome { actions, over: false }
    }
}

/// `first`, then `rest`.
fn prepend(first: Action, rest: Vec<Action>) -> (r: Vec<Action>)
    ensures
        actions_view(r@) == seq![first@] + actions_view(rest@),
        actions_view(r@).skip(1) == actions_view(rest@),
{
    let mut all: Vec<Action> = Vec::new();
    let mut rest = rest;
    let ghost tail = rest@;
    all.push(first);
    all.append(&mut rest);
    assert(actions_view(all@) =~= seq![first@] + actions_view(tail));
    assert(actions_view(all@).skip(1) =~= actions_view(tail));
    all
}

/// A registered peer that is asked for is sent to the relay by the way that it
/// registered, and the requester waits for it. What was registered before under
/// the same id does not matter.
pub proof fn law_registered_peer_is_sent_to_the_relay(
    v: RendezvousView,
    id: Seq<char>,
    reach: Reachable,
    now: u64,
    requester: Outbox,
)
    ensures
        ({
            let (after, actions) = punched(registered(v, id, reach, now), id, requester);
            &&& actions == seq![
                deliver(reach, MessageView::RequestRelay { relay_server: v.relay_addr }),
            ]
            &&& after.pending == v.pending.insert(id, requester)
            &&& after.registry == registered(v, id, reach, now).registry
        }),
{
}

/// A peer that nobody registered cannot be asked: nothing is sent, and nobody
/// waits.
pub proof fn law_offline_target_is_passed_over(
    v: RendezvousView,
    target: Seq<char>,
    requester: Outbox,
)
    requires
        !v.registry.contains_key(target),
    ensures
        punched(v, target, requester) == (v, Seq::<ActionView>::empty()),
{
}

/// The handshake: with one request in flight, the target's acknowledgement
/// tells the requester which relay to use, and nobody else anything.
pub proof fn law_handshake(
    v: RendezvousView,
    target: Seq<char>,
    requester: Outbox,
    after: RendezvousView,
    actions: Seq<ActionView>,
)
    requires
        v.pending == Map::<Seq<char>, Outbox>::empty(),
        v.registry.contains_key(target),
        relay_acked(punched(v, target, requester).0, after, actions),
    ensures
        after == v,
        actions == seq![
            ActionView::Push {
                outbox: requester,
                msg: MessageView::RelayResponse { relay_server: v.relay_addr },
            },
        ],
{
    let asked = punched(v, target, requester).0;
    assert(asked.pending.contains_key(target));
    let t = choose|t: Seq<char>| #[trigger]
        asked.pending.contains_key(t) && (after, actions) == answered(asked, t);
    assert(t == target);
    assert(asked.pending.remove(target) =~= v.pending);
}

/// From registration to relay, as native clients go through it: a peer
/// registers over UDP, another one asks for it over TCP, and the peer
/// acknowledges over TCP. The peer is then sent to the relay over UDP, the
/// requester is told of the same relay, and nobody waits any more.
pub proof fn law_two_native_clients_meet(
    v: RendezvousView,
    id: Seq<char>,
    from: Endpoint,
    addrs: (Seq<char>, Seq<char>, Seq<char>),
    now: u64,
    request: RendezvousMessage,
    requester: Outbox,
    asked: (RendezvousView, Seq<ActionView>, TcpNext),
    ack: RendezvousMessage,
    peer: Outbox,
    done: (RendezvousView, Seq<ActionView>, TcpNext),
)
    requires
        v.pending == Map::<Seq<char>, Outbox>::empty(),
        request@ == (MessageView::PunchHoleRequest { id }),
        ack@ is RelayResponse,
        ({
            let known = udp_step(v, Some(MessageView::RegisterPeer { id }), from, addrs.0, now);
            tcp_step(
                known.0,
                FirstFrame::Message(request),
                requester,
                addrs.1,
                asked.0,
                asked.1,
                asked.2,
            )
        }),
        tcp_step(asked.0, FirstFrame::Message(ack), peer, addrs.2, done.0, done.1, done.2),
    ensures
        asked.1.len() == 2,
        asked.1[1] == (ActionView::SendUdp {
            to: from,
            msg: MessageView::RequestRelay { relay_server: v.relay_addr },
        }),
        asked.2 == TcpNext::AwaitPush,
        done.1.len() == 2,
        done.1[1] == (ActionView::Push {
            outbox: requester,
            msg: MessageView::RelayResponse { relay_server: v.relay_addr },
        }),
        done.2 == TcpNext::Finish,
        done.0 == registered(v, id, Reachable::Udp(from), now),
{
    let known = registered(v, id, Reachable::Udp(from), now);
    assert(asked.0 == punched(known, id, requester).0);
    let rest = done.1.skip(1);
    law_handshake(known, id, requester, done.0, rest);
    assert(rest.len() == 1);
    assert(rest.len() == done.1.len() - 1);
    assert(rest[0] == done.1[1]);
}

/// The same way for web clients: a peer registers over its WebSocket, another
/// one asks for it, and the peer acknowledges, each over its own connection.
/// Whoever else waits does not matter, and goes on waiting.
pub proof fn law_two_web_clients_meet(
    v: RendezvousView,
    id: Seq<char>,
    peer: WsSessionView,
    asker: WsSessionView,
    addrs: (Seq<char>, Seq<char>),
    now: u64,
    register: RendezvousMessage,
    known: (RendezvousView, WsSessionView, Seq<ActionView>, bool),
    request: RendezvousMessage,
    asked: (RendezvousView, WsSessionView, Seq<ActionView>, bool),
    ack: RendezvousMessage,
    done: (RendezvousView, WsSessionView, Seq<ActionView>, bool),
)
    requires
        register@ == (MessageView::RegisterPeer { id }),
        request@ == (MessageView::PunchHoleRequest { id }),
        ack@ is RelayResponse,
        ws_step(
            v,
            peer,
            WsEvent::Message(register),
            addrs.0,
            now,
            known.0,
            known.1,
            known.2,
            known.3,
        ),
        ws_step(
            known.0,
            asker,
            WsEvent::Message(request),
            addrs.1,
            now,
            asked.0,
            asked.1,
            asked.2,
            asked.3,
        ),
        ws_step(
            asked.0,
            known.1,
            WsEvent::Message(ack),
            addrs.0,
            now,
            done.0,
            done.1,
            done.2,
            done.3,
        ),
    ensures
        asked.2.len() == 2,
        asked.2[1] == (ActionView::Push {
            outbox: peer.outbox,
            msg: MessageView::RequestRelay { relay_server: v.relay_addr },
        }),
        done.2.len() == 2,
        done.2[1] == (ActionView::Push {
            outbox: asker.outbox,
            msg: MessageView::RelayResponse { relay_server: v.relay_addr },
        }),
        done.0.pending == v.pending.remove(id),
        done.0.registry == registered(v, id, Reachable::WsPush(peer.outbox), now).registry,
        done.0.relay_addr == v.relay_addr,
        !done.3,
{
    assert(known.1.my_id == Some(id));
    assert(asked.0 == punched(known.0, id, asker.outbox).0);
    let rest = done.2.skip(1);
    assert((done.0, rest) == answered(asked.0, id));
    assert(rest.len() == done.2.len() - 1);
    assert(rest[0] == done.2[1]);
    assert(v.pending.insert(id, asker.outbox).remove(id) =~= v.pending.remove(id));
}

/// A peer that acknowledges on its own connection answers the requester that
/// waits for it, and no other: the others go on waiting, and hear nothing.
pub proof fn law_acknowledging_peer_answers_its_requester(
    v: RendezvousView,
    session: WsSessionView,
    id: Seq<char>,
    ack: RendezvousMessage,
    addr: Seq<char>,
    now: u64,
    after: RendezvousView,
    session_after: WsSessionView,
    actions: Seq<ActionView>,
    over: bool,
)
    requires
        session.my_id == Some(id),
        v.pending.contains_key(id),
        ack@ is RelayResponse,
        ws_step(
            v,
            session,
            WsEvent::Message(ack),
            addr,
            now,
            after,
            session_after,
            actions,
            over,
        ),
    ensures
        actions.len() == 2,
        actions[1] == (ActionView::Push {
            outbox: v.pending[id],
            msg: MessageView::RelayResponse { relay_server: v.relay_addr },
        }),
        after == (RendezvousView { pending: v.pending.remove(id), ..v }),
{
    let rest = actions.skip(1);
    assert((after, rest) == answered(v, id));
    assert(rest.len() == actions.len() - 1);
    assert(rest[0] == actions[1]);
}

/// Whether two registries agree on the peer `id`.
pub open spec fn same_entry(
    a: Map<Seq<char>, PeerEntry>,
    b: Map<Seq<char>, PeerEntry>,
    id: Seq<char>,
) -> bool {
    a.contains_key(id) == b.contains_key(id) && (a.contains_key(id) ==> a[id] == b[id])
}

/// The id that a message registers, if it registers one.
pub open spec fn registers(msg: MessageView) -> Option<Seq<char>> {
    match msg {
        MessageView::RegisterPeer { id } => Some(id),
        MessageView::RegisterPk { id } => Some(id),
        _ => None,
    }
}

/// An event touches one registration at most: a message that of the id which it
/// registers, the end of a connection that of the connection's own id, and no
/// TCP connection any.
pub proof fn law_other_registrations_stay(
    v: RendezvousView,
    other: Seq<char>,
    datagram: MessageView,
    from: Endpoint,
    frame: FirstFrame,
    session: WsSessionView,
    event: WsEvent,
    outbox: Outbox,
    addr: Seq<char>,
    now: u64,
    after: RendezvousView,
    session_after: WsSessionView,
    actions: Seq<ActionView>,
    next: TcpNext,
    over: bool,
)
    ensures
        registers(datagram) != Some(other) ==> same_entry(
            v.registry,
            udp_step(v, Some(datagram), from, addr, now).0.registry,
            other,
        ),
        tcp_step(v, frame, outbox, addr, after, actions, next) ==> after.registry == v.registry,
        ws_step(v, session, event, addr, now, after, session_after, actions, over)
            && session.my_id != Some(other) && !(event matches WsEvent::Message(m) && registers(
            m@,
        ) == Some(other)) ==> same_entry(v.registry, after.registry, other),
{
}

/// Where requesters wait, an acknowledgement answers one of them and leaves the
/// others waiting; where none waits, it does nothing. The registry stays. That
/// holds whether or not the peer that acknowledges is known.
pub proof fn law_acknowledgement_answers_one(
    v: RendezvousView,
    peer: Option<Seq<char>>,
    after: RendezvousView,
    actions: Seq<ActionView>,
)
    requires
        v.pending.dom().finite(),
        peer_acked(v, peer, after, actions),
    ensures
        after.registry == v.registry,
        after.pending.dom().finite(),
        v.pending.len() == 0 ==> actions.len() == 0 && after.pending == v.pending,
        v.pending.len() > 0 ==> actions.len() == 1 && after.pending.len() == v.pending.len() - 1,
        forall|t: Seq<char>| #[trigger]
            after.pending.contains_key(t) ==> v.pending.contains_key(t) && after.pending[t]
                == v.pending[t],
{
    if v.pending.len() == 0 {
        assert(v.pending =~= Map::empty());
    } else {
        assert(v.pending != Map::<Seq<char>, Outbox>::empty());
    }
}

/// A connection that closes takes its registration along, and no other peer's.
pub proof fn law_disconnect_removes_own_registration(
    v: RendezvousView,
    id: Seq<char>,
    outbox: Outbox,
    now: u64,
)
    ensures
        ({
            let session = WsSessionView { outbox, my_id: Some(id) };
            let after = disconnected(registered(v, id, Reachable::WsPush(outbox), now), session);
            after.registry == v.registry.remove(id) && after.pending == v.pending
        }),
{
    assert(registered(v, id, Reachable::WsPush(outbox), now).registry.remove(id)
        =~= v.registry.remove(id));
}

/// An id that someone else has registered in the meantime survives the close of
/// the connection that had it before.
pub proof fn law_disconnect_keeps_a_newer_registration(
    v: RendezvousView,
    id: Seq<char>,
    outbox: Outbox,
    reach: Reachable,
    now: u64,
)
    requires
        reach != Reachable::WsPush(outbox),
    ensures
        disconnected(
            registered(v, id, reach, now),
            WsSessionView { outbox, my_id: Some(id) },
        ) == registered(v, id, reach, now),
{
}

/// Every client is handed the same relay address: no event changes it.
pub proof fn law_relay_address_is_fixed(
    v: RendezvousView,
    datagram: Option<MessageView>,
    from: Endpoint,
    frame: FirstFrame,
    session: WsSessionView,
    event: WsEvent,
    outbox: Outbox,
    addr: Seq<char>,
    now: u64,
    after: RendezvousView,
    session_after: WsSessionView,
    actions: Seq<ActionView>,
    next: TcpNext,
    over: bool,
)
    ensures
        udp_step(v, datagram, from, addr, now).0.relay_addr == v.relay_addr,
        tcp_step(v, frame, outbox, addr, after, actions, next) ==> after.relay_addr
            == v.relay_addr,
        ws_step(v, session, event, addr, now, after, session_after, actions, over)
            ==> after.relay_addr == v.relay_addr,
{
}

/// The metadata of audit events, as text.
proof fn lemma_transport_text()
    ensures
        json_field("transport"@, transport_name(Transport::Udp)) == "{\"transport\":\"udp\"}"@,
        json_field("transport"@, transport_name(Transport::Tcp)) == "{\"transport\":\"tcp\"}"@,
        json_field("transport"@, transport_name(Transport::Ws)) == "{\"transport\":\"ws\"}"@,
{
    reveal_strlit("transport");
    reveal_strlit("udp");
    reveal_strlit("tcp");
    reveal_strlit("ws");
    reveal_strlit("{\"transport\":\"udp\"}");
    reveal_strlit("{\"transport\":\"tcp\"}");
    reveal_strlit("{\"transport\":\"ws\"}");
    law_plain_text_is_written_as_it_is("transport"@);
    law_plain_text_is_written_as_it_is("udp"@);
    law_plain_text_is_written_as_it_is("tcp"@);
    law_plain_text_is_written_as_it_is("ws"@);
    law_json_field("transport"@, "udp"@);
    law_json_field("transport"@, "tcp"@);
    law_json_field("transport"@, "ws"@);
    assert(json_field("transport"@, "udp"@) =~= "{\"transport\":\"udp\"}"@);
    assert(json_field("transport"@, "tcp"@) =~= "{\"transport\":\"tcp\"}"@);
    assert(json_field("transport"@, "ws"@) =~= "{\"transport\":\"ws\"}"@);
}

/// The audit event of a message names its kind, its peer, its address and its
/// transport, and no controller.
pub proof fn law_audit_event(
    kind: Seq<char>,
    peer_id: Option<Seq<char>>,
    addr: Seq<char>,
    transport: Transport,
)
    ensures
        audit_event(kind, peer_id, addr, transport) == (EventView {
            kind,
            peer_id,
            controller_peer_id: None,
            addr: Some(addr),
            meta: Some(
                match transport {
                    Transport::Udp => "{\"transport\":\"udp\"}"@,
                    Transport::Tcp => "{\"transport\":\"tcp\"}"@,
                    Transport::Ws => "{\"transport\":\"ws\"}"@,
                },
            ),
        }),
{
    lemma_transport_text();
}

/// An action is seen with its destination and its message, and a list of
/// actions one by one, in its order.
pub proof fn law_action_fields(a: Action, actions: Seq<Action>)
    ensures
        match a {
            Action::SendUdp { to, msg } => a@ == (ActionView::SendUdp { to, msg: msg@ }),
            Action::Push { outbox, msg } => a@ == (ActionView::Push { outbox, msg: msg@ }),
            Action::Audit(event) => a@ == ActionView::Audit(event@),
        },
        actions_view(actions).len() == actions.len(),
        forall|i: int| 0 <= i < actions.len() ==> #[trigger] actions_view(actions)[i] == actions[i]@,
{
}

/// A punch request sends the target, by the way that it registered, to the
/// relay, and makes the requester the one that waits for it. It changes no
/// registration. A target that is not registered changes nothing.
pub proof fn law_punch_request(v: RendezvousView, target: Seq<char>, requester: Outbox)
    ensures
        !v.registry.contains_key(target) ==> punched(v, target, requester).0 == v && punched(
            v,
            target,
            requester,
        ).1.len() == 0,
        v.registry.contains_key(target) ==> {
            let (after, actions) = punched(v, target, requester);
            let msg = MessageView::RequestRelay { relay_server: v.relay_addr };
            &&& actions.len() == 1
            &&& v.registry[target].reach matches Reachable::Udp(to) ==> actions[0] == (
            ActionView::SendUdp { to, msg })
            &&& v.registry[target].reach matches Reachable::WsPush(outbox) ==> actions[0] == (
            ActionView::Push { outbox, msg })
            &&& after.pending == v.pending.insert(target, requester)
            &&& after.registry == v.registry
            &&& after.relay_addr == v.relay_addr
        },
{
}

/// To answer for a target tells the one that waits for it where the relay is,
/// and only that one waits no more. Where nobody waits for it, nothing happens.
pub proof fn law_answer(v: RendezvousView, target: Seq<char>)
    ensures
        !v.pending.contains_key(target) ==> answered(v, target).0 == v && answered(
            v,
            target,
        ).1.len() == 0,
        v.pending.contains_key(target) ==> {
            let (after, actions) = answered(v, target);
            &&& actions.len() == 1
            &&& actions[0] == (ActionView::Push {
                outbox: v.pending[target],
                msg: MessageView::RelayResponse { relay_server: v.relay_addr },
            })
            &&& after.pending == v.pending.remove(target)
            &&& after.registry == v.registry
            &&& after.relay_addr == v.relay_addr
        },
{
}

/// What a datagram does. Only the registration of a peer changes anything: the
/// sender becomes the way to reach the peer. A registration of either kind is
/// answered to the sender.
pub proof fn law_datagrams(
    v: RendezvousView,
    datagram: Option<MessageView>,
    from: Endpoint,
    addr: Seq<char>,
    now: u64,
)
    ensures
        ({
            let (after, actions) = udp_step(v, datagram, from, addr, now);
            match datagram {
                Some(MessageView::RegisterPeer { id }) => {
                    &&& after.registry == v.registry.insert(
                        id,
                        PeerEntry { reach: Reachable::Udp(from), last_seen: now },
                    )
                    &&& after.pending == v.pending
                    &&& after.relay_addr == v.relay_addr
                    &&& actions.len() == 2
                    &&& actions[0] == ActionView::Audit(
                        EventView {
                            kind: "register"@,
                            peer_id: Some(id),
                            controller_peer_id: None,
                            addr: Some(addr),
                            meta: Some("{\"transport\":\"udp\"}"@),
                        },
                    )
                    &&& actions[1] == (ActionView::SendUdp {
                        to: from,
                        msg: MessageView::RegisterPeerResponse { request_pk: false },
                    })
                },
                Some(MessageView::RegisterPk { id: _ }) => {
                    &&& after == v
                    &&& actions.len() == 1
                    &&& actions[0] == (ActionView::SendUdp {
                        to: from,
                        msg: MessageView::RegisterPkResponse { result: 0, keep_alive: 0 },
                    })
                },
                _ => after == v && actions.len() == 0,
            }
        }),
{
    lemma_transport_text();
}

/// What an acknowledgement does, where `rest` are its actions but for the audit
/// event: the requester that waits for the peer, if the peer is known and one
/// does, and otherwise one of those that wait, is told where the relay is and
/// waits no more. Where nobody waits, nothing happens.
pub open spec fn one_is_answered(
    v: RendezvousView,
    peer: Option<Seq<char>>,
    after: RendezvousView,
    rest: Seq<ActionView>,
) -> bool {
    &&& after.registry == v.registry
    &&& after.relay_addr == v.relay_addr
    &&& if v.pending.dom() == Set::<Seq<char>>::empty() {
        after.pending == v.pending && rest.len() == 0
    } else {
        exists|t: Seq<char>|
            {
                &&& #[trigger] v.pending.contains_key(t)
                &&& peer matches Some(id) ==> v.pending.contains_key(id) ==> t == id
                &&& after.pending == v.pending.remove(t)
                &&& rest.len() == 1
                &&& rest[0] == (ActionView::Push {
                    outbox: v.pending[t],
                    msg: MessageView::RelayResponse { relay_server: v.relay_addr },
                })
            }
    }
}

proof fn lemma_one_is_answered(
    v: RendezvousView,
    peer: Option<Seq<char>>,
    after: RendezvousView,
    rest: Seq<ActionView>,
)
    requires
        peer_acked(v, peer, after, rest),
    ensures
        one_is_answered(v, peer, after, rest),
{
    if v.pending.dom() == Set::<Seq<char>>::empty() {
        assert(v.pending =~= Map::empty());
    } else {
        assert(v.pending != Map::<Seq<char>, Outbox>::empty());
        let named = peer is Some && v.pending.contains_key(peer->0);
        let t = if named {
            peer->0
        } else {
            choose|t: Seq<char>| #[trigger]
                v.pending.contains_key(t) && (after, rest) == answered(v, t)
        };
        assert(v.pending.contains_key(t) && (after, rest) == answered(v, t));
    }
}

/// An acknowledgement answers one requester: the one that waits for the peer
/// which acknowledges, where that peer is known and somebody waits for it. It is
/// told where the relay is, and the others go on waiting. Where nobody waits,
/// nothing happens.
pub proof fn law_acknowledgement(
    v: RendezvousView,
    peer: Option<Seq<char>>,
    after: RendezvousView,
    actions: Seq<ActionView>,
)
    requires
        peer_acked(v, peer, after, actions),
    ensures
        after.registry == v.registry,
        after.relay_addr == v.relay_addr,
        (forall|t: Seq<char>| !#[trigger] v.pending.contains_key(t)) ==> after == v
            && actions.len() == 0,
        forall|id: Seq<char>|
            peer == Some(id) && #[trigger] v.pending.contains_key(id) ==> actions.len() == 1
                && actions[0] == (ActionView::Push {
                outbox: v.pending[id],
                msg: MessageView::RelayResponse { relay_server: v.relay_addr },
            }) && after.pending == v.pending.remove(id),
        forall|id: Seq<char>| #[trigger]
            v.pending.contains_key(id) ==> exists|t: Seq<char>|
                {
                    &&& #[trigger] v.pending.contains_key(t)
                    &&& after.pending == v.pending.remove(t)
                    &&& actions.len() == 1
                    &&& actions[0] == (ActionView::Push {
                        outbox: v.pending[t],
                        msg: MessageView::RelayResponse { relay_server: v.relay_addr },
                    })
                },
{
    lemma_one_is_answered(v, peer, after, actions);
    if forall|t: Seq<char>| !#[trigger] v.pending.contains_key(t) {
        assert(v.pending.dom() =~= Set::empty());
    } else {
        let t = choose|t: Seq<char>| #[trigger] v.pending.contains_key(t);
        assert(v.pending.dom().contains(t));
    }
}

/// What the first frame of a TCP connection does. A punch request is dispatched
/// for whatever peer it names, and the connection then carries one push; an
/// acknowledgement is passed on, and the connection is done, as it is after any
/// other message. What cannot be read ends it with its own error.
pub proof fn law_first_frames(
    v: RendezvousView,
    frame: FirstFrame,
    outbox: Outbox,
    addr: Seq<char>,
    after: RendezvousView,
    actions: Seq<ActionView>,
    next: TcpNext,
)
    requires
        tcp_step(v, frame, outbox, addr, after, actions, next),
    ensures
        match frame {
            FirstFrame::Message(m) => match m@ {
                MessageView::PunchHoleRequest { id } => {
                    &&& next == TcpNext::AwaitPush
                    &&& actions.len() == if v.registry.contains_key(id) {
                        2int
                    } else {
                        1
                    }
                    &&& actions[0] == ActionView::Audit(
                        EventView {
                            kind: "punch_request"@,
                            peer_id: Some(id),
                            controller_peer_id: None,
                            addr: Some(addr),
                            meta: Some("{\"transport\":\"tcp\"}"@),
                        },
                    )
                    &&& after.registry == v.registry && after.relay_addr == v.relay_addr
                    &&& after.pending == if v.registry.contains_key(id) {
                        v.pending.insert(id, outbox)
                    } else {
                        v.pending
                    }
                },
                MessageView::RelayResponse { relay_server: _ } => {
                    &&& next == TcpNext::Finish
                    &&& 1 <= actions.len() <= 2
                    &&& actions[0] == ActionView::Audit(
                        EventView {
                            kind: "relay_ack"@,
                            peer_id: None,
                            controller_peer_id: None,
                            addr: Some(addr),
                            meta: Some("{\"transport\":\"tcp\"}"@),
                        },
                    )
                    &&& one_is_answered(v, None, after, actions.skip(1))
                },
                _ => next == TcpNext::Finish && actions.len() == 0 && after == v,
            },
            FirstFrame::Undecodable => next == TcpNext::Fail(TcpError::Protobuf) && actions.len()
                == 0 && after == v,
            FirstFrame::BadFrame => next == TcpNext::Fail(TcpError::Framing) && actions.len() == 0
                && after == v,
            FirstFrame::TimedOut => next == TcpNext::Fail(TcpError::FirstFrameTimeout)
                && actions.len() == 0 && after == v,
            FirstFrame::Closed => next == TcpNext::Finish && actions.len() == 0 && after == v,
        },
{
    lemma_transport_text();
    match frame {
        FirstFrame::Message(m) => {
            if m@ is RelayResponse {
                let rest = actions.skip(1);
                lemma_one_is_answered(v, None, after, rest);
                assert(rest.len() == actions.len() - 1);
                assert(v.pending.dom() == Set::<Seq<char>>::empty() ==> after.pending
                    == v.pending);
            }
        },
        _ => {},
    }
}

/// What an event of a WebSocket connection does. Registrations make the
/// connection the way to reach the peer and are answered on it; a key
/// registration without an id registers nothing. Punch requests are dispatched,
/// and an acknowledgement is that of the peer which the connection registered.
/// The end of the connection, in whatever way, takes its registration along.
pub proof fn law_ws_events(
    v: RendezvousView,
    s: WsSessionView,
    event: WsEvent,
    addr: Seq<char>,
    now: u64,
    after: RendezvousView,
    session: WsSessionView,
    actions: Seq<ActionView>,
    over: bool,
)
    requires
        ws_step(v, s, event, addr, now, after, session, actions, over),
    ensures
        after.relay_addr == v.relay_addr,
        session.outbox == s.outbox,
        over <==> event is Close || event is Failed || event is Ended,
        over ==> actions.len() == 0 && session == s && after.pending == v.pending,
        over && s.my_id is None ==> after == v,
        over && s.my_id is Some ==> {
            let id = s.my_id->0;
            if v.registry.contains_key(id) && v.registry[id].reach == Reachable::WsPush(s.outbox) {
                after.registry == v.registry.remove(id)
            } else {
                after.registry == v.registry
            }
        },
        !over && !(event is Message) ==> after == v && session == s && actions.len() == 0,
        event matches WsEvent::Message(m) ==> match m@ {
            MessageView::RegisterPeer { id } => {
                &&& after.registry == v.registry.insert(
                    id,
                    PeerEntry { reach: Reachable::WsPush(s.outbox), last_seen: now },
                )
                &&& after.pending == v.pending
                &&& session.my_id == Some(id)
                &&& actions.len() == 2
                &&& actions[0] == ActionView::Audit(
                    EventView {
                        kind: "register"@,
                        peer_id: Some(id),
                        controller_peer_id: None,
                        addr: Some(addr),
                        meta: Some("{\"transport\":\"ws\"}"@),
                    },
                )
                &&& actions[1] == (ActionView::Push {
                    outbox: s.outbox,
                    msg: MessageView::RegisterPeerResponse { request_pk: false },
                })
            },
            MessageView::RegisterPk { id } => {
                &&& id.len() == 0 ==> after == v && session == s
                &&& id.len() > 0 ==> after.registry == v.registry.insert(
                    id,
                    PeerEntry { reach: Reachable::WsPush(s.outbox), last_seen: now },
                ) && session.my_id == Some(id)
                &&& after.pending == v.pending
                &&& actions.len() == 1
                &&& actions[0] == (ActionView::Push {
                    outbox: s.outbox,
                    msg: MessageView::RegisterPkResponse { result: 0, keep_alive: 0 },
                })
            },
            MessageView::PunchHoleRequest { id } => {
                &&& session == s
                &&& actions.len() == if v.registry.contains_key(id) {
                    2int
                } else {
                    1
                }
                &&& actions[0] == ActionView::Audit(
                    EventView {
                        kind: "punch_request"@,
                        peer_id: Some(id),
                        controller_peer_id: None,
                        addr: Some(addr),
                        meta: Some("{\"transport\":\"ws\"}"@),
                    },
                )
                &&& after.registry == v.registry
                &&& after.pending == if v.registry.contains_key(id) {
                    v.pending.insert(id, s.outbox)
                } else {
                    v.pending
                }
            },
            MessageView::RelayResponse { relay_server: _ } => {
                &&& session == s
                &&& 1 <= actions.len() <= 2
                &&& actions[0] == ActionView::Audit(
                    EventView {
                        kind: "relay_ack"@,
                        peer_id: None,
                        controller_peer_id: None,
                        addr: Some(addr),
                        meta: Some("{\"transport\":\"ws\"}"@),
                    },
                )
                &&& one_is_answered(v, s.my_id, after, actions.skip(1))
            },
            _ => after == v && session == s && actions.len() == 0,
        },
{
    lemma_transport_text();
    match event {
        WsEvent::Message(m) => {
            if m@ is RelayResponse {
                let rest = actions.skip(1);
                lemma_one_is_answered(v, s.my_id, after, rest);
                assert(rest.len() == actions.len() - 1);
            }
        },
        _ => {},
    }
}

/// However a peer registered and over whichever transport it is asked for, it
/// is sent to the relay by the way that it registered, and the one that asked
/// is the one that waits for it.
pub proof fn law_peers_are_reached_as_they_registered(
    v: RendezvousView,
    id: Seq<char>,
    reach: Reachable,
    now: u64,
    from: Endpoint,
    peer: WsSessionView,
    register: RendezvousMessage,
    peer_after: WsSessionView,
    register_actions: Seq<ActionView>,
    known: RendezvousView,
    request: RendezvousMessage,
    requester: Outbox,
    asker: WsSessionView,
    asker_after: WsSessionView,
    addrs: (Seq<char>, Seq<char>),
    after: RendezvousView,
    actions: Seq<ActionView>,
    next: TcpNext,
)
    requires
        // The peer registers over UDP, or over its WebSocket in one of two ways.
        ({
            ||| reach == Reachable::Udp(from) && known == udp_step(
                v,
                Some(MessageView::RegisterPeer { id }),
                from,
                addrs.0,
                now,
            ).0
            ||| reach == Reachable::WsPush(peer.outbox) && (register@ == (
            MessageView::RegisterPeer { id }) || register@ == (MessageView::RegisterPk { id })
                && id.len() > 0) && ws_step(
                v,
                peer,
                WsEvent::Message(register),
                addrs.0,
                now,
                known,
                peer_after,
                register_actions,
                false,
            )
        }),
        // It is asked for over TCP or over a WebSocket.
        request@ == (MessageView::PunchHoleRequest { id }),
        ({
            ||| tcp_step(
                known,
                FirstFrame::Message(request),
                requester,
                addrs.1,
                after,
                actions,
                next,
            )
            ||| asker.outbox == requester && ws_step(
                known,
                asker,
                WsEvent::Message(request),
                addrs.1,
                now,
                after,
                asker_after,
                actions,
                false,
            )
        }),
    ensures
        actions.len() == 2,
        actions[1] == (match reach {
            Reachable::Udp(to) => ActionView::SendUdp {
                to,
                msg: MessageView::RequestRelay { relay_server: v.relay_addr },
            },
            Reachable::WsPush(outbox) => ActionView::Push {
                outbox,
                msg: MessageView::RequestRelay { relay_server: v.relay_addr },
            },
        }),
        after.pending == v.pending.insert(id, requester),
        after.registry == v.registry.insert(id, PeerEntry { reach, last_seen: now }),
        after.relay_addr == v.relay_addr,
{
    law_punch_request(known, id, requester);
    assert(known.registry == v.registry.insert(id, PeerEntry { reach, last_seen: now }));
}

/// The end of a connection leaves every registration but its own.
pub proof fn law_disconnect(v: RendezvousView, s: WsSessionView, other: Seq<char>)
    ensures
        disconnected(v, s).pending == v.pending,
        disconnected(v, s).relay_addr == v.relay_addr,
        s.my_id != Some(other) ==> disconnected(v, s).registry.contains_key(other)
            == v.registry.contains_key(other) && (v.registry.contains_key(other)
            ==> disconnected(v, s).registry[other] == v.registry[other]),
        s.my_id == Some(other) && v.registry.contains_key(other) ==> (disconnected(
            v,
            s,
        ).registry.contains_key(other) <==> v.registry[other].reach != Reachable::WsPush(
            s.outbox,
        )),
{
}

/// A peer that registers with a datagram and is then asked for gets a datagram,
/// whether a native client asks or a web client. The one that asked is answered
/// when the peer acknowledges, if it is the only one that waits.
pub proof fn law_native_peer(
    s: &mut Rendezvous,
    register: RendezvousMessage,
    id: Seq<char>,
    from: Endpoint,
    addr: &str,
    now: u64,
    registered_with: Vec<Action>,
    asked: &mut Rendezvous,
    request: RendezvousMessage,
    requester: Outbox,
    asker_addr: &str,
    tcp: TcpOutcome,
    asker: &mut WsSession,
    ws: WsOutcome,
    over_tcp: bool,
    acked: &mut Rendezvous,
    ack: RendezvousMessage,
    ack_outbox: Outbox,
    done: TcpOutcome,
)
    requires
        register@ == (MessageView::RegisterPeer { id }),
        request@ == (MessageView::PunchHoleRequest { id }),
        ack@ is RelayResponse,
        call_ensures(Rendezvous::handle_udp, (s, Some(register), from, addr, now), registered_with),
        *asked == *final(s),
        over_tcp ==> call_ensures(
            Rendezvous::handle_tcp,
            (asked, FirstFrame::Message(request), requester, asker_addr),
            tcp,
        ),
        !over_tcp ==> asker@.outbox == requester && call_ensures(
            Rendezvous::handle_ws,
            (asked, asker, WsEvent::Message(request), asker_addr, now),
            ws,
        ),
        *acked == *final(asked),
        call_ensures(
            Rendezvous::handle_tcp,
            (acked, FirstFrame::Message(ack), ack_outbox, addr),
            done,
        ),
    ensures
        actions_view(registered_with@).last() == (ActionView::SendUdp {
            to: from,
            msg: MessageView::RegisterPeerResponse { request_pk: false },
        }),
        ({
            let actions = if over_tcp {
                actions_view(tcp.actions@)
            } else {
                actions_view(ws.actions@)
            };
            &&& actions.len() == 2
            &&& actions[0] is Audit
            &&& actions[1] == (ActionView::SendUdp {
                to: from,
                msg: MessageView::RequestRelay { relay_server: old(s)@.relay_addr },
            })
        }),
        over_tcp ==> tcp.next == TcpNext::AwaitPush,
        !over_tcp ==> !ws.over && final(asker)@ == old(asker)@,
        final(asked)@.pending == old(s)@.pending.insert(id, requester),
        done.next == TcpNext::Finish,
        (forall|t: Seq<char>| !#[trigger] old(s)@.pending.contains_key(t)) ==> {
            let actions = actions_view(done.actions@);
            &&& actions.len() == 2
            &&& actions[0] is Audit
            &&& actions[1] == (ActionView::Push {
                outbox: requester,
                msg: MessageView::RelayResponse { relay_server: old(s)@.relay_addr },
            })
            &&& forall|t: Seq<char>| !#[trigger] final(acked)@.pending.contains_key(t)
        },
        final(acked)@.registry == old(s)@.registry.insert(
            id,
            PeerEntry { reach: Reachable::Udp(from), last_seen: now },
        ),
{
    let v = old(s)@;
    let known = final(s)@;
    law_datagrams(v, Some(register@), from, addr@, now);
    law_punch_request(known, id, requester);
    assert(known.registry == v.registry.insert(
        id,
        PeerEntry { reach: Reachable::Udp(from), last_seen: now },
    ));
    let all = actions_view(done.actions@);
    lemma_one_is_answered(final(asked)@, None, final(acked)@, all.skip(1));
    law_first_frames(
        final(asked)@,
        FirstFrame::Message(ack),
        ack_outbox,
        addr@,
        final(acked)@,
        all,
        done.next,
    );
    assert(final(asked)@.pending.contains_key(id));
    assert(final(asked)@.pending.dom().contains(id));
    if forall|t: Seq<char>| !#[trigger] v.pending.contains_key(t) {
        assert forall|t: Seq<char>| #[trigger] final(asked)@.pending.contains_key(t) implies t
            == id by {
            assert(!v.pending.contains_key(t));
        }
        assert(all[1] == all.skip(1)[0]);
    }
}

/// A peer that registers on its WebSocket, in either way, and is then asked for
/// gets the request on that very connection, whether a native client asks or a
/// web client. When it acknowledges, the one that asked last is answered,
/// whoever else waits for other peers.
pub proof fn law_web_peer(
    s: &mut Rendezvous,
    peer: &mut WsSession,
    register: RendezvousMessage,
    id: Seq<char>,
    addr: &str,
    now: u64,
    registered_with: WsOutcome,
    asked: &mut Rendezvous,
    request: RendezvousMessage,
    requester: Outbox,
    asker_addr: &str,
    tcp: TcpOutcome,
    asker: &mut WsSession,
    ws: WsOutcome,
    over_tcp: bool,
    acked: &mut Rendezvous,
    peer_again: &mut WsSession,
    ack: RendezvousMessage,
    done: WsOutcome,
)
    requires
        register@ == (MessageView::RegisterPeer { id }) || (register@ == (MessageView::RegisterPk {
            id,
        }) && id.len() > 0),
        request@ == (MessageView::PunchHoleRequest { id }),
        ack@ is RelayResponse,
        call_ensures(
            Rendezvous::handle_ws,
            (s, peer, WsEvent::Message(register), addr, now),
            registered_with,
        ),
        *asked == *final(s),
        over_tcp ==> call_ensures(
            Rendezvous::handle_tcp,
            (asked, FirstFrame::Message(request), requester, asker_addr),
            tcp,
        ),
        !over_tcp ==> asker@.outbox == requester && call_ensures(
            Rendezvous::handle_ws,
            (asked, asker, WsEvent::Message(request), asker_addr, now),
            ws,
        ),
        *acked == *final(asked),
        *peer_again == *final(peer),
        call_ensures(
            Rendezvous::handle_ws,
            (acked, peer_again, WsEvent::Message(ack), addr, now),
            done,
        ),
    ensures
        !registered_with.over && !done.over,
        register@ is RegisterPeer ==> actions_view(registered_with.actions@).last() == (
        ActionView::Push {
            outbox: old(peer)@.outbox,
            msg: MessageView::RegisterPeerResponse { request_pk: false },
        }),
        register@ is RegisterPk ==> actions_view(registered_with.actions@).last() == (
        ActionView::Push {
            outbox: old(peer)@.outbox,
            msg: MessageView::RegisterPkResponse { result: 0, keep_alive: 0 },
        }),
        ({
            let actions = if over_tcp {
                actions_view(tcp.actions@)
            } else {
                actions_view(ws.actions@)
            };
            &&& actions.len() == 2
            &&& actions[0] is Audit
            &&& actions[1] == (ActionView::Push {
                outbox: old(peer)@.outbox,
                msg: MessageView::RequestRelay { relay_server: old(s)@.relay_addr },
            })
        }),
        over_tcp ==> tcp.next == TcpNext::AwaitPush,
        !over_tcp ==> !ws.over && final(asker)@ == old(asker)@,
        ({
            let actions = actions_view(done.actions@);
            &&& actions.len() == 2
            &&& actions[0] is Audit
            &&& actions[1] == (ActionView::Push {
                outbox: requester,
                msg: MessageView::RelayResponse { relay_server: old(s)@.relay_addr },
            })
        }),
        final(acked)@.pending == old(s)@.pending.remove(id),
        final(acked)@.registry == old(s)@.registry.insert(
            id,
            PeerEntry { reach: Reachable::WsPush(old(peer)@.outbox), last_seen: now },
        ),
        final(peer_again)@.outbox == old(peer)@.outbox,
        final(peer_again)@.my_id == Some(id),
{
    let v = old(s)@;
    let known = final(s)@;
    law_punch_request(known, id, requester);
    assert(known.registry == v.registry.insert(
        id,
        PeerEntry { reach: Reachable::WsPush(old(peer)@.outbox), last_seen: now },
    ));
    let all = actions_view(done.actions@);
    assert(final(asked)@.pending == v.pending.insert(id, requester));
    assert(final(asked)@.pending.contains_key(id));
    law_answer(final(asked)@, id);
    assert(all.skip(1).len() == 1);
    assert(all[1] == all.skip(1)[0]);
    assert(v.pending.insert(id, requester).remove(id) =~= v.pending.remove(id));
}

/// A connection that ends takes its registration along, however it ends, unless
/// somebody else has the id by then; nobody else is touched, and those that wait
/// go on waiting.
pub proof fn law_end_of_a_connection(
    s: &mut Rendezvous,
    session: &mut WsSession,
    event: WsEvent,
    addr: &str,
    now: u64,
    r: WsOutcome,
    id: Seq<char>,
    other: Seq<char>,
)
    requires
        event is Close || event is Failed || event is Ended,
        session@.my_id == Some(id),
        other != id,
        call_ensures(Rendezvous::handle_ws, (s, session, event, addr, now), r),
    ensures
        r.over,
        r.actions@.len() == 0,
        old(s)@.registry.contains_key(id) && old(s)@.registry[id].reach == Reachable::WsPush(
            old(session)@.outbox,
        ) ==> !final(s)@.registry.contains_key(id),
        old(s)@.registry.contains_key(id) && old(s)@.registry[id].reach != Reachable::WsPush(
            old(session)@.outbox,
        ) ==> final(s)@.registry.contains_key(id) && final(s)@.registry[id] == old(
            s,
        )@.registry[id],
        final(s)@.registry.contains_key(other) == old(s)@.registry.contains_key(other),
        old(s)@.registry.contains_key(other) ==> final(s)@.registry[other] == old(
            s,
        )@.registry[other],
        final(s)@.pending == old(s)@.pending,
        final(s)@.relay_addr == old(s)@.relay_addr,
{
    assert(actions_view(r.actions@).len() == r.actions@.len());
    law_disconnect(old(s)@, old(session)@, other);
}

/// What is not a registration, a punch request or an acknowledgement has no
/// effect on any transport; what cannot be read ends a TCP connection with an
/// error of its own, and leaves a WebSocket open.
pub proof fn law_other_traffic(
    s: &mut Rendezvous,
    msg: RendezvousMessage,
    from: Endpoint,
    outbox: Outbox,
    session: &mut WsSession,
    addr: &str,
    now: u64,
    noise: Vec<Action>,
    t: &mut Rendezvous,
    frame: FirstFrame,
    tcp: TcpOutcome,
    u: &mut Rendezvous,
    event: WsEvent,
    ws: WsOutcome,
)
    requires
        !(msg@ is RegisterPeer || msg@ is RegisterPk || msg@ is PunchHoleRequest
            || msg@ is RelayResponse),
        call_ensures(Rendezvous::handle_udp, (s, Some(msg), from, addr, now), noise)
            || call_ensures(Rendezvous::handle_udp, (s, None, from, addr, now), noise),
        frame is Message ==> frame == FirstFrame::Message(msg),
        call_ensures(Rendezvous::handle_tcp, (t, frame, outbox, addr), tcp),
        event is Message ==> event == WsEvent::Message(msg),
        !(event is Close || event is Failed || event is Ended),
        call_ensures(Rendezvous::handle_ws, (u, session, event, addr, now), ws),
    ensures
        noise@.len() == 0,
        final(s)@ == old(s)@,
        tcp.actions@.len() == 0,
        final(t)@ == old(t)@,
        frame is Message || frame is Closed ==> tcp.next == TcpNext::Finish,
        frame is Undecodable ==> tcp.next == TcpNext::Fail(TcpError::Protobuf),
        frame is BadFrame ==> tcp.next == TcpNext::Fail(TcpError::Framing),
        frame is TimedOut ==> tcp.next == TcpNext::Fail(TcpError::FirstFrameTimeout),
        ws.actions@.len() == 0,
        !ws.over,
        final(u)@ == old(u)@,
        final(session)@ == old(session)@,
{
    assert(actions_view(noise@).len() == noise@.len());
    assert(actions_view(tcp.actions@).len() == tcp.actions@.len());
    assert(actions_view(ws.actions@).len() == ws.actions@.len());
}

/// A server begins with nobody registered and nobody waiting, hands out the
/// relay address that it was made with, and passes over a request for a peer
/// that it does not know, on both transports: only the audit event is left.
pub proof fn law_unknown_peers(
    relay_addr: String,
    fresh: Rendezvous,
    outbox: Outbox,
    session: WsSession,
    s: &mut Rendezvous,
    request: RendezvousMessage,
    id: Seq<char>,
    addr: &str,
    tcp: TcpOutcome,
    t: &mut Rendezvous,
    asker: &mut WsSession,
    now: u64,
    ws: WsOutcome,
)
    requires
        call_ensures(Rendezvous::new, (relay_addr,), fresh),
        call_ensures(WsSession::new, (outbox,), session),
        request@ == (MessageView::PunchHoleRequest { id }),
        !s@.registry.contains_key(id),
        call_ensures(
            Rendezvous::handle_tcp,
            (s, FirstFrame::Message(request), outbox, addr),
            tcp,
        ),
        !t@.registry.contains_key(id),
        call_ensures(
            Rendezvous::handle_ws,
            (t, asker, WsEvent::Message(request), addr, now),
            ws,
        ),
    ensures
        fresh@.relay_addr == relay_addr@,
        forall|p: Seq<char>| !#[trigger] fresh@.registry.contains_key(p),
        forall|p: Seq<char>| !#[trigger] fresh@.pending.contains_key(p),
        session@.outbox == outbox && session@.my_id is None,
        final(s)@ == old(s)@,
        tcp.actions@.len() == 1 && tcp.actions@[0] is Audit,
        tcp.next == TcpNext::AwaitPush,
        final(t)@ == old(t)@,
        ws.actions@.len() == 1 && ws.actions@[0] is Audit,
        !ws.over,
{
    let (a, b) = (actions_view(tcp.actions@), actions_view(ws.actions@));
    assert(a.len() == tcp.actions@.len());
    assert(b.len() == ws.actions@.len());
    assert(a.len() == 1 && b.len() == 1);
    assert(a[0] == tcp.actions@[0]@);
    assert(b[0] == ws.actions@[0]@);
}

/// What is left in the audit log of each message: the kind of event, the peer
/// that it is about, if it is about one, where it came from, and how.
pub proof fn law_audited_messages(
    s: &mut Rendezvous,
    msg: RendezvousMessage,
    from: Endpoint,
    addr: &str,
    now: u64,
    udp: Vec<Action>,
    t: &mut Rendezvous,
    outbox: Outbox,
    tcp: TcpOutcome,
    u: &mut Rendezvous,
    session: &mut WsSession,
    ws: WsOutcome,
)
    requires
        call_ensures(Rendezvous::handle_udp, (s, Some(msg), from, addr, now), udp),
        call_ensures(Rendezvous::handle_tcp, (t, FirstFrame::Message(msg), outbox, addr), tcp),
        call_ensures(
            Rendezvous::handle_ws,
            (u, session, WsEvent::Message(msg), addr, now),
            ws,
        ),
    ensures
        msg@ matches MessageView::RegisterPeer { id } ==> {
            &&& actions_view(udp@)[0] == ActionView::Audit(
                EventView {
                    kind: "register"@,
                    peer_id: Some(id),
                    controller_peer_id: None,
                    addr: Some(addr@),
                    meta: Some("{\"transport\":\"udp\"}"@),
                },
            )
            &&& actions_view(ws.actions@)[0] == ActionView::Audit(
                EventView {
                    kind: "register"@,
                    peer_id: Some(id),
                    controller_peer_id: None,
                    addr: Some(addr@),
                    meta: Some("{\"transport\":\"ws\"}"@),
                },
            )
        },
        msg@ matches MessageView::PunchHoleRequest { id } ==> {
            &&& actions_view(tcp.actions@)[0] == ActionView::Audit(
                EventView {
                    kind: "punch_request"@,
                    peer_id: Some(id),
                    controller_peer_id: None,
                    addr: Some(addr@),
                    meta: Some("{\"transport\":\"tcp\"}"@),
                },
            )
            &&& actions_view(ws.actions@)[0] == ActionView::Audit(
                EventView {
                    kind: "punch_request"@,
                    peer_id: Some(id),
                    controller_peer_id: None,
                    addr: Some(addr@),
                    meta: Some("{\"transport\":\"ws\"}"@),
                },
            )
        },
        msg@ is RelayResponse ==> {
            &&& actions_view(tcp.actions@)[0] == ActionView::Audit(
                EventView {
                    kind: "relay_ack"@,
                    peer_id: None,
                    controller_peer_id: None,
                    addr: Some(addr@),
                    meta: Some("{\"transport\":\"tcp\"}"@),
                },
            )
            &&& actions_view(ws.actions@)[0] == ActionView::Audit(
                EventView {
                    kind: "relay_ack"@,
                    peer_id: None,
                    controller_peer_id: None,
                    addr: Some(addr@),
                    meta: Some("{\"transport\":\"ws\"}"@),
                },
            )
        },
{
    lemma_transport_text();
}

/// The dispatchers. A punch request that is passed on is answered by answering
/// its target: the one that asked gets the relay address, once. An
/// acknowledgement of a peer that somebody waits for is just that answer.
pub proof fn law_dispatch_and_answer(
    s: &mut Rendezvous,
    target: &str,
    requester: Outbox,
    sent: Vec<Action>,
    t: &mut Rendezvous,
    by_ack: bool,
    answer: Vec<Action>,
    u: &mut Rendezvous,
    again: Vec<Action>,
)
    requires
        s@.registry.contains_key(target@),
        call_ensures(Rendezvous::dispatch_punch, (s, target, requester), sent),
        *t == *final(s),
        by_ack ==> call_ensures(Rendezvous::dispatch_relay_ack, (t, Some(target)), answer),
        !by_ack ==> call_ensures(Rendezvous::answer_requester, (t, target), answer),
        *u == *final(t),
        call_ensures(Rendezvous::answer_requester, (u, target), again),
    ensures
        sent@.len() == 1,
        old(s)@.registry[target@].reach matches Reachable::Udp(to) ==> sent@[0]@ == (
        ActionView::SendUdp {
            to,
            msg: MessageView::RequestRelay { relay_server: old(s)@.relay_addr },
        }),
        old(s)@.registry[target@].reach matches Reachable::WsPush(outbox) ==> sent@[0]@ == (
        ActionView::Push {
            outbox,
            msg: MessageView::RequestRelay { relay_server: old(s)@.relay_addr },
        }),
        answer@.len() == 1,
        answer@[0]@ == (ActionView::Push {
            outbox: requester,
            msg: MessageView::RelayResponse { relay_server: old(s)@.relay_addr },
        }),
        again@.len() == 0,
        final(u)@.pending == old(s)@.pending.remove(target@),
        final(u)@.registry == old(s)@.registry,
{
    let (a, b, c) = (actions_view(sent@), actions_view(answer@), actions_view(again@));
    assert(a.len() == sent@.len() && b.len() == answer@.len() && c.len() == again@.len());
    law_punch_request(old(s)@, target@, requester);
    assert(final(s)@.pending.contains_key(target@));
    law_answer(final(s)@, target@);
    law_answer(final(t)@, target@);
    assert(a[0] == sent@[0]@);
    assert(b[0] == answer@[0]@);
    assert(old(s)@.pending.insert(target@, requester).remove(target@) =~= old(s)@.pending.remove(
        target@,
    ));
}

/// A connection has 15 seconds for its first frame.
pub proof fn law_first_frame_timeout()
    ensures
        FIRST_FRAME_TIMEOUT_SECS == 15,
{
}

} // verus!
