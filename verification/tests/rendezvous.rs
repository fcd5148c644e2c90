use xyzen_relay::audit::{Auditor, Event};
use xyzen_relay::config::RendezvousConfig;
use xyzen_relay::message::{
    tag, PunchHoleRequest, RegisterPeer, RegisterPeerResponse, RegisterPk, RelayResponse,
    RendezvousMessage, Union,
};
use xyzen_relay::pending::Pending;
use xyzen_relay::registry::{Endpoint, PeerRegistry, Reachable};
use xyzen_relay::server::{
    Action, FirstFrame, Rendezvous, TcpError, TcpNext, WsEvent, WsOutcome, WsSession,
};

fn msg(u: Union) -> RendezvousMessage {
    RendezvousMessage { union: Some(u) }
}

fn register(id: &str) -> RendezvousMessage {
    msg(Union::RegisterPeer(RegisterPeer { id: id.to_string() }))
}

fn register_pk(id: &str) -> RendezvousMessage {
    msg(Union::RegisterPk(RegisterPk { id: id.to_string() }))
}

fn punch(id: &str) -> RendezvousMessage {
    msg(Union::PunchHoleRequest(PunchHoleRequest { id: id.to_string() }))
}

fn ack() -> RendezvousMessage {
    msg(Union::RelayResponse(RelayResponse { relay_server: String::new() }))
}

fn peer(port: u16) -> Endpoint {
    Endpoint::V4 { ip: 0x0a00_0001, port }
}

/// One line per action.
fn shown(actions: &[Action]) -> Vec<String> {
    let text = |m: &RendezvousMessage| match m.union.as_ref().unwrap() {
        Union::RegisterPeerResponse(r) => format!("peer_ok pk={}", r.request_pk),
        Union::RegisterPkResponse(r) => format!("pk_ok {} {}", r.result, r.keep_alive),
        Union::RequestRelay(r) => format!("request_relay {}", r.relay_server),
        Union::RelayResponse(r) => format!("relay_response {}", r.relay_server),
        other => tag(other).to_string(),
    };
    actions
        .iter()
        .map(|a| match a {
            Action::SendUdp { to, msg } => match to {
                Endpoint::V4 { port, .. } => format!("udp:{} {}", port, text(msg)),
                Endpoint::V6 { port, .. } => format!("udp6:{} {}", port, text(msg)),
            },
            Action::Push { outbox, msg } => format!("push:{} {}", outbox, text(msg)),
            Action::Audit(e) => format!(
                "audit {} {:?} {:?} {:?} {}",
                e.kind,
                e.peer_id,
                e.controller_peer_id,
                e.addr,
                e.meta.as_ref().unwrap()
            ),
        })
        .collect()
}

fn ws(r: &mut Rendezvous, s: &mut WsSession, m: RendezvousMessage) -> Vec<String> {
    let out: WsOutcome = r.handle_ws(s, WsEvent::Message(m), "ws-addr", 5);
    assert!(!out.over);
    shown(&out.actions)
}

#[test]
fn udp_registration_is_answered_and_audited() {
    let mut r = Rendezvous::new("relay.example".to_string());
    let a = r.handle_udp(Some(register("42")), peer(7), "10.0.0.1:7", 1);
    assert_eq!(
        shown(&a),
        vec![
            "audit register Some(\"42\") None Some(\"10.0.0.1:7\") {\"transport\":\"udp\"}",
            "udp:7 peer_ok pk=false",
        ]
    );
    let a = r.handle_udp(Some(register_pk("42")), peer(7), "10.0.0.1:7", 1);
    assert_eq!(shown(&a), vec!["udp:7 pk_ok 0 0"]);
    assert!(r.handle_udp(None, peer(7), "10.0.0.1:7", 1).is_empty());
    assert!(r.handle_udp(Some(punch("42")), peer(7), "x", 1).is_empty());
    assert!(r.handle_udp(Some(RendezvousMessage { union: None }), peer(7), "x", 1).is_empty());
    assert!(r.handle_udp(Some(msg(Union::Hc)), peer(7), "x", 1).is_empty());
}

#[test]
fn tcp_punch_reaches_a_udp_peer_and_the_requester_hears_of_the_relay() {
    let mut r = Rendezvous::new("relay.example".to_string());
    r.handle_udp(Some(register("42")), peer(7), "a", 1);
    let out = r.handle_tcp(FirstFrame::Message(punch("42")), 100, "b");
    assert_eq!(out.next, TcpNext::AwaitPush);
    assert_eq!(
        shown(&out.actions),
        vec![
            "audit punch_request Some(\"42\") None Some(\"b\") {\"transport\":\"tcp\"}",
            "udp:7 request_relay relay.example",
        ]
    );
    let out = r.handle_tcp(FirstFrame::Message(ack()), 101, "c");
    assert_eq!(out.next, TcpNext::Finish);
    assert_eq!(
        shown(&out.actions),
        vec![
            "audit relay_ack None None Some(\"c\") {\"transport\":\"tcp\"}",
            "push:100 relay_response relay.example",
        ]
    );
    let out = r.handle_tcp(FirstFrame::Message(ack()), 101, "c");
    assert_eq!(out.actions.len(), 1);
}

#[test]
fn offline_target_gets_nothing() {
    let mut r = Rendezvous::new("relay".to_string());
    let out = r.handle_tcp(FirstFrame::Message(punch("nobody")), 1, "b");
    assert_eq!(out.next, TcpNext::AwaitPush);
    assert_eq!(out.actions.len(), 1);
    assert!(r.dispatch_punch("nobody", 1).is_empty());
    assert!(r.dispatch_relay_ack(None).is_empty());
}

#[test]
fn tcp_failures() {
    let mut r = Rendezvous::new("relay".to_string());
    let cases = vec![
        (FirstFrame::TimedOut, TcpNext::Fail(TcpError::FirstFrameTimeout)),
        (FirstFrame::BadFrame, TcpNext::Fail(TcpError::Framing)),
        (FirstFrame::Undecodable, TcpNext::Fail(TcpError::Protobuf)),
        (FirstFrame::Closed, TcpNext::Finish),
        (FirstFrame::Message(register("1")), TcpNext::Finish),
    ];
    for (frame, next) in cases {
        let out = r.handle_tcp(frame, 1, "a");
        assert_eq!(out.next, next);
        assert!(out.actions.is_empty());
    }
    assert!(r.dispatch_punch("1", 2).is_empty());
}

#[test]
fn ws_session() {
    let mut r = Rendezvous::new("relay".to_string());
    let mut a = WsSession::new(1);
    let mut b = WsSession::new(2);
    assert_eq!(
        ws(&mut r, &mut a, register("A")),
        vec![
            "audit register Some(\"A\") None Some(\"ws-addr\") {\"transport\":\"ws\"}",
            "push:1 peer_ok pk=false",
        ]
    );
    assert_eq!(ws(&mut r, &mut b, register_pk("")), vec!["push:2 pk_ok 0 0"]);
    assert!(r.dispatch_punch("", 9).is_empty());
    assert_eq!(ws(&mut r, &mut b, register_pk("B")), vec!["push:2 pk_ok 0 0"]);
    assert_eq!(
        ws(&mut r, &mut b, punch("A")),
        vec![
            "audit punch_request Some(\"A\") None Some(\"ws-addr\") {\"transport\":\"ws\"}",
            "push:1 request_relay relay",
        ]
    );
    assert_eq!(
        ws(&mut r, &mut a, ack()),
        vec![
            "audit relay_ack None None Some(\"ws-addr\") {\"transport\":\"ws\"}",
            "push:2 relay_response relay",
        ]
    );
    assert!(ws(&mut r, &mut a, msg(Union::OnlineRequest)).is_empty());
    for event in [
        WsEvent::Undecodable,
        WsEvent::Text,
        WsEvent::Ping,
        WsEvent::Pong,
        WsEvent::Frame,
    ] {
        let out = r.handle_ws(&mut a, event, "x", 6);
        assert!(!out.over && out.actions.is_empty());
    }
    for event in [WsEvent::Close, WsEvent::Failed, WsEvent::Ended] {
        let mut c = WsSession::new(3);
        ws(&mut r, &mut c, register("C"));
        assert_eq!(r.dispatch_punch("C", 9).len(), 1);
        assert!(r.handle_ws(&mut c, event, "x", 6).over);
        assert!(r.dispatch_punch("C", 9).is_empty());
        assert_eq!(r.dispatch_punch("A", 9).len(), 1);
    }
}

#[test]
fn web_peer_answers_its_own_requester() {
    let mut r = Rendezvous::new("relay".to_string());
    let mut a = WsSession::new(1);
    let mut b = WsSession::new(2);
    ws(&mut r, &mut a, register("A"));
    ws(&mut r, &mut b, register_pk("B"));
    r.dispatch_punch("A", 10);
    r.dispatch_punch("B", 20);
    assert_eq!(ws(&mut r, &mut b, ack())[1..], ["push:20 relay_response relay"]);
    assert_eq!(ws(&mut r, &mut a, ack())[1..], ["push:10 relay_response relay"]);
    assert_eq!(ws(&mut r, &mut a, ack()).len(), 1);

    r.dispatch_punch("A", 10);
    r.dispatch_punch("B", 20);
    let answer = r.dispatch_relay_ack(Some("B"));
    assert_eq!(shown(&answer), vec!["push:20 relay_response relay"]);
    let answer = r.dispatch_relay_ack(Some("A"));
    assert_eq!(shown(&answer), vec!["push:10 relay_response relay"]);
    assert!(r.dispatch_relay_ack(Some("A")).is_empty());

    // Nobody waits for B, and C registered nothing.
    r.dispatch_punch("A", 30);
    assert_eq!(ws(&mut r, &mut b, ack())[1..], ["push:30 relay_response relay"]);
    r.dispatch_punch("A", 40);
    let mut c = WsSession::new(3);
    assert_eq!(ws(&mut r, &mut c, ack())[1..], ["push:40 relay_response relay"]);
    assert_eq!(ws(&mut r, &mut c, ack()).len(), 1);
}

#[test]
fn newer_registration_survives_an_old_disconnect() {
    let mut r = Rendezvous::new("relay".to_string());
    let mut old = WsSession::new(1);
    ws(&mut r, &mut old, register("A"));
    let mut new = WsSession::new(2);
    ws(&mut r, &mut new, register("A"));
    assert!(r.handle_ws(&mut old, WsEvent::Close, "x", 6).over);
    assert_eq!(shown(&r.dispatch_punch("A", 9)), vec!["push:2 request_relay relay"]);
    r.handle_udp(Some(register("A")), peer(8), "a", 1);
    assert!(r.handle_ws(&mut new, WsEvent::Ended, "x", 6).over);
    assert_eq!(shown(&r.dispatch_punch("A", 9)), vec!["udp:8 request_relay relay"]);
}

#[test]
fn each_acknowledgement_answers_one_requester() {
    let mut r = Rendezvous::new("relay".to_string());
    for (i, id) in ["a", "b", "c"].iter().enumerate() {
        r.handle_udp(Some(register(id)), peer(1), "x", 1);
        r.dispatch_punch(id, 10 + i as u64);
    }
    r.dispatch_punch("b", 99);
    assert_eq!(shown(&r.answer_requester("b")), vec!["push:99 relay_response relay"]);
    assert!(r.answer_requester("b").is_empty());
    let mut answered: Vec<String> = Vec::new();
    answered.extend(shown(&r.dispatch_relay_ack(None)));
    answered.extend(shown(&r.dispatch_relay_ack(None)));
    answered.sort();
    assert_eq!(
        answered,
        vec!["push:10 relay_response relay", "push:12 relay_response relay"]
    );
    assert!(r.dispatch_relay_ack(None).is_empty());
}

#[test]
fn registry_keeps_the_latest_entry() {
    let mut reg = PeerRegistry::new();
    assert_eq!(reg.get("a"), None);
    reg.upsert("a".to_string(), Reachable::WsPush(1), 10);
    assert_eq!(reg.get("a"), Some(Reachable::WsPush(1)));
    reg.remove_if_ws("a", 2);
    assert_eq!(reg.get("a"), Some(Reachable::WsPush(1)));
    let v6 = Endpoint::V6 { ip6: 1, port: 2, flowinfo: 3, scope_id: 4 };
    reg.upsert("a".to_string(), Reachable::Udp(v6), 11);
    reg.remove_if_ws("a", 1);
    assert_eq!(reg.get("a"), Some(Reachable::Udp(v6)));
    reg.upsert("a".to_string(), Reachable::WsPush(1), 12);
    reg.remove_if_ws("a", 1);
    assert_eq!(reg.get("a"), None);
    reg.remove_if_ws("a", 1);
    assert_eq!(PeerRegistry::default().get("a"), None);
}

#[test]
fn pending_requests() {
    let mut p = Pending::new();
    assert_eq!(p.any_target(), None);
    assert_eq!(p.remove("a"), None);
    p.insert("a".to_string(), 1);
    p.insert("b".to_string(), 2);
    p.insert("a".to_string(), 3);
    assert!(p.any_target().is_some());
    assert_eq!(p.remove("a"), Some(3));
    assert_eq!(p.remove("a"), None);
    assert_eq!(p.any_target(), Some("b".to_string()));
    assert_eq!(p.remove("b"), Some(2));
    assert_eq!(p.any_target(), None);
}

fn event() -> Event {
    Event {
        kind: "register".to_string(),
        peer_id: Some("42".to_string()),
        controller_peer_id: None,
        addr: None,
        meta: None,
    }
}

#[test]
fn auditor_needs_url_and_token() {
    let some = |s: &str| Some(s.to_string());
    for a in [
        Auditor::new(None, None),
        Auditor::new(some("http://u"), None),
        Auditor::new(None, some("t")),
    ] {
        assert!(a.emit(event()).is_none());
    }
    let post = Auditor::new(some("http://u"), some("t")).emit(event()).unwrap();
    assert_eq!((post.url.as_str(), post.token.as_str()), ("http://u", "t"));
    assert_eq!(post.event.kind, "register");
    assert_eq!(post.event.peer_id, some("42"));
}

#[test]
fn default_config() {
    let c = RendezvousConfig::default();
    assert_eq!((c.relay_addr.as_str(), c.port, c.relay_port), ("127.0.0.1", 21116, 21117));
    let d = c.clone();
    assert_eq!((d.relay_addr.as_str(), d.port, d.relay_port), ("127.0.0.1", 21116, 21117));
}

#[test]
fn tags() {
    assert_eq!(tag(&Union::RegisterPeer(RegisterPeer { id: String::new() })), "register_peer");
    assert_eq!(
        tag(&Union::RegisterPeerResponse(RegisterPeerResponse { request_pk: true })),
        "register_peer_response"
    );
    let plain = vec![
        (Union::PunchHole, "punch_hole"),
        (Union::PunchHoleSent, "punch_hole_sent"),
        (Union::PunchHoleResponse, "punch_hole_response"),
        (Union::FetchLocalAddr, "fetch_local_addr"),
        (Union::LocalAddr, "local_addr"),
        (Union::ConfigureUpdate, "configure_update"),
        (Union::SoftwareUpdate, "software_update"),
        (Union::TestNatRequest, "test_nat_request"),
        (Union::TestNatResponse, "test_nat_response"),
        (Union::PeerDiscovery, "peer_discovery"),
        (Union::OnlineRequest, "online_request"),
        (Union::OnlineResponse, "online_response"),
        (Union::KeyExchange, "key_exchange"),
        (Union::Hc, "hc"),
        (Union::HttpProxyRequest, "http_proxy_request"),
        (Union::HttpProxyResponse, "http_proxy_response"),
    ];
    for (u, name) in plain {
        assert_eq!(tag(&u), name);
    }
}
