use xyzen_relay::relay::{
    pair_or_wait, pump, pump_tcp_to_ws, pump_ws_to_tcp, pump_ws_ws, Forward, Pump, Side, WaitSlot,
    WsKind,
};
use xyzen_relay::stream::{
    handle_publisher, handle_viewer, viewer_message, Rooms, ViewerEvent, ViewerStep,
};

#[test]
fn connections_are_paired_two_by_two() {
    let mut slot = WaitSlot::new();
    assert_eq!(pair_or_wait(&mut slot, Side::Tcp(1)), None);
    assert_eq!(pair_or_wait(&mut slot, Side::Ws(2)), Some((Side::Ws(2), Side::Tcp(1))));
    assert_eq!(pair_or_wait(&mut slot, Side::Ws(3)), None);
    assert_eq!(pair_or_wait(&mut slot, Side::Ws(4)), Some((Side::Ws(4), Side::Ws(3))));
    assert_eq!(pair_or_wait(&mut slot, Side::Tcp(5)), None);
}

#[test]
fn pumps() {
    assert_eq!(pump(Side::Tcp(1), Side::Tcp(2)), Pump::TcpTcp(1, 2));
    assert_eq!(pump(Side::Ws(1), Side::Ws(2)), Pump::WsWs(1, 2));
    assert_eq!(pump(Side::Tcp(1), Side::Ws(2)), Pump::TcpWs { tcp: 1, ws: 2 });
    assert_eq!(pump(Side::Ws(2), Side::Tcp(1)), Pump::TcpWs { tcp: 1, ws: 2 });
    let all = [
        (WsKind::Text, Forward::Send, Forward::Skip),
        (WsKind::Binary, Forward::Send, Forward::Send),
        (WsKind::Ping, Forward::Send, Forward::Skip),
        (WsKind::Pong, Forward::Send, Forward::Skip),
        (WsKind::Close, Forward::Stop, Forward::Stop),
        (WsKind::Frame, Forward::Send, Forward::Skip),
    ];
    for (kind, between_ws, to_tcp) in all {
        assert_eq!(pump_ws_ws(kind), between_ws);
        assert_eq!(pump_ws_to_tcp(kind), to_tcp);
        assert_eq!(handle_publisher(kind), to_tcp);
    }
    assert_eq!(pump_tcp_to_ws(b"abcdef", 3), Some(b"abc".to_vec()));
    assert_eq!(pump_tcp_to_ws(b"abc", 3), Some(b"abc".to_vec()));
    assert_eq!(pump_tcp_to_ws(b"abcdef", 0), None);
}

#[test]
fn rooms_follow_their_publisher() {
    let mut rooms = Rooms::new();
    assert!(rooms.can_take("a"));
    let a = rooms.room_for("a");
    assert!(rooms.can_take("a"));
    assert_eq!(rooms.publisher_joined("a"), a);
    let b = rooms.publisher_joined("b");
    assert_ne!(a, b);
    assert_eq!(rooms.room_for("a"), a);
    assert!(!rooms.publisher_left("a", b));
    assert!(rooms.publisher_left("a", a));
    let again = rooms.room_for("a");
    assert!(again != a && again != b);
    assert!(!rooms.publisher_left("a", a));
    assert_eq!(rooms.room_for("a"), again);
    assert!(!rooms.publisher_left("nobody", 0));

    assert_eq!(rooms.publisher_joined("b"), b);
    assert!(!rooms.publisher_left("b", b));
    assert_eq!(rooms.room_for("b"), b);
    assert!(rooms.publisher_left("b", b));
    assert_ne!(rooms.room_for("b"), b);
}

#[test]
fn viewers() {
    for kind in [WsKind::Text, WsKind::Binary, WsKind::Ping, WsKind::Pong, WsKind::Frame] {
        assert_eq!(viewer_message(kind), Forward::Skip);
    }
    assert_eq!(viewer_message(WsKind::Close), Forward::Stop);
    assert_eq!(handle_viewer(ViewerEvent::Idle), ViewerStep::Ping);
    assert_eq!(handle_viewer(ViewerEvent::Frame), ViewerStep::SendFrame);
    assert_eq!(handle_viewer(ViewerEvent::Lagged), ViewerStep::Wait);
    assert_eq!(handle_viewer(ViewerEvent::Closed), ViewerStep::Close);
    assert_eq!(handle_viewer(ViewerEvent::Left), ViewerStep::Close);
    assert_eq!(handle_viewer(ViewerEvent::SendFailed), ViewerStep::Close);
}
