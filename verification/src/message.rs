//! The rendezvous messages, as far as the server reads and writes them.

use vstd::prelude::*;

verus! {

/// Announces a peer. The server reads the peer's id.
#[derive(Debug)]
pub struct RegisterPeer {
    pub id: String,
}

/// Answers `RegisterPeer`.
#[derive(Debug)]
pub struct RegisterPeerResponse {
    pub request_pk: bool,
}

/// Asks for a connection to the peer `id`.
#[derive(Debug)]
pub struct PunchHoleRequest {
    pub id: String,
}

/// Announces a public key. The server reads the peer's id only.
#[derive(Debug)]
pub struct RegisterPk {
    pub id: String,
}

/// Answers `RegisterPk`.
#[derive(Debug)]
pub struct RegisterPkResponse {
    pub result: i32,
    pub keep_alive: i32,
}

/// Asks a peer to meet its partner at `relay_server`. Every other field of the
/// message has its default value.
#[derive(Debug)]
pub struct RequestRelay {
    pub relay_server: String,
}

/// Tells where the relay is. Every other field of a message that the server
/// sends has its default value; of one that it receives it reads nothing.
#[derive(Debug)]
pub struct RelayResponse {
    pub relay_server: String,
}

/// The message kinds. Those without a payload here are recognised and passed
/// over.
#[derive(Debug)]
pub enum Union {
    RegisterPeer(RegisterPeer),
    RegisterPeerResponse(RegisterPeerResponse),
    PunchHoleRequest(PunchHoleRequest),
    PunchHole,
    PunchHoleSent,
    PunchHoleResponse,
    FetchLocalAddr,
    LocalAddr,
    ConfigureUpdate,
    RegisterPk(RegisterPk),
    RegisterPkResponse(RegisterPkResponse),
    SoftwareUpdate,
    RequestRelay(RequestRelay),
    RelayResponse(RelayResponse),
    TestNatRequest,
    TestNatResponse,
    PeerDiscovery,
    OnlineRequest,
    OnlineResponse,
    KeyExchange,
    Hc,
    HttpProxyRequest,
    HttpProxyResponse,
}

/// A message on the rendezvous transports.
#[derive(Debug)]
pub struct RendezvousMessage {
    pub union: Option<Union>,
}

/// A message as the contracts see it. `Ignored` stands for every kind that the
/// server neither acts on nor sends, and for a message of no kind.
pub enum MessageView {
    RegisterPeer { id: Seq<char> },
    RegisterPeerResponse { request_pk: bool },
    PunchHoleRequest { id: Seq<char> },
    RegisterPk { id: Seq<char> },
    RegisterPkResponse { result: i32, keep_alive: i32 },
    RequestRelay { relay_server: Seq<char> },
    RelayResponse { relay_server: Seq<char> },
    Ignored,
}

impl View for RendezvousMessage {
    type V = MessageView;

    open spec fn view(&self) -> MessageView {
        match self.union {
            Some(Union::RegisterPeer(m)) => MessageView::RegisterPeer { id: m.id@ },
            Some(Union::RegisterPeerResponse(m)) => MessageView::RegisterPeerResponse {
                request_pk: m.request_pk,
            },
            Some(Union::PunchHoleRequest(m)) => MessageView::PunchHoleRequest { id: m.id@ },
            Some(Union::RegisterPk(m)) => MessageView::RegisterPk { id: m.id@ },
            Some(Union::RegisterPkResponse(m)) => MessageView::RegisterPkResponse {
                result: m.result,
                keep_alive: m.keep_alive,
            },
            Some(Union::RequestRelay(m)) => MessageView::RequestRelay {
                relay_server: m.relay_server@,
            },
            Some(Union::RelayResponse(m)) => MessageView::RelayResponse {
                relay_server: m.relay_server@,
            },
            _ => MessageView::Ignored,
        }
    }
}

/// The name of a message kind, for logs.
pub open spec fn tag_of(u: Union) -> Seq<char> {
    match u {
        Union::RegisterPeer(_) => "register_peer"@,
        Union::RegisterPeerResponse(_) => "register_peer_response"@,
        Union::PunchHoleRequest(_) => "punch_hole_request"@,
        Union::PunchHole => "punch_hole"@,
        Union::PunchHoleSent => "punch_hole_sent"@,
        Union::PunchHoleResponse => "punch_hole_response"@,
        Union::FetchLocalAddr => "fetch_local_addr"@,
        Union::LocalAddr => "local_addr"@,
        Union::ConfigureUpdate => "configure_update"@,
        Union::RegisterPk(_) => "register_pk"@,
        Union::RegisterPkResponse(_) => "register_pk_response"@,
        Union::SoftwareUpdate => "software_update"@,
        Union::RequestRelay(_) => "request_relay"@,
        Union::RelayResponse(_) => "relay_response"@,
        Union::TestNatRequest => "test_nat_request"@,
        Union::TestNatResponse => "test_nat_response"@,
        Union::PeerDiscovery => "peer_discovery"@,
        Union::OnlineRequest => "online_request"@,
        Union::OnlineResponse => "online_response"@,
        Union::KeyExchange => "key_exchange"@,
        Union::Hc => "hc"@,
        Union::HttpProxyRequest => "http_proxy_request"@,
        Union::HttpProxyResponse => "http_proxy_response"@,
    }
}

/// The name of a message kind, for logs.
pub fn tag(u: &Union) -> (r: &'static str)
    ensures
        r@ == tag_of(*u),
{
    match u {
        Union::RegisterPeer(_) => "register_peer",
        Union::RegisterPeerResponse(_) => "register_peer_response",
        Union::PunchHoleRequest(_) => "punch_hole_request",
        Union::PunchHole => "punch_hole",
        Union::PunchHoleSent => "punch_hole_sent",
        Union::PunchHoleResponse => "punch_hole_response",
        Union::FetchLocalAddr => "fetch_local_addr",
        Union::LocalAddr => "local_addr",
        Union::ConfigureUpdate => "configure_update",
        Union::RegisterPk(_) => "register_pk",
        Union::RegisterPkResponse(_) => "register_pk_response",
        Union::SoftwareUpdate => "software_update",
        Union::RequestRelay(_) => "request_relay",
        Union::RelayResponse(_) => "relay_response",
        Union::TestNatRequest => "test_nat_request",
        Union::TestNatResponse => "test_nat_response",
        Union::PeerDiscovery => "peer_discovery",
        Union::OnlineRequest => "online_request",
        Union::OnlineResponse => "online_response",
        Union::KeyExchange => "key_exchange",
        Union::Hc => "hc",
        Union::HttpProxyRequest => "http_proxy_request",
        Union::HttpProxyResponse => "http_proxy_response",
    }
}

/// The message that answers a peer registration.
pub(crate) fn register_peer_response() -> (r: RendezvousMessage)
    ensures
        r@ == (MessageView::RegisterPeerResponse { request_pk: false }),
{
    RendezvousMessage {
        union: Some(Union::RegisterPeerResponse(RegisterPeerResponse { request_pk: false })),
    }
}

/// The message that answers a key registration.
pub(crate) fn register_pk_response() -> (r: RendezvousMessage)
    ensures
        r@ == (MessageView::RegisterPkResponse { result: 0, keep_alive: 0 }),
{
    RendezvousMessage {
        union: Some(Union::RegisterPkResponse(RegisterPkResponse { result: 0, keep_alive: 0 })),
    }
}

/// The message that sends a peer to the relay.
pub(crate) fn request_relay(relay_server: &str) -> (r: RendezvousMessage)
    ensures
        r@ == (MessageView::RequestRelay { relay_server: relay_server@ }),
{
    RendezvousMessage {
        union: Some(Union::RequestRelay(RequestRelay { relay_server: relay_server.to_owned() })),
    }
}

/// The message that tells a requester where the relay is.
pub(crate) fn relay_response(relay_server: &str) -> (r: RendezvousMessage)
    ensures
        r@ == (MessageView::RelayResponse { relay_server: relay_server@ }),
{
    RendezvousMessage {
        union: Some(Union::RelayResponse(RelayResponse { relay_server: relay_server.to_owned() })),
    }
}

/// A message is seen as its kind and the fields that the server knows.
pub proof fn law_message_fields(m: RendezvousMessage)
    ensures
        match m.union {
            Some(Union::RegisterPeer(x)) => m@ is RegisterPeer && m@->RegisterPeer_id == x.id@,
            Some(Union::RegisterPeerResponse(x)) => m@ is RegisterPeerResponse && m@->request_pk
                == x.request_pk,
            Some(Union::PunchHoleRequest(x)) => m@ is PunchHoleRequest && m@->PunchHoleRequest_id
                == x.id@,
            Some(Union::RegisterPk(x)) => m@ is RegisterPk && m@->RegisterPk_id == x.id@,
            Some(Union::RegisterPkResponse(x)) => m@ is RegisterPkResponse && m@->result
                == x.result && m@->keep_alive == x.keep_alive,
            Some(Union::RequestRelay(x)) => m@ is RequestRelay && m@->RequestRelay_relay_server
                == x.relay_server@,
            Some(Union::RelayResponse(x)) => m@ is RelayResponse && m@->RelayResponse_relay_server
                == x.relay_server@,
            _ => m@ is Ignored,
        },
{
}

/// The names of the message kinds, for the kinds with a payload here.
pub proof fn law_tags_of_known_kinds(u: Union)
    ensures
        u is RegisterPeer ==> tag_of(u) == "register_peer"@,
        u is RegisterPeerResponse ==> tag_of(u) == "register_peer_response"@,
        u is PunchHoleRequest ==> tag_of(u) == "punch_hole_request"@,
        u is RegisterPk ==> tag_of(u) == "register_pk"@,
        u is RegisterPkResponse ==> tag_of(u) == "register_pk_response"@,
        u is RequestRelay ==> tag_of(u) == "request_relay"@,
        u is RelayResponse ==> tag_of(u) == "relay_response"@,
{
}

/// The names that `tag` gives: that of an answer is made of the name of what it
/// answers, and the other kinds are named as they are called.
pub proof fn law_tags(u: Union, w: Union, r: &str, s: &str)
    requires
        call_ensures(tag, (&u,), r),
        call_ensures(tag, (&w,), s),
    ensures
        u is RegisterPeer && w is RegisterPeerResponse || u is RegisterPk
            && w is RegisterPkResponse || u is PunchHole && w is PunchHoleResponse ==> s@ == r@
            + "_response"@,
        u is PunchHole && w is PunchHoleRequest ==> s@ == r@ + "_request"@,
        u is PunchHole && w is PunchHoleSent ==> s@ == r@ + "_sent"@,
        u is TestNatRequest ==> r@ == "test_nat"@ + "_request"@,
        u is TestNatResponse ==> r@ == "test_nat"@ + "_response"@,
        u is OnlineRequest ==> r@ == "online"@ + "_request"@,
        u is OnlineResponse ==> r@ == "online"@ + "_response"@,
        u is HttpProxyRequest ==> r@ == "http_proxy"@ + "_request"@,
        u is HttpProxyResponse ==> r@ == "http_proxy"@ + "_response"@,
        u is RelayResponse ==> r@ == "relay"@ + "_response"@,
        u is RegisterPeer ==> r@ == "register_peer"@,
        u is RegisterPk ==> r@ == "register_pk"@,
        u is PunchHole ==> r@ == "punch_hole"@,
        u is RequestRelay ==> r@ == "request_relay"@,
        u is FetchLocalAddr ==> r@ == "fetch_local_addr"@,
        u is LocalAddr ==> r@ == "local_addr"@,
        u is ConfigureUpdate ==> r@ == "configure_update"@,
        u is SoftwareUpdate ==> r@ == "software_update"@,
        u is PeerDiscovery ==> r@ == "peer_discovery"@,
        u is KeyExchange ==> r@ == "key_exchange"@,
        u is Hc ==> r@ == "hc"@,
{
    reveal_strlit("_response");
    reveal_strlit("_request");
    reveal_strlit("_sent");
    reveal_strlit("test_nat");
    reveal_strlit("online");
    reveal_strlit("http_proxy");
    reveal_strlit("relay");
    reveal_strlit("register_peer");
    reveal_strlit("register_peer_response");
    reveal_strlit("register_pk");
    reveal_strlit("register_pk_response");
    reveal_strlit("punch_hole");
    reveal_strlit("punch_hole_request");
    reveal_strlit("punch_hole_response");
    reveal_strlit("punch_hole_sent");
    reveal_strlit("test_nat_request");
    reveal_strlit("test_nat_response");
    reveal_strlit("online_request");
    reveal_strlit("online_response");
    reveal_strlit("http_proxy_request");
    reveal_strlit("http_proxy_response");
    reveal_strlit("relay_response");
}

} // verus!
