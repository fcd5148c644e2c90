//! Audit events of the rendezvous server, and where they go.
//!
//! Events are posted to the control plane's ingest endpoint, one short-lived
//! request per event, so that the rendezvous path never waits for the control
//! plane. Without an endpoint they are dropped.

use vstd::prelude::*;

use serde_json::Value;

use crate::json::json_text;

verus! {

/// How long a post may take, in seconds.
pub const POST_TIMEOUT_SECS: u64 = 2;

/// One audit event.
#[derive(Debug)]
pub struct Event {
    pub kind: String,
    pub peer_id: Option<String>,
    pub controller_peer_id: Option<String>,
    pub addr: Option<String>,
    pub meta: Option<Value>,
}

/// An event as the contracts see it, with the metadata as JSON text.
pub struct EventView {
    pub kind: Seq<char>,
    pub peer_id: Option<Seq<char>>,
    pub controller_peer_id: Option<Seq<char>>,
    pub addr: Option<Seq<char>>,
    pub meta: Option<Seq<char>>,
}

/// The characters of an optional string.
pub open spec fn text_of(s: Option<String>) -> Option<Seq<char>> {
    match s {
        Some(s) => Some(s@),
        None => None,
    }
}

/// The characters of an optional string slice.
pub open spec fn str_of(s: Option<&str>) -> Option<Seq<char>> {
    match s {
        Some(s) => Some(s@),
        None => None,
    }
}

impl View for Event {
    type V = EventView;

    open spec fn view(&self) -> EventView {
        EventView {
            kind: self.kind@,
            peer_id: text_of(self.peer_id),
            controller_peer_id: text_of(self.controller_peer_id),
            addr: text_of(self.addr),
            meta: match self.meta {
                Some(v) => Some(json_text(v)),
                None => None,
            },
        }
    }
}

/// The ingest endpoint and the bearer token that it asks for.
struct Endpoint {
    url: String,
    token: String,
}

/// Sends events to the ingest endpoint, where there is one.
pub struct Auditor {
    inner: Option<Endpoint>,
}

/// A post to make: `event` as JSON to `url`, with the bearer token `token`.
#[derive(Debug)]
pub struct AuditPost {
    pub url: String,
    pub token: String,
    pub event: Event,
}

impl View for Auditor {
    /// The url and the token.
    type V = Option<(Seq<char>, Seq<char>)>;

    closed spec fn view(&self) -> Option<(Seq<char>, Seq<char>)> {
        match self.inner {
            Some(e) => Some((e.url@, e.token@)),
            None => None,
        }
    }
}

impl Auditor {
    /// An auditor that posts where both a url and a token are given, and that
    /// drops every event where not.
    pub fn new(url: Option<String>, token: Option<String>) -> (r: Self)
        ensures
            r@ == (match (url, token) {
                (Some(url), Some(token)) => Some((url@, token@)),
                _ => None,
            }),
    {
        match (url, token) {
            (Some(url), Some(token)) => Auditor { inner: Some(Endpoint { url, token }) },
            _ => Auditor { inner: None },
        }
    }

    /// The post that `ev` calls for. `None` drops the event.
    pub fn emit(&self, ev: Event) -> (r: Option<AuditPost>)
        ensures
            match (r, self@) {
                (Some(post), Some((url, token))) => post.url@ == url && post.token@ == token
                    && post.event == ev,
                (r, target) => r is None && target is None,
            },
    {
        match &self.inner {
            Some(e) => Some(
                AuditPost { url: e.url.clone(), token: e.token.clone(), event: ev },
            ),
            None => None,
        }
    }
}

/// An optional string is seen as its characters, and is there exactly where the
/// string is.
pub proof fn law_optional_text(s: Option<String>, t: Option<&str>)
    ensures
        s matches Some(s2) ==> text_of(s) == Some(s2@),
        s is None ==> text_of(s) is None,
        t matches Some(t2) ==> str_of(t) == Some(t2@),
        t is None ==> str_of(t) is None,
{
}

/// An event is seen field by field.
pub proof fn law_event_fields(e: Event)
    ensures
        e@.kind == e.kind@,
        e.peer_id matches Some(s) ==> e@.peer_id == Some(s@),
        e.peer_id is None ==> e@.peer_id is None,
        e.controller_peer_id matches Some(s) ==> e@.controller_peer_id == Some(s@),
        e.controller_peer_id is None ==> e@.controller_peer_id is None,
        e.addr matches Some(s) ==> e@.addr == Some(s@),
        e.addr is None ==> e@.addr is None,
        e.meta matches Some(v) ==> e@.meta == Some(json_text(v)),
        e.meta is None ==> e@.meta is None,
{
}

/// An event is posted exactly where both a url and a token were given: as it
/// is, to that url and with that token.
pub proof fn law_events_are_posted_where_asked(
    url: Option<String>,
    token: Option<String>,
    auditor: Auditor,
    ev: Event,
    post: Option<AuditPost>,
)
    requires
        call_ensures(Auditor::new, (url, token), auditor),
        call_ensures(Auditor::emit, (&auditor, ev), post),
    ensures
        post is Some <==> url is Some && token is Some,
        post is Some ==> post->0.url@ == url->0@ && post->0.token@ == token->0@ && post->0.event
            == ev,
{
}

/// A post may take two seconds.
pub proof fn law_post_timeout()
    ensures
        POST_TIMEOUT_SECS == 2,
{
}

} // verus!
