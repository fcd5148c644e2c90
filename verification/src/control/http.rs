//! What the HTTP routes decide.
//!
//! Every protected route requires a bearer token. A route that needs the
//! database is cut at each query: one function says what to ask, the next one
//! takes the answer.

use vstd::prelude::*;
use vstd::utf8::encode_utf8;

use axum::http::header::{HeaderMap, HeaderValue, AUTHORIZATION};
use serde_json::Value;

use crate::audit::{str_of, text_of};
use crate::control::audit::{
    meta_of, record, record_at, unix_time, AuditInsert, AuditInsertView, AuditRow, INSERT_AUDIT,
};
use crate::control::ids::{
    law_search_finds_the_first_free_id, search_result, FreshView, MAX_TRIES,
};
use crate::json::{
    json_chars, json_field, json_text, law_json_field, law_plain_text_is_written_as_it_is,
    string_field,
};

verus! {

/// Looks a user's peer up. It binds the user id.
pub const SELECT_PEER: &'static str = "SELECT peer_id FROM peers WHERE user_id = ?";

/// Looks a peer id up. It binds the peer id.
pub const SELECT_PEER_ID: &'static str = "SELECT peer_id FROM peers WHERE peer_id = ?";

/// Binds a user to a peer. It binds the fields of a `PeerInsert` in their
/// order.
pub const INSERT_PEER: &'static str =
    "INSERT INTO peers (user_id, peer_id, created_at) VALUES (?, ?, ?)";

/// Reads the log. It binds the time and the limit.
pub const SELECT_AUDIT: &'static str =
    "SELECT id, ts, kind, peer_id, controller_peer_id, addr, meta_json FROM audit WHERE ts >= ? ORDER BY id DESC LIMIT ?";

/// Reads a peer's part of the log. It binds the time, the peer id twice, and
/// the limit.
pub const SELECT_AUDIT_OF_PEER: &'static str =
    "SELECT id, ts, kind, peer_id, controller_peer_id, addr, meta_json FROM audit WHERE ts >= ? AND (peer_id = ? OR controller_peer_id = ?) ORDER BY id DESC LIMIT ?";

/// The status of a request that was taken in.
pub const ACCEPTED: u16 = 202;

pub const BAD_REQUEST: u16 = 400;

pub const UNAUTHORIZED: u16 = 401;

pub const NOT_FOUND: u16 = 404;

pub const INTERNAL_SERVER_ERROR: u16 = 500;

/// Declares `axum::http::HeaderMap`.
#[verifier::external_type_specification]
#[verifier::external_body]
#[verifier::reject_recursive_types(T)]
pub struct ExHeaderMap<T>(HeaderMap<T>);

/// Declares `axum::http::HeaderValue`.
#[verifier::external_type_specification]
#[verifier::external_body]
pub struct ExHeaderValue(HeaderValue);

/// The header fields by their name in lower case, each with the bytes of its
/// first value.
pub uninterp spec fn first_values(headers: HeaderMap) -> Map<Seq<char>, Seq<u8>>;

/// The bytes of a header value.
pub uninterp spec fn value_bytes(value: HeaderValue) -> Seq<u8>;

/// Whether all bytes are visible ASCII characters, spaces or tabs.
pub open spec fn visible(bytes: Seq<u8>) -> bool {
    forall|i: int| 0 <= i < bytes.len() ==> 32 <= #[trigger] bytes[i] < 127 || bytes[i] == 9
}

/// `HeaderMap::get` of the `Authorization` header: its first value, if the
/// header is there.
#[verifier::external_body]
fn authorization(headers: &HeaderMap) -> (r: Option<&HeaderValue>)
    ensures
        match r {
            Some(v) => first_values(*headers).contains_key("authorization"@) && value_bytes(*v)
                == first_values(*headers)["authorization"@],
            None => !first_values(*headers).contains_key("authorization"@),
        },
{
    headers.get(AUTHORIZATION)
}

/// `HeaderValue::to_str`: the value as text, if it consists of visible ASCII
/// characters.
#[verifier::external_body]
fn header_text(value: &HeaderValue) -> (r: Option<&str>)
    ensures
        match r {
            Some(s) => visible(value_bytes(*value)) && encode_utf8(s@) == value_bytes(*value),
            None => !visible(value_bytes(*value)),
        },
{
    value.to_str().ok()
}

/// The `Authorization` header of a request.
pub open spec fn authorization_of(headers: HeaderMap) -> Option<Seq<u8>> {
    if first_values(headers).contains_key("authorization"@) {
        Some(first_values(headers)["authorization"@])
    } else {
        None
    }
}

/// An error response.
#[derive(Debug)]
pub struct AppError {
    pub status: u16,
    pub msg: String,
}

impl AppError {
    /// The request is wrong.
    pub fn bad(m: &str) -> (r: Self)
        ensures
            r.status == BAD_REQUEST,
            r.msg@ == m@,
    {
        AppError { status: BAD_REQUEST, msg: m.to_owned() }
    }

    /// The request lacks the token.
    pub fn unauthorized(m: &str) -> (r: Self)
        ensures
            r.status == UNAUTHORIZED,
            r.msg@ == m@,
    {
        AppError { status: UNAUTHORIZED, msg: m.to_owned() }
    }

    /// There is no such thing.
    pub fn not_found(m: &str) -> (r: Self)
        ensures
            r.status == NOT_FOUND,
            r.msg@ == m@,
    {
        AppError { status: NOT_FOUND, msg: m.to_owned() }
    }

    /// The database failed.
    pub fn db() -> (r: Self)
        ensures
            r.status == INTERNAL_SERVER_ERROR,
            r.msg@ == "database error"@,
    {
        AppError { status: INTERNAL_SERVER_ERROR, msg: "database error".to_owned() }
    }

    /// Something else failed.
    pub fn internal() -> (r: Self)
        ensures
            r.status == INTERNAL_SERVER_ERROR,
            r.msg@ == "internal error"@,
    {
        AppError { status: INTERNAL_SERVER_ERROR, msg: "internal error".to_owned() }
    }
}

/// Whether `r` is the error `status` with the message `msg`.
pub open spec fn fails<T>(r: Result<T, AppError>, status: u16, msg: Seq<char>) -> bool {
    r matches Err(e) && e.status == status && e.msg@ == msg
}

/// The bytes of `Bearer `, the scheme in front of a token.
pub open spec fn bearer() -> Seq<u8> {
    seq![66u8, 101u8, 97u8, 114u8, 101u8, 114u8, 32u8]
}

/// Why a request with the given `Authorization` header is refused where the
/// token is `expected`. `None` lets it pass.
pub open spec fn refusal(header: Option<Seq<u8>>, expected: Seq<char>) -> Option<Seq<char>> {
    match header {
        Some(value) => if !visible(value) {
            Some("missing Authorization"@)
        } else if !bearer().is_prefix_of(value) {
            Some("expected Bearer token"@)
        } else if value.skip(7) != encode_utf8(expected) {
            Some("invalid token"@)
        } else {
            None
        },
        None => Some("missing Authorization"@),
    }
}

/// Why a request with these headers is refused.
pub open spec fn refused(headers: HeaderMap, expected: Seq<char>) -> Option<Seq<char>> {
    refusal(authorization_of(headers), expected)
}

/// Whether two byte strings are equal. Where the lengths agree every byte of
/// both is read, whatever the others hold.
pub fn ct_eq(a: &[u8], b: &[u8]) -> (r: bool)
    ensures
        r == (a@ == b@),
{
    if a.len() != b.len() {
        return false;
    }
    let mut diff: u8 = 0;
    let mut i: usize = 0;
    assert(a@.take(0) =~= b@.take(0));
    while i < a.len()
        invariant
            i <= a@.len() == b@.len(),
            diff == 0 <==> a@.take(i as int) == b@.take(i as int),
        decreases a@.len() - i,
    {
        let x = a[i];
        let y = b[i];
        assert((diff | (x ^ y)) == 0 <==> diff == 0 && x == y) by (bit_vector);
        proof {
            let (s, t) = (a@.take(i + 1), b@.take(i + 1));
            assert(s =~= a@.take(i as int).push(x));
            assert(t =~= b@.take(i as int).push(y));
            if s == t {
                assert(s.last() == x && t.last() == y);
                assert(s.drop_last() =~= a@.take(i as int));
                assert(t.drop_last() =~= b@.take(i as int));
            }
        }
        diff = diff | (x ^ y);
        i += 1;
    }
    assert(a@.take(i as int) =~= a@);
    assert(b@.take(i as int) =~= b@);
    diff == 0
}

/// Whether `value` begins with `Bearer `.
fn has_bearer(value: &[u8]) -> (r: bool)
    ensures
        r == bearer().is_prefix_of(value@),
{
    let r = value.len() >= 7 && value[0] == 66 && value[1] == 101 && value[2] == 97 && value[3]
        == 114 && value[4] == 101 && value[5] == 114 && value[6] == 32;
    proof {
        if r {
            assert(bearer() =~= value@.subrange(0, 7));
        } else if bearer().is_prefix_of(value@) {
            assert forall|i: int| 0 <= i < 7 implies value@[i] == #[trigger] bearer()[i] by {
                assert(value@.subrange(0, 7)[i] == value@[i]);
            }
        }
    }
    r
}

/// Let a request pass whose `Authorization` header holds the token.
pub fn require_token(headers: &HeaderMap, expected: &str) -> (r: Result<(), AppError>)
    ensures
        match refused(*headers, expected@) {
            Some(msg) => fails(r, UNAUTHORIZED, msg),
            None => r is Ok,
        },
{
    let value = match authorization(headers) {
        Some(value) => header_text(value),
        None => None,
    };
    let text = match value {
        Some(text) => text.as_bytes(),
        None => {
            return Err(AppError::unauthorized("missing Authorization"));
        },
    };
    if !has_bearer(text) {
        return Err(AppError::unauthorized("expected Bearer token"));
    }
    let token = vstd::slice::slice_subrange(text, 7, text.len());
    assert(token@ =~= text@.skip(7));
    if !ct_eq(token, expected.as_bytes()) {
        return Err(AppError::unauthorized("invalid token"));
    }
    Ok(())
}

/// The answer of the health route.
pub fn healthz() -> (r: &'static str)
    ensures
        r@ == "ok"@,
{
    "ok"
}

/// The database failed.
#[derive(Debug, Clone, Copy, PartialEq, Eq, Structural)]
pub struct DbFailed;

/// Asks for a user's peer id.
#[derive(Debug)]
pub struct BindPeerReq {
    pub user_id: String,
}

/// A user's peer id.
#[derive(Debug)]
pub struct PeerResp {
    pub user_id: String,
    pub peer_id: String,
}

/// A user's peer id as the contracts see it.
pub struct PeerRespView {
    pub user_id: Seq<char>,
    pub peer_id: Seq<char>,
}

impl View for PeerResp {
    type V = PeerRespView;

    open spec fn view(&self) -> PeerRespView {
        PeerRespView { user_id: self.user_id@, peer_id: self.peer_id@ }
    }
}

/// What a user whose row in the database holds `peer_id` is answered. `None`
/// stands for a user without a row.
pub open spec fn bound_peer(user_id: Seq<char>, row: Option<Seq<char>>) -> Option<PeerRespView> {
    match row {
        Some(peer_id) => Some(PeerRespView { user_id, peer_id }),
        None => None,
    }
}

/// Whether a character is white space (the Unicode property `White_Space`).
pub open spec fn is_white_space(c: char) -> bool {
    let n = c as int;
    ||| 0x09 <= n <= 0x0d
    ||| n == 0x20
    ||| n == 0x85
    ||| n == 0xa0
    ||| n == 0x1680
    ||| 0x2000 <= n <= 0x200a
    ||| 0x2028 <= n <= 0x2029
    ||| n == 0x202f
    ||| n == 0x205f
    ||| n == 0x3000
}

/// Whether nothing is left of `s` once white space is trimmed off.
pub open spec fn blank(s: Seq<char>) -> bool {
    forall|i: int| 0 <= i < s.len() ==> is_white_space(#[trigger] s[i])
}

/// Whether a character is white space.
fn white_space(c: char) -> (r: bool)
    ensures
        r == is_white_space(c),
{
    let n = c as u32;
    (0x09 <= n && n <= 0x0d) || n == 0x20 || n == 0x85 || n == 0xa0 || n == 0x1680 || (0x2000 <= n
        && n <= 0x200a) || (0x2028 <= n && n <= 0x2029) || n == 0x202f || n == 0x205f || n
        == 0x3000
}

/// Whether nothing is left of `s` once white space is trimmed off.
fn is_blank(s: &str) -> (r: bool)
    ensures
        r == blank(s@),
{
    for c in it: s.chars()
        invariant
            it.seq() == s@,
            forall|i: int| 0 <= i < it.index() ==> is_white_space(#[trigger] s@[i]),
    {
        if !white_space(c) {
            assert(s@[it.index() as int] == c);
            return false;
        }
    }
    true
}

/// Why a request to bind `user_id` is refused at once, with the status. `None`
/// lets it pass.
pub open spec fn bind_refusal(
    header: Option<Seq<u8>>,
    token: Seq<char>,
    user_id: Seq<char>,
) -> Option<(u16, Seq<char>)> {
    match refusal(header, token) {
        Some(msg) => Some((UNAUTHORIZED, msg)),
        None => if blank(user_id) {
            Some((BAD_REQUEST, "user_id required"@))
        } else {
            None
        },
    }
}

/// Begin to bind a user to a peer: the user id to look up.
pub fn bind_peer(headers: &HeaderMap, token: &str, req: BindPeerReq) -> (r: Result<
    String,
    AppError,
>)
    ensures
        match bind_refusal(authorization_of(*headers), token@, req.user_id@) {
            Some((status, msg)) => fails(r, status, msg),
            None => r matches Ok(user_id) && user_id@ == req.user_id@,
        },
{
    match require_token(headers, token) {
        Ok(()) => {},
        Err(e) => {
            return Err(e);
        },
    }
    if is_blank(req.user_id.as_str()) {
        return Err(AppError::bad("user_id required"));
    }
    Ok(req.user_id)
}

/// What follows from looking a user up.
#[derive(Debug)]
pub enum BindLookup {
    /// The user has a peer id already.
    Bound(PeerResp),
    /// Find a fresh id for the user.
    Unbound { user_id: String },
}

/// Go on binding, now that the user was looked up. Binding is idempotent: a
/// user that has a peer id keeps it.
pub fn bind_looked_up(user_id: String, row: Result<Option<String>, DbFailed>) -> (r: Result<
    BindLookup,
    AppError,
>)
    ensures
        match row {
            Ok(row) => match bound_peer(user_id@, text_of(row)) {
                Some(answer) => r matches Ok(BindLookup::Bound(resp)) && resp@ == answer,
                None => r matches Ok(BindLookup::Unbound { user_id: u }) && u@ == user_id@,
            },
            Err(_) => fails(r, INTERNAL_SERVER_ERROR, "database error"@),
        },
{
    match row {
        Ok(Some(peer_id)) => Ok(BindLookup::Bound(PeerResp { user_id, peer_id })),
        Ok(None) => Ok(BindLookup::Unbound { user_id }),
        Err(_) => Err(AppError::db()),
    }
}

/// A binding to store.
#[derive(Debug)]
pub struct PeerInsert {
    pub user_id: String,
    pub peer_id: String,
    pub created_at: i64,
}

/// Go on binding at the time `now`, now that an id was sought. `None` stands
/// for a search that failed.
pub fn bind_allocated_at(user_id: String, fresh: Option<String>, now: i64) -> (r: Result<
    PeerInsert,
    AppError,
>)
    ensures
        match fresh {
            Some(peer_id) => r matches Ok(p) && p.user_id@ == user_id@ && p.peer_id@ == peer_id@
                && p.created_at == now,
            None => fails(r, INTERNAL_SERVER_ERROR, "internal error"@),
        },
{
    match fresh {
        Some(peer_id) => Ok(PeerInsert { user_id, peer_id, created_at: now }),
        None => Err(AppError::internal()),
    }
}

/// Go on binding, now that an id was sought. `None` stands for a search that
/// failed.
pub fn bind_allocated(user_id: String, fresh: Option<String>) -> (r: Result<PeerInsert, AppError>)
    ensures
        match fresh {
            Some(peer_id) => r matches Ok(p) && p.user_id@ == user_id@ && p.peer_id@ == peer_id@
                && p.created_at >= 0,
            None => fails(r, INTERNAL_SERVER_ERROR, "internal error"@),
        },
{
    bind_allocated_at(user_id, fresh, unix_time())
}

/// What is answered once a binding was stored.
pub open spec fn stored_answer(user_id: Seq<char>, peer_id: Seq<char>) -> PeerRespView {
    PeerRespView { user_id, peer_id }
}

/// The audit event of a new binding.
pub open spec fn peer_bound(ts: i64, user_id: Seq<char>, peer_id: Seq<char>) -> AuditInsertView {
    AuditInsertView {
        ts,
        kind: "peer_bound"@,
        peer_id: Some(peer_id),
        controller_peer_id: None,
        addr: None,
        meta_json: Some(json_field("user_id"@, user_id)),
    }
}

/// Finish binding at the time `now`, now that the binding was stored: the
/// response, and what is appended to the audit log.
pub fn bind_stored_at(insert: PeerInsert, stored: Result<(), DbFailed>, now: i64) -> (r: Result<
    (PeerResp, AuditInsert),
    AppError,
>)
    ensures
        match stored {
            Ok(_) => r matches Ok((resp, event)) && resp@ == stored_answer(
                insert.user_id@,
                insert.peer_id@,
            ) && event@ == peer_bound(now, insert.user_id@, insert.peer_id@),
            Err(_) => fails(r, INTERNAL_SERVER_ERROR, "database error"@),
        },
{
    match stored {
        Ok(_) => {
            let meta = string_field("user_id", insert.user_id.as_str());
            let event = record_at(
                now,
                "peer_bound",
                Some(insert.peer_id.as_str()),
                None,
                None,
                Some(meta),
            );
            Ok((PeerResp { user_id: insert.user_id, peer_id: insert.peer_id }, event))
        },
        Err(_) => Err(AppError::db()),
    }
}

/// Finish binding, now that the binding was stored.
pub fn bind_stored(insert: PeerInsert, stored: Result<(), DbFailed>) -> (r: Result<
    (PeerResp, AuditInsert),
    AppError,
>)
    ensures
        match stored {
            Ok(_) => r matches Ok((resp, event)) && resp@ == stored_answer(
                insert.user_id@,
                insert.peer_id@,
            ) && event.ts >= 0 && event@ == peer_bound(
                event.ts,
                insert.user_id@,
                insert.peer_id@,
            ),
            Err(_) => fails(r, INTERNAL_SERVER_ERROR, "database error"@),
        },
{
    bind_stored_at(insert, stored, unix_time())
}

/// Begin to look a user's peer up: the user id to ask for.
pub fn get_peer(headers: &HeaderMap, token: &str, user_id: String) -> (r: Result<String, AppError>)
    ensures
        match refused(*headers, token@) {
            Some(msg) => fails(r, UNAUTHORIZED, msg),
            None => r matches Ok(u) && u@ == user_id@,
        },
{
    match require_token(headers, token) {
        Ok(()) => Ok(user_id),
        Err(e) => Err(e),
    }
}

/// Answer a lookup.
pub fn peer_looked_up(user_id: String, row: Result<Option<String>, DbFailed>) -> (r: Result<
    PeerResp,
    AppError,
>)
    ensures
        match row {
            Ok(row) => match bound_peer(user_id@, text_of(row)) {
                Some(answer) => r matches Ok(resp) && resp@ == answer,
                None => fails(r, NOT_FOUND, "user_id not bound"@),
            },
            Err(_) => fails(r, INTERNAL_SERVER_ERROR, "database error"@),
        },
{
    match row {
        Ok(Some(peer_id)) => Ok(PeerResp { user_id, peer_id }),
        Ok(None) => Err(AppError::not_found("user_id not bound")),
        Err(_) => Err(AppError::db()),
    }
}

/// An event that the rendezvous server reports.
#[derive(Debug)]
pub struct IngestAudit {
    pub kind: String,
    pub peer_id: Option<String>,
    pub controller_peer_id: Option<String>,
    pub addr: Option<String>,
    pub meta: Option<Value>,
}

/// A reported event as it is appended to the log.
pub open spec fn ingested(ts: i64, ev: IngestAudit) -> AuditInsertView {
    AuditInsertView {
        ts,
        kind: ev.kind@,
        peer_id: text_of(ev.peer_id),
        controller_peer_id: text_of(ev.controller_peer_id),
        addr: text_of(ev.addr),
        meta_json: meta_of(ev.meta),
    }
}

/// The optional string as a slice.
fn as_str(s: &Option<String>) -> (r: Option<&str>)
    ensures
        str_of(r) == text_of(*s),
{
    match s {
        Some(s) => Some(s.as_str()),
        None => None,
    }
}

/// Take a reported event in: what is appended to the log. The request is
/// answered with `ACCEPTED`, whether or not the log takes it.
pub fn ingest_audit(headers: &HeaderMap, token: &str, ev: IngestAudit) -> (r: Result<
    AuditInsert,
    AppError,
>)
    ensures
        match refused(*headers, token@) {
            Some(msg) => fails(r, UNAUTHORIZED, msg),
            None => r matches Ok(event) && event.ts >= 0 && event@ == ingested(event.ts, ev),
        },
{
    match require_token(headers, token) {
        Ok(()) => {},
        Err(e) => {
            return Err(e);
        },
    }
    Ok(
        record(
            ev.kind.as_str(),
            as_str(&ev.peer_id),
            as_str(&ev.controller_peer_id),
            as_str(&ev.addr),
            ev.meta,
        ),
    )
}

/// Which part of the log is asked for.
#[derive(Debug)]
pub struct AuditQuery {
    pub since: Option<i64>,
    pub user_id: Option<String>,
    pub peer_id: Option<String>,
    pub limit: Option<i64>,
}

/// A query on the log: the events since `since`, of the peer `peer_id` if
/// there is one, the newest first, and `limit` of them at most.
#[derive(Debug)]
pub struct AuditSelect {
    pub since: i64,
    pub peer_id: Option<String>,
    pub limit: i64,
}

/// What a query for the log calls for first.
#[derive(Debug)]
pub enum AuditPlan {
    /// Ask the log.
    Select(AuditSelect),
    /// Look the user up, then go on with `user_resolved`.
    ResolveUser { user_id: String, since: i64, limit: i64 },
}

/// The number of events that a query gives at most: 100 unless it says
/// otherwise, and always 1 to 1000.
pub open spec fn clamped_limit(limit: Option<i64>) -> i64 {
    match limit {
        Some(n) => if n < 1 {
            1
        } else if n > 1000 {
            1000
        } else {
            n
        },
        None => 100,
    }
}

/// The time that a query begins at: the epoch unless it says otherwise.
pub open spec fn since_or_epoch(since: Option<i64>) -> i64 {
    match since {
        Some(t) => t,
        None => 0,
    }
}

impl AuditSelect {
    /// The statement of the query.
    pub fn sql(&self) -> (r: &'static str)
        ensures
            r@ == (match self.peer_id {
                Some(_) => SELECT_AUDIT_OF_PEER@,
                None => SELECT_AUDIT@,
            }),
    {
        match self.peer_id {
            Some(_) => SELECT_AUDIT_OF_PEER,
            None => SELECT_AUDIT,
        }
    }
}

/// Begin to read the log. A peer id filters by itself; a user id has to be
/// resolved first.
pub fn list_audit(headers: &HeaderMap, token: &str, q: AuditQuery) -> (r: Result<
    AuditPlan,
    AppError,
>)
    ensures
        match refused(*headers, token@) {
            Some(msg) => fails(r, UNAUTHORIZED, msg),
            None => match (q.peer_id, q.user_id) {
                (None, Some(uid)) => r matches Ok(AuditPlan::ResolveUser { user_id, since, limit })
                    && user_id@ == uid@ && since == since_or_epoch(q.since) && limit
                    == clamped_limit(q.limit),
                _ => r matches Ok(AuditPlan::Select(s)) && s.since == since_or_epoch(q.since)
                    && s.limit == clamped_limit(q.limit) && text_of(s.peer_id) == text_of(
                    q.peer_id,
                ),
            },
        },
{
    match require_token(headers, token) {
        Ok(()) => {},
        Err(e) => {
            return Err(e);
        },
    }
    let asked = q.limit.unwrap_or(100);
    let limit = if asked < 1 {
        1
    } else if asked > 1000 {
        1000
    } else {
        asked
    };
    let since = q.since.unwrap_or(0);
    match (q.peer_id, q.user_id) {
        (None, Some(user_id)) => Ok(AuditPlan::ResolveUser { user_id, since, limit }),
        (peer_id, _) => Ok(AuditPlan::Select(AuditSelect { since, peer_id, limit })),
    }
}

/// Go on reading the log, now that the user was looked up. `None` answers with
/// an empty list: an unknown user has no events.
pub fn user_resolved(since: i64, limit: i64, row: Result<Option<String>, DbFailed>) -> (r: Result<
    Option<AuditSelect>,
    AppError,
>)
    ensures
        match row {
            Ok(Some(p)) => r matches Ok(Some(s)) && s.since == since && s.limit == limit
                && text_of(s.peer_id) == Some(p@),
            Ok(None) => r matches Ok(None),
            Err(_) => fails(r, INTERNAL_SERVER_ERROR, "database error"@),
        },
{
    match row {
        Ok(Some(p)) => Ok(Some(AuditSelect { since, peer_id: Some(p), limit })),
        Ok(None) => Ok(None),
        Err(_) => Err(AppError::db()),
    }
}

/// Answer with the rows that the log gave.
pub fn audit_listed(rows: Result<Vec<AuditRow>, DbFailed>) -> (r: Result<Vec<AuditRow>, AppError>)
    ensures
        match rows {
            Ok(rows) => r == Ok::<Vec<AuditRow>, AppError>(rows),
            Err(_) => fails(r, INTERNAL_SERVER_ERROR, "database error"@),
        },
{
    match rows {
        Ok(rows) => Ok(rows),
        Err(_) => Err(AppError::db()),
    }
}

/// The tables of the database: the peer id of each bound user, and the log.
pub struct Tables {
    pub peers: Map<Seq<char>, Seq<char>>,
    pub audit: Seq<AuditInsertView>,
}

/// A request to bind a user, with the ids that the search tries, from the first
/// one on, and the time at which it is served.
pub struct BindRequest {
    pub header: Option<Seq<u8>>,
    pub user_id: Seq<char>,
    pub candidates: spec_fn(int) -> Seq<char>,
    pub now: i64,
}

/// What a request to bind a user is answered.
pub enum BindReply {
    Failed { status: u16, msg: Seq<char> },
    Answered(PeerRespView),
}

/// A user's row in the table of bindings.
pub open spec fn row_of(peers: Map<Seq<char>, Seq<char>>, user_id: Seq<char>) -> Option<
    Seq<char>,
> {
    if peers.contains_key(user_id) {
        Some(peers[user_id])
    } else {
        None
    }
}

/// The id that the search of a request finds, if it finds one.
pub open spec fn fresh_id(peers: Map<Seq<char>, Seq<char>>, req: BindRequest) -> Option<
    Seq<char>,
> {
    search_result(
        FreshView { tries: 1, candidate: (req.candidates)(1) },
        req.candidates,
        peers.values(),
    )
}

/// A request to bind a user, from the token to the log, on a database that
/// works: the tables after it, and the answer.
pub open spec fn bind_request(t: Tables, token: Seq<char>, req: BindRequest) -> (
    Tables,
    BindReply,
) {
    match bind_refusal(req.header, token, req.user_id) {
        Some((status, msg)) => (t, BindReply::Failed { status, msg }),
        None => match bound_peer(req.user_id, row_of(t.peers, req.user_id)) {
            Some(answer) => (t, BindReply::Answered(answer)),
            None => match fresh_id(t.peers, req) {
                Some(id) => (
                    Tables {
                        peers: t.peers.insert(req.user_id, id),
                        audit: t.audit.push(peer_bound(req.now, req.user_id, id)),
                    },
                    BindReply::Answered(stored_answer(req.user_id, id)),
                ),
                None => (
                    t,
                    BindReply::Failed {
                        status: INTERNAL_SERVER_ERROR,
                        msg: "internal error"@,
                    },
                ),
            },
        },
    }
}

/// Whether no two users have the same peer id.
pub open spec fn peers_distinct(peers: Map<Seq<char>, Seq<char>>) -> bool {
    forall|u: Seq<char>, w: Seq<char>|
        #![trigger peers.contains_key(u), peers.contains_key(w)]
        peers.contains_key(u) && peers.contains_key(w) && u != w ==> peers[u] != peers[w]
}

/// Binding, in full. A wrong token and a blank user id are refused, and leave
/// the tables as they are. A bound user gets the stored id, and the tables
/// stay. Any other user gets an id that no user has, which adds one binding and
/// one event to the log, as long as one of the candidates is free. No two users
/// ever have the same id.
pub proof fn law_binding(t: Tables, token: Seq<char>, req: BindRequest)
    requires
        peers_distinct(t.peers),
    ensures
        ({
            let (after, reply) = bind_request(t, token, req);
            let user = req.user_id;
            &&& refusal(req.header, token) matches Some(msg) ==> after == t && reply == (
            BindReply::Failed { status: UNAUTHORIZED, msg })
            &&& refusal(req.header, token) is None && blank(user) ==> after == t && reply == (
            BindReply::Failed { status: BAD_REQUEST, msg: "user_id required"@ })
            &&& refusal(req.header, token) is None && !blank(user) && t.peers.contains_key(user)
                ==> after == t && reply == BindReply::Answered(
                PeerRespView { user_id: user, peer_id: t.peers[user] },
            )
            &&& refusal(req.header, token) is None && !blank(user) && !t.peers.contains_key(user)
                && (exists|i: int|
                1 <= i <= MAX_TRIES && !t.peers.values().contains(#[trigger] (req.candidates)(i)))
                ==> exists|id: Seq<char>|
                {
                    &&& !#[trigger] t.peers.values().contains(id)
                    &&& after.peers == t.peers.insert(user, id)
                    &&& after.audit == t.audit.push(peer_bound(req.now, user, id))
                    &&& reply == BindReply::Answered(PeerRespView { user_id: user, peer_id: id })
                }
            &&& reply is Failed ==> after == t
            &&& peers_distinct(after.peers)
        }),
{
    law_search_finds_the_first_free_id(req.candidates, t.peers.values());
    let (after, reply) = bind_request(t, token, req);
    if bind_refusal(req.header, token, req.user_id) is None && !t.peers.contains_key(
        req.user_id,
    ) && fresh_id(t.peers, req) is Some {
        let id = fresh_id(t.peers, req)->0;
        assert(!t.peers.values().contains(id));
        assert forall|u: Seq<char>| #[trigger] t.peers.contains_key(u) implies t.peers[u] != id by {
            assert(t.peers.dom().contains(u));
        }
    }
}

/// Binding is idempotent: once a request to bind a user was answered, another
/// one for the same user gets the same answer and changes nothing, whatever ids
/// are drawn for it, and so does a lookup.
pub proof fn law_binding_is_idempotent(
    t: Tables,
    token: Seq<char>,
    first: BindRequest,
    second: BindRequest,
)
    requires
        bind_request(t, token, first).1 is Answered,
        first.user_id == second.user_id,
        bind_refusal(second.header, token, second.user_id) is None,
    ensures
        ({
            let (after, reply) = bind_request(t, token, first);
            &&& bind_request(after, token, second) == (after, reply)
            &&& bound_peer(second.user_id, row_of(after.peers, second.user_id)) == Some(reply->0)
        }),
{
}

/// The tables after requests that come one at a time.
pub open spec fn bind_requests(t: Tables, token: Seq<char>, reqs: Seq<BindRequest>) -> Tables
    decreases reqs.len(),
{
    if reqs.len() == 0 {
        t
    } else {
        bind_request(bind_requests(t, token, reqs.drop_last()), token, reqs.last()).0
    }
}

/// A binding lasts: whatever requests follow, a bound user keeps its id, no
/// event leaves the log, and no two users have the same id.
pub proof fn law_bindings_last(t: Tables, token: Seq<char>, reqs: Seq<BindRequest>)
    requires
        peers_distinct(t.peers),
    ensures
        t.peers.submap_of(bind_requests(t, token, reqs).peers),
        t.audit.is_prefix_of(bind_requests(t, token, reqs).audit),
        peers_distinct(bind_requests(t, token, reqs).peers),
    decreases reqs.len(),
{
    if reqs.len() > 0 {
        let before = bind_requests(t, token, reqs.drop_last());
        law_bindings_last(t, token, reqs.drop_last());
        law_binding(before, token, reqs.last());
        let after = bind_request(before, token, reqs.last()).0;
        assert(bind_requests(t, token, reqs) == after);
        assert(t.peers.submap_of(before.peers));
        assert(before.peers.submap_of(after.peers)) by {
            if after.peers != before.peers {
                assert(!before.peers.contains_key(reqs.last().user_id));
            }
        }
        assert(t.peers.submap_of(after.peers)) by {
            assert forall|u: Seq<char>| #[trigger] t.peers.dom().contains(u) implies
                after.peers.dom().contains(u) && t.peers[u] == after.peers[u] by {
                assert(before.peers.dom().contains(u));
            }
        }
        assert(t.audit =~= before.audit.subrange(0, t.audit.len() as int));
        assert(t.audit =~= after.audit.subrange(0, t.audit.len() as int));
    }
}

/// Only the token lets a request pass: the header is `Bearer ` and the token,
/// and nothing else. A token with characters outside visible ASCII passes
/// nobody.
pub proof fn law_only_the_token_passes(header: Option<Seq<u8>>, expected: Seq<char>)
    ensures
        refusal(header, expected) is None <==> header == Some(bearer() + encode_utf8(expected))
            && visible(encode_utf8(expected)),
{
    let utf8 = encode_utf8(expected);
    let full = bearer() + utf8;
    assert(full.skip(7) =~= utf8);
    assert(bearer() =~= full.subrange(0, 7));
    if visible(full) {
        assert forall|i: int| 0 <= i < utf8.len() implies 32 <= #[trigger] utf8[i] < 127
            || utf8[i] == 9 by {
            assert(utf8[i] == full[i + 7]);
        }
    }
    if visible(utf8) {
        assert forall|i: int| 0 <= i < full.len() implies 32 <= #[trigger] full[i] < 127
            || full[i] == 9 by {
            if i >= 7 {
                assert(full[i] == utf8[i - 7]);
            }
        }
    }
    if refusal(header, expected) is None {
        let value = header->0;
        assert(value =~= bearer() + value.skip(7)) by {
            assert(bearer() == value.subrange(0, 7));
            assert forall|i: int| 0 <= i < 7 implies value[i] == #[trigger] bearer()[i] by {
                assert(value.subrange(0, 7)[i] == value[i]);
            }
        }
    }
}

/// A header that passes for one token passes for no other.
pub proof fn law_tokens_do_not_mix(header: Option<Seq<u8>>, expected: Seq<char>, other: Seq<char>)
    requires
        refusal(header, expected) is None,
        refusal(header, other) is None,
    ensures
        expected == other,
{
    vstd::utf8::encode_utf8_decode_utf8(expected);
    vstd::utf8::encode_utf8_decode_utf8(other);
}

/// Each column of the row of a reported event holds the event's field of the
/// same name, and nothing where the event has none.
pub proof fn law_ingested_columns(ts: i64, ev: IngestAudit)
    ensures
        ingested(ts, ev).ts == ts,
        ingested(ts, ev).kind == ev.kind@,
        ev.peer_id matches Some(s) ==> ingested(ts, ev).peer_id == Some(s@),
        ev.peer_id is None ==> ingested(ts, ev).peer_id is None,
        ev.controller_peer_id matches Some(s) ==> ingested(ts, ev).controller_peer_id == Some(s@),
        ev.controller_peer_id is None ==> ingested(ts, ev).controller_peer_id is None,
        ev.addr matches Some(s) ==> ingested(ts, ev).addr == Some(s@),
        ev.addr is None ==> ingested(ts, ev).addr is None,
        ev.meta matches Some(v) ==> ingested(ts, ev).meta_json == Some(json_text(v)),
        ev.meta is None ==> ingested(ts, ev).meta_json is None,
{
}

/// Two events that differ in one field give rows that differ in its column
/// only, and do differ there.
pub proof fn law_columns_are_independent(ts: i64, a: IngestAudit, b: IngestAudit)
    ensures
        a.peer_id == b.peer_id && a.controller_peer_id == b.controller_peer_id && a.addr == b.addr
            && a.meta == b.meta ==> ingested(ts, a) == (AuditInsertView {
            kind: a.kind@,
            ..ingested(ts, b)
        }),
        a.kind == b.kind && a.controller_peer_id == b.controller_peer_id && a.addr == b.addr
            && a.meta == b.meta ==> ingested(ts, a) == (AuditInsertView {
            peer_id: ingested(ts, a).peer_id,
            ..ingested(ts, b)
        }),
        a.kind == b.kind && a.peer_id == b.peer_id && a.addr == b.addr && a.meta == b.meta
            ==> ingested(ts, a) == (AuditInsertView {
            controller_peer_id: ingested(ts, a).controller_peer_id,
            ..ingested(ts, b)
        }),
        a.kind == b.kind && a.peer_id == b.peer_id && a.controller_peer_id == b.controller_peer_id
            && a.meta == b.meta ==> ingested(ts, a) == (AuditInsertView {
            addr: ingested(ts, a).addr,
            ..ingested(ts, b)
        }),
        a.kind == b.kind && a.peer_id == b.peer_id && a.controller_peer_id == b.controller_peer_id
            && a.addr == b.addr ==> ingested(ts, a) == (AuditInsertView {
            meta_json: ingested(ts, a).meta_json,
            ..ingested(ts, b)
        }),
        a.kind@ != b.kind@ ==> ingested(ts, a).kind != ingested(ts, b).kind,
        a.peer_id is Some != b.peer_id is Some ==> ingested(ts, a).peer_id != ingested(
            ts,
            b,
        ).peer_id,
        a.controller_peer_id is Some != b.controller_peer_id is Some ==> ingested(
            ts,
            a,
        ).controller_peer_id != ingested(ts, b).controller_peer_id,
        a.addr is Some != b.addr is Some ==> ingested(ts, a).addr != ingested(ts, b).addr,
{
}

/// The event of a new binding names the peer, and the user as metadata.
pub proof fn law_event_of_a_binding(ts: i64, user_id: Seq<char>, peer_id: Seq<char>)
    ensures
        peer_bound(ts, user_id, peer_id).ts == ts,
        peer_bound(ts, user_id, peer_id).kind == "peer_bound"@,
        peer_bound(ts, user_id, peer_id).peer_id == Some(peer_id),
        peer_bound(ts, user_id, peer_id).controller_peer_id is None,
        peer_bound(ts, user_id, peer_id).addr is None,
        peer_bound(ts, user_id, peer_id).meta_json == Some(
            "{\"user_id\":\""@ + json_chars(user_id) + "\"}"@,
        ),
{
    reveal_strlit("user_id");
    reveal_strlit("{\"user_id\":\"");
    reveal_strlit("\"}");
    law_plain_text_is_written_as_it_is("user_id"@);
    law_json_field("user_id"@, user_id);
    assert(json_field("user_id"@, user_id) =~= "{\"user_id\":\""@ + json_chars(user_id) + "\"}"@);
}

/// A user with a row is answered with the row's peer id, one without is not
/// answered, and a stored binding is answered with what was stored.
pub proof fn law_answers_name_user_and_peer(
    user_id: Seq<char>,
    peer_id: Seq<char>,
    resp: PeerResp,
)
    ensures
        bound_peer(user_id, None) is None,
        bound_peer(user_id, Some(peer_id)) is Some,
        bound_peer(user_id, Some(peer_id))->0.user_id == user_id,
        bound_peer(user_id, Some(peer_id))->0.peer_id == peer_id,
        stored_answer(user_id, peer_id).user_id == user_id,
        stored_answer(user_id, peer_id).peer_id == peer_id,
        resp@.user_id == resp.user_id@,
        resp@.peer_id == resp.peer_id@,
{
}

/// What is wrong with a header, and in which order it is looked for: that it is
/// there and consists of visible ASCII characters, that it begins with
/// `Bearer `, and that the rest is the token.
pub proof fn law_refusals(header: Option<Seq<u8>>, expected: Seq<char>)
    ensures
        header is None ==> refusal(header, expected) == Some("missing Authorization"@),
        header is Some && (exists|i: int|
            0 <= i < header->0.len() && !(32 <= #[trigger] header->0[i] < 127)
                && header->0[i] != 9) ==> refusal(header, expected) == Some(
            "missing Authorization"@,
        ),
        header is Some && (forall|i: int|
            0 <= i < header->0.len() ==> 32 <= #[trigger] header->0[i] < 127 || header->0[i] == 9)
            ==> {
            let value = header->0;
            if !(value.len() >= 7 && value.take(7) == seq![
                'B' as u8,
                'e' as u8,
                'a' as u8,
                'r' as u8,
                'e' as u8,
                'r' as u8,
                ' ' as u8,
            ]) {
                refusal(header, expected) == Some("expected Bearer token"@)
            } else if value.skip(7) != encode_utf8(expected) {
                refusal(header, expected) == Some("invalid token"@)
            } else {
                refusal(header, expected) is None
            }
        },
{
    if header is Some {
        let value = header->0;
        let word = seq![
            'B' as u8,
            'e' as u8,
            'a' as u8,
            'r' as u8,
            'e' as u8,
            'r' as u8,
            ' ' as u8,
        ];
        assert(word =~= bearer());
        if value.len() >= 7 {
            assert(value.take(7) =~= value.subrange(0, 7));
        }
    }
}

/// What is wrong with a request to bind a user, and in which order.
pub proof fn law_bind_refusals(header: Option<Seq<u8>>, token: Seq<char>, user_id: Seq<char>)
    ensures
        refusal(header, token) matches Some(msg) ==> bind_refusal(header, token, user_id) == Some(
            (401u16, msg),
        ),
        refusal(header, token) is None && blank(user_id) ==> bind_refusal(header, token, user_id)
            == Some((400u16, "user_id required"@)),
        refusal(header, token) is None && !blank(user_id) ==> bind_refusal(
            header,
            token,
            user_id,
        ) is None,
{
}

/// Blank text is white space throughout, and every other character spoils it.
/// White space is the tab to the carriage return, the space, the next line, and
/// Unicode's other spaces and separators; no other ASCII character is.
pub proof fn law_blank_text(a: Seq<char>, b: Seq<char>, c: char)
    ensures
        blank(Seq::empty()),
        blank(a + b) <==> blank(a) && blank(b),
        blank(seq![c]) <==> is_white_space(c),
        (c as int) < 128 ==> (is_white_space(c) <==> c == ' ' || 9 <= c as int <= 13),
        c as int >= 128 ==> (is_white_space(c) <==> c as int == 0x85 || c as int == 0xa0 || c as int
            == 0x1680 || 0x2000 <= c as int <= 0x200a || c as int == 0x2028 || c as int == 0x2029
            || c as int == 0x202f || c as int == 0x205f || c as int == 0x3000),
{
    if blank(a + b) {
        assert forall|i: int| 0 <= i < a.len() implies is_white_space(#[trigger] a[i]) by {
            assert(a[i] == (a + b)[i]);
        }
        assert forall|i: int| 0 <= i < b.len() implies is_white_space(#[trigger] b[i]) by {
            assert(b[i] == (a + b)[a.len() + i]);
        }
    }
    if blank(seq![c]) {
        assert(seq![c][0] == c);
    }
}

/// The number of events is the one asked for, brought into 1 to 1000: it never
/// leaves that range, moves as little as it can, and is 100 by default. The
/// time is the one asked for, and the epoch by default.
pub proof fn law_query_bounds(limit: i64, since: i64)
    ensures
        1 <= clamped_limit(Some(limit)) <= 1000,
        1 <= limit <= 1000 ==> clamped_limit(Some(limit)) == limit,
        limit < 1 ==> clamped_limit(Some(limit)) == 1,
        limit > 1000 ==> clamped_limit(Some(limit)) == 1000,
        clamped_limit(None) == 100,
        since_or_epoch(Some(since)) == since,
        since_or_epoch(None) == 0,
{
}

/// What it means to fail: an error with the status and the message, exactly.
pub proof fn law_failures(r: Result<(), AppError>, status: u16, msg: Seq<char>)
    ensures
        fails(r, status, msg) <==> r is Err && r->Err_0.status == status && r->Err_0.msg@ == msg,
{
}

/// The header that counts is the first `authorization` one.
pub proof fn law_authorization_header(headers: HeaderMap, expected: Seq<char>)
    ensures
        authorization_of(headers) is Some <==> first_values(headers).contains_key(
            "authorization"@,
        ),
        authorization_of(headers) is Some ==> authorization_of(headers)->0 == first_values(
            headers,
        )["authorization"@],
        refused(headers, expected) == refusal(authorization_of(headers), expected),
{
}

/// A peer's part of the log is read like the whole log, but for one condition
/// more: that the peer stands on either side of the event.
pub proof fn law_log_statements()
    ensures
        ({
            let head =
                "SELECT id, ts, kind, peer_id, controller_peer_id, addr, meta_json FROM audit WHERE ts >= ?"@;
            let filter = " AND (peer_id = ? OR controller_peer_id = ?)"@;
            let tail = " ORDER BY id DESC LIMIT ?"@;
            &&& SELECT_AUDIT@ == head + tail
            &&& SELECT_AUDIT_OF_PEER@ == head + filter + tail
        }),
{
    reveal_strlit(
        "SELECT id, ts, kind, peer_id, controller_peer_id, addr, meta_json FROM audit WHERE ts >= ?",
    );
    reveal_strlit(" AND (peer_id = ? OR controller_peer_id = ?)");
    reveal_strlit(" ORDER BY id DESC LIMIT ?");
    reveal_strlit(
        "SELECT id, ts, kind, peer_id, controller_peer_id, addr, meta_json FROM audit WHERE ts >= ? ORDER BY id DESC LIMIT ?",
    );
    reveal_strlit(
        "SELECT id, ts, kind, peer_id, controller_peer_id, addr, meta_json FROM audit WHERE ts >= ? AND (peer_id = ? OR controller_peer_id = ?) ORDER BY id DESC LIMIT ?",
    );
}

/// The token decides on every route alike: where it is missing or wrong, each
/// of them fails with 401 and says the same, and where it is right none of them
/// fails on its account.
pub proof fn law_every_route_asks_for_the_token(
    headers: &HeaderMap,
    token: &str,
    passed: Result<(), AppError>,
    req: BindPeerReq,
    bind: Result<String, AppError>,
    user_id: String,
    lookup: Result<String, AppError>,
    ev: IngestAudit,
    ingest: Result<AuditInsert, AppError>,
    q: AuditQuery,
    list: Result<AuditPlan, AppError>,
)
    requires
        call_ensures(require_token, (headers, token), passed),
        call_ensures(bind_peer, (headers, token, req), bind),
        call_ensures(get_peer, (headers, token, user_id), lookup),
        call_ensures(ingest_audit, (headers, token, ev), ingest),
        call_ensures(list_audit, (headers, token, q), list),
    ensures
        passed is Ok <==> first_values(*headers).contains_key("authorization"@) && first_values(
            *headers,
        )["authorization"@] == bearer() + encode_utf8(token@) && visible(encode_utf8(token@)),
        passed is Err ==> {
            let msg = passed->Err_0.msg@;
            &&& passed->Err_0.status == 401
            &&& bind is Err && bind->Err_0.status == 401 && bind->Err_0.msg@ == msg
            &&& lookup is Err && lookup->Err_0.status == 401 && lookup->Err_0.msg@ == msg
            &&& ingest is Err && ingest->Err_0.status == 401 && ingest->Err_0.msg@ == msg
            &&& list is Err && list->Err_0.status == 401 && list->Err_0.msg@ == msg
        },
        passed is Ok ==> {
            &&& lookup is Ok && lookup->Ok_0@ == user_id@
            &&& ingest is Ok
            &&& list is Ok
            &&& bind is Ok <==> !blank(req.user_id@)
            &&& bind is Ok ==> bind->Ok_0@ == req.user_id@
            &&& bind is Err ==> bind->Err_0.status == 400 && bind->Err_0.msg@
                == "user_id required"@
        },
{
    law_only_the_token_passes(authorization_of(*headers), token@);
    law_authorization_header(*headers, token@);
}

/// The row of an event that was taken in holds the event's fields, each in the
/// column of its own name.
pub proof fn law_events_are_taken_in_column_by_column(
    headers: &HeaderMap,
    token: &str,
    ev: IngestAudit,
    r: Result<AuditInsert, AppError>,
)
    requires
        call_ensures(ingest_audit, (headers, token, ev), r),
        r is Ok,
    ensures
        ({
            let row = r->Ok_0;
            &&& row.ts >= 0
            &&& row.kind@ == ev.kind@
            &&& row.peer_id is Some <==> ev.peer_id is Some
            &&& ev.peer_id is Some ==> row.peer_id->0@ == ev.peer_id->0@
            &&& row.controller_peer_id is Some <==> ev.controller_peer_id is Some
            &&& ev.controller_peer_id is Some ==> row.controller_peer_id->0@
                == ev.controller_peer_id->0@
            &&& row.addr is Some <==> ev.addr is Some
            &&& ev.addr is Some ==> row.addr->0@ == ev.addr->0@
            &&& row.meta_json is Some <==> ev.meta is Some
            &&& ev.meta is Some ==> row.meta_json->0@ == json_text(ev.meta->0)
        }),
{
    law_ingested_columns(r->Ok_0.ts, ev);
}

/// From a lookup to an answer: a user that has a row is answered with its peer
/// id, on both routes. One that has none gets the id that was found for it, and
/// the stored row, the answer and the event name the same user and peer.
pub proof fn law_binding_step_by_step(
    user_id: String,
    row: Option<String>,
    looked_up: Result<BindLookup, AppError>,
    answered: Result<PeerResp, AppError>,
    peer_id: String,
    now: i64,
    insert: Result<PeerInsert, AppError>,
    later: i64,
    stored: Result<(PeerResp, AuditInsert), AppError>,
)
    requires
        call_ensures(bind_looked_up, (user_id, Ok(row)), looked_up),
        call_ensures(peer_looked_up, (user_id, Ok(row)), answered),
        call_ensures(bind_allocated_at, (user_id, Some(peer_id), now), insert),
        call_ensures(bind_stored_at, (insert->Ok_0, Ok(()), later), stored),
    ensures
        row is Some ==> {
            &&& looked_up is Ok && looked_up->Ok_0 is Bound
            &&& looked_up->Ok_0->Bound_0.user_id@ == user_id@
            &&& looked_up->Ok_0->Bound_0.peer_id@ == row->0@
            &&& answered is Ok
            &&& answered->Ok_0.user_id@ == user_id@
            &&& answered->Ok_0.peer_id@ == row->0@
        },
        row is None ==> {
            &&& looked_up is Ok && looked_up->Ok_0 is Unbound
            &&& looked_up->Ok_0->user_id@ == user_id@
            &&& answered is Err && answered->Err_0.status == 404
            &&& answered->Err_0.msg@ == "user_id not bound"@
        },
        insert is Ok,
        insert->Ok_0.user_id@ == user_id@,
        insert->Ok_0.peer_id@ == peer_id@,
        insert->Ok_0.created_at == now,
        stored is Ok,
        ({
            let (resp, event) = stored->Ok_0;
            &&& resp.user_id@ == user_id@
            &&& resp.peer_id@ == peer_id@
            &&& event.ts == later
            &&& event.kind@ == "peer_bound"@
            &&& event.peer_id is Some && event.peer_id->0@ == peer_id@
            &&& event.controller_peer_id is None
            &&& event.addr is None
            &&& event.meta_json is Some && event.meta_json->0@ == "{\"user_id\":\""@ + json_chars(
                user_id@,
            ) + "\"}"@
        }),
{
    law_event_of_a_binding(later, user_id@, peer_id@);
    let (resp, event) = stored->Ok_0;
    assert(resp@.user_id == resp.user_id@ && resp@.peer_id == resp.peer_id@);
    assert(event@.kind == event.kind@);
}

/// With the clock's own time the steps are the same.
pub proof fn law_binding_now(
    user_id: String,
    peer_id: String,
    insert: Result<PeerInsert, AppError>,
    stored: Result<(PeerResp, AuditInsert), AppError>,
)
    requires
        call_ensures(bind_allocated, (user_id, Some(peer_id)), insert),
        call_ensures(bind_stored, (insert->Ok_0, Ok(())), stored),
    ensures
        insert is Ok,
        insert->Ok_0.user_id@ == user_id@,
        insert->Ok_0.peer_id@ == peer_id@,
        insert->Ok_0.created_at >= 0,
        stored is Ok,
        ({
            let (resp, event) = stored->Ok_0;
            &&& resp.user_id@ == user_id@
            &&& resp.peer_id@ == peer_id@
            &&& event.ts >= 0
            &&& event.kind@ == "peer_bound"@
            &&& event.peer_id is Some && event.peer_id->0@ == peer_id@
            &&& event.controller_peer_id is None
            &&& event.addr is None
            &&& event.meta_json is Some && event.meta_json->0@ == "{\"user_id\":\""@ + json_chars(
                user_id@,
            ) + "\"}"@
        }),
{
    let (resp, event) = stored->Ok_0;
    law_event_of_a_binding(event.ts, user_id@, peer_id@);
    assert(resp@.user_id == resp.user_id@ && resp@.peer_id == resp.peer_id@);
    assert(event@.kind == event.kind@);
}

/// Where the database fails, every step that asked it fails with 500 and says
/// so; where no id was found, binding fails with 500.
pub proof fn law_failing_database(
    failed: DbFailed,
    user_id: String,
    looked_up: Result<BindLookup, AppError>,
    insert: PeerInsert,
    now: i64,
    stored: Result<(PeerResp, AuditInsert), AppError>,
    answered: Result<PeerResp, AppError>,
    bounds: (i64, i64),
    resolved: Result<Option<AuditSelect>, AppError>,
    listed: Result<Vec<AuditRow>, AppError>,
    allocated: Result<PeerInsert, AppError>,
)
    requires
        call_ensures(bind_looked_up, (user_id, Err(failed)), looked_up),
        call_ensures(bind_stored_at, (insert, Err(failed), now), stored),
        call_ensures(peer_looked_up, (user_id, Err(failed)), answered),
        call_ensures(user_resolved, (bounds.0, bounds.1, Err(failed)), resolved),
        call_ensures(audit_listed, (Err(failed),), listed),
        call_ensures(bind_allocated_at, (user_id, None, now), allocated),
    ensures
        looked_up is Err && looked_up->Err_0.status == 500,
        looked_up->Err_0.msg@ == "database error"@,
        stored is Err && stored->Err_0.status == 500,
        stored->Err_0.msg@ == "database error"@,
        answered is Err && answered->Err_0.status == 500,
        answered->Err_0.msg@ == "database error"@,
        resolved is Err && resolved->Err_0.status == 500,
        resolved->Err_0.msg@ == "database error"@,
        listed is Err && listed->Err_0.status == 500,
        listed->Err_0.msg@ == "database error"@,
        allocated is Err && allocated->Err_0.status == 500,
        allocated->Err_0.msg@ == "internal error"@,
{
}

/// Reading the log: a peer id is the filter, whether or not a user is named
/// too; a user without a peer id is looked up, and its peer id is then the
/// filter, with the same bounds; with neither there is no filter. The rows are
/// those of the log.
pub proof fn law_reading_the_log(
    headers: &HeaderMap,
    token: &str,
    q: AuditQuery,
    plan: Result<AuditPlan, AppError>,
    found: String,
    resolved: Result<Option<AuditSelect>, AppError>,
    nobody: Result<Option<AuditSelect>, AppError>,
    rows: Vec<AuditRow>,
    listed: Result<Vec<AuditRow>, AppError>,
)
    requires
        call_ensures(list_audit, (headers, token, q), plan),
        plan is Ok,
        plan->Ok_0 is ResolveUser ==> {
            &&& call_ensures(
                user_resolved,
                (plan->Ok_0->since, plan->Ok_0->limit, Ok(Some(found))),
                resolved,
            )
            &&& call_ensures(
                user_resolved,
                (plan->Ok_0->since, plan->Ok_0->limit, Ok(None)),
                nobody,
            )
        },
        call_ensures(audit_listed, (Ok(rows),), listed),
    ensures
        plan->Ok_0 is ResolveUser <==> q.peer_id is None && q.user_id is Some,
        plan->Ok_0 matches AuditPlan::Select(s) ==> {
            &&& s.peer_id is Some <==> q.peer_id is Some
            &&& s.peer_id is Some ==> s.peer_id->0@ == q.peer_id->0@
            &&& 1 <= s.limit <= 1000
            &&& q.limit is Some && 1 <= q.limit->0 <= 1000 ==> s.limit == q.limit->0
            &&& q.limit is Some && q.limit->0 < 1 ==> s.limit == 1
            &&& q.limit is Some && q.limit->0 > 1000 ==> s.limit == 1000
            &&& q.limit is None ==> s.limit == 100
            &&& q.since is Some ==> s.since == q.since->0
            &&& q.since is None ==> s.since == 0
        },
        plan->Ok_0 is ResolveUser ==> {
            &&& plan->Ok_0->user_id@ == q.user_id->0@
            &&& resolved is Ok && resolved->Ok_0 is Some
            &&& nobody is Ok && nobody->Ok_0 is None
            &&& {
                let s = resolved->Ok_0->0;
                &&& s.peer_id is Some && s.peer_id->0@ == found@
                &&& 1 <= s.limit <= 1000
                &&& q.limit is Some && 1 <= q.limit->0 <= 1000 ==> s.limit == q.limit->0
                &&& q.limit is Some && q.limit->0 < 1 ==> s.limit == 1
                &&& q.limit is Some && q.limit->0 > 1000 ==> s.limit == 1000
                &&& q.limit is None ==> s.limit == 100
                &&& q.since is Some ==> s.since == q.since->0
                &&& q.since is None ==> s.since == 0
            }
        },
        listed is Ok && listed->Ok_0 == rows,
{
}

/// The statement of a query filters exactly where the query has a peer id, and
/// then it asks for a place more for each side of an event.
pub proof fn law_statement_of_a_query(s: AuditSelect, all: AuditSelect, r: &str, t: &str)
    requires
        s.peer_id is Some,
        all.peer_id is None,
        call_ensures(AuditSelect::sql, (&s,), r),
        call_ensures(AuditSelect::sql, (&all,), t),
    ensures
        ({
            let filter = " AND (peer_id = ? OR controller_peer_id = ?)"@;
            exists|head: Seq<char>, tail: Seq<char>|
                t@ == #[trigger] (head + tail) && r@ == head + filter + tail
        }),
{
    law_log_statements();
    let head =
        "SELECT id, ts, kind, peer_id, controller_peer_id, addr, meta_json FROM audit WHERE ts >= ?"@;
    let tail = " ORDER BY id DESC LIMIT ?"@;
    assert(t@ == head + tail);
}

/// The columns that are written are those that are read, in the same order, but
/// for the number that the database gives; and the table of bindings is read by
/// the columns that it is written by.
pub proof fn law_statements_agree()
    ensures
        ({
            let columns = "ts, kind, peer_id, controller_peer_id, addr, meta_json"@;
            &&& INSERT_AUDIT@ == "INSERT INTO audit ("@ + columns + ") VALUES (?, ?, ?, ?, ?, ?)"@
            &&& SELECT_AUDIT@ == "SELECT id, "@ + columns
                + " FROM audit WHERE ts >= ? ORDER BY id DESC LIMIT ?"@
        }),
        ({
            let (user, peer) = ("user_id"@, "peer_id"@);
            &&& SELECT_PEER@ == "SELECT "@ + peer + " FROM peers WHERE "@ + user + " = ?"@
            &&& SELECT_PEER_ID@ == "SELECT "@ + peer + " FROM peers WHERE "@ + peer + " = ?"@
            &&& INSERT_PEER@ == "INSERT INTO peers ("@ + user + ", "@ + peer
                + ", created_at) VALUES (?, ?, ?)"@
        }),
{
    reveal_strlit("ts, kind, peer_id, controller_peer_id, addr, meta_json");
    reveal_strlit("INSERT INTO audit (");
    reveal_strlit(") VALUES (?, ?, ?, ?, ?, ?)");
    reveal_strlit("SELECT id, ");
    reveal_strlit(" FROM audit WHERE ts >= ? ORDER BY id DESC LIMIT ?");
    reveal_strlit(
        "INSERT INTO audit (ts, kind, peer_id, controller_peer_id, addr, meta_json) VALUES (?, ?, ?, ?, ?, ?)",
    );
    reveal_strlit(
        "SELECT id, ts, kind, peer_id, controller_peer_id, addr, meta_json FROM audit WHERE ts >= ? ORDER BY id DESC LIMIT ?",
    );
    reveal_strlit("user_id");
    reveal_strlit("peer_id");
    reveal_strlit("SELECT ");
    reveal_strlit(" FROM peers WHERE ");
    reveal_strlit(" = ?");
    reveal_strlit("INSERT INTO peers (");
    reveal_strlit(", ");
    reveal_strlit(", created_at) VALUES (?, ?, ?)");
    reveal_strlit("SELECT peer_id FROM peers WHERE user_id = ?");
    reveal_strlit("SELECT peer_id FROM peers WHERE peer_id = ?");
    reveal_strlit("INSERT INTO peers (user_id, peer_id, created_at) VALUES (?, ?, ?)");
}

/// Each kind of error has its status of the HTTP standard: a wrong request and
/// what is not let in or not there are the client's, the rest is the server's,
/// and no two of the client's look alike.
pub proof fn law_statuses(
    m: &str,
    bad: AppError,
    unauthorized: AppError,
    missing: AppError,
    db: AppError,
    internal: AppError,
)
    requires
        call_ensures(AppError::bad, (m,), bad),
        call_ensures(AppError::unauthorized, (m,), unauthorized),
        call_ensures(AppError::not_found, (m,), missing),
        call_ensures(AppError::db, (), db),
        call_ensures(AppError::internal, (), internal),
    ensures
        bad.status == 400 && bad.msg@ == m@,
        unauthorized.status == 401 && unauthorized.msg@ == m@,
        missing.status == 404 && missing.msg@ == m@,
        db.status == 500 && internal.status == 500,
        db.msg@ != internal.msg@,
        200 <= ACCEPTED < 300,
        ACCEPTED == 202,
{
    reveal_strlit("database error");
    reveal_strlit("internal error");
    assert(db.msg@[0] == 'd');
}

/// Byte strings compare equal exactly where they have the same length and the
/// same bytes.
pub proof fn law_equal_tokens(a: &[u8], b: &[u8], r: bool)
    requires
        call_ensures(ct_eq, (a, b), r),
    ensures
        r <==> a@.len() == b@.len() && (forall|i: int|
            0 <= i < a@.len() ==> #[trigger] a@[i] == b@[i]),
{
    if a@.len() == b@.len() && (forall|i: int| 0 <= i < a@.len() ==> #[trigger] a@[i] == b@[i]) {
        assert(a@ =~= b@);
    }
}

/// The health route answers whoever asks.
pub proof fn law_health(r: &str)
    requires
        call_ensures(healthz, (), r),
    ensures
        r@ == seq!['o', 'k'],
{
    reveal_strlit("ok");
    assert("ok"@ =~= seq!['o', 'k']);
}

} // verus!
