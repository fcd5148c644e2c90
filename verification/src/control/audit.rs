//! The audit log of the control plane.

use vstd::prelude::*;

use serde_json::Value;

use crate::audit::{str_of, text_of};
use crate::json::{json_text, value_text};

verus! {

/// The statement that appends to the log. It binds the fields of an
/// `AuditInsert` in their order.
pub const INSERT_AUDIT: &'static str =
    "INSERT INTO audit (ts, kind, peer_id, controller_peer_id, addr, meta_json) VALUES (?, ?, ?, ?, ?, ?)";

/// A row of the log.
#[derive(Debug)]
pub struct AuditRow {
    pub id: i64,
    pub ts: i64,
    pub kind: String,
    pub peer_id: Option<String>,
    pub controller_peer_id: Option<String>,
    pub addr: Option<String>,
    pub meta_json: Option<String>,
}

/// A copy of an optional string.
fn copy_of(s: &Option<String>) -> (r: Option<String>)
    ensures
        text_of(r) == text_of(*s),
{
    match s {
        Some(s) => Some(s.clone()),
        None => None,
    }
}

impl Clone for AuditRow {
    /// The same row.
    fn clone(&self) -> (r: Self)
        ensures
            r.id == self.id,
            r.ts == self.ts,
            r.kind@ == self.kind@,
            text_of(r.peer_id) == text_of(self.peer_id),
            text_of(r.controller_peer_id) == text_of(self.controller_peer_id),
            text_of(r.addr) == text_of(self.addr),
            text_of(r.meta_json) == text_of(self.meta_json),
    {
        AuditRow {
            id: self.id,
            ts: self.ts,
            kind: self.kind.clone(),
            peer_id: copy_of(&self.peer_id),
            controller_peer_id: copy_of(&self.controller_peer_id),
            addr: copy_of(&self.addr),
            meta_json: copy_of(&self.meta_json),
        }
    }
}

/// What is appended to the log.
#[derive(Debug)]
pub struct AuditInsert {
    pub ts: i64,
    pub kind: String,
    pub peer_id: Option<String>,
    pub controller_peer_id: Option<String>,
    pub addr: Option<String>,
    pub meta_json: Option<String>,
}

/// An addition to the log as the contracts see it.
pub struct AuditInsertView {
    pub ts: i64,
    pub kind: Seq<char>,
    pub peer_id: Option<Seq<char>>,
    pub controller_peer_id: Option<Seq<char>>,
    pub addr: Option<Seq<char>>,
    pub meta_json: Option<Seq<char>>,
}

impl View for AuditInsert {
    type V = AuditInsertView;

    open spec fn view(&self) -> AuditInsertView {
        AuditInsertView {
            ts: self.ts,
            kind: self.kind@,
            peer_id: text_of(self.peer_id),
            controller_peer_id: text_of(self.controller_peer_id),
            addr: text_of(self.addr),
            meta_json: text_of(self.meta_json),
        }
    }
}

/// The JSON text of optional metadata.
pub open spec fn meta_of(meta: Option<Value>) -> Option<Seq<char>> {
    match meta {
        Some(v) => Some(json_text(v)),
        None => None,
    }
}

/// An owned copy of an optional string slice.
fn owned(s: Option<&str>) -> (r: Option<String>)
    ensures
        text_of(r) == str_of(s),
{
    match s {
        Some(s) => Some(s.to_owned()),
        None => None,
    }
}

/// A structured event at the time `ts`, as it is appended to the log.
pub fn record_at(
    ts: i64,
    kind: &str,
    peer_id: Option<&str>,
    controller_peer_id: Option<&str>,
    addr: Option<&str>,
    meta: Option<Value>,
) -> (r: AuditInsert)
    ensures
        r@ == (AuditInsertView {
            ts,
            kind: kind@,
            peer_id: str_of(peer_id),
            controller_peer_id: str_of(controller_peer_id),
            addr: str_of(addr),
            meta_json: meta_of(meta),
        }),
{
    let meta_json = match &meta {
        Some(v) => Some(value_text(v)),
        None => None,
    };
    AuditInsert {
        ts,
        kind: kind.to_owned(),
        peer_id: owned(peer_id),
        controller_peer_id: owned(controller_peer_id),
        addr: owned(addr),
        meta_json,
    }
}

/// `chrono::Utc::now` and `DateTime::timestamp`: the seconds since the Unix
/// epoch, by the system clock. It panics where the clock stands before it.
#[verifier::external_body]
pub(crate) fn unix_time() -> (r: i64)
    ensures
        r >= 0,
{
    chrono::Utc::now().timestamp()
}

/// A structured event of this moment, as it is appended to the log.
pub fn record(
    kind: &str,
    peer_id: Option<&str>,
    controller_peer_id: Option<&str>,
    addr: Option<&str>,
    meta: Option<Value>,
) -> (r: AuditInsert)
    ensures
        r.ts >= 0,
        r@ == (AuditInsertView {
            ts: r.ts,
            kind: kind@,
            peer_id: str_of(peer_id),
            controller_peer_id: str_of(controller_peer_id),
            addr: str_of(addr),
            meta_json: meta_of(meta),
        }),
{
    record_at(unix_time(), kind, peer_id, controller_peer_id, addr, meta)
}

/// An addition to the log is seen column by column, and optional metadata as
/// its JSON text.
pub proof fn law_row_columns(row: AuditInsert, meta: Option<Value>)
    ensures
        row@.ts == row.ts,
        row@.kind == row.kind@,
        row.peer_id matches Some(s) ==> row@.peer_id == Some(s@),
        row.peer_id is None ==> row@.peer_id is None,
        row.controller_peer_id matches Some(s) ==> row@.controller_peer_id == Some(s@),
        row.controller_peer_id is None ==> row@.controller_peer_id is None,
        row.addr matches Some(s) ==> row@.addr == Some(s@),
        row.addr is None ==> row@.addr is None,
        row.meta_json matches Some(s) ==> row@.meta_json == Some(s@),
        row.meta_json is None ==> row@.meta_json is None,
        meta matches Some(v) ==> meta_of(meta) == Some(json_text(v)),
        meta is None ==> meta_of(meta) is None,
{
}

/// An event is recorded column by column: the time, the kind and each optional
/// field of the row are those that were given, whatever the others are, and the
/// metadata is written out.
pub proof fn law_recorded_columns(
    ts: i64,
    kind: &str,
    peer_id: Option<&str>,
    controller_peer_id: Option<&str>,
    addr: Option<&str>,
    meta: Option<Value>,
    r: AuditInsert,
)
    requires
        call_ensures(record_at, (ts, kind, peer_id, controller_peer_id, addr, meta), r) || (
        call_ensures(record, (kind, peer_id, controller_peer_id, addr, meta), r) && r.ts == ts),
    ensures
        r.ts == ts,
        r.kind@ == kind@,
        r.peer_id is Some <==> peer_id is Some,
        peer_id is Some ==> r.peer_id->0@ == peer_id->0@,
        r.controller_peer_id is Some <==> controller_peer_id is Some,
        controller_peer_id is Some ==> r.controller_peer_id->0@ == controller_peer_id->0@,
        r.addr is Some <==> addr is Some,
        addr is Some ==> r.addr->0@ == addr->0@,
        r.meta_json is Some <==> meta is Some,
        meta is Some ==> r.meta_json->0@ == json_text(meta->0),
{
    law_row_columns(r, meta);
}

/// A copy of a row holds what the row holds, column by column.
pub proof fn law_copied_rows(row: AuditRow, r: AuditRow)
    requires
        call_ensures(AuditRow::clone, (&row,), r),
    ensures
        r.id == row.id,
        r.ts == row.ts,
        r.kind@ == row.kind@,
        r.peer_id is Some <==> row.peer_id is Some,
        row.peer_id is Some ==> r.peer_id->0@ == row.peer_id->0@,
        r.controller_peer_id is Some <==> row.controller_peer_id is Some,
        row.controller_peer_id is Some ==> r.controller_peer_id->0@ == row.controller_peer_id->0@,
        r.addr is Some <==> row.addr is Some,
        row.addr is Some ==> r.addr->0@ == row.addr->0@,
        r.meta_json is Some <==> row.meta_json is Some,
        row.meta_json is Some ==> r.meta_json->0@ == row.meta_json->0@,
{
}

} // verus!
