use axum::http::header::AUTHORIZATION;
use axum::http::{HeaderMap, HeaderValue};
use xyzen_relay::control::audit::{record, record_at, AuditRow, INSERT_AUDIT};
use xyzen_relay::control::http::{
    audit_listed, bind_allocated, bind_allocated_at, bind_looked_up, bind_peer, bind_stored,
    bind_stored_at, ct_eq, get_peer, healthz, ingest_audit, list_audit, peer_looked_up,
    require_token, user_resolved, AppError, AuditPlan, AuditQuery, AuditSelect, BindLookup,
    BindPeerReq, DbFailed, IngestAudit, PeerInsert, SELECT_AUDIT, SELECT_AUDIT_OF_PEER,
};
use xyzen_relay::control::ids::{
    fresh, id_from_bytes, random_id, FreshSearch, FreshStep, MAX_TRIES,
};

fn headers(value: &'static str) -> HeaderMap {
    let mut h = HeaderMap::new();
    h.insert(AUTHORIZATION, HeaderValue::from_static(value));
    h
}

fn refused<T: std::fmt::Debug>(r: Result<T, AppError>, status: u16, msg: &str) {
    let e = r.unwrap_err();
    assert_eq!((e.status, e.msg.as_str()), (status, msg));
}

#[test]
fn token_is_required() {
    let none = HeaderMap::new();
    refused(require_token(&none, "secret"), 401, "missing Authorization");
    refused(require_token(&headers("Basic x"), "secret"), 401, "expected Bearer token");
    refused(require_token(&headers("bearer secret"), "secret"), 401, "expected Bearer token");
    refused(require_token(&headers("Bearer"), "secret"), 401, "expected Bearer token");
    refused(require_token(&headers("Bearer secre"), "secret"), 401, "invalid token");
    refused(require_token(&headers("Bearer secret "), "secret"), 401, "invalid token");
    refused(require_token(&headers("Bearer Secret"), "secret"), 401, "invalid token");
    require_token(&headers("Bearer secret"), "secret").unwrap();
    require_token(&headers("Bearer "), "").unwrap();

    let mut opaque = HeaderMap::new();
    opaque.insert(AUTHORIZATION, HeaderValue::from_bytes(b"Bearer \xc3\xbc").unwrap());
    refused(require_token(&opaque, "ü"), 401, "missing Authorization");

    let mut two = headers("Bearer wrong");
    two.append(AUTHORIZATION, HeaderValue::from_static("Bearer secret"));
    refused(require_token(&two, "secret"), 401, "invalid token");

    let mut other = HeaderMap::new();
    other.insert("x-authorization", HeaderValue::from_static("Bearer secret"));
    refused(require_token(&other, "secret"), 401, "missing Authorization");
}

#[test]
fn byte_equality() {
    assert!(ct_eq(b"", b""));
    assert!(ct_eq(b"abc", b"abc"));
    assert!(!ct_eq(b"abc", b"abd"));
    assert!(!ct_eq(b"bbc", b"abc"));
    assert!(!ct_eq(b"abc", b"ab"));
}

#[test]
fn health() {
    assert_eq!(healthz(), "ok");
}

#[test]
fn binding_checks_token_then_user() {
    let req = |u: &str| BindPeerReq { user_id: u.to_string() };
    let ok = headers("Bearer t");
    refused(bind_peer(&headers("Bearer x"), "t", req("")), 401, "invalid token");
    for blank in ["", " ", "\t\r\n", "\u{3000}\u{a0}\u{2003}"] {
        refused(bind_peer(&ok, "t", req(blank)), 400, "user_id required");
    }
    assert_eq!(bind_peer(&ok, "t", req(" u ")).unwrap(), " u ");
    assert_eq!(bind_peer(&ok, "t", req("\u{200b}")).unwrap(), "\u{200b}");
}

#[test]
fn binding_steps() {
    let user = || "u".to_string();
    match bind_looked_up(user(), Ok(Some("123456789".to_string()))).unwrap() {
        BindLookup::Bound(p) => {
            assert_eq!((p.user_id.as_str(), p.peer_id.as_str()), ("u", "123456789"))
        }
        other => panic!("{other:?}"),
    }
    match bind_looked_up(user(), Ok(None)).unwrap() {
        BindLookup::Unbound { user_id } => assert_eq!(user_id, "u"),
        other => panic!("{other:?}"),
    }
    refused(bind_looked_up(user(), Err(DbFailed)), 500, "database error");

    let p = bind_allocated_at(user(), Some("987654321".to_string()), 77).unwrap();
    assert_eq!((p.user_id.as_str(), p.peer_id.as_str(), p.created_at), ("u", "987654321", 77));
    refused(bind_allocated(user(), None), 500, "internal error");
    let p = bind_allocated(user(), Some("987654321".to_string())).unwrap();
    assert!(p.created_at > 1_600_000_000);

    let (resp, event) = bind_stored_at(p, Ok(()), 78).unwrap();
    assert_eq!((resp.user_id.as_str(), resp.peer_id.as_str()), ("u", "987654321"));
    assert_eq!((event.ts, event.kind.as_str()), (78, "peer_bound"));
    assert_eq!(event.peer_id.as_deref(), Some("987654321"));
    assert_eq!((event.controller_peer_id, event.addr), (None, None));
    assert_eq!(event.meta_json.as_deref(), Some("{\"user_id\":\"u\"}"));

    let p = PeerInsert { user_id: user(), peer_id: "1".to_string(), created_at: 0 };
    refused(bind_stored(p, Err(DbFailed)), 500, "database error");
}

/// One request to bind a user, on a table of bindings and a log.
fn bind(
    peers: &mut Vec<(String, String)>,
    log: &mut Vec<String>,
    header: &'static str,
    user: &str,
    ids: &[&str],
) -> Result<String, u16> {
    let req = BindPeerReq { user_id: user.to_string() };
    let user_id = bind_peer(&headers(header), "t", req).map_err(|e| e.status)?;
    let row = peers.iter().find(|p| p.0 == user_id).map(|p| p.1.clone());
    let user_id = match bind_looked_up(user_id, Ok(row)).unwrap() {
        BindLookup::Bound(resp) => return Ok(resp.peer_id),
        BindLookup::Unbound { user_id } => user_id,
    };
    let mut search = FreshSearch::starting_with(ids[0].to_string());
    let mut tried = 1;
    let found = loop {
        let taken = peers.iter().any(|p| p.1 == search.candidate());
        match search.step(taken, ids[tried % ids.len()].to_string()) {
            FreshStep::Allocated(id) => break Some(id),
            FreshStep::TryNext(next) => search = next,
            FreshStep::Exhausted => break None,
        }
        tried += 1;
    };
    let insert = bind_allocated_at(user_id, found, 1).map_err(|e| e.status)?;
    peers.push((insert.user_id.clone(), insert.peer_id.clone()));
    let (resp, event) = bind_stored_at(insert, Ok(()), 1).unwrap();
    log.push(event.kind);
    Ok(resp.peer_id)
}

#[test]
fn binding_is_idempotent() {
    let mut peers = Vec::new();
    let mut log = Vec::new();
    let ok = "Bearer t";
    assert_eq!(bind(&mut peers, &mut log, "Bearer x", "a", &["1"]), Err(401));
    assert_eq!(bind(&mut peers, &mut log, ok, " ", &["1"]), Err(400));
    assert!(peers.is_empty() && log.is_empty());
    assert_eq!(bind(&mut peers, &mut log, ok, "a", &["1"]), Ok("1".to_string()));
    assert_eq!(bind(&mut peers, &mut log, ok, "a", &["2"]), Ok("1".to_string()));
    assert_eq!((peers.len(), log.len()), (1, 1));
    assert_eq!(bind(&mut peers, &mut log, ok, "b", &["1", "2"]), Ok("2".to_string()));
    assert_eq!(bind(&mut peers, &mut log, ok, "c", &["1", "2"]), Err(500));
    assert_eq!((peers.len(), log.len()), (2, 2));
    assert_eq!(log[1], "peer_bound");
}

#[test]
fn user_ids_are_escaped_in_the_log() {
    let p = PeerInsert {
        user_id: "a\"b\\c\n\t\r\u{8}\u{c}\u{1}\u{1f}\u{7f}/ü".to_string(),
        peer_id: "1".to_string(),
        created_at: 0,
    };
    let (_, event) = bind_stored(p, Ok(())).unwrap();
    assert_eq!(
        event.meta_json.as_deref(),
        Some("{\"user_id\":\"a\\\"b\\\\c\\n\\t\\r\\b\\f\\u0001\\u001f\u{7f}/ü\"}")
    );
}

#[test]
fn peer_lookup() {
    let user = || "u".to_string();
    refused(get_peer(&HeaderMap::new(), "t", user()), 401, "missing Authorization");
    assert_eq!(get_peer(&headers("Bearer t"), "t", user()).unwrap(), "u");
    let p = peer_looked_up(user(), Ok(Some("5".to_string()))).unwrap();
    assert_eq!((p.user_id.as_str(), p.peer_id.as_str()), ("u", "5"));
    refused(peer_looked_up(user(), Ok(None)), 404, "user_id not bound");
    refused(peer_looked_up(user(), Err(DbFailed)), 500, "database error");
}

#[test]
fn ingestion() {
    let ev = || IngestAudit {
        kind: "register".to_string(),
        peer_id: Some("1".to_string()),
        controller_peer_id: Some("2".to_string()),
        addr: Some("3".to_string()),
        meta: Some(serde_json::from_str("{ \"b\": [1, null], \"a\": \"x\" }").unwrap()),
    };
    refused(ingest_audit(&headers("Bearer x"), "t", ev()), 401, "invalid token");
    let row = ingest_audit(&headers("Bearer t"), "t", ev()).unwrap();
    assert_eq!(row.kind, "register");
    assert_eq!(row.peer_id.as_deref(), Some("1"));
    assert_eq!(row.controller_peer_id.as_deref(), Some("2"));
    assert_eq!(row.addr.as_deref(), Some("3"));
    assert_eq!(row.meta_json.as_deref(), Some("{\"a\":\"x\",\"b\":[1,null]}"));
    assert!(row.ts > 1_600_000_000);
}

#[test]
fn records() {
    let r = record_at(9, "k", None, Some("c"), None, None);
    assert_eq!((r.ts, r.kind.as_str()), (9, "k"));
    assert_eq!((r.peer_id, r.addr, r.meta_json), (None, None, None));
    assert_eq!(r.controller_peer_id.as_deref(), Some("c"));
    let r = record("k", Some("p"), None, Some("a"), Some(serde_json::Value::Bool(true)));
    assert!(r.ts > 1_600_000_000);
    assert_eq!(r.meta_json.as_deref(), Some("true"));
    assert!(INSERT_AUDIT.starts_with("INSERT INTO audit (ts, kind, peer_id"));
}

fn query(
    since: Option<i64>,
    user: Option<&str>,
    peer: Option<&str>,
    limit: Option<i64>,
) -> AuditQuery {
    AuditQuery {
        since,
        user_id: user.map(|s| s.to_string()),
        peer_id: peer.map(|s| s.to_string()),
        limit,
    }
}

#[test]
fn audit_listing() {
    let h = headers("Bearer t");
    refused(list_audit(&h, "other", query(None, None, None, None)), 401, "invalid token");
    let select = |q: AuditQuery| match list_audit(&h, "t", q).unwrap() {
        AuditPlan::Select(s) => s,
        other => panic!("{other:?}"),
    };
    let s = select(query(None, None, None, None));
    assert_eq!((s.since, s.limit, s.peer_id.clone()), (0, 100, None));
    assert_eq!(s.sql(), SELECT_AUDIT);
    let s = select(query(Some(-4), Some("u"), Some("p"), Some(5000)));
    assert_eq!((s.since, s.limit, s.peer_id.as_deref()), (-4, 1000, Some("p")));
    assert_eq!(s.sql(), SELECT_AUDIT_OF_PEER);
    assert_eq!(select(query(None, None, None, Some(0))).limit, 1);
    assert_eq!(select(query(None, None, None, Some(i64::MIN))).limit, 1);
    assert_eq!(select(query(None, None, None, Some(1))).limit, 1);
    assert_eq!(select(query(None, None, None, Some(1000))).limit, 1000);
    match list_audit(&h, "t", query(Some(3), Some("u"), None, Some(7))).unwrap() {
        AuditPlan::ResolveUser { user_id, since, limit } => {
            assert_eq!((user_id.as_str(), since, limit), ("u", 3, 7))
        }
        other => panic!("{other:?}"),
    }
    let s: AuditSelect = user_resolved(3, 7, Ok(Some("p".to_string()))).unwrap().unwrap();
    assert_eq!((s.since, s.limit, s.peer_id.as_deref()), (3, 7, Some("p")));
    assert!(user_resolved(3, 7, Ok(None)).unwrap().is_none());
    refused(user_resolved(3, 7, Err(DbFailed)), 500, "database error");
    let row = AuditRow {
        id: 1,
        ts: 2,
        kind: "k".to_string(),
        peer_id: None,
        controller_peer_id: None,
        addr: None,
        meta_json: None,
    };
    let copy = row.clone();
    assert_eq!((copy.id, copy.ts, copy.kind.as_str(), copy.addr), (1, 2, "k", None));
    assert_eq!(audit_listed(Ok(vec![row])).unwrap()[0].id, 1);
    refused(audit_listed(Err(DbFailed)), 500, "database error");
}

#[test]
fn ids_from_known_bytes() {
    assert_eq!(id_from_bytes([0; 8]), "100000000");
    assert_eq!(id_from_bytes([1, 0, 0, 0, 0, 0, 0, 0]), "100000001");
    assert_eq!(id_from_bytes([0, 1, 0, 0, 0, 0, 0, 0]), "100000256");
    let expected = u64::MAX % 900_000_000 + 100_000_000;
    assert_eq!(id_from_bytes([0xff; 8]), expected.to_string());
    let n: u64 = 899_999_999;
    assert_eq!(id_from_bytes(n.to_le_bytes()), "999999999");
    let n: u64 = 0x0123_4567_89ab_cdef;
    assert_eq!(id_from_bytes(n.to_le_bytes()), (n % 900_000_000 + 100_000_000).to_string());
}

#[test]
fn random_ids_look_right() {
    let ids: Vec<String> = (0..50).map(|_| random_id()).collect();
    for id in &ids {
        assert_eq!(id.len(), 9);
        assert!(id.bytes().all(|b| b.is_ascii_digit()));
        assert_ne!(&id[..1], "0");
    }
    assert!(ids.iter().any(|id| id != &ids[0]));
}

#[test]
fn fresh_gives_up_after_sixteen_candidates() {
    let mut search = FreshSearch::starting_with("taken".to_string());
    let mut asked: Vec<String> = vec![search.candidate().to_string()];
    loop {
        match search.step(true, format!("c{}", asked.len())) {
            FreshStep::TryNext(s) => {
                asked.push(s.candidate().to_string());
                search = s;
            }
            FreshStep::Exhausted => break,
            other => panic!("{other:?}"),
        }
    }
    assert_eq!(asked.len(), MAX_TRIES as usize);
    assert_eq!(MAX_TRIES, 16);
    assert_eq!(asked[15], "c15");
}

#[test]
fn fresh_takes_the_first_free_candidate() {
    let search = FreshSearch::new();
    let first = search.candidate().to_string();
    match fresh(search, true) {
        FreshStep::TryNext(s) => {
            let second = s.candidate().to_string();
            assert_eq!(second.len(), 9);
            match fresh(s, false) {
                FreshStep::Allocated(id) => assert_eq!(id, second),
                other => panic!("{other:?}"),
            }
        }
        other => panic!("{other:?}"),
    }
    assert_eq!(first.len(), 9);
}
