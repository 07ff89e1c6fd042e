use iroh_rings::RedbRegistry;
use ringdrop::blobs::{BlobRef, ListedBlob};
use ringdrop::error::TransferFailure;
use ringdrop::peer::PeerId;
use ringdrop::protocol::{Event, EventKind, Op, Request};
use ringdrop::receive::TicketInfo;
use ringdrop::session::{Next, NodeCall, NodeReply, Phase, Session};
use tempfile::TempDir;
use uuid::Uuid;

fn setup(dir: &TempDir) -> (RedbRegistry, PeerId) {
    let key = iroh::SecretKey::generate().public();
    (RedbRegistry::open(dir.path().join("registry.redb")).unwrap(), PeerId { bytes: *key.as_bytes() })
}

fn lines(events: &[Event]) -> Vec<String> {
    events
        .iter()
        .filter_map(|e| match &e.kind {
            EventKind::Line { text } => Some(text.clone()),
            _ => None,
        })
        .collect()
}

fn run(reg: &mut RedbRegistry, me: PeerId, op: Op) -> Vec<Event> {
    let (_, step) = Session::start(Request { req_id: None, op }, reg, me);
    assert!(matches!(step.next, Next::Finished));
    step.events
}

fn error_of(events: &[Event]) -> Option<String> {
    match &events.last().unwrap().kind {
        EventKind::Error { message } => Some(message.clone()),
        _ => None,
    }
}

#[test]
fn node_id_returns_a_non_empty_string() {
    let dir = TempDir::new().unwrap();
    let (mut reg, me) = setup(&dir);
    let events = run(&mut reg, me, Op::NodeId);
    let lines = lines(&events);
    assert_eq!(lines.len(), 1, "expected exactly one line for NodeId");
    assert!(!lines[0].is_empty(), "node ID must not be empty");
    assert_eq!(lines[0], me.to_text());
    assert!(matches!(events.last().unwrap().kind, EventKind::Done));
}

#[test]
fn ring_new_creates_ring_visible_in_list() {
    let dir = TempDir::new().unwrap();
    let (mut reg, me) = setup(&dir);
    run(&mut reg, me, Op::RingNew { name: "friends".into() });
    let lines = lines(&run(&mut reg, me, Op::RingList));
    assert!(
        lines.iter().any(|l| l.contains("friends")),
        "ring list should include the newly created ring; got: {lines:?}"
    );
}

#[test]
fn blob_list_on_empty_store_prints_expected_message() {
    let dir = TempDir::new().unwrap();
    let (mut reg, me) = setup(&dir);
    let (mut session, step) = Session::start(Request { req_id: None, op: Op::BlobList }, &mut reg, me);
    assert!(step.events.is_empty());
    assert!(matches!(step.next, Next::Await(NodeCall::ListBlobs)));
    let step = session.resume(NodeReply::Blobs(Ok(vec![])), &mut reg);
    assert_eq!(lines(&step.events), vec!["No blobs in local store."]);
    assert!(matches!(step.next, Next::Finished));
}

#[test]
fn ring_add_self_is_rejected_via_daemon() {
    let dir = TempDir::new().unwrap();
    let (mut reg, me) = setup(&dir);
    let node_id = lines(&run(&mut reg, me, Op::NodeId)).pop().unwrap();
    run(&mut reg, me, Op::RingNew { name: "test".into() });
    let events = run(&mut reg, me, Op::RingAdd { ring: "test".into(), peer: node_id, nickname: None });
    let err = error_of(&events).unwrap();
    assert!(err.contains("yourself"), "expected 'yourself' in error message; got: {err}");
    assert_eq!(events.len(), 1);
}

#[test]
fn shutdown_stops_the_server() {
    let dir = TempDir::new().unwrap();
    let (mut reg, me) = setup(&dir);
    let id = Uuid::from_u128(7);
    let (session, step) = Session::start(Request { req_id: Some(id), op: Op::Shutdown }, &mut reg, me);
    assert!(matches!(step.next, Next::ShutdownRequested));
    assert!(matches!(session.phase, Phase::Finished));
    assert_eq!(step.events.len(), 1);
    assert!(matches!(step.events[0].kind, EventKind::Done));
    assert_eq!(step.events[0].req_id, Some(id));
}

#[test]
fn events_carry_the_request_id() {
    let dir = TempDir::new().unwrap();
    let (mut reg, me) = setup(&dir);
    let id = Uuid::from_u128(42);
    let (_, step) = Session::start(Request { req_id: Some(id), op: Op::RingNew { name: "x".into() } }, &mut reg, me);
    assert_eq!(step.events.len(), 3);
    assert!(step.events.iter().all(|e| e.req_id == Some(id)));
}

#[test]
fn remove_goes_through_delete() {
    let dir = TempDir::new().unwrap();
    let (mut reg, me) = setup(&dir);
    let (mut session, step) =
        Session::start(Request { req_id: None, op: Op::BlobRemove { target: "h".into() } }, &mut reg, me);
    assert!(matches!(step.next, Next::Await(NodeCall::Resolve { .. })));
    let hash = BlobRef { id: [3u8; 32], text: "h3".into() };
    let step = session.resume(NodeReply::Resolved(Ok(hash)), &mut reg);
    assert!(step.events.is_empty());
    match &step.next {
        Next::Await(NodeCall::Delete { hash }) => assert_eq!(hash.text, "h3"),
        _ => panic!("expected a deletion"),
    }
    let step = session.resume(NodeReply::Deleted(Ok(())), &mut reg);
    assert_eq!(lines(&step.events), vec!["Removed h3", "Disk space will be reclaimed on the next GC cycle."]);
    assert!(matches!(step.events.last().unwrap().kind, EventKind::Done));
}

#[test]
fn receive_runs_preflight_progress_and_outcome() {
    let dir = TempDir::new().unwrap();
    let (mut reg, me) = setup(&dir);
    let req = Request {
        req_id: None,
        op: Op::Receive { ticket: "t".into(), dest: "d".into(), force_overwrite: false },
    };
    let (mut session, step) = Session::start(req, &mut reg, me);
    assert!(matches!(step.next, Next::Await(NodeCall::PrepareReceive { .. })));
    let info = TicketInfo { hash_text: "abc".into(), peer: PeerId { bytes: [2u8; 32] }, name: None };
    let step = session.resume(NodeReply::Prepared(Ok((info, "d/abc".into(), false))), &mut reg);
    assert_eq!(step.events.len(), 3);
    assert!(matches!(step.next, Next::Await(NodeCall::Download)));
    let p = session.progress(5, 10);
    assert!(matches!(p.kind, EventKind::Progress { done: 5, total: 10 }));
    let step = session.resume(
        NodeReply::Downloaded(Err(TransferFailure { detail: "x".into(), summary: "x".into() })),
        &mut reg,
    );
    assert_eq!(error_of(&step.events).unwrap(), "Transfer failed: x");
}

#[test]
fn receive_refuses_existing_destination() {
    let dir = TempDir::new().unwrap();
    let (mut reg, me) = setup(&dir);
    let req = Request {
        req_id: None,
        op: Op::Receive { ticket: "t".into(), dest: "d".into(), force_overwrite: false },
    };
    let (mut session, _) = Session::start(req, &mut reg, me);
    let info = TicketInfo { hash_text: "abc".into(), peer: PeerId { bytes: [2u8; 32] }, name: None };
    let step = session.resume(NodeReply::Prepared(Ok((info, "d".into(), true))), &mut reg);
    assert_eq!(step.events.len(), 1);
    assert!(error_of(&step.events).unwrap().starts_with("destination 'd' already exists"));
}

#[test]
fn import_and_tag_through_session() {
    let dir = TempDir::new().unwrap();
    let (mut reg, me) = setup(&dir);
    let (mut session, step) = Session::start(
        Request { req_id: None, op: Op::Import { path: "f".into(), rings: vec![], open: true } },
        &mut reg,
        me,
    );
    assert!(matches!(step.next, Next::Await(NodeCall::Import { .. })));
    let hash = BlobRef { id: [4u8; 32], text: "h4".into() };
    let step = session.resume(NodeReply::Imported(Ok((hash, Ok("TK".into())))), &mut reg);
    assert_eq!(lines(&step.events)[0], "Tagged as open (publicly accessible)");
    assert!(matches!(step.events.last().unwrap().kind, EventKind::Done));

    let (mut session, _) = Session::start(
        Request { req_id: None, op: Op::Tags { target: "h4".into() } },
        &mut reg,
        me,
    );
    let step = session.resume(NodeReply::Resolved(Ok(BlobRef { id: [4u8; 32], text: "h4".into() })), &mut reg);
    assert_eq!(lines(&step.events), vec!["h4: 1 rings:", "  open  (open — publicly accessible)"]);

    let (mut session, _) = Session::start(
        Request { req_id: None, op: Op::Tag { target: "h4".into(), rings: vec![], open: false } },
        &mut reg,
        me,
    );
    let step = session.resume(NodeReply::Resolved(Err("no such blob".into())), &mut reg);
    assert_eq!(error_of(&step.events).unwrap(), "no such blob");

    let (mut session, _) = Session::start(Request { req_id: None, op: Op::BlobList }, &mut reg, me);
    let listed = vec![ListedBlob { hash: BlobRef { id: [4u8; 32], text: "h4".into() }, name: "f".into(), ticket: Ok("TK".into()) }];
    let step = session.resume(NodeReply::Blobs(Ok(listed)), &mut reg);
    assert_eq!(lines(&step.events)[2], "    rings:  open");
}
