use ringdrop::protocol::{EventKind, Op, Request};
use ringdrop::server::{
    frame_line, open_connection, response_too_long, server_step, Opening, ServerAction, ServerEvent, ServerPhase,
    DRAIN_TIMEOUT_SECS, MAX_LINE_BYTES,
};
use uuid::Uuid;

#[test]
fn empty_connection_is_closed() {
    let parsed = Ok(Request { req_id: None, op: Op::NodeId });
    assert!(matches!(open_connection(0, parsed, Uuid::from_u128(1)), Opening::Close));
}

#[test]
fn malformed_request_gets_one_error() {
    let fresh = Uuid::from_u128(9);
    match open_connection(5, Err("expected value".to_string()), fresh) {
        Opening::Reject(event) => {
            assert_eq!(event.req_id, Some(fresh));
            assert!(matches!(event.kind, EventKind::Error { ref message } if message == "expected value"));
        }
        _ => panic!("expected a rejection"),
    }
}

#[test]
fn request_is_served() {
    let id = Uuid::from_u128(3);
    match open_connection(10, Ok(Request { req_id: Some(id), op: Op::RingList }), Uuid::from_u128(4)) {
        Opening::Serve(req) => {
            assert_eq!(req.req_id, Some(id));
            assert!(matches!(req.op, Op::RingList));
        }
        _ => panic!("expected the request to be served"),
    }
}

#[test]
fn server_lifecycle() {
    assert_eq!(server_step(ServerPhase::Serving, ServerEvent::Accepted), (ServerPhase::Serving, ServerAction::Spawn));
    assert_eq!(
        server_step(ServerPhase::Serving, ServerEvent::ShutdownNotified),
        (ServerPhase::Draining, ServerAction::Drain { timeout_secs: 30 })
    );
    assert_eq!(DRAIN_TIMEOUT_SECS, 30);
    assert_eq!(server_step(ServerPhase::Draining, ServerEvent::Drained), (ServerPhase::Stopped, ServerAction::ShutdownNode));
    assert_eq!(
        server_step(ServerPhase::Draining, ServerEvent::DrainTimedOut),
        (ServerPhase::Aborting, ServerAction::AbortAll)
    );
    assert_eq!(server_step(ServerPhase::Aborting, ServerEvent::Drained), (ServerPhase::Stopped, ServerAction::ShutdownNode));
    assert_eq!(server_step(ServerPhase::Serving, ServerEvent::AcceptFailed), (ServerPhase::Stopped, ServerAction::Fail));
    assert_eq!(MAX_LINE_BYTES, 512 * 1024);
}

#[test]
fn no_connection_after_shutdown() {
    let (mut phase, _) = server_step(ServerPhase::Serving, ServerEvent::ShutdownNotified);
    for event in [ServerEvent::DrainTimedOut, ServerEvent::Drained] {
        let (next, action) = server_step(phase, event);
        assert_ne!(action, ServerAction::Spawn);
        assert_ne!(next, ServerPhase::Serving);
        phase = next;
    }
    assert_eq!(phase, ServerPhase::Stopped);
}

#[test]
fn request_line_over_the_maximum_is_refused() {
    let fresh = Uuid::from_u128(7);
    let parsed = Ok(Request { req_id: Some(Uuid::from_u128(8)), op: Op::RingList });
    match open_connection(MAX_LINE_BYTES + 1, parsed, fresh) {
        Opening::Reject(event) => {
            assert_eq!(event.req_id, Some(fresh));
            assert!(matches!(event.kind, EventKind::Error { ref message }
                if message == "request line exceeds the maximum of 524288 bytes"));
        }
        _ => panic!("expected a rejection"),
    }
}

#[test]
fn request_line_at_the_maximum_is_served() {
    let parsed = Ok(Request { req_id: None, op: Op::NodeId });
    assert!(matches!(open_connection(MAX_LINE_BYTES, parsed, Uuid::from_u128(1)), Opening::Serve(_)));
}

#[test]
fn response_lines_are_framed_within_the_maximum() {
    assert_eq!(frame_line(b"{}".to_vec()), Some(b"{}\n".to_vec()));
    let fits = vec![b'a'; MAX_LINE_BYTES - 1];
    assert_eq!(frame_line(fits).map(|l| l.len()), Some(MAX_LINE_BYTES));
    assert_eq!(frame_line(vec![b'a'; MAX_LINE_BYTES]), None);
    let id = Some(Uuid::from_u128(5));
    let event = response_too_long(id);
    assert_eq!(event.req_id, id);
    assert!(matches!(event.kind, EventKind::Error { ref message }
        if message == "response line exceeds the maximum of 524288 bytes"));
}
