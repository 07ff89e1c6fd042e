use ringdrop::error::DaemonError;
use ringdrop::protocol::{reply_events, Event, EventKind, Reply};
use uuid::Uuid;

#[test]
fn event_constructors() {
    let id = Some(Uuid::from_u128(5));
    assert!(matches!(Event::line(id, "hi".into()).kind, EventKind::Line { ref text } if text == "hi"));
    assert!(matches!(Event::progress(id, 1, 2).kind, EventKind::Progress { done: 1, total: 2 }));
    assert!(matches!(Event::done(id).kind, EventKind::Done));
    let e = Event::error(None, "bad".into());
    assert_eq!(e.req_id, None);
    assert!(matches!(e.kind, EventKind::Error { ref message } if message == "bad"));
}

#[test]
fn reply_stream_ends_once() {
    let id = Some(Uuid::from_u128(6));
    let events = reply_events(id, Reply { lines: vec!["a".into(), "b".into()], failure: None });
    assert_eq!(events.len(), 3);
    assert!(events.iter().all(|e| e.req_id == id));
    assert!(matches!(events[2].kind, EventKind::Done));
    assert!(matches!(events[0].kind, EventKind::Line { .. }));

    let failed = reply_events(id, Reply { lines: vec![], failure: Some(DaemonError::AddSelf) });
    assert_eq!(failed.len(), 1);
    assert!(matches!(failed[0].kind, EventKind::Error { ref message } if message == "cannot add yourself to a ring"));
}
