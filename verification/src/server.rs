//! The daemon's own decisions around requests: how a connection opens, and
//! how the server goes from serving to stopped.

use vstd::prelude::*;
use uuid::Uuid;
use crate::protocol::{Event, EventBody, EventView, Request};

verus! {

/// How long in-flight requests may run once shutdown was asked for, in
/// seconds, before they are aborted.
pub const DRAIN_TIMEOUT_SECS: u64 = 30;

/// The longest request or response line of the wire protocol, in bytes.
pub const MAX_LINE_BYTES: usize = 524288;

/// What to do with a new connection after reading its first line.
pub enum Opening {
    /// The client closed without sending anything: nothing to answer.
    Close,
    /// The line is not a request: answer with this error, and stop.
    Reject(Event),
    /// Serve this request.
    Serve(Request),
}

/// The message a request line over the maximum is refused with.
pub open spec fn request_too_long_text() -> Seq<char> {
    "request line exceeds the maximum of 524288 bytes"@
}

/// The message that stands in for a response line over the maximum.
pub open spec fn response_too_long_text() -> Seq<char> {
    "response line exceeds the maximum of 524288 bytes"@
}

/// Decides how a connection opens, from the number of bytes its first line
/// had (its newline included), the parse of that line, and a fresh id for an
/// error reply (a line that is refused carries no id of our own). A line over
/// the protocol's maximum is refused whatever it holds.
pub fn open_connection(bytes_read: usize, parsed: Result<Request, String>, fresh_id: Uuid) -> (r: Opening)
    ensures
        bytes_read == 0 ==> r is Close,
        bytes_read > MAX_LINE_BYTES ==> (r matches Opening::Reject(e) && e@ == (EventView {
            req_id: Some(fresh_id),
            body: EventBody::Error(request_too_long_text()),
        })),
        0 < bytes_read <= MAX_LINE_BYTES ==> match parsed {
            Ok(req) => r == Opening::Serve(req),
            Err(m) => r matches Opening::Reject(e) && e@ == (EventView {
                req_id: Some(fresh_id),
                body: EventBody::Error(m@),
            }),
        },
{
    if bytes_read == 0 {
        return Opening::Close;
    }
    if bytes_read > MAX_LINE_BYTES {
        return Opening::Reject(
            Event::error(Some(fresh_id), String::from_str("request line exceeds the maximum of 524288 bytes")),
        );
    }
    match parsed {
        Ok(req) => Opening::Serve(req),
        Err(m) => Opening::Reject(Event::error(Some(fresh_id), m)),
    }
}

/// Frames an encoded event as one line of the wire protocol: its bytes and a
/// newline, when the line (newline included) fits the maximum; `None` when it
/// would not.
pub fn frame_line(encoded: Vec<u8>) -> (r: Option<Vec<u8>>)
    ensures
        encoded@.len() + 1 <= MAX_LINE_BYTES ==> (r matches Some(line) && line@ == encoded@.push(10u8)),
        encoded@.len() + 1 > MAX_LINE_BYTES ==> r is None,
{
    if encoded.len() >= MAX_LINE_BYTES {
        return None;
    }
    let mut line = encoded;
    line.push(10u8);
    Some(line)
}

/// The event sent in place of a response line over the maximum: an error
/// for the same request, which ends its stream.
pub fn response_too_long(req_id: Option<Uuid>) -> (r: Event)
    ensures
        r@ == (EventView { req_id, body: EventBody::Error(response_too_long_text()) }),
{
    Event::error(req_id, String::from_str("response line exceeds the maximum of 524288 bytes"))
}

/// Where the server stands.
#[derive(Clone, Copy, Debug, PartialEq, Eq)]
pub enum ServerPhase {
    /// Accepting connections.
    Serving,
    /// Shutdown was asked for; in-flight requests may finish.
    Draining,
    /// The drain timed out; in-flight requests are being aborted.
    Aborting,
    /// Done.
    Stopped,
}

/// What happened to the server.
#[derive(Clone, Copy, Debug, PartialEq, Eq)]
pub enum ServerEvent {
    /// A connection was accepted.
    Accepted,
    /// Accepting failed.
    AcceptFailed,
    /// A request asked for shutdown.
    ShutdownNotified,
    /// Every in-flight request has ended.
    Drained,
    /// The drain took longer than allowed.
    DrainTimedOut,
}

/// What the server must do next.
#[derive(Clone, Copy, Debug, PartialEq, Eq)]
pub enum ServerAction {
    /// Handle the accepted connection in a task of its own.
    Spawn,
    /// Stop with the accept error.
    Fail,
    /// Stop accepting; wait for in-flight requests, at most this long.
    Drain { timeout_secs: u64 },
    /// Abort the in-flight requests and wait for them to end.
    AbortAll,
    /// Shut the node down.
    ShutdownNode,
}

/// The events the server can meet in each phase.
pub open spec fn server_expects(phase: ServerPhase, event: ServerEvent) -> bool {
    match phase {
        ServerPhase::Serving => event == ServerEvent::Accepted || event == ServerEvent::AcceptFailed
            || event == ServerEvent::ShutdownNotified,
        ServerPhase::Draining => event == ServerEvent::Drained || event == ServerEvent::DrainTimedOut,
        ServerPhase::Aborting => event == ServerEvent::Drained,
        ServerPhase::Stopped => false,
    }
}

/// The server's next phase and action.
pub open spec fn server_next(phase: ServerPhase, event: ServerEvent) -> (ServerPhase, ServerAction) {
    match event {
        ServerEvent::Accepted => (ServerPhase::Serving, ServerAction::Spawn),
        ServerEvent::AcceptFailed => (ServerPhase::Stopped, ServerAction::Fail),
        ServerEvent::ShutdownNotified => (ServerPhase::Draining, ServerAction::Drain { timeout_secs: DRAIN_TIMEOUT_SECS }),
        ServerEvent::DrainTimedOut => (ServerPhase::Aborting, ServerAction::AbortAll),
        ServerEvent::Drained => (ServerPhase::Stopped, ServerAction::ShutdownNode),
    }
}

/// The phase after a run of events, each one expected where it comes.
pub open spec fn server_run(phase: ServerPhase, events: Seq<ServerEvent>) -> ServerPhase
    decreases events.len(),
{
    if events.len() == 0 {
        phase
    } else {
        server_run(server_next(phase, events[0]).0, events.drop_first())
    }
}

/// Every event of the run is one the server can meet at that point.
pub open spec fn server_run_ok(phase: ServerPhase, events: Seq<ServerEvent>) -> bool
    decreases events.len(),
{
    if events.len() == 0 {
        true
    } else {
        server_expects(phase, events[0]) && server_run_ok(server_next(phase, events[0]).0, events.drop_first())
    }
}

/// Law: once the server has stopped serving (shutdown was asked for, or
/// accepting failed), no run of events brings it back to serving, and no
/// step of the run takes a connection.
pub proof fn lemma_never_serves_again(phase: ServerPhase, events: Seq<ServerEvent>)
    requires
        phase != ServerPhase::Serving,
        server_run_ok(phase, events),
    ensures
        server_run(phase, events) != ServerPhase::Serving,
        forall|i: int| 0 <= i < events.len() ==> #[trigger] events[i] != ServerEvent::Accepted,
    decreases events.len(),
{
    if events.len() > 0 {
        let next = server_next(phase, events[0]).0;
        lemma_never_serves_again(next, events.drop_first());
        assert forall|i: int| 0 <= i < events.len() implies #[trigger] events[i] != ServerEvent::Accepted by {
            if i > 0 {
                assert(events[i] == events.drop_first()[i - 1]);
            }
        }
    }
}

/// The server's next phase and action. Once the server stops serving it
/// never serves again, and only a serving server takes a connection.
pub fn server_step(phase: ServerPhase, event: ServerEvent) -> (r: (ServerPhase, ServerAction))
    requires
        server_expects(phase, event),
    ensures
        r == server_next(phase, event),
        phase != ServerPhase::Serving ==> r.0 != ServerPhase::Serving,
        r.1 == ServerAction::Spawn <==> (phase == ServerPhase::Serving && event == ServerEvent::Accepted),
        r.0 == ServerPhase::Serving <==> (phase == ServerPhase::Serving && event == ServerEvent::Accepted),
        event == ServerEvent::ShutdownNotified ==> r == (ServerPhase::Draining, ServerAction::Drain { timeout_secs: DRAIN_TIMEOUT_SECS }),
        event == ServerEvent::AcceptFailed ==> r == (ServerPhase::Stopped, ServerAction::Fail),
        event == ServerEvent::DrainTimedOut ==> r == (ServerPhase::Aborting, ServerAction::AbortAll),
        event == ServerEvent::Drained ==> r == (ServerPhase::Stopped, ServerAction::ShutdownNode),
{
    match event {
        ServerEvent::Accepted => (ServerPhase::Serving, ServerAction::Spawn),
        ServerEvent::AcceptFailed => (ServerPhase::Stopped, ServerAction::Fail),
        ServerEvent::ShutdownNotified => (ServerPhase::Draining, ServerAction::Drain { timeout_secs: DRAIN_TIMEOUT_SECS }),
        ServerEvent::DrainTimedOut => (ServerPhase::Aborting, ServerAction::AbortAll),
        ServerEvent::Drained => (ServerPhase::Stopped, ServerAction::ShutdownNode),
    }
}

} // verus!
