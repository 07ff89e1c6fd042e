//! The wire protocol between a client and the daemon.
//!
//! Each connection carries exactly one [`Request`]; the daemon answers with a
//! stream of [`Event`]s that always ends with `Done` or `Error`, each carrying
//! the request's `req_id`, so that one connection can multiplex requests.

use vstd::prelude::*;
use uuid::Uuid;
use crate::error::{daemon_error_text, DaemonError};

verus! {

/// An operation a client asks the daemon to perform.
#[derive(Debug)]
pub enum Op {
    /// Print this node's peer id.
    NodeId,
    /// Import a file and tag it with rings (or as open).
    Import { path: String, rings: Vec<String>, open: bool },
    /// List the blobs in the local store.
    BlobList,
    /// Remove a blob (given by path or hash) and its tags.
    BlobRemove { target: String },
    /// Tag a blob (given by path or hash) with rings, or as open.
    Tag { target: String, rings: Vec<String>, open: bool },
    /// Show the rings a blob (given by path or hash) is tagged with.
    Tags { target: String },
    /// Create a ring.
    RingNew { name: String },
    /// List the rings.
    RingList,
    /// Add a peer to a ring, with an optional nickname.
    RingAdd { ring: String, peer: String, nickname: Option<String> },
    /// Remove a peer from a ring.
    RingRemove { ring: String, peer: String },
    /// List the members of a ring.
    RingMembers { ring: String },
    /// Download a blob from a share ticket.
    Receive { ticket: String, dest: String, force_overwrite: bool },
    /// Stop the daemon.
    Shutdown,
}

/// A request: one operation, and the id its events are tagged with.
#[derive(Debug)]
pub struct Request {
    pub req_id: Option<Uuid>,
    pub op: Op,
}

/// What an event says.
#[derive(Debug)]
pub enum EventKind {
    /// A line of text that would have been printed to stdout.
    Line { text: String },
    /// Download/upload progress for long-running transfers.
    Progress { done: u64, total: u64 },
    /// The request completed successfully.
    Done,
    /// The request failed; no further events follow.
    Error { message: String },
}

/// An event streamed from the daemon to the client.
#[derive(Debug)]
pub struct Event {
    pub req_id: Option<Uuid>,
    pub kind: EventKind,
}

/// What an event says, as mathematical values.
pub enum EventBody {
    Line(Seq<char>),
    Progress(u64, u64),
    Done,
    Error(Seq<char>),
}

/// An event as mathematical values.
pub struct EventView {
    pub req_id: Option<Uuid>,
    pub body: EventBody,
}

impl View for Event {
    type V = EventView;

    open spec fn view(&self) -> EventView {
        EventView {
            req_id: self.req_id,
            body: match self.kind {
                EventKind::Line { text } => EventBody::Line(text@),
                EventKind::Progress { done, total } => EventBody::Progress(done, total),
                EventKind::Done => EventBody::Done,
                EventKind::Error { message } => EventBody::Error(message@),
            },
        }
    }
}

/// `Done` and `Error` end a request's stream.
pub open spec fn is_terminal(b: EventBody) -> bool {
    b is Done || b is Error
}

/// The texts of a list of strings.
pub open spec fn texts(v: Seq<String>) -> Seq<Seq<char>> {
    v.map_values(|s: String| s@)
}

/// The texts of a handler's lines, or its failure.
pub open spec fn lines_of(r: Result<Vec<String>, DaemonError>) -> Result<Seq<Seq<char>>, DaemonError> {
    match r {
        Ok(v) => Ok(texts(v@)),
        Err(e) => Err(e),
    }
}

/// The views of a list of events.
pub open spec fn event_views(v: Seq<Event>) -> Seq<EventView> {
    v.map_values(|e: Event| e@)
}

/// A `Line` event.
pub open spec fn line_event(req_id: Option<Uuid>, text: Seq<char>) -> EventView {
    EventView { req_id, body: EventBody::Line(text) }
}

/// `Line` events for each text, in order.
pub open spec fn line_events(req_id: Option<Uuid>, lines: Seq<Seq<char>>) -> Seq<EventView> {
    Seq::new(lines.len(), |i: int| line_event(req_id, lines[i]))
}

/// The event that ends a request: `Done`, or `Error` with the failure's message.
pub open spec fn terminal_event(req_id: Option<Uuid>, failure: Option<DaemonError>) -> EventView {
    match failure {
        None => EventView { req_id, body: EventBody::Done },
        Some(e) => EventView { req_id, body: EventBody::Error(daemon_error_text(e)) },
    }
}

/// The stream of a request that printed `lines` and then ended with `failure`
/// (none: success).
pub open spec fn reply_stream(req_id: Option<Uuid>, lines: Seq<Seq<char>>, failure: Option<DaemonError>) -> Seq<EventView> {
    line_events(req_id, lines).push(terminal_event(req_id, failure))
}

/// Every event carries `req_id`.
pub open spec fn all_tagged(evs: Seq<EventView>, req_id: Option<Uuid>) -> bool {
    forall|i: int| 0 <= i < evs.len() ==> #[trigger] evs[i].req_id == req_id
}

/// No event ends the stream.
pub open spec fn none_terminal(evs: Seq<EventView>) -> bool {
    forall|i: int| 0 <= i < evs.len() ==> !is_terminal(#[trigger] evs[i].body)
}

/// A complete answer to a request: at least one event, all tagged with the
/// request's id, the last one `Done` or `Error` and no earlier one either.
pub open spec fn well_formed_stream(evs: Seq<EventView>, req_id: Option<Uuid>) -> bool {
    &&& evs.len() > 0
    &&& all_tagged(evs, req_id)
    &&& is_terminal(evs.last().body)
    &&& none_terminal(evs.drop_last())
}

impl Event {
    /// A `Line` event.
    pub fn line(req_id: Option<Uuid>, text: String) -> (r: Event)
        ensures
            r@ == line_event(req_id, text@),
    {
        Event { req_id, kind: EventKind::Line { text } }
    }

    /// A `Progress` event.
    pub fn progress(req_id: Option<Uuid>, done: u64, total: u64) -> (r: Event)
        ensures
            r@ == (EventView { req_id, body: EventBody::Progress(done, total) }),
    {
        Event { req_id, kind: EventKind::Progress { done, total } }
    }

    /// A `Done` event.
    pub fn done(req_id: Option<Uuid>) -> (r: Event)
        ensures
            r@ == (EventView { req_id, body: EventBody::Done }),
    {
        Event { req_id, kind: EventKind::Done }
    }

    /// An `Error` event.
    pub fn error(req_id: Option<Uuid>, message: String) -> (r: Event)
        ensures
            r@ == (EventView { req_id, body: EventBody::Error(message@) }),
    {
        Event { req_id, kind: EventKind::Error { message } }
    }
}

/// The lines a handler printed, and how it ended.
#[derive(Debug)]
pub struct Reply {
    pub lines: Vec<String>,
    pub failure: Option<DaemonError>,
}

/// A reply as mathematical values.
pub struct ReplyView {
    pub lines: Seq<Seq<char>>,
    pub failure: Option<DaemonError>,
}

impl View for Reply {
    type V = ReplyView;

    open spec fn view(&self) -> ReplyView {
        ReplyView { lines: texts(self.lines@), failure: self.failure }
    }
}

/// The reply of a handler that either prints `lines` or fails before
/// printing anything.
pub open spec fn result_reply(r: Result<Seq<Seq<char>>, DaemonError>) -> ReplyView {
    match r {
        Ok(lines) => ReplyView { lines, failure: None },
        Err(e) => ReplyView { lines: seq![], failure: Some(e) },
    }
}

/// The reply of a handler that either prints its lines or fails.
pub fn reply_of(r: Result<Vec<String>, DaemonError>) -> (out: Reply)
    ensures
        out@ == result_reply(lines_of(r)),
{
    match r {
        Ok(lines) => Reply { lines, failure: None },
        Err(e) => {
            let out = Reply { lines: Vec::new(), failure: Some(e) };
            assert(out@.lines =~= seq![]);
            out
        },
    }
}

/// `Line` events for `lines`, then `Done` (no failure) or `Error`.
pub fn reply_events(req_id: Option<Uuid>, reply: Reply) -> (r: Vec<Event>)
    ensures
        event_views(r@) == reply_stream(req_id, texts(reply.lines@), reply.failure),
{
    let Reply { lines, failure } = reply;
    let mut out: Vec<Event> = Vec::new();
    let n = lines.len();
    let mut i: usize = 0;
    while i < n
        invariant
            n == lines@.len(),
            i <= n,
            event_views(out@) == line_events(req_id, texts(lines@)).subrange(0, i as int),
        decreases n - i,
    {
        let text = lines[i].clone();
        let ev = Event::line(req_id, text);
        let ghost before = out@;
        out.push(ev);
        assert(event_views(out@) =~= event_views(before).push(ev@));
        assert(texts(lines@)[i as int] == lines@[i as int]@);
        i = i + 1;
        assert(event_views(out@) =~= line_events(req_id, texts(lines@)).subrange(0, i as int));
    }
    let last = match failure {
        None => Event::done(req_id),
        Some(e) => Event::error(req_id, e.message()),
    };
    let ghost before = out@;
    out.push(last);
    assert(event_views(out@) =~= event_views(before).push(last@));
    assert(line_events(req_id, texts(lines@)).subrange(0, n as int) =~= line_events(req_id, texts(lines@)));
    assert(event_views(out@) =~= reply_stream(req_id, texts(lines@), failure));
    out
}

/// A reply's stream is a complete answer.
pub proof fn lemma_reply_stream_well_formed(req_id: Option<Uuid>, lines: Seq<Seq<char>>, failure: Option<DaemonError>)
    ensures
        well_formed_stream(reply_stream(req_id, lines, failure), req_id),
{
    let s = reply_stream(req_id, lines, failure);
    assert(s.drop_last() =~= line_events(req_id, lines));
}

/// Law: a reply's lines go out as `Line` events, in order, and then: a
/// request that succeeded is answered by exactly one `Done`, its last event,
/// and no `Error`; one that failed by no `Done` and exactly one
/// `Error`, its last event carrying the failure's message; every event
/// carries the request's id.
pub proof fn lemma_reply_stream_outcome(req_id: Option<Uuid>, lines: Seq<Seq<char>>, failure: Option<DaemonError>)
    ensures
        reply_stream(req_id, lines, failure).len() == lines.len() + 1,
        forall|i: int|
            0 <= i < lines.len() ==> #[trigger] reply_stream(req_id, lines, failure)[i] == (EventView {
                req_id,
                body: EventBody::Line(lines[i]),
            }),
        all_tagged(reply_stream(req_id, lines, failure), req_id),
        failure is None ==> reply_stream(req_id, lines, failure).last().body is Done,
        failure is None ==> forall|i: int|
            0 <= i < reply_stream(req_id, lines, failure).len() ==> !(#[trigger] reply_stream(req_id, lines, failure)[i].body is Error),
        forall|i: int|
            0 <= i < reply_stream(req_id, lines, failure).len() - 1 ==> !is_terminal(#[trigger] reply_stream(req_id, lines, failure)[i].body),
        failure matches Some(e) ==> reply_stream(req_id, lines, failure).last().body == EventBody::Error(daemon_error_text(e)),
        failure is Some ==> forall|i: int|
            0 <= i < reply_stream(req_id, lines, failure).len() ==> !(#[trigger] reply_stream(req_id, lines, failure)[i].body is Done),
{
    let s = reply_stream(req_id, lines, failure);
    assert forall|i: int| 0 <= i < s.len() - 1 implies !is_terminal(#[trigger] s[i].body) by {
        assert(s[i] == line_event(req_id, lines[i]));
    }
    assert forall|i: int| 0 <= i < s.len() implies #[trigger] s[i].req_id == req_id by {
        if i < s.len() - 1 {
            assert(s[i] == line_event(req_id, lines[i]));
        }
    }
}

} // verus!
