//! One request's handling, from its operation to the last event it is
//! answered with.
//!
//! A [`Session`] decides; the caller does the node's work. `Session::start`
//! takes the request and answers with a [`Step`]: the events to send, and
//! what comes next — the request is finished, shutdown was asked for, or the
//! node must do some work ([`NodeCall`]) whose result ([`NodeReply`]) is
//! handed to `Session::resume`. Every step sends events tagged with the
//! request's id, and the step that finishes the request ends with its only
//! `Done` or `Error`.

use vstd::prelude::*;
use iroh_rings::RedbRegistry;
use uuid::Uuid;
use crate::blobs::{
    import_registry_ok, import_report, tag_registry_ok, tag_report, tagged_lines, tagged_text, ticket_text,
    ImportRegistry, TagRegistry, Wording, existing_tags_text, lemma_blob_list_answer, lemma_tags_answer_lists_each_ring,
    blob_list_answers, blob_list_lines, blob_removed_reply, effective_rings, import_answers, import_lines,
    node_failure, removed_text, tag_answers, tag_lines, tags_answers, tags_lines, untag_blob, failure_reply,
    BlobRef, ListedBlob, Surface,
};
use crate::error::{DaemonError, TransferFailure};
use crate::peer::PeerId;
use crate::protocol::{
    all_tagged, event_views, is_terminal, line_event, line_events, terminal_event, none_terminal, reply_events, reply_of,
    reply_stream, result_reply, texts, lemma_reply_stream_outcome, well_formed_stream, Event, EventBody, EventView, Op, Reply, ReplyView, Request,
};
use crate::registry::{lemma_tag_shows_ring, lists_rings, member_listing, registry_valid, registry_view, stored_rings, tagged, tagged_all, untagged, RegistryView};
use crate::receive::{fetching_text, receive_intro_text, receive_outcome, receive_outcome_report, receive_preflight, TicketInfo};
use crate::outside::endpoint_id_from_str;
use crate::rings::{
    lemma_members_answer_lists_each_member, lemma_ring_add_answer, lemma_ring_list_answer, lemma_ring_new_answer,
    lemma_ring_remove_answer,
    opt_text, ring_add_answers, ring_add_lines, ring_list_answers, ring_list_lines, ring_members_answers,
    ring_members_lines, ring_new_answers, ring_new_lines, ring_remove_answers, ring_remove_lines,
};
use crate::text::{contains_text, decimal, hex_lower, join};

verus! {

/// Work only the node can do, asked for between steps.
pub enum NodeCall {
    /// Import the file at `path` and make its share ticket.
    Import { path: String },
    /// List the blobs of the store and make each one's share ticket.
    ListBlobs,
    /// Find the blob `target` names: a path that exists is imported, anything
    /// else is parsed as a hash.
    Resolve { target: String },
    /// Delete the blob from the store.
    Delete { hash: BlobRef },
    /// Parse the share ticket, choose the destination file (inside `dest`
    /// when it is a directory, named by `download_file_name_of`) and tell
    /// whether it exists.
    PrepareReceive { ticket: String, dest: String },
    /// Download the prepared ticket to the prepared destination, sending a
    /// progress event (`Session::progress`) for each report of progress.
    Download,
}

/// The result of the node's work.
pub enum NodeReply {
    /// The imported blob and its share ticket, or why importing failed.
    Imported(Result<(BlobRef, Result<String, String>), String>),
    /// The store's blobs, or why listing failed.
    Blobs(Result<Vec<ListedBlob>, String>),
    /// The blob named, or why it could not be found.
    Resolved(Result<BlobRef, String>),
    /// Whether the blob was deleted.
    Deleted(Result<(), String>),
    /// The ticket, the destination's text and whether it exists; or why the
    /// ticket did not parse.
    Prepared(Result<(TicketInfo, String, bool), String>),
    /// Whether the download succeeded.
    Downloaded(Result<(), TransferFailure>),
}

/// Where a request stands.
pub enum Phase {
    /// Waiting for an import, to tag with these rings (or as open).
    Importing { rings: Vec<String>, open: bool },
    /// Waiting for the store's listing.
    Listing,
    /// Waiting for the blob to remove.
    Removing,
    /// Waiting for the blob's deletion.
    Deleting { hash: BlobRef },
    /// Waiting for the blob to tag with these rings (or as open).
    Tagging { rings: Vec<String>, open: bool },
    /// Waiting for the blob whose tags to show.
    Inspecting,
    /// Waiting for the ticket and destination of a download.
    Preparing { force_overwrite: bool },
    /// Waiting for a download.
    Downloading,
    /// Answered.
    Finished,
}

/// A request being answered.
pub struct Session {
    pub req_id: Option<Uuid>,
    pub node_id: PeerId,
    pub phase: Phase,
}

/// What follows a step.
pub enum Next {
    /// The node must do this work; its result resumes the session.
    Await(NodeCall),
    /// The request is answered.
    Finished,
    /// The request is answered, and the daemon must shut down.
    ShutdownRequested,
}

/// The events to send now, and what follows.
pub struct Step {
    pub events: Vec<Event>,
    pub next: Next,
}

/// The reply the session expects in each phase.
pub open spec fn expects(phase: Phase, reply: NodeReply) -> bool {
    match phase {
        Phase::Importing { .. } => reply is Imported,
        Phase::Listing => reply is Blobs,
        Phase::Removing => reply is Resolved,
        Phase::Deleting { .. } => reply is Deleted,
        Phase::Tagging { .. } => reply is Resolved,
        Phase::Inspecting => reply is Resolved,
        Phase::Preparing { .. } => reply is Prepared,
        Phase::Downloading => reply is Downloaded,
        Phase::Finished => false,
    }
}

/// A step keeps the protocol: all its events carry the request's id; a step
/// that waits sends no `Done` or `Error`; a step that ends the request sends
/// at least one event, the last `Done` or `Error` and no earlier one.
pub open spec fn step_ok(events: Seq<EventView>, next: Next, req_id: Option<Uuid>) -> bool {
    &&& all_tagged(events, req_id)
    &&& match next {
        Next::Await(_) => none_terminal(events),
        _ => events.len() > 0 && is_terminal(events.last().body) && none_terminal(events.drop_last()),
    }
}

/// The phase a session is in while `next` is outstanding.
pub open spec fn waiting(phase: Phase, next: Next) -> bool {
    match next {
        Next::Await(_) => !(phase is Finished),
        _ => phase is Finished,
    }
}

/// The stream of a reply that ends the request.
pub open spec fn answers_with(events: Seq<EventView>, req_id: Option<Uuid>, r: ReplyView) -> bool {
    events == reply_stream(req_id, r.lines, r.failure)
}

/// What starting a request does, by its operation: the events sent, what
/// follows, the phase the session waits in (holding the request's own
/// fields), and the registry's tables before and after.
pub open spec fn started(
    request: Request,
    node_id: PeerId,
    phase: Phase,
    events: Seq<EventView>,
    next: Next,
    before: RegistryView,
    after: RegistryView,
) -> bool {
    &&& !(request.op is RingNew || request.op is RingAdd || request.op is RingRemove) ==> after == before
    &&& match request.op {
        Op::NodeId => next is Finished && answers_with(
            events,
            request.req_id,
            ReplyView { lines: seq![hex_lower(node_id.bytes@)], failure: None },
        ),
        Op::Shutdown => next is ShutdownRequested && events == seq![
            EventView { req_id: request.req_id, body: EventBody::Done },
        ],
        Op::RingNew { name } => next is Finished && exists|res|
            #[trigger] ring_new_answers(name@, res, before, after)
            && answers_with(events, request.req_id, result_reply(res)),
        Op::RingList => next is Finished && exists|res| #[trigger] ring_list_answers(res, before)
            && answers_with(events, request.req_id, result_reply(res)),
        Op::RingAdd { ring, peer, nickname } => next is Finished && exists|res|
            #[trigger] ring_add_answers(
                node_id,
                ring@,
                peer@,
                opt_string(nickname),
                res,
                before,
                after,
            )
            && answers_with(events, request.req_id, result_reply(res)),
        Op::RingRemove { ring, peer } => next is Finished && exists|res|
            #[trigger] ring_remove_answers(ring@, peer@, res, before, after)
            && answers_with(events, request.req_id, result_reply(res)),
        Op::RingMembers { ring } => next is Finished && exists|res|
            #[trigger] ring_members_answers(ring@, res, before)
            && answers_with(events, request.req_id, result_reply(res)),
        Op::Import { path, rings, open } => events.len() == 0
            && (next matches Next::Await(NodeCall::Import { path: p }) && p == path)
            && (phase matches Phase::Importing { rings: rs, open: o } && rs == rings && o == open),
        Op::BlobList => events.len() == 0 && (next matches Next::Await(NodeCall::ListBlobs))
            && phase is Listing,
        Op::BlobRemove { target } => events.len() == 0
            && (next matches Next::Await(NodeCall::Resolve { target: t }) && t == target)
            && phase is Removing,
        Op::Tag { target, rings, open } => events.len() == 0
            && (next matches Next::Await(NodeCall::Resolve { target: t }) && t == target)
            && (phase matches Phase::Tagging { rings: rs, open: o } && rs == rings && o == open),
        Op::Tags { target } => events.len() == 0
            && (next matches Next::Await(NodeCall::Resolve { target: t }) && t == target)
            && phase is Inspecting,
        Op::Receive { ticket, dest, force_overwrite } => events.len() == 0
            && (next matches Next::Await(NodeCall::PrepareReceive { ticket: t, dest: d }) && t == ticket
            && d == dest)
            && (phase matches Phase::Preparing { force_overwrite: f } && f == force_overwrite),
    }
}

impl Session {
    /// Starts answering `request`. Operations that need no node work are
    /// answered at once; the others ask for it.
    pub fn start(request: Request, registry: &mut RedbRegistry, node_id: PeerId) -> (r: (Session, Step))
        requires
            registry_valid(registry_view(*old(registry))),
        ensures
            registry_valid(registry_view(*final(registry))),
            !(request.op is RingNew || request.op is RingAdd || request.op is RingRemove) ==> registry_view(
                *final(registry),
            ) == registry_view(*old(registry)),
            r.0.req_id == request.req_id,
            r.0.node_id == node_id,
            step_ok(event_views(r.1.events@), r.1.next, request.req_id),
            waiting(r.0.phase, r.1.next),
            started(
                request,
                node_id,
                r.0.phase,
                event_views(r.1.events@),
                r.1.next,
                registry_view(*old(registry)),
                registry_view(*final(registry)),
            ),
    {
        let req_id = request.req_id;
        let await_node = |phase: Phase, call: NodeCall| -> (r: (Session, Step))
            ensures
                r.0.phase == phase,
                r.0.req_id == req_id,
                r.0.node_id == node_id,
                r.1.events@.len() == 0,
                r.1.next == Next::Await(call),
        {
            (Session { req_id, node_id, phase }, Step { events: Vec::new(), next: Next::Await(call) })
        };
        match request.op {
            Op::NodeId => {
                let mut lines: Vec<String> = Vec::new();
                lines.push(node_id.to_text());
                let reply = Reply { lines, failure: None };
                assert(reply@.lines =~= seq![hex_lower(node_id.bytes@)]);
                Session::finish(req_id, node_id, reply)
            },
            Op::Shutdown => {
                let mut events: Vec<Event> = Vec::new();
                events.push(Event::done(req_id));
                let r = (Session { req_id, node_id, phase: Phase::Finished }, Step { events, next: Next::ShutdownRequested });
                assert(event_views(r.1.events@) =~= seq![EventView { req_id, body: EventBody::Done }]);
                assert(event_views(r.1.events@).drop_last() =~= seq![]);
                r
            },
            Op::RingNew { name } => {
                let res = ring_new_lines(registry, name.as_str());
                Session::finish(req_id, node_id, reply_of(res))
            },
            Op::RingList => {
                let res = ring_list_lines(registry);
                Session::finish(req_id, node_id, reply_of(res))
            },
            Op::RingAdd { ring, peer, nickname } => {
                let nick: Option<&str> = match &nickname {
                    Some(n) => Some(n.as_str()),
                    None => None,
                };
                assert(opt_text(nick) == opt_string(nickname));
                let res = ring_add_lines(registry, node_id, ring.as_str(), peer.as_str(), nick);
                Session::finish(req_id, node_id, reply_of(res))
            },
            Op::RingRemove { ring, peer } => {
                let res = ring_remove_lines(registry, ring.as_str(), peer.as_str());
                Session::finish(req_id, node_id, reply_of(res))
            },
            Op::RingMembers { ring } => {
                let res = ring_members_lines(registry, ring.as_str());
                Session::finish(req_id, node_id, reply_of(res))
            },
            Op::Import { path, rings, open } => await_node(Phase::Importing { rings, open }, NodeCall::Import { path }),
            Op::BlobList => await_node(Phase::Listing, NodeCall::ListBlobs),
            Op::BlobRemove { target } => await_node(Phase::Removing, NodeCall::Resolve { target }),
            Op::Tag { target, rings, open } => await_node(Phase::Tagging { rings, open }, NodeCall::Resolve { target }),
            Op::Tags { target } => await_node(Phase::Inspecting, NodeCall::Resolve { target }),
            Op::Receive { ticket, dest, force_overwrite } => await_node(
                Phase::Preparing { force_overwrite },
                NodeCall::PrepareReceive { ticket, dest },
            ),
        }
    }

    /// Continues with the result of the node's work. An import, listing or
    /// tagging is reported from the registry's answers; a removal goes on to
    /// delete the blob once it is untagged; a download starts once its
    /// destination may be written; a download's end is reported.
    pub fn resume(&mut self, reply: NodeReply, registry: &mut RedbRegistry) -> (r: Step)
        requires
            expects(old(self).phase, reply),
            registry_valid(registry_view(*old(registry))),
        ensures
            registry_valid(registry_view(*final(registry))),
            final(self).req_id == old(self).req_id,
            final(self).node_id == old(self).node_id,
            step_ok(event_views(r.events@), r.next, old(self).req_id),
            waiting(final(self).phase, r.next),
            resumed(
                old(self).phase,
                reply,
                old(self).node_id,
                old(self).req_id,
                final(self).phase,
                event_views(r.events@),
                r.next,
                registry_view(*old(registry)),
                registry_view(*final(registry)),
            ),
    {
        let req_id = self.req_id;
        let node_id = self.node_id;
        let mut phase = Phase::Finished;
        std::mem::swap(&mut phase, &mut self.phase);
        match (phase, reply) {
            (Phase::Importing { rings, open }, NodeReply::Imported(imported)) => {
                let reply = match imported {
                    Err(m) => node_failure(m),
                    Ok((hash, ticket)) => import_lines(registry, &hash, &rings, open, &ticket, Surface::Daemon),
                };
                Session::end(req_id, reply)
            },
            (Phase::Listing, NodeReply::Blobs(listed)) => {
                let reply = blob_list_lines(registry, &listed, Surface::Daemon);
                Session::end(req_id, reply)
            },
            (Phase::Removing, NodeReply::Resolved(resolved)) => {
                match resolved {
                    Err(m) => Session::end(req_id, node_failure(m)),
                    Ok(hash) => match untag_blob(registry, &hash) {
                        Err(e) => {
                            let r = Session::end(req_id, failure_reply(e));
                            assert(untag_refusal(e));
                            r
                        },
                        Ok(()) => {
                            self.phase = Phase::Deleting { hash: hash.clone_ref() };
                            Step { events: Vec::new(), next: Next::Await(NodeCall::Delete { hash }) }
                        },
                    },
                }
            },
            (Phase::Deleting { hash }, NodeReply::Deleted(deleted)) => {
                Session::end(req_id, blob_removed_reply(&hash, deleted, Surface::Daemon))
            },
            (Phase::Tagging { rings, open }, NodeReply::Resolved(resolved)) => {
                let reply = match resolved {
                    Err(m) => node_failure(m),
                    Ok(hash) => tag_lines(registry, &hash, &rings, open),
                };
                Session::end(req_id, reply)
            },
            (Phase::Inspecting, NodeReply::Resolved(resolved)) => {
                let reply = match resolved {
                    Err(m) => node_failure(m),
                    Ok(hash) => tags_lines(registry, &hash),
                };
                Session::end(req_id, reply)
            },
            (Phase::Preparing { force_overwrite }, NodeReply::Prepared(prepared)) => {
                match prepared {
                    Err(m) => Session::end(req_id, node_failure(m)),
                    Ok((ticket, dest, exists)) => match receive_preflight(&ticket, dest.as_str(), exists, force_overwrite) {
                        Err(e) => {
                            let r = Session::end(req_id, failure_reply(e));
                            assert(event_views(r.events@).len() == 1);
                            assert(event_views(r.events@)[0] == (EventView {
                                req_id,
                                body: EventBody::Error("destination '"@ + dest@
                                    + "' already exists; use --dest to choose a different location or --force-overwrite to replace it"@),
                            }));
                            r
                        },
                        Ok(lines) => {
                            let events = line_stream(req_id, lines);
                            self.phase = Phase::Downloading;
                            Step { events, next: Next::Await(NodeCall::Download) }
                        },
                    },
                }
            },
            (Phase::Downloading, NodeReply::Downloaded(result)) => {
                Session::end(req_id, receive_outcome(result, node_id))
            },
            (_, _) => {
                assert(false);
                Step { events: Vec::new(), next: Next::Finished }
            },
        }
    }

    /// A progress report of the download under way.
    pub fn progress(&self, done: u64, total: u64) -> (r: Event)
        requires
            self.phase is Downloading,
        ensures
            r@ == (EventView { req_id: self.req_id, body: EventBody::Progress(done, total) }),
            !is_terminal(r@.body),
    {
        Event::progress(self.req_id, done, total)
    }

    /// The step that ends the request with `reply`.
    fn end(req_id: Option<Uuid>, reply: Reply) -> (r: Step)
        ensures
            r.next is Finished,
            answers_with(event_views(r.events@), req_id, reply@),
            step_ok(event_views(r.events@), r.next, req_id),
    {
        let ghost view = reply@;
        let events = reply_events(req_id, reply);
        proof { lemma_reply_step_ok(req_id, view.lines, view.failure); }
        Step { events, next: Next::Finished }
    }

    /// Ends the request with `reply`.
    fn finish(req_id: Option<Uuid>, node_id: PeerId, reply: Reply) -> (r: (Session, Step))
        ensures
            r.0.req_id == req_id,
            r.0.node_id == node_id,
            r.0.phase is Finished,
            r.1.next is Finished,
            answers_with(event_views(r.1.events@), req_id, reply@),
            step_ok(event_views(r.1.events@), r.1.next, req_id),
    {
        let ghost view = reply@;
        let events = reply_events(req_id, reply);
        proof { lemma_reply_step_ok(req_id, view.lines, view.failure); }
        (Session { req_id, node_id, phase: Phase::Finished }, Step { events, next: Next::Finished })
    }
}

/// `Line` events for `lines`, none ending the request.
fn line_stream(req_id: Option<Uuid>, lines: Vec<String>) -> (r: Vec<Event>)
    ensures
        event_views(r@) == line_events(req_id, texts(lines@)),
{
    let n = lines.len();
    let mut out: Vec<Event> = Vec::new();
    let mut i: usize = 0;
    while i < n
        invariant
            n == lines@.len(),
            i <= n,
            event_views(out@) == line_events(req_id, texts(lines@)).subrange(0, i as int),
        decreases n - i,
    {
        let ev = Event::line(req_id, lines[i].clone());
        let ghost before = out@;
        out.push(ev);
        assert(event_views(out@) =~= event_views(before).push(ev@));
        assert(event_views(out@) =~= line_events(req_id, texts(lines@)).subrange(0, i + 1));
        i = i + 1;
    }
    assert(line_events(req_id, texts(lines@)).subrange(0, n as int) =~= line_events(req_id, texts(lines@)));
    out
}

/// A failure the registry may give when untagging a blob.
pub open spec fn untag_refusal(e: DaemonError) -> bool {
    e matches DaemonError::Registry(x) && x is Other
}

/// What a resumed session does with the node's reply in each phase, and
/// what becomes of the registry's tables (`reg_before`, `reg_after`).
pub open spec fn resumed(
    phase: Phase,
    reply: NodeReply,
    node_id: PeerId,
    req_id: Option<Uuid>,
    after: Phase,
    events: Seq<EventView>,
    next: Next,
    reg_before: RegistryView,
    reg_after: RegistryView,
) -> bool {
    match (phase, reply) {
        (Phase::Importing { rings, open }, NodeReply::Imported(imported)) => next is Finished && match imported {
            Err(m) => reg_after == reg_before
                && answers_with(events, req_id, ReplyView { lines: seq![], failure: Some(DaemonError::Node(m)) }),
            Ok((hash, ticket)) => exists|r: ReplyView|
                #[trigger] import_answers(
                    hash,
                    effective_rings(texts(rings@), open),
                    ticket,
                    Surface::Daemon,
                    r,
                    reg_before,
                    reg_after,
                ) && answers_with(events, req_id, r),
        },
        (Phase::Listing, NodeReply::Blobs(listed)) => next is Finished && reg_after == reg_before && exists|r: ReplyView|
            #[trigger] blob_list_answers(listed, Surface::Daemon, r, reg_before) && answers_with(events, req_id, r),
        (Phase::Removing, NodeReply::Resolved(resolved)) => match resolved {
            Err(m) => next is Finished && reg_after == reg_before
                && answers_with(events, req_id, ReplyView { lines: seq![], failure: Some(DaemonError::Node(m)) }),
            Ok(hash) => {
                ||| (next is Finished && exists|e: DaemonError|
                    #![trigger untag_refusal(e)]
                    untag_refusal(e) && answers_with(events, req_id, ReplyView { lines: seq![], failure: Some(e) }))
                    && (reg_after == reg_before || reg_after == untagged(reg_before, hash.id@))
                ||| (events.len() == 0 && (next matches Next::Await(NodeCall::Delete { hash: h }) && h == hash)
                    && (after matches Phase::Deleting { hash: h } && h == hash)
                    && reg_after == untagged(reg_before, hash.id@))
            },
        },
        (Phase::Deleting { hash }, NodeReply::Deleted(deleted)) => next is Finished && reg_after == reg_before && match deleted {
            Ok(()) => answers_with(events, req_id, ReplyView { lines: removed_text(hash.text@, Surface::Daemon), failure: None }),
            Err(m) => answers_with(events, req_id, ReplyView { lines: seq![], failure: Some(DaemonError::Node(m)) }),
        },
        (Phase::Tagging { rings, open }, NodeReply::Resolved(resolved)) => next is Finished && match resolved {
            Err(m) => reg_after == reg_before
                && answers_with(events, req_id, ReplyView { lines: seq![], failure: Some(DaemonError::Node(m)) }),
            Ok(hash) => exists|r: ReplyView|
                #[trigger] tag_answers(hash, texts(rings@), open, r, reg_before, reg_after) && answers_with(events, req_id, r),
        },
        (Phase::Inspecting, NodeReply::Resolved(resolved)) => next is Finished && reg_after == reg_before && match resolved {
            Err(m) => answers_with(events, req_id, ReplyView { lines: seq![], failure: Some(DaemonError::Node(m)) }),
            Ok(hash) => exists|r: ReplyView|
                #[trigger] tags_answers(hash.text@, stored_rings(reg_before, hash.id@), r) && answers_with(events, req_id, r),
        },
        (Phase::Preparing { force_overwrite }, NodeReply::Prepared(prepared)) => reg_after == reg_before && match prepared {
            Err(m) => next is Finished
                && answers_with(events, req_id, ReplyView { lines: seq![], failure: Some(DaemonError::Node(m)) }),
            Ok((ticket, dest, exists)) => if exists && !force_overwrite {
                next is Finished && (events.len() == 1 && events[0] == (EventView {
                    req_id,
                    body: EventBody::Error("destination '"@ + dest@
                        + "' already exists; use --dest to choose a different location or --force-overwrite to replace it"@),
                }))
            } else {
                &&& events == line_events(req_id, receive_intro_text(ticket, dest@))
                &&& next matches Next::Await(NodeCall::Download)
                &&& after is Downloading
            },
        },
        (Phase::Downloading, NodeReply::Downloaded(result)) => next is Finished && reg_after == reg_before
            && answers_with(events, req_id, receive_outcome_report(result, node_id)),
        _ => false,
    }
}

/// The events of a sequence of steps, in order.
pub open spec fn answer_events(steps: Seq<(Seq<EventView>, Next)>) -> Seq<EventView> {
    steps.map_values(|s: (Seq<EventView>, Next)| s.0).flatten()
}

/// A run of a session: every step keeps the protocol, every step but the
/// last waits for the node, and the last ends the request. (A progress event
/// sent during a download counts as a step that waits.)
pub open spec fn complete_run(steps: Seq<(Seq<EventView>, Next)>, req_id: Option<Uuid>) -> bool {
    &&& steps.len() > 0
    &&& forall|i: int| 0 <= i < steps.len() ==> step_ok(#[trigger] steps[i].0, steps[i].1, req_id)
    &&& forall|i: int| 0 <= i < steps.len() - 1 ==> #[trigger] steps[i].1 is Await
    &&& !(steps.last().1 is Await)
}

proof fn lemma_concat_keeps(a: Seq<EventView>, b: Seq<EventView>, req_id: Option<Uuid>)
    requires
        all_tagged(a, req_id),
        all_tagged(b, req_id),
        none_terminal(a),
        none_terminal(b),
    ensures
        all_tagged(a + b, req_id),
        none_terminal(a + b),
{
    assert forall|i: int| 0 <= i < (a + b).len() implies #[trigger] (a + b)[i].req_id == req_id by {
        if i >= a.len() {
            assert((a + b)[i] == b[i - a.len()]);
        }
    }
    assert forall|i: int| 0 <= i < (a + b).len() implies !is_terminal(#[trigger] (a + b)[i].body) by {
        if i >= a.len() {
            assert((a + b)[i] == b[i - a.len()]);
        }
    }
}

proof fn lemma_waiting_prefix(steps: Seq<(Seq<EventView>, Next)>, req_id: Option<Uuid>, k: int)
    requires
        0 <= k <= steps.len(),
        forall|i: int| 0 <= i < steps.len() ==> step_ok(#[trigger] steps[i].0, steps[i].1, req_id),
        forall|i: int| 0 <= i < k ==> #[trigger] steps[i].1 is Await,
    ensures
        all_tagged(answer_events(steps.subrange(0, k)), req_id),
        none_terminal(answer_events(steps.subrange(0, k))),
    decreases k,
{
    broadcast use Seq::lemma_flatten_push;
    if k == 0 {
        assert(answer_events(steps.subrange(0, 0)) =~= seq![]);
    } else {
        lemma_waiting_prefix(steps, req_id, k - 1);
        let pre = steps.subrange(0, k - 1);
        let views = steps.subrange(0, k).map_values(|s: (Seq<EventView>, Next)| s.0);
        assert(views =~= pre.map_values(|s: (Seq<EventView>, Next)| s.0).push(steps[k - 1].0));
        assert(step_ok(steps[k - 1].0, steps[k - 1].1, req_id));
        lemma_concat_keeps(answer_events(pre), steps[k - 1].0, req_id);
    }
}

/// Law: a request is answered, over all the steps of its session, with a
/// complete stream: at least one event, all tagged with the request's id,
/// the last `Done` or `Error` and no earlier one.
pub proof fn lemma_complete_run_answers(steps: Seq<(Seq<EventView>, Next)>, req_id: Option<Uuid>)
    requires
        complete_run(steps, req_id),
    ensures
        well_formed_stream(answer_events(steps), req_id),
{
    broadcast use Seq::lemma_flatten_push;
    let n = steps.len();
    lemma_waiting_prefix(steps, req_id, n - 1);
    let pre = steps.subrange(0, n - 1);
    let last = steps[n - 1].0;
    assert(step_ok(last, steps[n - 1].1, req_id));
    let views = steps.map_values(|s: (Seq<EventView>, Next)| s.0);
    assert(steps =~= pre.push(steps[n - 1]));
    assert(views =~= pre.map_values(|s: (Seq<EventView>, Next)| s.0).push(last));
    let all = answer_events(steps);
    assert(all == answer_events(pre) + last);
    assert(last.len() > 0);
    assert(all.last() == last.last());
    assert forall|i: int| 0 <= i < last.drop_last().len() implies #[trigger] last.drop_last()[i].req_id == req_id by {
        assert(last.drop_last()[i] == last[i]);
    }
    lemma_concat_keeps(answer_events(pre), last.drop_last(), req_id);
    assert(all.drop_last() =~= answer_events(pre) + last.drop_last());
    assert forall|i: int| 0 <= i < all.len() implies #[trigger] all[i].req_id == req_id by {
        if i < all.len() - 1 {
            assert(all[i] == all.drop_last()[i]);
        } else {
            assert(all[i] == last[last.len() - 1]);
        }
    }
}

/// An optional string, as an optional character sequence.
pub open spec fn opt_string(o: Option<String>) -> Option<Seq<char>> {
    match o {
        Some(s) => Some(s@),
        None => None,
    }
}

proof fn lemma_reply_step_ok(req_id: Option<Uuid>, lines: Seq<Seq<char>>, failure: Option<DaemonError>)
    ensures
        step_ok(reply_stream(req_id, lines, failure), Next::Finished, req_id),
{
    let s = reply_stream(req_id, lines, failure);
    assert(s.drop_last() =~= line_events(req_id, lines));
}

/// Law: once the node imported the file of an Import request (with a
/// ticket), a reply that ends in `Done` has tagged the blob with the
/// request's own rings — the open ring alone when `open` was asked for, else
/// the rings given — one line each, in order, followed by the ticket lines;
/// and the registry holds the blob tagged with those rings, the last of them
/// among its rings. (`Session::start` stores the request's rings and flag in
/// the `Importing` phase.)
pub proof fn lemma_import_tags_requested_rings(
    rings: Vec<String>,
    open: bool,
    requested: Seq<Seq<char>>,
    hash: BlobRef,
    ticket: String,
    node_id: PeerId,
    req_id: Option<Uuid>,
    after: Phase,
    events: Seq<EventView>,
    next: Next,
    before: RegistryView,
    reg_after: RegistryView,
)
    requires
        requested == (if open { seq!["open"@] } else { texts(rings@) }),
        requested.len() > 0,
        registry_valid(before),
        resumed(
            Phase::Importing { rings, open },
            NodeReply::Imported(Ok((hash, Ok(ticket)))),
            node_id,
            req_id,
            after,
            events,
            next,
            before,
            reg_after,
        ),
        events.len() > 0,
        events.last().body is Done,
    ensures
        next is Finished,
        events.len() == requested.len() + 5,
        forall|i: int|
            0 <= i < requested.len() ==> #[trigger] events[i] == (EventView {
                req_id,
                body: EventBody::Line(
                    if requested[i] == "open"@ {
                        "Tagged as open (publicly accessible)"@
                    } else {
                        "Tagged with ring '"@ + requested[i] + "'"@
                    },
                ),
            }),
        events[requested.len() as int] == (EventView { req_id, body: EventBody::Line("\nTicket:"@) }),
        events[requested.len() as int + 1] == (EventView { req_id, body: EventBody::Line("  "@ + ticket@ + "\n"@) }),
        events[requested.len() as int + 2] == (EventView { req_id, body: EventBody::Line("Peers receive with:"@) }),
        events[requested.len() as int + 3] == (EventView { req_id, body: EventBody::Line("  rdrop receive "@ + ticket@) }),
        reg_after == tagged_all(before, hash.id@, requested, requested.len() as int),
        stored_rings(reg_after, hash.id@).contains(requested[requested.len() - 1]),
{
    let eff = effective_rings(texts(rings@), open);
    assert(eff == requested);
    let t: Result<String, String> = Ok(ticket);
    let r = choose|r: ReplyView|
        #[trigger] import_answers(hash, eff, t, Surface::Daemon, r, before, reg_after) && answers_with(events, req_id, r);
    let step = choose|step: ImportRegistry|
        #![trigger import_report(hash.text@, eff, step, t, Surface::Daemon)]
        import_registry_ok(eff, step, before, reg_after, hash.id@) && r == import_report(hash.text@, eff, step, t, Surface::Daemon);
    let n = requested.len() as int;
    assert(events == reply_stream(req_id, r.lines, r.failure));
    assert(events.last() == terminal_event(req_id, r.failure));
    assert(r.failure is None);
    match step {
        ImportRegistry::Tagged(k, fail) => {
            assert(fail is None);
            assert(k == n);
            assert(r.lines == tagged_lines(Wording::Import, hash.text@, eff, k) + ticket_text(ticket@, Surface::Daemon));
            assert forall|i: int| 0 <= i < n implies #[trigger] events[i] == (EventView {
                req_id,
                body: EventBody::Line(
                    if requested[i] == "open"@ {
                        "Tagged as open (publicly accessible)"@
                    } else {
                        "Tagged with ring '"@ + requested[i] + "'"@
                    },
                ),
            }) by {
                assert(events[i] == line_event(req_id, r.lines[i]));
                assert(r.lines[i] == tagged_text(Wording::Import, hash.text@, requested[i]));
            }
            assert(events[n] == line_event(req_id, r.lines[n]));
            assert(events[n + 1] == line_event(req_id, r.lines[n + 1]));
            assert(events[n + 2] == line_event(req_id, r.lines[n + 2]));
            assert(events[n + 3] == line_event(req_id, r.lines[n + 3]));
            assert(tagged_all(before, hash.id@, requested, n) == tagged(
                tagged_all(before, hash.id@, requested, n - 1),
                hash.id@,
                requested[n - 1],
            ));
            lemma_tag_shows_ring(tagged_all(before, hash.id@, requested, n - 1), hash.id@, requested[n - 1]);
        },
        ImportRegistry::Existing(_) => {},
    }
}

/// Law: once the target of a Tag request resolved to a blob, a reply that
/// ends in `Done` has tagged it with each of the request's rings, one line
/// each, in order, and then, when the request asked for `open`, with the open
/// ring, reported last; the blob's rings are then the open ring alone, and
/// without `open` they are those the request's rings leave. (`Session::start`
/// stores the request's rings and flag in the `Tagging` phase.)
pub proof fn lemma_tag_tags_requested_rings(
    rings: Vec<String>,
    open: bool,
    hash: BlobRef,
    node_id: PeerId,
    req_id: Option<Uuid>,
    after: Phase,
    events: Seq<EventView>,
    next: Next,
    before: RegistryView,
    reg_after: RegistryView,
)
    requires
        registry_valid(before),
        resumed(
            Phase::Tagging { rings, open },
            NodeReply::Resolved(Ok(hash)),
            node_id,
            req_id,
            after,
            events,
            next,
            before,
            reg_after,
        ),
        events.len() > 0,
        events.last().body is Done,
    ensures
        next is Finished,
        events.len() == rings@.len() + (if open { 1int } else { 0int }) + 1,
        forall|i: int|
            0 <= i < rings@.len() ==> #[trigger] events[i] == (EventView {
                req_id,
                body: EventBody::Line("Tagged "@ + hash.text@ + " with ring '"@ + rings@[i]@ + "'"@),
            }),
        open ==> events[rings@.len() as int] == (EventView {
            req_id,
            body: EventBody::Line("Tagged "@ + hash.text@ + " as open (publicly accessible)"@),
        }),
        open ==> stored_rings(reg_after, hash.id@) == seq!["open"@],
        !open ==> reg_after == tagged_all(before, hash.id@, texts(rings@), rings@.len() as int),
{
    let names = texts(rings@);
    let r = choose|r: ReplyView|
        #[trigger] tag_answers(hash, names, open, r, before, reg_after) && answers_with(events, req_id, r);
    let step = choose|step: TagRegistry|
        #![trigger tag_report(hash.text@, names, open, step)]
        tag_registry_ok(names, open, step, before, reg_after, hash.id@) && r == tag_report(hash.text@, names, open, step);
    let n = rings@.len() as int;
    assert(events == reply_stream(req_id, r.lines, r.failure));
    assert(events.last() == terminal_event(req_id, r.failure));
    assert(r.failure is None);
    match step {
        TagRegistry::RingsDone(mid, fail) => {
            assert(fail is None);
            assert forall|i: int| 0 <= i < n implies #[trigger] events[i] == (EventView {
                req_id,
                body: EventBody::Line("Tagged "@ + hash.text@ + " with ring '"@ + rings@[i]@ + "'"@),
            }) by {
                assert(events[i] == line_event(req_id, r.lines[i]));
                assert(r.lines[i] == tagged_text(Wording::Tag, hash.text@, names[i]));
            }
            if open {
                assert(events[n] == line_event(req_id, r.lines[n]));
                lemma_tag_shows_ring(mid, hash.id@, "open"@);
            }
        },
        TagRegistry::RingsFailed(_, _) => {},
    }
}

/// Law: once the ticket of a Receive request parsed, the download goes ahead
/// — the three introduction lines, then a wait for the download — exactly
/// when the destination does not exist or the request asked to overwrite it;
/// otherwise the request ends with one error refusing the destination. The
/// registry is untouched. (`Session::start` stores the request's
/// `force_overwrite` in the `Preparing` phase.)
pub proof fn lemma_receive_goes_ahead_unless_refused(
    force_overwrite: bool,
    ticket: TicketInfo,
    dest: String,
    dest_exists: bool,
    node_id: PeerId,
    req_id: Option<Uuid>,
    after: Phase,
    events: Seq<EventView>,
    next: Next,
    before: RegistryView,
    reg_after: RegistryView,
)
    requires
        resumed(
            Phase::Preparing { force_overwrite },
            NodeReply::Prepared(Ok((ticket, dest, dest_exists))),
            node_id,
            req_id,
            after,
            events,
            next,
            before,
            reg_after,
        ),
    ensures
        reg_after == before,
        !dest_exists || force_overwrite ==> (next matches Next::Await(NodeCall::Download)) && after is Downloading
            && events == seq![
            EventView { req_id, body: EventBody::Line(fetching_text(ticket)) },
            EventView { req_id, body: EventBody::Line("Destination: "@ + dest@) },
            EventView {
                req_id,
                body: EventBody::Line("(If interrupted, re-run this command to resume from where it stopped.)"@),
            },
        ],
        dest_exists && !force_overwrite ==> next is Finished && events.len() == 1 && events[0] == (EventView {
            req_id,
            body: EventBody::Error("destination '"@ + dest@
                + "' already exists; use --dest to choose a different location or --force-overwrite to replace it"@),
        }),
{
    if !dest_exists || force_overwrite {
        let intro = receive_intro_text(ticket, dest@);
        assert(events == line_events(req_id, intro));
        assert(intro.len() == 3);
        assert(intro[0] == fetching_text(ticket));
        assert(intro[1] == "Destination: "@ + dest@);
        assert(line_events(req_id, intro).len() == 3);
        assert(line_events(req_id, intro)[0] == line_event(req_id, intro[0]));
        assert(line_events(req_id, intro)[1] == line_event(req_id, intro[1]));
        assert(line_events(req_id, intro)[2] == line_event(req_id, intro[2]));
        assert(events =~= seq![
            EventView { req_id, body: EventBody::Line(fetching_text(ticket)) },
            EventView { req_id, body: EventBody::Line("Destination: "@ + dest@) },
            EventView {
                req_id,
                body: EventBody::Line("(If interrupted, re-run this command to resume from where it stopped.)"@),
            },
        ]);
    }
}

/// A stream that ends in `Done` answers with the lines of a handler that
/// succeeded.
proof fn lemma_done_result(events: Seq<EventView>, req_id: Option<Uuid>, res: Result<Seq<Seq<char>>, DaemonError>)
    requires
        answers_with(events, req_id, result_reply(res)),
        events.len() > 0,
        events.last().body is Done,
    ensures
        res is Ok,
        events == reply_stream(req_id, res->Ok_0, None),
{
    assert(events.last() == terminal_event(req_id, result_reply(res).failure));
}

/// Law: a NodeId request is answered with the node's id in hex, then `Done`.
pub proof fn lemma_start_node_id(
    request: Request,
    node_id: PeerId,
    phase: Phase,
    events: Seq<EventView>,
    next: Next,
    before: RegistryView,
    after: RegistryView,
)
    requires
        request.op is NodeId,
        started(request, node_id, phase, events, next, before, after),
    ensures
        next is Finished,
        events == seq![
            EventView { req_id: request.req_id, body: EventBody::Line(hex_lower(node_id.bytes@)) },
            EventView { req_id: request.req_id, body: EventBody::Done },
        ],
{
    lemma_reply_stream_outcome(request.req_id, seq![hex_lower(node_id.bytes@)], None);
    assert(events =~= seq![
        EventView { req_id: request.req_id, body: EventBody::Line(hex_lower(node_id.bytes@)) },
        EventView { req_id: request.req_id, body: EventBody::Done },
    ]);
}

/// Law: a RingNew request answered with `Done` printed that the request's
/// ring was created and how to add peers, and the ring is now in the
/// registry with no members, where it was not before.
pub proof fn lemma_start_ring_new(
    request: Request,
    name: String,
    node_id: PeerId,
    phase: Phase,
    events: Seq<EventView>,
    next: Next,
    before: RegistryView,
    after: RegistryView,
)
    requires
        request.op == (Op::RingNew { name }),
        started(request, node_id, phase, events, next, before, after),
        events.len() > 0,
        events.last().body is Done,
    ensures
        events == reply_stream(
            request.req_id,
            seq!["Ring created: "@ + name@, "Add peers: rdrop ring add "@ + name@ + " <peer-id>"@],
            None,
        ),
        !before.rings.dom().contains(name@),
        after.rings == before.rings.insert(name@, Seq::empty()),
{
    let res = choose|res| #[trigger] ring_new_answers(name@, res, before, after)
        && answers_with(events, request.req_id, result_reply(res));
    lemma_done_result(events, request.req_id, res);
    lemma_ring_new_answer(name@, res->Ok_0, before, after);
}

/// Law: a RingList request answered with `Done` printed the number of rings,
/// the open ring first, then every other ring of the registry once, in name
/// order, with its member count; the registry is unchanged.
pub proof fn lemma_start_ring_list(
    request: Request,
    node_id: PeerId,
    phase: Phase,
    events: Seq<EventView>,
    next: Next,
    before: RegistryView,
    after: RegistryView,
) -> (lines: Seq<Seq<char>>)
    requires
        request.op is RingList,
        started(request, node_id, phase, events, next, before, after),
        events.len() > 0,
        events.last().body is Done,
    ensures
        events == reply_stream(request.req_id, lines, None),
        after == before,
        exists|names: Seq<Seq<char>>|
            #![trigger lists_rings(before, names)]
            lists_rings(before, names) && lines.len() == names.len() + 1 && lines[0] == decimal(names.len()) + " rings:"@
                && names[0] == "open"@ && lines[1] == "  "@ + names[0] + "  — publicly accessible (no membership required)"@
                && forall|i: int|
                1 <= i < names.len() ==> #[trigger] lines[i + 1] == "  "@ + names[i] + "  ("@ + decimal(
                    before.rings[names[i]].len(),
                ) + " members)"@,
{
    let res = choose|res| #[trigger] ring_list_answers(res, before) && answers_with(events, request.req_id, result_reply(res));
    lemma_done_result(events, request.req_id, res);
    lemma_ring_list_answer(res->Ok_0, before);
    res->Ok_0
}

/// Law: a RingAdd request to a ring other than the open ring answered with
/// `Done` named a key other than the node's own; it printed that this peer
/// was added to the request's ring (with the request's nickname, when
/// given), and the peer is now a member of that ring.
pub proof fn lemma_start_ring_add(
    request: Request,
    ring: String,
    peer: String,
    nickname: Option<String>,
    node_id: PeerId,
    phase: Phase,
    events: Seq<EventView>,
    next: Next,
    before: RegistryView,
    after: RegistryView,
)
    requires
        request.op == (Op::RingAdd { ring, peer, nickname }),
        ring@ != "open"@,
        started(request, node_id, phase, events, next, before, after),
        events.len() > 0,
        events.last().body is Done,
    ensures
        endpoint_id_from_str(peer@) is Some,
        endpoint_id_from_str(peer@)->Some_0 != node_id.bytes@,
        events == reply_stream(
            request.req_id,
            seq![
                match nickname {
                    Some(n) => "Added "@ + hex_lower(endpoint_id_from_str(peer@)->Some_0) + " ("@ + n@ + ") to ring "@ + ring@,
                    None => "Added "@ + hex_lower(endpoint_id_from_str(peer@)->Some_0) + " to ring "@ + ring@,
                },
            ],
            None,
        ),
        after.rings[ring@].contains(endpoint_id_from_str(peer@)->Some_0),
{
    let res = choose|res| #[trigger] ring_add_answers(node_id, ring@, peer@, opt_string(nickname), res, before, after)
        && answers_with(events, request.req_id, result_reply(res));
    lemma_done_result(events, request.req_id, res);
    lemma_ring_add_answer(node_id, ring@, peer@, opt_string(nickname), res->Ok_0, before, after);
}

/// Law: a RingRemove request from a ring other than the open ring answered
/// with `Done` named a key; it printed that this peer was removed from the
/// request's ring, and the peer is no longer a member of it.
pub proof fn lemma_start_ring_remove(
    request: Request,
    ring: String,
    peer: String,
    node_id: PeerId,
    phase: Phase,
    events: Seq<EventView>,
    next: Next,
    before: RegistryView,
    after: RegistryView,
)
    requires
        request.op == (Op::RingRemove { ring, peer }),
        ring@ != "open"@,
        started(request, node_id, phase, events, next, before, after),
        events.len() > 0,
        events.last().body is Done,
    ensures
        endpoint_id_from_str(peer@) is Some,
        events == reply_stream(
            request.req_id,
            seq!["Removed "@ + hex_lower(endpoint_id_from_str(peer@)->Some_0) + " from ring "@ + ring@],
            None,
        ),
        !after.rings[ring@].contains(endpoint_id_from_str(peer@)->Some_0),
{
    let res = choose|res| #[trigger] ring_remove_answers(ring@, peer@, res, before, after)
        && answers_with(events, request.req_id, result_reply(res));
    lemma_done_result(events, request.req_id, res);
    lemma_ring_remove_answer(ring@, peer@, res->Ok_0, before, after);
}

/// Law: a RingMembers request for a ring other than the open ring answered
/// with `Done` listed the request's ring's members as the registry holds
/// them: with none, the three lines saying so; otherwise a header with the
/// count and one line per member, in order, with its nickname when it has
/// one. The registry is unchanged.
pub proof fn lemma_start_ring_members(
    request: Request,
    ring: String,
    node_id: PeerId,
    phase: Phase,
    events: Seq<EventView>,
    next: Next,
    before: RegistryView,
    after: RegistryView,
) -> (lines: Seq<Seq<char>>)
    requires
        request.op == (Op::RingMembers { ring }),
        ring@ != "open"@,
        started(request, node_id, phase, events, next, before, after),
        events.len() > 0,
        events.last().body is Done,
    ensures
        events == reply_stream(request.req_id, lines, None),
        after == before,
        before.rings.dom().contains(ring@),
        member_listing(before, ring@).len() == 0 ==> lines == seq![
            "Ring '"@ + ring@ + "' has no members yet."@,
            "Add peers: rdrop ring add "@ + ring@ + " <peer-id>"@,
            "Peers print their peer-id with: rdrop id"@,
        ],
        member_listing(before, ring@).len() > 0 ==> lines.len() == member_listing(before, ring@).len() + 1,
        forall|i: int|
            0 <= i < member_listing(before, ring@).len() ==> #[trigger] lines[i + 1] == match member_listing(before, ring@)[i].1 {
                Some(nick) => "  "@ + hex_lower(member_listing(before, ring@)[i].0) + "  ("@ + nick + ")"@,
                None => "  "@ + hex_lower(member_listing(before, ring@)[i].0),
            },
{
    let res = choose|res| #[trigger] ring_members_answers(ring@, res, before) && answers_with(events, request.req_id, result_reply(res));
    lemma_done_result(events, request.req_id, res);
    lemma_members_answer_lists_each_member(ring@, res->Ok_0, before);
    res->Ok_0
}

/// Law: once the target of a BlobRemove request resolved to a blob, the
/// blob is untagged before it is deleted: either every ring of the blob was
/// dropped and the session waits for that same blob's deletion, sending
/// nothing yet; or the untagging failed on storage and the request ends with
/// one error, and nothing is deleted.
pub proof fn lemma_remove_untags_before_deleting(
    hash: BlobRef,
    node_id: PeerId,
    req_id: Option<Uuid>,
    after: Phase,
    events: Seq<EventView>,
    next: Next,
    before: RegistryView,
    reg_after: RegistryView,
)
    requires
        resumed(Phase::Removing, NodeReply::Resolved(Ok(hash)), node_id, req_id, after, events, next, before, reg_after),
    ensures
        next is Await ==> events.len() == 0 && (next matches Next::Await(NodeCall::Delete { hash: h }) && h == hash)
            && (after matches Phase::Deleting { hash: h } && h == hash) && reg_after == untagged(before, hash.id@)
            && stored_rings(reg_after, hash.id@).len() == 0,
        !(next is Await) ==> next is Finished && events.len() == 1 && events[0].body is Error,
{
    if !(next is Await) {
        let e = choose|e: DaemonError| #![trigger untag_refusal(e)] untag_refusal(e) && answers_with(
            events,
            req_id,
            ReplyView { lines: seq![], failure: Some(e) },
        );
        lemma_reply_stream_outcome(req_id, seq![], Some(e));
    }
}

/// Law: once the blob of a BlobRemove request was deleted, the reply says
/// so, names the blob, and tells when disk space is reclaimed; a failed
/// deletion is reported as the node's error. The registry is unchanged.
pub proof fn lemma_delete_reports(
    hash: BlobRef,
    deleted: Result<(), String>,
    node_id: PeerId,
    req_id: Option<Uuid>,
    after: Phase,
    events: Seq<EventView>,
    next: Next,
    before: RegistryView,
    reg_after: RegistryView,
)
    requires
        resumed(Phase::Deleting { hash }, NodeReply::Deleted(deleted), node_id, req_id, after, events, next, before, reg_after),
    ensures
        next is Finished,
        reg_after == before,
        deleted is Ok ==> events == reply_stream(
            req_id,
            seq!["Removed "@ + hash.text@, "Disk space will be reclaimed on the next GC cycle."@],
            None,
        ),
        deleted matches Err(m) ==> events == seq![EventView { req_id, body: EventBody::Error(m@) }],
{
    if let Err(m) = deleted {
        assert(events == reply_stream(req_id, seq![], Some(DaemonError::Node(m))));
        assert(events =~= seq![EventView { req_id, body: EventBody::Error(m@) }]);
    }
}

/// Law: once the target of a Tags request resolved to a blob, a reply that
/// ends in `Done` lists the rings the registry holds for that blob: with
/// none, one line saying so; otherwise a header with the count and one line
/// per ring, in order, the open ring with its note. The registry is
/// unchanged.
pub proof fn lemma_tags_lists_stored_rings(
    hash: BlobRef,
    node_id: PeerId,
    req_id: Option<Uuid>,
    after: Phase,
    events: Seq<EventView>,
    next: Next,
    before: RegistryView,
    reg_after: RegistryView,
) -> (lines: Seq<Seq<char>>)
    requires
        resumed(Phase::Inspecting, NodeReply::Resolved(Ok(hash)), node_id, req_id, after, events, next, before, reg_after),
        events.len() > 0,
        events.last().body is Done,
    ensures
        events == reply_stream(req_id, lines, None),
        reg_after == before,
        stored_rings(before, hash.id@).len() == 0 ==> lines == seq![hash.text@ + ": no rings (access denied to all peers)"@],
        stored_rings(before, hash.id@).len() > 0 ==> lines.len() == stored_rings(before, hash.id@).len() + 1 && lines[0]
            == hash.text@ + ": "@ + decimal(stored_rings(before, hash.id@).len()) + " rings:"@,
        stored_rings(before, hash.id@).len() > 0 ==> forall|i: int|
            0 <= i < stored_rings(before, hash.id@).len() ==> #[trigger] lines[i + 1] == if stored_rings(before, hash.id@)[i]
                == "open"@ {
                "  "@ + stored_rings(before, hash.id@)[i] + "  (open — publicly accessible)"@
            } else {
                "  "@ + stored_rings(before, hash.id@)[i]
            },
{
    let stored = stored_rings(before, hash.id@);
    let r = choose|r: ReplyView| #[trigger] tags_answers(hash.text@, stored, r) && answers_with(events, req_id, r);
    assert(events.last() == terminal_event(req_id, r.failure));
    lemma_tags_answer_lists_each_ring(hash.text@, stored, r);
    r.lines
}

/// Law: a download that succeeded is reported as complete; one that failed
/// ends with one error giving the failure's detail, and, when the peer
/// denied access, this node's id and the command its owner runs to grant it.
/// The registry is unchanged.
pub proof fn lemma_download_outcome(
    result: Result<(), TransferFailure>,
    node_id: PeerId,
    req_id: Option<Uuid>,
    after: Phase,
    events: Seq<EventView>,
    next: Next,
    before: RegistryView,
    reg_after: RegistryView,
)
    requires
        resumed(Phase::Downloading, NodeReply::Downloaded(result), node_id, req_id, after, events, next, before, reg_after),
    ensures
        next is Finished,
        reg_after == before,
        result is Ok ==> events == reply_stream(req_id, seq!["Transfer complete."@], None),
        result matches Err(f) ==> events == seq![
            EventView {
                req_id,
                body: EventBody::Error(
                    if contains_text(f.summary@, "access denied"@) {
                        "Transfer failed: "@ + f.detail@ + "\n\nYour peer-id: "@ + hex_lower(node_id.bytes@)
                            + "\nAsk the file owner to run:\n  rdrop ring add <ring-name> "@ + hex_lower(node_id.bytes@)
                    } else {
                        "Transfer failed: "@ + f.detail@
                    },
                ),
            },
        ],
{
    if let Err(f) = result {
        assert(events == reply_stream(req_id, seq![], Some(DaemonError::TransferFailed(f, node_id))));
        assert(events =~= seq![
            EventView {
                req_id,
                body: EventBody::Error(
                    if contains_text(f.summary@, "access denied"@) {
                        "Transfer failed: "@ + f.detail@ + "\n\nYour peer-id: "@ + hex_lower(node_id.bytes@)
                            + "\nAsk the file owner to run:\n  rdrop ring add <ring-name> "@ + hex_lower(node_id.bytes@)
                    } else {
                        "Transfer failed: "@ + f.detail@
                    },
                ),
            },
        ]);
    }
}

/// Law: once the node imported the file of an Import request that named no
/// ring and did not ask for `open`, a reply that ends in `Done` tags nothing:
/// it lists the rings the registry already holds for the blob (or warns
/// that it is untagged and how to tag it), then the ticket lines; the
/// registry is unchanged.
pub proof fn lemma_import_without_rings_reports_existing(
    rings: Vec<String>,
    hash: BlobRef,
    ticket: String,
    node_id: PeerId,
    req_id: Option<Uuid>,
    after: Phase,
    events: Seq<EventView>,
    next: Next,
    before: RegistryView,
    reg_after: RegistryView,
) -> (lines: Seq<Seq<char>>)
    requires
        rings@.len() == 0,
        resumed(
            Phase::Importing { rings, open: false },
            NodeReply::Imported(Ok((hash, Ok(ticket)))),
            node_id,
            req_id,
            after,
            events,
            next,
            before,
            reg_after,
        ),
        events.len() > 0,
        events.last().body is Done,
    ensures
        events == reply_stream(req_id, lines, None),
        reg_after == before,
        stored_rings(before, hash.id@).len() == 0 ==> lines == seq![
            "Warning: not tagged — this blob won't be served to any peer."@,
            "Tag it with:"@,
            "  rdrop tag "@ + hash.text@ + " --ring <ring-name>"@,
            "  rdrop tag "@ + hash.text@ + " --open"@,
            "\nTicket:"@,
            "  "@ + ticket@ + "\n"@,
            "Peers receive with:"@,
            "  rdrop receive "@ + ticket@,
        ],
        stored_rings(before, hash.id@).len() > 0 ==> lines.len() == stored_rings(before, hash.id@).len() + 5 && lines[0]
            == "Already tagged:"@,
        stored_rings(before, hash.id@).len() > 0 ==> forall|i: int|
            0 <= i < stored_rings(before, hash.id@).len() ==> #[trigger] lines[i + 1] == if stored_rings(before, hash.id@)[i]
                == "open"@ {
                "  "@ + stored_rings(before, hash.id@)[i] + " (open — publicly accessible)"@
            } else {
                "  "@ + stored_rings(before, hash.id@)[i]
            },
{
    let eff = effective_rings(texts(rings@), false);
    assert(eff.len() == 0);
    let t: Result<String, String> = Ok(ticket);
    let r = choose|r: ReplyView|
        #[trigger] import_answers(hash, eff, t, Surface::Daemon, r, before, reg_after) && answers_with(events, req_id, r);
    let step = choose|step: ImportRegistry|
        #![trigger import_report(hash.text@, eff, step, t, Surface::Daemon)]
        import_registry_ok(eff, step, before, reg_after, hash.id@) && r == import_report(hash.text@, eff, step, t, Surface::Daemon);
    assert(events.last() == terminal_event(req_id, r.failure));
    let stored = stored_rings(before, hash.id@);
    if stored.len() == 0 {
        assert(r.lines =~= seq![
            "Warning: not tagged — this blob won't be served to any peer."@,
            "Tag it with:"@,
            "  rdrop tag "@ + hash.text@ + " --ring <ring-name>"@,
            "  rdrop tag "@ + hash.text@ + " --open"@,
            "\nTicket:"@,
            "  "@ + ticket@ + "\n"@,
            "Peers receive with:"@,
            "  rdrop receive "@ + ticket@,
        ]);
    } else {
        assert forall|i: int| 0 <= i < stored.len() implies #[trigger] r.lines[i + 1] == if stored[i] == "open"@ {
            "  "@ + stored[i] + " (open — publicly accessible)"@
        } else {
            "  "@ + stored[i]
        } by {
            assert(r.lines[i + 1] == existing_tags_text(hash.text@, stored)[i + 1]);
        }
    }
    r.lines
}

/// Law: once the node listed its store, a reply that ends in `Done` lists
/// every blob, in order, three lines each — hash and name, the rings the
/// registry holds for it, its ticket — after a header with the count (or one
/// line for an empty store). The registry is unchanged.
pub proof fn lemma_list_reports_every_blob(
    blobs: Vec<ListedBlob>,
    node_id: PeerId,
    req_id: Option<Uuid>,
    after: Phase,
    events: Seq<EventView>,
    next: Next,
    before: RegistryView,
    reg_after: RegistryView,
) -> (lines: Seq<Seq<char>>)
    requires
        resumed(Phase::Listing, NodeReply::Blobs(Ok(blobs)), node_id, req_id, after, events, next, before, reg_after),
        events.len() > 0,
        events.last().body is Done,
    ensures
        events == reply_stream(req_id, lines, None),
        reg_after == before,
        blobs@.len() == 0 ==> lines == seq!["No blobs in local store."@],
        blobs@.len() > 0 ==> lines.len() == 3 * blobs@.len() + 1 && lines[0] == decimal(blobs@.len()) + " blobs:"@,
        forall|i: int|
            0 <= i < blobs@.len() ==> (#[trigger] blobs@[i]).ticket is Ok && lines[3 * i + 1] == "\n  "@ + blobs@[i].hash.text@
                + "  ("@ + blobs@[i].name@ + ")"@ && lines[3 * i + 2] == (if stored_rings(before, blobs@[i].hash.id@).len()
                == 0 {
                "    no rings:  (inaccessible for all peers)"@
            } else {
                "    rings:  "@ + join(stored_rings(before, blobs@[i].hash.id@), ", "@)
            }) && lines[3 * i + 3] == "    ticket: "@ + blobs@[i].ticket->Ok_0@,
{
    let listed: Result<Vec<ListedBlob>, String> = Ok(blobs);
    let r = choose|r: ReplyView| #[trigger] blob_list_answers(listed, Surface::Daemon, r, before) && answers_with(events, req_id, r);
    assert(events.last() == terminal_event(req_id, r.failure));
    lemma_blob_list_answer(blobs, Surface::Daemon, r, before);
    r.lines
}

} // verus!
