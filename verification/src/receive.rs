//! The `receive` command: what is decided before a download, and the report
//! after it.
//! Parsing the ticket, inspecting the destination and downloading are the
//! node's work; their results are handed in.

use vstd::prelude::*;
use crate::error::{DaemonError, TransferFailure};
use crate::peer::PeerId;
use crate::protocol::{texts, Reply, ReplyView};
use crate::text::{concat2, concat4, hex_lower};

verus! {

/// What a share ticket names: the blob's hash (as shown), the peer that
/// serves it, and the blob's file name, when it has one.
pub struct TicketInfo {
    pub hash_text: String,
    pub peer: PeerId,
    pub name: Option<String>,
}

/// The file name a download is saved under inside a destination directory:
/// the ticket's name for the blob, else its hash.
pub open spec fn download_file_name(ticket: TicketInfo) -> Seq<char> {
    match ticket.name {
        Some(n) => n@,
        None => ticket.hash_text@,
    }
}

/// The file name a download is saved under inside a destination directory.
pub fn download_file_name_of(ticket: &TicketInfo) -> (r: String)
    ensures
        r@ == download_file_name(*ticket),
{
    match &ticket.name {
        Some(n) => n.clone(),
        None => ticket.hash_text.clone(),
    }
}

/// The first line of a download.
pub open spec fn fetching_text(ticket: TicketInfo) -> Seq<char> {
    let base = "Fetching "@ + ticket.hash_text@ + " from "@ + hex_lower(ticket.peer.bytes@);
    match ticket.name {
        Some(n) => base + " ("@ + n@ + ")"@,
        None => base,
    }
}

/// What is printed before a download starts.
pub open spec fn receive_intro_text(ticket: TicketInfo, dest: Seq<char>) -> Seq<Seq<char>> {
    seq![
        fetching_text(ticket),
        "Destination: "@ + dest,
        "(If interrupted, re-run this command to resume from where it stopped.)"@,
    ]
}

/// Decides whether a download may start: a destination that exists is only
/// replaced when asked to be; then the lines to print before downloading.
pub fn receive_preflight(ticket: &TicketInfo, dest: &str, dest_exists: bool, force_overwrite: bool)
    -> (r: Result<Vec<String>, DaemonError>)
    ensures
        dest_exists && !force_overwrite ==> (r matches Err(DaemonError::DestinationExists(d)) && d@ == dest@),
        !(dest_exists && !force_overwrite) ==> (r is Ok && texts(r->Ok_0@) == receive_intro_text(*ticket, dest@)),
{
    if dest_exists && !force_overwrite {
        return Err(DaemonError::DestinationExists(String::from_str(dest)));
    }
    let peer = ticket.peer.to_text();
    let mut first = concat4("Fetching ", ticket.hash_text.as_str(), " from ", peer.as_str());
    match &ticket.name {
        Some(n) => {
            first.append(" (");
            first.append(n.as_str());
            first.append(")");
        },
        None => {},
    }
    let mut v: Vec<String> = Vec::new();
    v.push(first);
    v.push(concat2("Destination: ", dest));
    v.push(String::from_str("(If interrupted, re-run this command to resume from where it stopped.)"));
    assert(texts(v@) =~= receive_intro_text(*ticket, dest@));
    Ok(v)
}

/// The report after a download: done, or the failure with its hint.
pub open spec fn receive_outcome_report(result: Result<(), TransferFailure>, me: PeerId) -> ReplyView {
    match result {
        Ok(()) => ReplyView { lines: seq!["Transfer complete."@], failure: None },
        Err(f) => ReplyView { lines: seq![], failure: Some(DaemonError::TransferFailed(f, me)) },
    }
}

/// The report after a download: done, or the failure with its hint.
pub fn receive_outcome(result: Result<(), TransferFailure>, me: PeerId) -> (r: Reply)
    ensures
        r@ == receive_outcome_report(result, me),
{
    match result {
        Ok(()) => {
            let mut v: Vec<String> = Vec::new();
            v.push(String::from_str("Transfer complete."));
            let r = Reply { lines: v, failure: None };
            assert(r@.lines =~= seq!["Transfer complete."@]);
            r
        },
        Err(f) => {
            let r = Reply { lines: Vec::new(), failure: Some(DaemonError::TransferFailed(f, me)) };
            assert(r@.lines =~= seq![]);
            r
        },
    }
}

} // verus!
