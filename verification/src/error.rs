//! Errors a request can fail with, and the message each one is reported as.

use vstd::prelude::*;
use crate::peer::PeerId;
use crate::text::{concat2, concat3, concat4, contains, contains_text, hex_lower};

verus! {

/// A refusal or failure reported by the ring registry.
#[derive(Debug, PartialEq, Eq)]
pub enum RegistryError {
    /// The ring name is empty.
    RingNameEmpty,
    /// The ring name holds whitespace or a NUL character.
    RingNameInvalidChars,
    /// The ring name is reserved (the open ring).
    RingNameReserved(String),
    /// A ring of that name already exists.
    RingAlreadyExists(String),
    /// No ring of that name exists.
    RingNotFound(String),
    /// Any other failure (storage), with the registry's own description.
    Other(String),
}

/// The message of a registry error, as the registry itself words it.
pub open spec fn registry_error_text(e: RegistryError) -> Seq<char> {
    match e {
        RegistryError::RingNameEmpty => "ring name must not be empty"@,
        RegistryError::RingNameInvalidChars => "ring name must not contain whitespace or NUL bytes"@,
        RegistryError::RingNameReserved(n) => "'"@ + n@ + "' is a reserved ring name"@,
        RegistryError::RingAlreadyExists(n) => "ring '"@ + n@ + "' already exists"@,
        RegistryError::RingNotFound(n) => "ring '"@ + n@ + "' not found"@,
        RegistryError::Other(t) => t@,
    }
}

impl RegistryError {
    /// The message of this error.
    pub fn message(&self) -> (r: String)
        ensures
            r@ == registry_error_text(*self),
    {
        match self {
            RegistryError::RingNameEmpty => String::from_str("ring name must not be empty"),
            RegistryError::RingNameInvalidChars => String::from_str(
                "ring name must not contain whitespace or NUL bytes",
            ),
            RegistryError::RingNameReserved(n) => concat3("'", n.as_str(), "' is a reserved ring name"),
            RegistryError::RingAlreadyExists(n) => concat3("ring '", n.as_str(), "' already exists"),
            RegistryError::RingNotFound(n) => concat3("ring '", n.as_str(), "' not found"),
            RegistryError::Other(t) => t.clone(),
        }
    }
}

/// How a download failed: the error with its causes (as `{:#}` shows it) and
/// the error alone (as `to_string` shows it).
#[derive(Debug, PartialEq, Eq)]
pub struct TransferFailure {
    pub detail: String,
    pub summary: String,
}

/// The message of a failed download; when the peer denied access, it adds
/// this node's id and how the owner grants access.
pub open spec fn transfer_failed_text(f: TransferFailure, me: PeerId) -> Seq<char> {
    if contains_text(f.summary@, "access denied"@) {
        "Transfer failed: "@ + f.detail@ + "\n\nYour peer-id: "@ + hex_lower(me.bytes@)
            + "\nAsk the file owner to run:\n  rdrop ring add <ring-name> "@ + hex_lower(me.bytes@)
    } else {
        "Transfer failed: "@ + f.detail@
    }
}

/// The message of a failed download.
pub fn transfer_failed_message(f: &TransferFailure, me: &PeerId) -> (r: String)
    ensures
        r@ == transfer_failed_text(*f, *me),
{
    let mut msg = concat2("Transfer failed: ", f.detail.as_str());
    if contains(f.summary.as_str(), "access denied") {
        let id = me.to_text();
        let hint = concat4(
            "\n\nYour peer-id: ",
            id.as_str(),
            "\nAsk the file owner to run:\n  rdrop ring add <ring-name> ",
            id.as_str(),
        );
        msg.append(hint.as_str());
    }
    msg
}

/// Why a request failed.
#[derive(Debug, PartialEq, Eq)]
pub enum DaemonError {
    /// The ring registry refused or failed.
    Registry(RegistryError),
    /// A peer id did not parse: the text given and the parser's reason.
    InvalidPeerId(String, String),
    /// The node tried to add its own id to a ring.
    AddSelf,
    /// The node failed (import, listing, deletion, tickets), with its message.
    Node(String),
    /// The download destination exists and overwriting was not asked for.
    DestinationExists(String),
    /// A download failed; how, and this node's id (for the hint).
    TransferFailed(TransferFailure, PeerId),
}

/// The message an error is reported with in an `Error` event.
pub open spec fn daemon_error_text(e: DaemonError) -> Seq<char> {
    match e {
        DaemonError::Registry(r) => registry_error_text(r),
        DaemonError::InvalidPeerId(p, why) => "invalid peer id '"@ + p@ + "': "@ + why@,
        DaemonError::AddSelf => "cannot add yourself to a ring"@,
        DaemonError::Node(m) => m@,
        DaemonError::DestinationExists(d) => "destination '"@ + d@
            + "' already exists; use --dest to choose a different location or --force-overwrite to replace it"@,
        DaemonError::TransferFailed(f, me) => transfer_failed_text(f, me),
    }
}

impl DaemonError {
    /// The message of this error.
    pub fn message(&self) -> (r: String)
        ensures
            r@ == daemon_error_text(*self),
    {
        match self {
            DaemonError::Registry(e) => e.message(),
            DaemonError::InvalidPeerId(p, why) => concat4("invalid peer id '", p.as_str(), "': ", why.as_str()),
            DaemonError::AddSelf => String::from_str("cannot add yourself to a ring"),
            DaemonError::Node(m) => m.clone(),
            DaemonError::DestinationExists(d) => concat3(
                "destination '",
                d.as_str(),
                "' already exists; use --dest to choose a different location or --force-overwrite to replace it",
            ),
            DaemonError::TransferFailed(f, me) => transfer_failed_message(f, me),
        }
    }
}

} // verus!
