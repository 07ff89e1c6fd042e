# ringdrop

Request handling for the ringdrop daemon, verified with Verus.

A client sends the daemon one JSON request per connection and receives a
stream of events: lines of text, progress reports, and a final `Done` or
`Error`, each tagged with the request's id. The library decides what that
stream holds; the surrounding program does the network, disk and transfer
work.

- `src/protocol.rs` — requests, operations, events, and what a complete
  answer to a request is.
- `src/session.rs` — the per-request state machine: `Session::start` and
  `Session::resume` turn a request and the results of the node's work into
  events, and the proof that a whole run answers with a complete stream.
- `src/rings.rs`, `src/blobs.rs`, `src/receive.rs` — the commands' answers,
  with the ring registry consulted through `iroh-rings`.
- `src/registry.rs` — the ring registry's tables as mathematical values, how
  each write changes them (a failed write leaves them as before or as
  success would), the validity the listings rely on (every stored ring name
  is one `Ring::new` accepts) and that every write keeps it, and the laws
  that follow (a created ring is listed, adding then removing a member
  restores the ring, a tagged blob shows its ring).
- `src/server.rs` — how a connection opens (lines over the protocol's
  maximum are refused), how response lines are framed, and the server's
  lifecycle from serving to stopped.
- `src/text.rs`, `src/peer.rs`, `src/error.rs` — text rendering, peer ids,
  error messages.
- `src/outside.rs` — the outside types and calls the library relies on, each
  with the contract it is trusted to meet.
- `app/` — the JSON wire format, the TCP server and the local blob commands,
  over a `NodeWork` implementation of the node's own work.
