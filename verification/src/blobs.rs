//! The blob commands: import, list, remove, tag, and show tags. The node's
//! own work (importing a file, listing the store, deleting, making tickets)
//! is done by the caller and handed in; the ring registry is consulted here.

use vstd::prelude::*;
use iroh_rings::RedbRegistry;
use crate::error::{DaemonError, RegistryError};
use crate::registry::{
    lemma_open_name_valid, lemma_tagged_valid, lemma_untagged_valid, lemma_valid_name_storable, registry_valid,
    registry_view, storable_name, stored_rings, tagged, tagged_all, untagged, RegistryView,
};
use crate::outside::{open_ring_name, registry_add_ring_to_resource, registry_list_resource_rings};
use crate::protocol::{texts, Reply, ReplyView};
use crate::rings::open_name;
use crate::outside::registry_remove_ring_from_resource;
use crate::text::{concat2, concat3, concat4, concat5, decimal, decimal_string, join, join_strings, same_text};

verus! {

/// A blob in the local store: its hash, as the registry keys it and as it is
/// shown.
pub struct BlobRef {
    pub id: [u8; 32],
    pub text: String,
}

impl BlobRef {
    /// A copy of this reference.
    pub fn clone_ref(&self) -> (r: BlobRef)
        ensures
            r == *self,
    {
        BlobRef { id: self.id, text: self.text.clone() }
    }
}

/// Where the lines go: the daemon's event stream, or the local command line.
/// The two word a few lines differently.
#[derive(Clone, Copy, Debug, PartialEq, Eq)]
pub enum Surface {
    Daemon,
    Cli,
}

/// How a tagging step is reported.
#[derive(Clone, Copy, Debug, PartialEq, Eq)]
pub enum Wording {
    /// Right after an import: the hash is not repeated.
    Import,
    /// The `tag` command: each line names the hash.
    Tag,
}

/// The line reporting that `ring` now tags the blob `hash`.
pub open spec fn tagged_text(w: Wording, hash: Seq<char>, ring: Seq<char>) -> Seq<char> {
    match w {
        Wording::Import => if ring == open_name() {
            "Tagged as open (publicly accessible)"@
        } else {
            "Tagged with ring '"@ + ring + "'"@
        },
        Wording::Tag => "Tagged "@ + hash + " with ring '"@ + ring + "'"@,
    }
}

/// The lines reporting that the first `k` of `rings` tag the blob.
pub open spec fn tagged_lines(w: Wording, hash: Seq<char>, rings: Seq<Seq<char>>, k: int) -> Seq<Seq<char>> {
    Seq::new(k as nat, |i: int| tagged_text(w, hash, rings[i]))
}

/// A failure the registry may report when asked to tag a resource with `ring`.
pub open spec fn tag_error_ok(e: RegistryError, ring: Seq<char>) -> bool {
    ||| e is Other
    ||| (e matches RegistryError::RingNotFound(n) && n@ == ring)
}

/// The line reporting that `ring` now tags the blob.
pub fn tagged_line(w: Wording, hash: &BlobRef, ring: &str) -> (r: String)
    ensures
        r@ == tagged_text(w, hash.text@, ring@),
{
    match w {
        Wording::Import => if same_text(ring, open_ring_name()) {
            String::from_str("Tagged as open (publicly accessible)")
        } else {
            concat3("Tagged with ring '", ring, "'")
        },
        Wording::Tag => concat5("Tagged ", hash.text.as_str(), " with ring '", ring, "'"),
    }
}

/// How tagging resource `resource` with `rings` in turn went, from the
/// tables `before` to the tables `after`: the first `k` rings were tagged
/// (each existed); `fail` is the refusal of ring `k` when there is one — "ring
/// not found" only for a missing ring, and an existing ring is refused only
/// by a storage failure. The ring table stays as it was. From valid tables:
/// they stay valid, and they are those after tagging with the first `k`
/// rings, or, when storage failed on ring `k`, possibly with ring `k` too
/// (the failed commit may have been applied) — never more.
pub open spec fn tag_run(
    before: RegistryView,
    after: RegistryView,
    resource: Seq<u8>,
    rings: Seq<Seq<char>>,
    k: int,
    fail: Option<RegistryError>,
) -> bool {
    &&& 0 <= k <= rings.len()
    &&& (fail is None <==> k == rings.len())
    &&& forall|j: int| 0 <= j < k ==> before.rings.dom().contains(#[trigger] rings[j])
    &&& (fail matches Some(e) ==> tag_error_ok(e, rings[k]) && (e is RingNotFound ==> !before.rings.dom().contains(
        rings[k],
    )) && (before.rings.dom().contains(rings[k]) ==> e is Other))
    &&& after.rings == before.rings
    &&& (registry_valid(before) ==> registry_valid(after))
    &&& (registry_valid(before) && !(fail matches Some(e) && e is Other) ==> after == tagged_all(before, resource, rings, k))
    &&& (registry_valid(before) && (fail matches Some(e) && e is Other) ==> (after == tagged_all(before, resource, rings, k)
        || (before.rings.dom().contains(rings[k]) && after == tagged_all(before, resource, rings, k + 1))))
}

/// Tags blob `hash` with each of `rings` in turn, reporting each, and stops
/// at the first ring the registry refuses. The result holds the lines of the
/// rings that were tagged and the refusal, if any: either every ring was
/// tagged, or the rings before some `k` were and ring `k` was refused.
pub fn tag_with_rings(registry: &mut RedbRegistry, w: Wording, hash: &BlobRef, rings: &Vec<String>)
    -> (r: (Vec<String>, Option<RegistryError>))
    ensures
        exists|k: int|
            #![trigger tagged_lines(w, hash.text@, texts(rings@), k)]
            texts(r.0@) == tagged_lines(w, hash.text@, texts(rings@), k) && tag_run(
                registry_view(*old(registry)),
                registry_view(*final(registry)),
                hash.id@,
                texts(rings@),
                k,
                r.1,
            ),
{
    let ghost before = registry_view(*registry);
    let ghost names = texts(rings@);
    let n = rings.len();
    let mut out: Vec<String> = Vec::new();
    let mut i: usize = 0;
    while i < n
        invariant
            n == rings@.len(),
            names == texts(rings@),
            before == registry_view(*old(registry)),
            i <= n,
            texts(out@) == tagged_lines(w, hash.text@, names, i as int),
            forall|j: int| 0 <= j < i ==> before.rings.dom().contains(#[trigger] names[j]),
            registry_view(*registry).rings == before.rings,
            registry_valid(before) ==> registry_valid(registry_view(*registry)) && registry_view(*registry)
                == tagged_all(before, hash.id@, names, i as int),
        decreases n - i,
    {
        let ring = rings[i].as_str();
        assert(names[i as int] == ring@);
        let ghost current = registry_view(*registry);
        proof {
            if registry_valid(before) && current.rings.dom().contains(ring@) {
                assert(crate::registry::valid_ring_name(ring@));
                lemma_valid_name_storable(ring@);
                lemma_tagged_valid(current, hash.id@, ring@);
            }
        }
        match registry_add_ring_to_resource(registry, hash.id, ring) {
            Ok(()) => {},
            Err(e) => {
                assert(tag_error_ok(e, names[i as int]));
                assert(tag_run(before, registry_view(*registry), hash.id@, names, i as int, Some(e)));
                assert(texts(out@) == tagged_lines(w, hash.text@, texts(rings@), i as int));
                return (out, Some(e));
            },
        }
        let line = tagged_line(w, hash, ring);
        let ghost before_out = out@;
        out.push(line);
        assert(texts(out@) =~= texts(before_out).push(line@));
        assert(texts(out@) =~= tagged_lines(w, hash.text@, names, i + 1));
        i = i + 1;
    }
    assert(tag_run(before, registry_view(*registry), hash.id@, names, n as int, None));
    (out, None)
}

// ── import ────────────────────────────────────────────────────────────────

/// The rings an import tags its blob with: the open ring alone when `open`
/// is asked for, else the rings given.
pub open spec fn effective_rings(rings: Seq<Seq<char>>, open: bool) -> Seq<Seq<char>> {
    if open { seq![open_name()] } else { rings }
}

/// What an import prints when the blob is tagged by no ring at all.
pub open spec fn untagged_text(hash: Seq<char>) -> Seq<Seq<char>> {
    seq![
        "Warning: not tagged — this blob won't be served to any peer."@,
        "Tag it with:"@,
        "  rdrop tag "@ + hash + " --ring <ring-name>"@,
        "  rdrop tag "@ + hash + " --open"@,
    ]
}

/// The line of one ring that already tags an imported blob.
pub open spec fn already_tagged_entry(ring: Seq<char>) -> Seq<char> {
    if ring == open_name() {
        "  "@ + ring + " (open — publicly accessible)"@
    } else {
        "  "@ + ring
    }
}

/// What an import prints about the rings that already tag the blob.
pub open spec fn existing_tags_text(hash: Seq<char>, existing: Seq<Seq<char>>) -> Seq<Seq<char>> {
    if existing.len() == 0 {
        untagged_text(hash)
    } else {
        seq!["Already tagged:"@] + Seq::new(existing.len(), |i: int| already_tagged_entry(existing[i]))
    }
}

/// What an import prints about the share ticket.
pub open spec fn ticket_text(ticket: Seq<char>, surface: Surface) -> Seq<Seq<char>> {
    match surface {
        Surface::Daemon => seq![
            "\nTicket:"@,
            "  "@ + ticket + "\n"@,
            "Peers receive with:"@,
            "  rdrop receive "@ + ticket,
        ],
        Surface::Cli => seq![
            "\nTicket:"@,
            "  "@ + ticket + "\n"@,
            "Run `rdrop share` to start accepting connections."@,
            "Peers receive with:"@,
            "  rdrop receive "@ + ticket,
        ],
    }
}

/// The end of an import's report, after the tagging lines `lines`: the
/// ticket, or the node's failure to make one.
pub open spec fn with_ticket(lines: Seq<Seq<char>>, ticket: Result<String, String>, surface: Surface) -> ReplyView {
    match ticket {
        Ok(t) => ReplyView { lines: lines + ticket_text(t@, surface), failure: None },
        Err(m) => ReplyView { lines, failure: Some(DaemonError::Node(m)) },
    }
}

/// What the registry answered during an import: the rings that already tag
/// the blob (asked when no ring is given), or how tagging went (the number
/// of rings tagged, and the refusal that stopped it).
pub enum ImportRegistry {
    Existing(Result<Seq<Seq<char>>, RegistryError>),
    Tagged(int, Option<RegistryError>),
}

/// The registry answers an import of resource `resource` can get, with the
/// tables before and after: with no ring to tag, the rings that already tag
/// it, read without change; else how tagging went.
pub open spec fn import_registry_ok(
    eff: Seq<Seq<char>>,
    step: ImportRegistry,
    before: RegistryView,
    after: RegistryView,
    resource: Seq<u8>,
) -> bool {
    match step {
        ImportRegistry::Existing(res) => {
            &&& eff.len() == 0
            &&& after == before
            &&& (res matches Err(e) ==> e is Other)
            &&& (res matches Ok(existing) ==> existing == stored_rings(before, resource))
        },
        ImportRegistry::Tagged(k, fail) => eff.len() > 0 && tag_run(before, after, resource, eff, k, fail),
    }
}

/// An import's report for the imported blob `hash`, given the registry's
/// answers and the ticket the node made.
pub open spec fn import_report(
    hash: Seq<char>,
    eff: Seq<Seq<char>>,
    step: ImportRegistry,
    ticket: Result<String, String>,
    surface: Surface,
) -> ReplyView {
    match step {
        ImportRegistry::Existing(Err(e)) => ReplyView { lines: seq![], failure: Some(DaemonError::Registry(e)) },
        ImportRegistry::Existing(Ok(existing)) => with_ticket(existing_tags_text(hash, existing), ticket, surface),
        ImportRegistry::Tagged(k, Some(e)) => ReplyView {
            lines: tagged_lines(Wording::Import, hash, eff, k),
            failure: Some(DaemonError::Registry(e)),
        },
        ImportRegistry::Tagged(k, None) => with_ticket(tagged_lines(Wording::Import, hash, eff, k), ticket, surface),
    }
}

/// The reports an import of blob `hash` may give: its report for some
/// answers of the registry, with the tables before and after.
pub open spec fn import_answers(
    hash: BlobRef,
    eff: Seq<Seq<char>>,
    ticket: Result<String, String>,
    surface: Surface,
    r: ReplyView,
    before: RegistryView,
    after: RegistryView,
) -> bool {
    exists|step: ImportRegistry|
        #![trigger import_report(hash.text@, eff, step, ticket, surface)]
        import_registry_ok(eff, step, before, after, hash.id@) && r == import_report(hash.text@, eff, step, ticket, surface)
}

/// The note the command line adds to an import's ticket lines.
pub open spec fn share_note() -> Seq<char> {
    "Run `rdrop share` to start accepting connections."@
}

/// The ticket lines with the note, as the command line prints them.
proof fn lemma_cli_ticket_lines(lines: Seq<Seq<char>>, t: Seq<char>)
    ensures
        lines + ticket_text(t, Surface::Cli) == (lines + ticket_text(t, Surface::Daemon)).insert(
            (lines + ticket_text(t, Surface::Daemon)).len() - 2,
            share_note(),
        ),
{
    assert(lines + ticket_text(t, Surface::Cli) =~= (lines + ticket_text(t, Surface::Daemon)).insert(
        (lines + ticket_text(t, Surface::Daemon)).len() - 2,
        share_note(),
    ));
}

/// Law: for the same answers of the registry and the same ticket, the
/// command line's import report is the daemon's with the note on `rdrop
/// share` inserted before its last two lines ("Peers receive with:" and the
/// receive command) when the import ended with a ticket, and the daemon's
/// report otherwise. Which answers and tables an import may reach does not
/// depend on where the report goes (`import_registry_ok` has no surface).
pub proof fn lemma_cli_import_report(hash: Seq<char>, eff: Seq<Seq<char>>, step: ImportRegistry, ticket: Result<String, String>)
    ensures
        import_report(hash, eff, step, ticket, Surface::Cli).failure == import_report(
            hash,
            eff,
            step,
            ticket,
            Surface::Daemon,
        ).failure,
        ticket is Ok && import_report(hash, eff, step, ticket, Surface::Daemon).failure is None ==> import_report(
            hash,
            eff,
            step,
            ticket,
            Surface::Cli,
        ).lines == import_report(hash, eff, step, ticket, Surface::Daemon).lines.insert(
            import_report(hash, eff, step, ticket, Surface::Daemon).lines.len() - 2,
            share_note(),
        ),
        !(ticket is Ok && import_report(hash, eff, step, ticket, Surface::Daemon).failure is None) ==> import_report(
            hash,
            eff,
            step,
            ticket,
            Surface::Cli,
        ) == import_report(hash, eff, step, ticket, Surface::Daemon),
{
    match step {
        ImportRegistry::Existing(Ok(existing)) => {
            if let Ok(t) = ticket {
                lemma_cli_ticket_lines(existing_tags_text(hash, existing), t@);
            }
        },
        ImportRegistry::Tagged(k, None) => {
            if let Ok(t) = ticket {
                lemma_cli_ticket_lines(tagged_lines(Wording::Import, hash, eff, k), t@);
            }
        },
        _ => {},
    }
}

/// The lines printed about the rings that already tag an imported blob.
pub fn existing_tags_lines(hash: &BlobRef, existing: &Vec<String>) -> (r: Vec<String>)
    ensures
        texts(r@) == existing_tags_text(hash.text@, texts(existing@)),
{
    let mut out: Vec<String> = Vec::new();
    let n = existing.len();
    if n == 0 {
        out.push(String::from_str("Warning: not tagged — this blob won't be served to any peer."));
        out.push(String::from_str("Tag it with:"));
        out.push(concat3("  rdrop tag ", hash.text.as_str(), " --ring <ring-name>"));
        out.push(concat3("  rdrop tag ", hash.text.as_str(), " --open"));
        assert(texts(out@) =~= existing_tags_text(hash.text@, texts(existing@)));
        return out;
    }
    out.push(String::from_str("Already tagged:"));
    let ghost names = texts(existing@);
    let mut i: usize = 0;
    while i < n
        invariant
            n == existing@.len(),
            names == texts(existing@),
            i <= n,
            texts(out@) == seq!["Already tagged:"@] + Seq::new(i as nat, |k: int| already_tagged_entry(names[k])),
        decreases n - i,
    {
        let ring = existing[i].as_str();
        let line = if same_text(ring, open_ring_name()) {
            concat3("  ", ring, " (open — publicly accessible)")
        } else {
            concat2("  ", ring)
        };
        let ghost before = out@;
        out.push(line);
        assert(names[i as int] == ring@);
        assert(texts(out@) =~= texts(before).push(line@));
        assert(texts(out@) =~= seq!["Already tagged:"@] + Seq::new((i + 1) as nat, |k: int| already_tagged_entry(names[k])));
        i = i + 1;
    }
    assert(texts(out@) =~= existing_tags_text(hash.text@, names));
    out
}

/// Appends the ticket lines, or turns the node's failure to make a ticket
/// into the reply's failure.
pub fn finish_with_ticket(lines: Vec<String>, ticket: &Result<String, String>, surface: Surface) -> (r: Reply)
    ensures
        r@ == with_ticket(texts(lines@), *ticket, surface),
{
    match ticket {
        Ok(t) => {
            let mut out = lines;
            let ghost start = out@;
            out.push(String::from_str("\nTicket:"));
            out.push(concat3("  ", t.as_str(), "\n"));
            match surface {
                Surface::Cli => out.push(String::from_str("Run `rdrop share` to start accepting connections.")),
                Surface::Daemon => {},
            }
            out.push(String::from_str("Peers receive with:"));
            out.push(concat2("  rdrop receive ", t.as_str()));
            assert(texts(out@) =~= texts(start) + ticket_text(t@, surface));
            Reply { lines: out, failure: None }
        },
        Err(m) => Reply { lines, failure: Some(DaemonError::Node(m.clone())) },
    }
}

/// Reports a freshly imported blob: tags it with the open ring (when `open`)
/// or the rings given, or, with neither, says which rings already tag it;
/// then gives the share ticket the node made for it. Tagging stops at the
/// first missing ring; the report is exact for the registry's tables.
pub fn import_lines(
    registry: &mut RedbRegistry,
    hash: &BlobRef,
    rings: &Vec<String>,
    open: bool,
    ticket: &Result<String, String>,
    surface: Surface,
) -> (r: Reply)
    requires
        registry_valid(registry_view(*old(registry))),
    ensures
        import_answers(
            *hash,
            effective_rings(texts(rings@), open),
            *ticket,
            surface,
            r@,
            registry_view(*old(registry)),
            registry_view(*final(registry)),
        ),
{
    let ghost before = registry_view(*registry);
    let ghost eff = effective_rings(texts(rings@), open);
    let mut chosen: Vec<String> = Vec::new();
    if open {
        chosen.push(String::from_str(open_ring_name()));
    } else {
        let mut i: usize = 0;
        while i < rings.len()
            invariant
                i <= rings@.len(),
                texts(chosen@) == texts(rings@).subrange(0, i as int),
            decreases rings@.len() - i,
        {
            let ghost before_chosen = chosen@;
            let name = rings[i].clone();
            chosen.push(name);
            assert(texts(chosen@) =~= texts(before_chosen).push(name@));
            assert(texts(chosen@) =~= texts(rings@).subrange(0, i as int + 1));
            i = i + 1;
        }
        assert(texts(rings@).subrange(0, rings@.len() as int) =~= texts(rings@));
    }
    assert(texts(chosen@) =~= eff);
    if chosen.len() == 0 {
        match registry_list_resource_rings(registry, hash.id) {
            Err(e) => {
                let r = Reply { lines: Vec::new(), failure: Some(DaemonError::Registry(e)) };
                assert(r@.lines =~= seq![]);
                let ghost step = ImportRegistry::Existing(Err(e));
                assert(import_registry_ok(eff, step, before, registry_view(*registry), hash.id@));
                assert(r@ == import_report(hash.text@, eff, step, *ticket, surface));
                return r;
            },
            Ok(existing) => {
                let lines = existing_tags_lines(hash, &existing);
                let r = finish_with_ticket(lines, ticket, surface);
                let ghost step = ImportRegistry::Existing(Ok(texts(existing@)));
                assert(import_registry_ok(eff, step, before, registry_view(*registry), hash.id@));
                assert(r@ == import_report(hash.text@, eff, step, *ticket, surface));
                return r;
            },
        }
    }
    let (lines, fail) = tag_with_rings(registry, Wording::Import, hash, &chosen);
    let ghost k = choose|k: int|
        #![trigger tagged_lines(Wording::Import, hash.text@, texts(chosen@), k)]
        texts(lines@) == tagged_lines(Wording::Import, hash.text@, texts(chosen@), k) && tag_run(
            before,
            registry_view(*registry),
            hash.id@,
            texts(chosen@),
            k,
            fail,
        );
    match fail {
        Some(e) => {
            let r = Reply { lines, failure: Some(DaemonError::Registry(e)) };
            assert(import_registry_ok(eff, ImportRegistry::Tagged(k, Some(e)), before, registry_view(*registry), hash.id@));
            assert(r@ == import_report(hash.text@, eff, ImportRegistry::Tagged(k, Some(e)), *ticket, surface));
            r
        },
        None => {
            let r = finish_with_ticket(lines, ticket, surface);
            assert(import_registry_ok(eff, ImportRegistry::Tagged(k, None), before, registry_view(*registry), hash.id@));
            assert(r@ == import_report(hash.text@, eff, ImportRegistry::Tagged(k, None), *ticket, surface));
            r
        },
    }
}


/// A failure of the node's own work, reported before anything was printed.
pub fn node_failure(message: String) -> (r: Reply)
    ensures
        r@ == (ReplyView { lines: seq![], failure: Some(DaemonError::Node(message)) }),
{
    let r = Reply { lines: Vec::new(), failure: Some(DaemonError::Node(message)) };
    assert(r@.lines =~= seq![]);
    r
}

// ── list ──────────────────────────────────────────────────────────────────

/// A blob of the local store, as the node listed it, with the share ticket
/// the node made for it (or its failure to).
pub struct ListedBlob {
    pub hash: BlobRef,
    pub name: String,
    pub ticket: Result<String, String>,
}

/// The line naming the rings that tag a listed blob.
pub open spec fn rings_line(rings: Seq<Seq<char>>) -> Seq<char> {
    if rings.len() == 0 {
        "    no rings:  (inaccessible for all peers)"@
    } else {
        "    rings:  "@ + join(rings, ", "@)
    }
}

/// The lines of one listed blob.
pub open spec fn blob_entry_text(b: ListedBlob, rings: Seq<Seq<char>>, ticket: Seq<char>) -> Seq<Seq<char>> {
    seq!["\n  "@ + b.hash.text@ + "  ("@ + b.name@ + ")"@, rings_line(rings), "    ticket: "@ + ticket]
}

/// The first line of a non-empty listing.
pub open spec fn blob_list_header(count: nat, surface: Surface) -> Seq<char> {
    match surface {
        Surface::Daemon => decimal(count) + " blobs:"@,
        Surface::Cli => decimal(count) + " Blobs:"@,
    }
}

/// The closing note of a non-empty listing on the command line.
pub open spec fn blob_list_note() -> Seq<char> {
    "\nNote that the ticket link may change between sessions, but the blob is always uniquely identified and addressed by the protocol."@
}

/// The registry's answers while listing: the rings of each blob consulted,
/// in order; the listing stops at the first failure (the registry's, or the
/// node's failure to make that blob's ticket).
pub open spec fn blob_list_outs_ok(
    blobs: Seq<ListedBlob>,
    outs: Seq<Result<Seq<Seq<char>>, RegistryError>>,
    v: RegistryView,
) -> bool {
    &&& outs.len() <= blobs.len()
    &&& forall|i: int| 0 <= i < outs.len() ==> (#[trigger] outs[i] matches Ok(rs) ==> rs == stored_rings(v, blobs[i].hash.id@))
    &&& forall|i: int| 0 <= i < outs.len() ==> (#[trigger] outs[i] matches Err(e) ==> e is Other)
    &&& forall|i: int| 0 <= i < outs.len() - 1 ==> #[trigger] outs[i] is Ok && blobs[i].ticket is Ok
    &&& outs.len() < blobs.len() ==> (outs.len() > 0 && (outs.last() is Err || blobs[outs.len() - 1].ticket is Err))
}

/// Whether the listing stopped at its last consulted blob.
pub open spec fn blob_list_stopped(blobs: Seq<ListedBlob>, outs: Seq<Result<Seq<Seq<char>>, RegistryError>>) -> bool {
    outs.len() > 0 && (outs.last() is Err || blobs[outs.len() - 1].ticket is Err)
}

/// The lines of the first `k` listed blobs.
pub open spec fn blob_entries(blobs: Seq<ListedBlob>, outs: Seq<Result<Seq<Seq<char>>, RegistryError>>, k: int) -> Seq<Seq<char>> {
    Seq::new(k as nat, |i: int| blob_entry_text(blobs[i], outs[i]->Ok_0, blobs[i].ticket->Ok_0@)).flatten()
}

/// The listing of `blobs`, given the registry's answers.
pub open spec fn blob_list_report(
    blobs: Seq<ListedBlob>,
    outs: Seq<Result<Seq<Seq<char>>, RegistryError>>,
    surface: Surface,
) -> ReplyView {
    if blobs.len() == 0 {
        ReplyView { lines: seq!["No blobs in local store."@], failure: None }
    } else if !blob_list_stopped(blobs, outs) {
        let lines = seq![blob_list_header(blobs.len(), surface)] + blob_entries(blobs, outs, outs.len() as int);
        ReplyView {
            lines: match surface {
                Surface::Daemon => lines,
                Surface::Cli => lines.push(blob_list_note()),
            },
            failure: None,
        }
    } else {
        let lines = seq![blob_list_header(blobs.len(), surface)] + blob_entries(blobs, outs, outs.len() - 1);
        match outs.last() {
            Err(e) => ReplyView { lines, failure: Some(DaemonError::Registry(e)) },
            Ok(_) => ReplyView { lines, failure: Some(DaemonError::Node(blobs[outs.len() - 1].ticket->Err_0)) },
        }
    }
}

/// The reports a listing may give for the registry's tables: the node's
/// failure to list, or the listing of its blobs, each with the rings that
/// tag it, unless storage fails.
pub open spec fn blob_list_answers(listed: Result<Vec<ListedBlob>, String>, surface: Surface, r: ReplyView, v: RegistryView) -> bool {
    match listed {
        Err(m) => r == (ReplyView { lines: seq![], failure: Some(DaemonError::Node(m)) }),
        Ok(blobs) => exists|outs: Seq<Result<Seq<Seq<char>>, RegistryError>>|
            #![trigger blob_list_report(blobs@, outs, surface)]
            blob_list_outs_ok(blobs@, outs, v) && r == blob_list_report(blobs@, outs, surface),
    }
}

/// The line naming the rings that tag a listed blob.
pub fn rings_line_text(rings: &Vec<String>) -> (r: String)
    ensures
        r@ == rings_line(texts(rings@)),
{
    if rings.len() == 0 {
        String::from_str("    no rings:  (inaccessible for all peers)")
    } else {
        let joined = join_strings(rings, ", ");
        assert(rings@.map_values(|s: String| s@) == texts(rings@));
        concat2("    rings:  ", joined.as_str())
    }
}

/// Lists the blobs of the local store (or reports the node's failure to),
/// with the rings that tag each and its share ticket.
pub fn blob_list_lines(registry: &RedbRegistry, listed: &Result<Vec<ListedBlob>, String>, surface: Surface) -> (r: Reply)
    requires
        registry_valid(registry_view(*registry)),
    ensures
        blob_list_answers(*listed, surface, r@, registry_view(*registry)),
{
    let ghost v = registry_view(*registry);
    broadcast use Seq::lemma_flatten_push;
    let blobs = match listed {
        Err(m) => return node_failure(m.clone()),
        Ok(blobs) => blobs,
    };
    let n = blobs.len();
    let mut out: Vec<String> = Vec::new();
    if n == 0 {
        out.push(String::from_str("No blobs in local store."));
        let r = Reply { lines: out, failure: None };
        assert(r@.lines =~= seq!["No blobs in local store."@]);
        assert(blob_list_outs_ok(blobs@, seq![], v));
        assert(r@ == blob_list_report(blobs@, seq![], surface));
        return r;
    }
    let count = decimal_string(n as u64);
    match surface {
        Surface::Daemon => out.push(concat2(count.as_str(), " blobs:")),
        Surface::Cli => out.push(concat2(count.as_str(), " Blobs:")),
    }
    let ghost header = seq![blob_list_header(n as nat, surface)];
    assert(texts(out@) =~= header);
    let ghost mut outs: Seq<Result<Seq<Seq<char>>, RegistryError>> = seq![];
    let mut i: usize = 0;
    while i < n
        invariant
            n == blobs@.len(),
            listed is Ok,
            listed->Ok_0 == *blobs,
            n > 0,
            i <= n,
            header == seq![blob_list_header(n as nat, surface)],
            outs.len() == i,
            forall|j: int| 0 <= j < i ==> #[trigger] outs[j] is Ok && blobs@[j].ticket is Ok,
            v == registry_view(*registry),
            registry_valid(v),
            forall|j: int| 0 <= j < i ==> (#[trigger] outs[j] matches Ok(rs) ==> rs == stored_rings(v, blobs@[j].hash.id@)),
            texts(out@) == header + blob_entries(blobs@, outs, i as int),
        decreases n - i,
    {
        let b = &blobs[i];
        let rings = match registry_list_resource_rings(registry, b.hash.id) {
            Err(e) => {
                proof {
                    let outs2 = outs.push(Err(e));
                    assert(blob_entries(blobs@, outs2, i as int) =~= blob_entries(blobs@, outs, i as int)) by {
                        assert(Seq::new(i as nat, |j: int| blob_entry_text(blobs@[j], outs2[j]->Ok_0, blobs@[j].ticket->Ok_0@))
                            =~= Seq::new(i as nat, |j: int| blob_entry_text(blobs@[j], outs[j]->Ok_0, blobs@[j].ticket->Ok_0@)));
                    }
                    assert(blob_list_outs_ok(blobs@, outs2, v));
                    outs = outs2;
                }
                let r = Reply { lines: out, failure: Some(DaemonError::Registry(e)) };
                assert(r@ == blob_list_report(blobs@, outs, surface));
                return r;
            },
            Ok(rings) => rings,
        };
        let ticket = match &b.ticket {
            Err(m) => {
                proof {
                    let outs2 = outs.push(Ok(texts(rings@)));
                    assert(blob_entries(blobs@, outs2, i as int) =~= blob_entries(blobs@, outs, i as int)) by {
                        assert(Seq::new(i as nat, |j: int| blob_entry_text(blobs@[j], outs2[j]->Ok_0, blobs@[j].ticket->Ok_0@))
                            =~= Seq::new(i as nat, |j: int| blob_entry_text(blobs@[j], outs[j]->Ok_0, blobs@[j].ticket->Ok_0@)));
                    }
                    assert(blob_list_outs_ok(blobs@, outs2, v));
                    outs = outs2;
                }
                let r = Reply { lines: out, failure: Some(DaemonError::Node(m.clone())) };
                assert(r@ == blob_list_report(blobs@, outs, surface));
                return r;
            },
            Ok(t) => t,
        };
        let l1 = concat5("\n  ", b.hash.text.as_str(), "  (", b.name.as_str(), ")");
        let l2 = rings_line_text(&rings);
        let l3 = concat2("    ticket: ", ticket.as_str());
        let ghost before = out@;
        out.push(l1);
        out.push(l2);
        out.push(l3);
        proof {
            let outs2 = outs.push(Ok(texts(rings@)));
            let entry = blob_entry_text(blobs@[i as int], texts(rings@), ticket@);
            assert(texts(out@) =~= texts(before) + entry);
            let f1 = Seq::new(i as nat, |j: int| blob_entry_text(blobs@[j], outs[j]->Ok_0, blobs@[j].ticket->Ok_0@));
            let f2 = Seq::new((i + 1) as nat, |j: int| blob_entry_text(blobs@[j], outs2[j]->Ok_0, blobs@[j].ticket->Ok_0@));
            assert(f2 =~= f1.push(entry));
            f1.lemma_flatten_push(entry);
            assert(blob_entries(blobs@, outs2, i + 1) == f2.flatten());
            assert(blob_entries(blobs@, outs, i as int) == f1.flatten());
            outs = outs2;
        }
        i = i + 1;
    }
    assert(blob_list_outs_ok(blobs@, outs, v));
    match surface {
        Surface::Cli => {
            let ghost before = out@;
            out.push(String::from_str("\nNote that the ticket link may change between sessions, but the blob is always uniquely identified and addressed by the protocol."));
            assert(texts(out@) =~= texts(before).push(blob_list_note()));
        },
        Surface::Daemon => {},
    }
    let r = Reply { lines: out, failure: None };
    assert(r@ == blob_list_report(blobs@, outs, surface));
    r
}

// ── remove ────────────────────────────────────────────────────────────────

/// What `blob remove` prints once the blob is gone.
pub open spec fn removed_text(hash: Seq<char>, surface: Surface) -> Seq<Seq<char>> {
    seq![
        "Removed "@ + hash,
        match surface {
            Surface::Daemon => "Disk space will be reclaimed on the next GC cycle."@,
            Surface::Cli => "Disk space will be reclaimed on the next `rdrop share` run."@,
        },
    ]
}

/// Drops every ring association of the blob, so that no peer may fetch it;
/// only a storage failure stops it, after which the blob's rings are as
/// before or gone.
pub fn untag_blob(registry: &mut RedbRegistry, hash: &BlobRef) -> (r: Result<(), DaemonError>)
    ensures
        r is Ok ==> registry_view(*final(registry)) == untagged(registry_view(*old(registry)), hash.id@),
        r matches Err(e) ==> (e matches DaemonError::Registry(x) && x is Other),
        r is Err ==> registry_view(*final(registry)) == registry_view(*old(registry)) || registry_view(*final(registry))
            == untagged(registry_view(*old(registry)), hash.id@),
        registry_valid(registry_view(*old(registry))) ==> registry_valid(registry_view(*final(registry))),
{
    proof {
        if registry_valid(registry_view(*registry)) {
            lemma_untagged_valid(registry_view(*registry), hash.id@);
        }
    }
    match registry_remove_ring_from_resource(registry, hash.id) {
        Ok(()) => Ok(()),
        Err(e) => Err(DaemonError::Registry(e)),
    }
}

/// The report of a removal, once the blob was untagged: the node deleted
/// it, or failed to.
pub fn blob_removed_reply(hash: &BlobRef, deleted: Result<(), String>, surface: Surface) -> (r: Reply)
    ensures
        deleted is Ok ==> r@ == (ReplyView { lines: removed_text(hash.text@, surface), failure: None }),
        deleted matches Err(m) ==> r@ == (ReplyView { lines: seq![], failure: Some(DaemonError::Node(m)) }),
{
    match deleted {
        Err(m) => node_failure(m),
        Ok(()) => {
            let mut out: Vec<String> = Vec::new();
            out.push(concat2("Removed ", hash.text.as_str()));
            match surface {
                Surface::Daemon => out.push(String::from_str("Disk space will be reclaimed on the next GC cycle.")),
                Surface::Cli => out.push(String::from_str("Disk space will be reclaimed on the next `rdrop share` run.")),
            }
            let r = Reply { lines: out, failure: None };
            assert(r@.lines =~= removed_text(hash.text@, surface));
            r
        },
    }
}

/// The report of a request that failed before printing anything.
pub fn failure_reply(e: DaemonError) -> (r: Reply)
    ensures
        r@ == (ReplyView { lines: seq![], failure: Some(e) }),
{
    let r = Reply { lines: Vec::new(), failure: Some(e) };
    assert(r@.lines =~= seq![]);
    r
}

// ── tag ───────────────────────────────────────────────────────────────────

/// The line of the `tag` command once the open ring tags the blob.
pub open spec fn tagged_open_text(hash: Seq<char>) -> Seq<char> {
    "Tagged "@ + hash + " as open (publicly accessible)"@
}

/// How tagging went: the rings were not all tagged (how many were, and the
/// refusal); or they were, reaching some tables, and then the open ring was
/// tagged or refused (when asked).
pub enum TagRegistry {
    RingsFailed(int, RegistryError),
    RingsDone(RegistryView, Option<RegistryError>),
}

/// The registry answers the `tag` command of resource `resource` can get,
/// with the tables before and after: after a storage failure on the open
/// ring the tables are as the rings left them, or with the open ring tagged
/// too; valid tables stay valid.
pub open spec fn tag_registry_ok(
    rings: Seq<Seq<char>>,
    open: bool,
    step: TagRegistry,
    before: RegistryView,
    after: RegistryView,
    resource: Seq<u8>,
) -> bool {
    match step {
        TagRegistry::RingsFailed(k, e) => k < rings.len() && tag_run(before, after, resource, rings, k, Some(e)),
        TagRegistry::RingsDone(mid, fail) => {
            &&& tag_run(before, mid, resource, rings, rings.len() as int, None)
            &&& (fail matches Some(e) ==> open && tag_error_ok(e, open_name()) && (e is RingNotFound
                ==> !before.rings.dom().contains(open_name())) && (before.rings.dom().contains(open_name())
                ==> e is Other) && (!(e is Other) ==> after == mid))
            &&& (fail matches Some(e) && e is Other ==> after == mid || (before.rings.dom().contains(open_name())
                && after == tagged(mid, resource, open_name())))
            &&& (registry_valid(before) ==> registry_valid(after))
            &&& (fail is None && open ==> before.rings.dom().contains(open_name()) && after == tagged(
                mid,
                resource,
                open_name(),
            ))
            &&& (!open ==> fail is None && after == mid)
        },
    }
}

/// The report of the `tag` command, given the registry's answers.
pub open spec fn tag_report(hash: Seq<char>, rings: Seq<Seq<char>>, open: bool, step: TagRegistry) -> ReplyView {
    match step {
        TagRegistry::RingsFailed(k, e) => ReplyView {
            lines: tagged_lines(Wording::Tag, hash, rings, k),
            failure: Some(DaemonError::Registry(e)),
        },
        TagRegistry::RingsDone(_, Some(e)) => ReplyView {
            lines: tagged_lines(Wording::Tag, hash, rings, rings.len() as int),
            failure: Some(DaemonError::Registry(e)),
        },
        TagRegistry::RingsDone(_, None) => ReplyView {
            lines: if open {
                tagged_lines(Wording::Tag, hash, rings, rings.len() as int).push(tagged_open_text(hash))
            } else {
                tagged_lines(Wording::Tag, hash, rings, rings.len() as int)
            },
            failure: None,
        },
    }
}

/// The reports the `tag` command may give for blob `hash`: its report for
/// some answers of the registry, with the tables before and after.
pub open spec fn tag_answers(
    hash: BlobRef,
    rings: Seq<Seq<char>>,
    open: bool,
    r: ReplyView,
    before: RegistryView,
    after: RegistryView,
) -> bool {
    exists|step: TagRegistry|
        #![trigger tag_report(hash.text@, rings, open, step)]
        tag_registry_ok(rings, open, step, before, after, hash.id@) && r == tag_report(hash.text@, rings, open, step)
}

/// Tags the blob with each of `rings`, then with the open ring when `open`,
/// reporting each; the first refusal stops it.
pub fn tag_lines(registry: &mut RedbRegistry, hash: &BlobRef, rings: &Vec<String>, open: bool) -> (r: Reply)
    ensures
        tag_answers(*hash, texts(rings@), open, r@, registry_view(*old(registry)), registry_view(*final(registry))),
{
    let ghost before = registry_view(*registry);
    let (mut lines, fail) = tag_with_rings(registry, Wording::Tag, hash, rings);
    let ghost mid = registry_view(*registry);
    let ghost k = choose|k: int|
        #![trigger tagged_lines(Wording::Tag, hash.text@, texts(rings@), k)]
        texts(lines@) == tagged_lines(Wording::Tag, hash.text@, texts(rings@), k) && tag_run(
            before,
            mid,
            hash.id@,
            texts(rings@),
            k,
            fail,
        );
    if let Some(e) = fail {
        let r = Reply { lines, failure: Some(DaemonError::Registry(e)) };
        let ghost step = TagRegistry::RingsFailed(k, e);
        assert(tag_registry_ok(texts(rings@), open, step, before, registry_view(*registry), hash.id@));
        assert(r@ == tag_report(hash.text@, texts(rings@), open, step));
        return r;
    }
    if open {
        proof {
            lemma_open_name_valid();
            lemma_valid_name_storable(open_name());
            if registry_valid(before) {
                lemma_tagged_valid(mid, hash.id@, open_name());
            }
        }
        match registry_add_ring_to_resource(registry, hash.id, open_ring_name()) {
            Err(e) => {
                let r = Reply { lines, failure: Some(DaemonError::Registry(e)) };
                let ghost step = TagRegistry::RingsDone(mid, Some(e));
                assert(tag_registry_ok(texts(rings@), open, step, before, registry_view(*registry), hash.id@));
                assert(r@ == tag_report(hash.text@, texts(rings@), open, step));
                return r;
            },
            Ok(()) => {
                let ghost before_lines = lines@;
                let line = concat3("Tagged ", hash.text.as_str(), " as open (publicly accessible)");
                lines.push(line);
                assert(texts(lines@) =~= texts(before_lines).push(line@));
            },
        }
    }
    let r = Reply { lines, failure: None };
    let ghost step = TagRegistry::RingsDone(mid, None);
    assert(tag_registry_ok(texts(rings@), open, step, before, registry_view(*registry), hash.id@));
    assert(r@ == tag_report(hash.text@, texts(rings@), open, step));
    r
}

// ── tags ──────────────────────────────────────────────────────────────────

/// The `tags` line of one ring.
pub open spec fn tag_entry(ring: Seq<char>) -> Seq<char> {
    if ring == open_name() {
        "  "@ + ring + "  (open — publicly accessible)"@
    } else {
        "  "@ + ring
    }
}

/// What `tags` prints for a blob tagged by these rings.
pub open spec fn tags_text(hash: Seq<char>, rings: Seq<Seq<char>>) -> Seq<Seq<char>> {
    if rings.len() == 0 {
        seq![hash + ": no rings (access denied to all peers)"@]
    } else {
        seq![hash + ": "@ + decimal(rings.len()) + " rings:"@] + Seq::new(rings.len(), |i: int| tag_entry(rings[i]))
    }
}

/// The lines `tags` prints for a blob tagged by these rings.
pub fn tags_report_lines(hash: &BlobRef, rings: &Vec<String>) -> (r: Vec<String>)
    ensures
        texts(r@) == tags_text(hash.text@, texts(rings@)),
{
    let n = rings.len();
    let mut out: Vec<String> = Vec::new();
    if n == 0 {
        out.push(concat2(hash.text.as_str(), ": no rings (access denied to all peers)"));
        assert(texts(out@) =~= tags_text(hash.text@, texts(rings@)));
        return out;
    }
    let count = decimal_string(n as u64);
    out.push(concat4(hash.text.as_str(), ": ", count.as_str(), " rings:"));
    let ghost names = texts(rings@);
    let ghost head = seq![hash.text@ + ": "@ + decimal(n as nat) + " rings:"@];
    assert(texts(out@) =~= head);
    let mut i: usize = 0;
    while i < n
        invariant
            n == rings@.len(),
            names == texts(rings@),
            i <= n,
            head == seq![hash.text@ + ": "@ + decimal(n as nat) + " rings:"@],
            texts(out@) == head + Seq::new(i as nat, |k: int| tag_entry(names[k])),
        decreases n - i,
    {
        let ring = rings[i].as_str();
        let line = if same_text(ring, open_ring_name()) {
            concat3("  ", ring, "  (open — publicly accessible)")
        } else {
            concat2("  ", ring)
        };
        let ghost before = out@;
        out.push(line);
        assert(names[i as int] == ring@);
        assert(texts(out@) =~= texts(before).push(line@));
        assert(texts(out@) =~= head + Seq::new((i + 1) as nat, |k: int| tag_entry(names[k])));
        i = i + 1;
    }
    assert(texts(out@) =~= tags_text(hash.text@, names));
    out
}

/// The report of `tags`, given the registry's answer.
pub open spec fn tags_report(hash: Seq<char>, res: Result<Seq<Seq<char>>, RegistryError>) -> ReplyView {
    match res {
        Ok(rings) => ReplyView { lines: tags_text(hash, rings), failure: None },
        Err(e) => ReplyView { lines: seq![], failure: Some(DaemonError::Registry(e)) },
    }
}

/// The reports `tags` may give for a blob tagged by `stored`: those rings,
/// unless storage fails.
pub open spec fn tags_answers(hash: Seq<char>, stored: Seq<Seq<char>>, r: ReplyView) -> bool {
    exists|res: Result<Seq<Seq<char>>, RegistryError>|
        #![trigger tags_report(hash, res)]
        (res matches Err(e) ==> e is Other) && (res matches Ok(rs) ==> rs == stored) && r == tags_report(hash, res)
}

/// Shows the rings that tag the blob, as the registry knows them.
pub fn tags_lines(registry: &RedbRegistry, hash: &BlobRef) -> (r: Reply)
    requires
        registry_valid(registry_view(*registry)),
    ensures
        tags_answers(hash.text@, stored_rings(registry_view(*registry), hash.id@), r@),
{
    match registry_list_resource_rings(registry, hash.id) {
        Ok(rings) => {
            let r = Reply { lines: tags_report_lines(hash, &rings), failure: None };
            let ghost res: Result<Seq<Seq<char>>, RegistryError> = Ok(texts(rings@));
            assert(r@ == tags_report(hash.text@, res));
            r
        },
        Err(e) => {
            let r = failure_reply(DaemonError::Registry(e));
            let ghost res: Result<Seq<Seq<char>>, RegistryError> = Err(e);
            assert(r@ == tags_report(hash.text@, res));
            r
        },
    }
}

/// Law: `tags` answers with the blob's stored rings, or fails only on
/// storage, printing nothing: with no rings, one line saying so; otherwise a
/// header with the count, then one line per stored ring, in order, the open
/// ring with its note.
pub proof fn lemma_tags_answer_lists_each_ring(hash: Seq<char>, stored: Seq<Seq<char>>, r: ReplyView)
    requires
        tags_answers(hash, stored, r),
    ensures
        r.failure matches Some(e) ==> (e matches DaemonError::Registry(x) && x is Other) && r.lines.len() == 0,
        r.failure is None && stored.len() == 0 ==> r.lines == seq![hash + ": no rings (access denied to all peers)"@],
        r.failure is None && stored.len() > 0 ==> r.lines.len() == stored.len() + 1 && r.lines[0] == hash + ": "@
            + decimal(stored.len()) + " rings:"@,
        r.failure is None && stored.len() > 0 ==> forall|i: int|
            0 <= i < stored.len() ==> #[trigger] r.lines[i + 1] == if stored[i] == "open"@ {
                "  "@ + stored[i] + "  (open — publicly accessible)"@
            } else {
                "  "@ + stored[i]
            },
{
    let res = choose|res: Result<Seq<Seq<char>>, RegistryError>|
        #![trigger tags_report(hash, res)]
        (res matches Err(e) ==> e is Other) && (res matches Ok(rs) ==> rs == stored) && r == tags_report(hash, res);
    if r.failure is None && stored.len() > 0 {
        assert forall|i: int| 0 <= i < stored.len() implies #[trigger] r.lines[i + 1] == if stored[i] == "open"@ {
            "  "@ + stored[i] + "  (open — publicly accessible)"@
        } else {
            "  "@ + stored[i]
        } by {
            assert(r.lines[i + 1] == tag_entry(stored[i]));
        }
    }
}

/// Flattening lists of three lines each keeps each line at its place.
proof fn lemma_flatten_threes(f: Seq<Seq<Seq<char>>>)
    requires
        forall|i: int| 0 <= i < f.len() ==> #[trigger] f[i].len() == 3,
    ensures
        f.flatten().len() == 3 * f.len(),
        forall|i: int, j: int| 0 <= i < f.len() && 0 <= j < 3 ==> f.flatten()[3 * i + j] == #[trigger] f[i][j],
    decreases f.len(),
{
    if f.len() > 0 {
        let g = f.drop_last();
        lemma_flatten_threes(g);
        assert(g.push(f.last()) =~= f);
        g.lemma_flatten_push(f.last());
        assert(f.last().len() == 3) by {
            assert(f[f.len() - 1].len() == 3);
        }
        assert forall|i: int, j: int| 0 <= i < f.len() && 0 <= j < 3 implies f.flatten()[3 * i + j] == #[trigger] f[i][j] by {
            if i < g.len() {
                assert(g[i] == f[i]);
                assert(f.flatten()[3 * i + j] == g.flatten()[3 * i + j]);
            } else {
                assert(f.flatten()[3 * i + j] == f.last()[j]);
            }
        }
    }
}

/// Law: a listing that succeeded lists every blob of the store, in order,
/// three lines each: its hash and name, the rings the registry holds for it
/// (joined by ", ", or a note that it has none), and its ticket; after a
/// header with the count, and, on the command line, a closing note. An empty
/// store gets one line saying so.
pub proof fn lemma_blob_list_answer(blobs: Vec<ListedBlob>, surface: Surface, r: ReplyView, v: RegistryView)
    requires
        blob_list_answers(Ok(blobs), surface, r, v),
        r.failure is None,
    ensures
        blobs@.len() == 0 ==> r.lines == seq!["No blobs in local store."@],
        blobs@.len() > 0 ==> r.lines.len() == 3 * blobs@.len() + 1 + (if surface == Surface::Cli { 1int } else { 0int }),
        blobs@.len() > 0 ==> r.lines[0] == decimal(blobs@.len()) + (if surface == Surface::Cli {
            " Blobs:"@
        } else {
            " blobs:"@
        }),
        forall|i: int|
            0 <= i < blobs@.len() ==> (#[trigger] blobs@[i]).ticket is Ok && r.lines[3 * i + 1] == "\n  "@ + blobs@[i].hash.text@
                + "  ("@ + blobs@[i].name@ + ")"@ && r.lines[3 * i + 2] == (if stored_rings(v, blobs@[i].hash.id@).len()
                == 0 {
                "    no rings:  (inaccessible for all peers)"@
            } else {
                "    rings:  "@ + join(stored_rings(v, blobs@[i].hash.id@), ", "@)
            }) && r.lines[3 * i + 3] == "    ticket: "@ + blobs@[i].ticket->Ok_0@,
{
    let outs = choose|outs: Seq<Result<Seq<Seq<char>>, RegistryError>>|
        #![trigger blob_list_report(blobs@, outs, surface)]
        blob_list_outs_ok(blobs@, outs, v) && r == blob_list_report(blobs@, outs, surface);
    let n = blobs@.len();
    if n > 0 {
        assert(!blob_list_stopped(blobs@, outs));
        assert(outs.len() == n);
        assert forall|i: int| 0 <= i < n implies #[trigger] outs[i] is Ok && blobs@[i].ticket is Ok by {
            if i < n - 1 {
                assert(outs[i] is Ok && blobs@[i].ticket is Ok);
            } else {
                assert(outs.last() == outs[i]);
            }
        }
        let f = Seq::new(n, |i: int| blob_entry_text(blobs@[i], outs[i]->Ok_0, blobs@[i].ticket->Ok_0@));
        lemma_flatten_threes(f);
        let head = seq![blob_list_header(n, surface)];
        assert forall|i: int| 0 <= i < n implies (#[trigger] blobs@[i]).ticket is Ok && r.lines[3 * i + 1] == "\n  "@
            + blobs@[i].hash.text@ + "  ("@ + blobs@[i].name@ + ")"@ && r.lines[3 * i + 2] == (if stored_rings(
            v,
            blobs@[i].hash.id@,
        ).len() == 0 {
            "    no rings:  (inaccessible for all peers)"@
        } else {
            "    rings:  "@ + join(stored_rings(v, blobs@[i].hash.id@), ", "@)
        }) && r.lines[3 * i + 3] == "    ticket: "@ + blobs@[i].ticket->Ok_0@ by {
            assert(outs[i] is Ok);
            assert(outs[i] matches Ok(rs) ==> rs == stored_rings(v, blobs@[i].hash.id@));
            assert(f[i][0] == "\n  "@ + blobs@[i].hash.text@ + "  ("@ + blobs@[i].name@ + ")"@);
            assert(r.lines[3 * i + 1] == f.flatten()[3 * i + 0]);
            assert(r.lines[3 * i + 2] == f.flatten()[3 * i + 1]);
            assert(r.lines[3 * i + 3] == f.flatten()[3 * i + 2]);
        }
    }
}

} // verus!
