//! The ring commands: create, list, add a member, remove a member, list
//! members. Each answers with the lines the client prints.

use vstd::prelude::*;
use iroh_rings::RedbRegistry;
use crate::error::{DaemonError, RegistryError};
use crate::outside::{
    endpoint_id_from_str, has_forbidden_char, is_endpoint_key, open_ring_name, parse_endpoint_id, registry_add_peer_to_ring,
    registry_create_ring, registry_list_ring_peers, registry_list_rings, registry_remove_peer_from_ring,
};
use crate::peer::PeerId;
use crate::protocol::{lines_of, texts};
use crate::registry::{
    lemma_added_peer_is_member, lemma_without_drops, nickname_of, lemma_add_then_remove_restores, lemma_created_valid, lemma_membership_valid, registry_valid,
    created, is_storage_failure, lists_rings, member_counts, member_listing, peer_listing, registry_view,
    valid_new_ring_name, with_member, without_member, RegistryView,
};
use crate::text::{concat2, concat3, concat4, concat5, decimal, decimal_string, hex_lower, same_text};

verus! {

/// The name of the open ring.
pub open spec fn open_name() -> Seq<char> {
    "open"@
}

/// An optional text, as an optional character sequence.
pub open spec fn opt_text(o: Option<&str>) -> Option<Seq<char>> {
    match o {
        Some(s) => Some(s@),
        None => None,
    }
}

// ── create ────────────────────────────────────────────────────────────────

/// What `ring new` prints once the ring exists.
pub open spec fn ring_created_text(name: Seq<char>) -> Seq<Seq<char>> {
    seq!["Ring created: "@ + name, "Add peers: rdrop ring add "@ + name + " <peer-id>"@]
}

/// The lines printed after ring `name` was created.
pub fn ring_created_lines(name: &str) -> (r: Vec<String>)
    ensures
        texts(r@) == ring_created_text(name@),
{
    let mut v: Vec<String> = Vec::new();
    v.push(concat2("Ring created: ", name));
    v.push(concat3("Add peers: rdrop ring add ", name, " <peer-id>"));
    assert(texts(v@) =~= ring_created_text(name@));
    v
}

/// The answers `ring new` may give for `name`, with the registry's tables
/// before and after: the creation lines once the ring was added with no
/// members; or the registry's refusal, certain for invalid, reserved and
/// existing names, which leaves the tables as they were (after a storage
/// failure they are as before or as creation leaves them). Valid tables stay
/// valid.
pub open spec fn ring_new_answers(
    name: Seq<char>,
    res: Result<Seq<Seq<char>>, DaemonError>,
    before: RegistryView,
    after: RegistryView,
) -> bool {
    &&& (res matches Ok(v) ==> v == ring_created_text(name) && valid_new_ring_name(name)
        && !before.rings.dom().contains(name) && after == created(before, name))
    &&& (res matches Err(e) ==> e is Registry)
    &&& (name.len() == 0 ==> res matches Err(DaemonError::Registry(RegistryError::RingNameEmpty)))
    &&& (name.len() > 0 && has_forbidden_char(name) ==> res matches Err(
        DaemonError::Registry(RegistryError::RingNameInvalidChars),
    ))
    &&& (name == open_name() ==> (res matches Err(DaemonError::Registry(RegistryError::RingNameReserved(n)))
        && n@ == open_name()))
    &&& (valid_new_ring_name(name) && before.rings.dom().contains(name) ==> res is Err)
    &&& (res matches Err(DaemonError::Registry(RegistryError::RingAlreadyExists(n))) ==> n@ == name
        && before.rings.dom().contains(name))
    &&& (valid_new_ring_name(name) && !before.rings.dom().contains(name) ==> res is Ok || is_storage_failure(
        res->Err_0,
    ))
    &&& (res is Err && !is_storage_failure(res->Err_0) ==> after == before)
    &&& (res is Err && is_storage_failure(res->Err_0) ==> after == before || (valid_new_ring_name(name)
        && !before.rings.dom().contains(name) && after == created(before, name)))
    &&& (registry_valid(before) ==> registry_valid(after))
}

/// Creates ring `name` and says so. Invalid, reserved and existing names are
/// refused with the registry's error; a valid new name is created unless
/// storage fails.
pub fn ring_new_lines(registry: &mut RedbRegistry, name: &str) -> (r: Result<Vec<String>, DaemonError>)
    ensures
        ring_new_answers(name@, lines_of(r), registry_view(*old(registry)), registry_view(*final(registry))),
{
    let ghost before = registry_view(*registry);
    let res = registry_create_ring(registry, name);
    proof {
        if registry_valid(before) && valid_new_ring_name(name@) {
            lemma_created_valid(before, name@);
        }
    }
    match res {
        Ok(()) => Ok(ring_created_lines(name)),
        Err(e) => Err(DaemonError::Registry(e)),
    }
}

// ── list ──────────────────────────────────────────────────────────────────

/// The first line of `ring list`.
pub open spec fn ring_list_header(count: nat) -> Seq<char> {
    decimal(count) + " rings:"@
}

/// The `ring list` line of a ring with `members` members; the open ring has
/// no membership and says so instead.
pub open spec fn ring_entry(name: Seq<char>, members: nat) -> Seq<char> {
    if name == open_name() {
        "  "@ + name + "  — publicly accessible (no membership required)"@
    } else {
        "  "@ + name + "  ("@ + decimal(members) + " members)"@
    }
}

/// What `ring list` prints for these rings and member counts.
pub open spec fn ring_list_text(names: Seq<Seq<char>>, members: Seq<nat>) -> Seq<Seq<char>> {
    seq![ring_list_header(names.len())] + Seq::new(names.len(), |i: int| ring_entry(names[i], members[i]))
}

/// The first line of `ring list` for `count` rings.
pub fn ring_list_header_line(count: usize) -> (r: String)
    ensures
        r@ == ring_list_header(count as nat),
{
    let mut s = decimal_string(count as u64);
    s.append(" rings:");
    s
}

/// The `ring list` line of one ring.
pub fn ring_entry_line(name: &str, members: usize) -> (r: String)
    ensures
        r@ == ring_entry(name@, members as nat),
{
    if same_text(name, open_ring_name()) {
        concat3("  ", name, "  — publicly accessible (no membership required)")
    } else {
        let count = decimal_string(members as u64);
        concat5("  ", name, "  (", count.as_str(), " members)")
    }
}

/// Member counts as numbers.
pub open spec fn count_values(counts: Seq<usize>) -> Seq<nat> {
    counts.map_values(|c: usize| c as nat)
}

/// The lines `ring list` prints for these rings and member counts.
pub fn ring_list_text_lines(names: &Vec<String>, counts: &Vec<usize>) -> (r: Vec<String>)
    requires
        names@.len() == counts@.len(),
    ensures
        texts(r@) == ring_list_text(texts(names@), count_values(counts@)),
{
    let n = names.len();
    let ghost rings = texts(names@);
    let ghost members = count_values(counts@);
    let mut out: Vec<String> = Vec::new();
    out.push(ring_list_header_line(n));
    let mut i: usize = 0;
    while i < n
        invariant
            n == names@.len(),
            n == counts@.len(),
            rings == texts(names@),
            members == count_values(counts@),
            i <= n,
            texts(out@) == seq![ring_list_header(n as nat)] + Seq::new(i as nat, |k: int| ring_entry(rings[k], members[k])),
        decreases n - i,
    {
        let line = ring_entry_line(names[i].as_str(), counts[i]);
        let ghost before = out@;
        out.push(line);
        proof {
            assert(texts(out@) =~= texts(before).push(line@));
            assert(rings[i as int] == names@[i as int]@);
            assert(members[i as int] == counts@[i as int] as nat);
            assert(texts(out@) =~= seq![ring_list_header(n as nat)] + Seq::new((i + 1) as nat, |k: int| ring_entry(rings[k], members[k])));
        }
        i = i + 1;
    }
    out
}

/// The answers `ring list` may give for the registry's tables: the listing
/// of its rings (the open ring first, then each other ring once, in the
/// order of their names) with each ring's member count; or a storage failure.
pub open spec fn ring_list_answers(res: Result<Seq<Seq<char>>, DaemonError>, v: RegistryView) -> bool {
    &&& (res matches Ok(lines) ==> exists|names: Seq<Seq<char>>|
        #![trigger lists_rings(v, names)]
        lists_rings(v, names) && lines == ring_list_text(names, member_counts(v, names)))
    &&& (res matches Err(e) ==> is_storage_failure(e))
}

/// Lists the rings, the open ring first, with the member count of every
/// other ring, as the registry holds them; a storage failure fails the
/// listing.
pub fn ring_list_lines(registry: &RedbRegistry) -> (r: Result<Vec<String>, DaemonError>)
    requires
        registry_valid(registry_view(*registry)),
    ensures
        ring_list_answers(lines_of(r), registry_view(*registry)),
{
    let ghost v = registry_view(*registry);
    let rings = match registry_list_rings(registry) {
        Ok(rings) => rings,
        Err(e) => return Err(DaemonError::Registry(e)),
    };
    let n = rings.len();
    let ghost names = texts(rings@);
    let mut counts: Vec<usize> = Vec::new();
    let mut i: usize = 0;
    while i < n
        invariant
            n == rings@.len(),
            names == texts(rings@),
            v == registry_view(*registry),
            lists_rings(v, names),
            i <= n,
            counts@.len() == i,
            forall|k: int| 0 <= k < i ==> #[trigger] count_values(counts@)[k] == member_counts(v, names)[k],
        decreases n - i,
    {
        let name = rings[i].as_str();
        assert(names[i as int] == name@);
        let count: usize = if same_text(name, open_ring_name()) {
            0
        } else {
            match registry_list_ring_peers(registry, name) {
                Ok(peers) => {
                    assert(peer_listing(peers@).len() == member_listing(v, name@).len());
                    peers.len()
                },
                Err(e) => return Err(DaemonError::Registry(e)),
            }
        };
        assert(count as nat == member_counts(v, names)[i as int]);
        let ghost counted = counts@;
        counts.push(count);
        assert forall|k: int| 0 <= k < i + 1 implies #[trigger] count_values(counts@)[k] == member_counts(v, names)[k] by {
            assert(count_values(counts@)[k] == counts@[k] as nat);
            if k < i {
                assert(counts@[k] == counted[k]);
                assert(count_values(counted)[k] == counted[k] as nat);
            }
        }
        i = i + 1;
    }
    assert(count_values(counts@) =~= member_counts(v, names));
    let out = ring_list_text_lines(&rings, &counts);
    let r: Result<Vec<String>, DaemonError> = Ok(out);
    assert(lines_of(r) matches Ok(lines) && lines == ring_list_text(names, member_counts(v, names)));
    r
}

/// Law: once ring `name` was created, the listing of the rings holds its
/// line, with no members.
pub proof fn lemma_created_ring_listed(before: RegistryView, name: Seq<char>, names: Seq<Seq<char>>)
    requires
        valid_new_ring_name(name),
        lists_rings(created(before, name), names),
    ensures
        exists|i: int|
            1 <= i < names.len() && names[i] == name
                && #[trigger] ring_list_text(names, member_counts(created(before, name), names))[i + 1] == ring_entry(name, 0),
        ring_entry(name, 0) == "  "@ + name + "  (0 members)"@,
{
    let after = created(before, name);
    assert(after.rings.dom().contains(name));
    let i = choose|i: int| 1 <= i < names.len() && #[trigger] names[i] == name;
    assert(member_counts(after, names)[i] == 0);
    assert(ring_list_text(names, member_counts(after, names))[i + 1] == ring_entry(name, 0));
    assert(ring_entry(name, 0) =~= "  "@ + name + "  (0 members)"@) by {
        reveal_strlit("0");
        reveal_strlit("  (");
        reveal_strlit(" members)");
        reveal_strlit("  (0 members)");
        assert(decimal(0) =~= "0"@);
        assert("  ("@ + "0"@ + " members)"@ =~= "  (0 members)"@);
        assert(("  "@ + name) + "  ("@ + decimal(0) + " members)"@ =~= ("  "@ + name) + ("  ("@ + "0"@ + " members)"@));
    }
}

// ── add / remove members ──────────────────────────────────────────────────

/// What `ring add` prints for the open ring, which has no members.
pub open spec fn open_ring_add_text() -> Seq<char> {
    "The open ring has no membership list — everyone is welcome by default."@
}

/// What `ring remove` prints for the open ring.
pub open spec fn open_ring_remove_text() -> Seq<char> {
    "The open ring has no membership list to remove from."@
}

/// What `ring add` prints once `peer` is a member of `ring`.
pub open spec fn member_added_text(peer: Seq<u8>, ring: Seq<char>, nickname: Option<Seq<char>>) -> Seq<char> {
    match nickname {
        Some(nick) => "Added "@ + hex_lower(peer) + " ("@ + nick + ") to ring "@ + ring,
        None => "Added "@ + hex_lower(peer) + " to ring "@ + ring,
    }
}

/// What `ring remove` prints once `peer` is no member of `ring`.
pub open spec fn member_removed_text(peer: Seq<u8>, ring: Seq<char>) -> Seq<char> {
    "Removed "@ + hex_lower(peer) + " from ring "@ + ring
}

/// Takes the parse of a peer id: a refused text becomes an error naming it.
pub fn accept_peer(peer: &str, parsed: Result<PeerId, String>) -> (r: Result<PeerId, DaemonError>)
    ensures
        parsed matches Ok(p) ==> r == Ok::<PeerId, DaemonError>(p),
        parsed matches Err(why) ==> (r matches Err(DaemonError::InvalidPeerId(t, w)) && t@ == peer@ && w == why),
{
    match parsed {
        Ok(p) => Ok(p),
        Err(why) => Err(DaemonError::InvalidPeerId(String::from_str(peer), why)),
    }
}

/// Takes the parse of a peer id to add to a ring: a refused text is an
/// error, and so is the node's own id.
pub fn check_new_member(public_id: &PeerId, peer: &str, parsed: Result<PeerId, String>) -> (r: Result<PeerId, DaemonError>)
    ensures
        parsed matches Err(why) ==> (r matches Err(DaemonError::InvalidPeerId(t, w)) && t@ == peer@ && w == why),
        parsed matches Ok(p) ==> (p.bytes@ == public_id.bytes@ ==> r == Err::<PeerId, DaemonError>(DaemonError::AddSelf)),
        parsed matches Ok(p) ==> (p.bytes@ != public_id.bytes@ ==> r == Ok::<PeerId, DaemonError>(p)),
{
    match accept_peer(peer, parsed) {
        Ok(p) => {
            if p.same(public_id) {
                Err(DaemonError::AddSelf)
            } else {
                Ok(p)
            }
        },
        Err(e) => Err(e),
    }
}

/// The line printed once `peer` was added to `ring`.
pub fn member_added_line(peer: &PeerId, ring: &str, nickname: Option<&str>) -> (r: String)
    ensures
        r@ == member_added_text(peer.bytes@, ring@, opt_text(nickname)),
{
    let id = peer.to_text();
    match nickname {
        Some(nick) => {
            let mut s = concat4("Added ", id.as_str(), " (", nick);
            s.append(") to ring ");
            s.append(ring);
            s
        },
        None => concat4("Added ", id.as_str(), " to ring ", ring),
    }
}

/// The answers `ring add` may give, with the registry's tables before and
/// after. The open ring has no members and gets a fixed answer; a peer text
/// that does not parse is refused; the node's own id is refused (in
/// particular its own id's text, when it is a valid key); any other peer is
/// added to an existing ring (with its nickname, when given) unless storage
/// fails, and a missing ring is refused. A refusal other than a storage
/// failure leaves the tables as they were; after a storage failure they are
/// as before or as the addition leaves them. Valid tables stay valid.
pub open spec fn ring_add_answers(
    public_id: PeerId,
    ring: Seq<char>,
    peer: Seq<char>,
    nickname: Option<Seq<char>>,
    res: Result<Seq<Seq<char>>, DaemonError>,
    before: RegistryView,
    after: RegistryView,
) -> bool {
    &&& ring == open_name() ==> res == Ok::<Seq<Seq<char>>, DaemonError>(seq![open_ring_add_text()]) && after == before
    &&& (ring != open_name() && endpoint_id_from_str(peer) is None ==> (res matches Err(
        DaemonError::InvalidPeerId(t, _),
    ) && t@ == peer))
    &&& (ring != open_name() && endpoint_id_from_str(peer) == Some(public_id.bytes@) ==> res matches Err(
        DaemonError::AddSelf,
    ))
    &&& (ring != open_name() && is_endpoint_key(public_id.bytes@) && peer == hex_lower(public_id.bytes@)
        ==> res matches Err(DaemonError::AddSelf))
    &&& (ring != open_name() ==> (endpoint_id_from_str(peer) matches Some(b) ==> (b != public_id.bytes@ ==> (
        res matches Ok(v) ==> v == seq![member_added_text(b, ring, nickname)] && before.rings.dom().contains(ring)
            && after == with_member(before, ring, b, nickname)))))
    &&& (ring != open_name() ==> (endpoint_id_from_str(peer) matches Some(b) ==> (b != public_id.bytes@ ==> (
        res matches Err(e) ==> e is Registry))))
    &&& (ring != open_name() ==> (endpoint_id_from_str(peer) matches Some(b) ==> (b != public_id.bytes@ ==> (
        before.rings.dom().contains(ring) ==> res is Ok || is_storage_failure(res->Err_0)))))
    &&& (ring != open_name() ==> (endpoint_id_from_str(peer) matches Some(b) ==> (res is Err && is_storage_failure(
        res->Err_0,
    ) ==> after == before || (before.rings.dom().contains(ring) && after == with_member(before, ring, b, nickname)))))
    &&& (ring != open_name() && !before.rings.dom().contains(ring) ==> res is Err)
    &&& (res is Err && !is_storage_failure(res->Err_0) ==> after == before)
    &&& (registry_valid(before) ==> registry_valid(after))
}

/// Adds the peer named by `peer` to `ring`. The open ring has no members and
/// is answered without touching the registry; a peer id that does not parse,
/// or that is the node's own, is refused; otherwise the peer joins an
/// existing ring, and a missing ring is refused.
pub fn ring_add_lines(
    registry: &mut RedbRegistry,
    public_id: PeerId,
    ring: &str,
    peer: &str,
    nickname: Option<&str>,
) -> (r: Result<Vec<String>, DaemonError>)
    ensures
        ring_add_answers(
            public_id,
            ring@,
            peer@,
            opt_text(nickname),
            lines_of(r),
            registry_view(*old(registry)),
            registry_view(*final(registry)),
        ),
{
    if same_text(ring, open_ring_name()) {
        let mut v: Vec<String> = Vec::new();
        v.push(String::from_str("The open ring has no membership list — everyone is welcome by default."));
        assert(texts(v@) =~= seq![open_ring_add_text()]);
        return Ok(v);
    }
    let member = match check_new_member(&public_id, peer, parse_endpoint_id(peer)) {
        Ok(p) => p,
        Err(e) => return Err(e),
    };
    let ghost before = registry_view(*registry);
    let res = registry_add_peer_to_ring(registry, ring, &member, nickname);
    proof {
        if registry_valid(before) && before.rings.dom().contains(ring@) {
            lemma_membership_valid(before, ring@, member.bytes@, opt_text(nickname));
        }
    }
    match res {
        Ok(()) => {
            let mut v: Vec<String> = Vec::new();
            v.push(member_added_line(&member, ring, nickname));
            assert(texts(v@) =~= seq![member_added_text(member.bytes@, ring@, opt_text(nickname))]);
            Ok(v)
        },
        Err(e) => Err(DaemonError::Registry(e)),
    }
}

/// The line printed once `peer` was removed from `ring`.
pub fn member_removed_line(peer: &PeerId, ring: &str) -> (r: String)
    ensures
        r@ == member_removed_text(peer.bytes@, ring@),
{
    let id = peer.to_text();
    concat4("Removed ", id.as_str(), " from ring ", ring)
}

/// The answers `ring remove` may give, with the registry's tables before
/// and after. The open ring has no members and gets a fixed answer; a peer
/// text that does not parse is refused; any other peer leaves an existing
/// ring (its nickname there dropped) unless storage fails, and a missing
/// ring is refused. A refusal other than a storage failure leaves the tables
/// as they were; after a storage failure they are as before or as the
/// removal leaves them. Valid tables stay valid.
pub open spec fn ring_remove_answers(
    ring: Seq<char>,
    peer: Seq<char>,
    res: Result<Seq<Seq<char>>, DaemonError>,
    before: RegistryView,
    after: RegistryView,
) -> bool {
    &&& ring == open_name() ==> res == Ok::<Seq<Seq<char>>, DaemonError>(seq![open_ring_remove_text()]) && after == before
    &&& (ring != open_name() && endpoint_id_from_str(peer) is None ==> (res matches Err(
        DaemonError::InvalidPeerId(t, _),
    ) && t@ == peer))
    &&& (ring != open_name() ==> (endpoint_id_from_str(peer) matches Some(b) ==> (res matches Ok(v) ==> v
        == seq![member_removed_text(b, ring)] && before.rings.dom().contains(ring)
        && after == without_member(before, ring, b))))
    &&& (ring != open_name() && endpoint_id_from_str(peer) is Some ==> (res matches Err(e) ==> e is Registry))
    &&& (ring != open_name() && endpoint_id_from_str(peer) is Some && before.rings.dom().contains(ring) ==> (res is Ok
        || is_storage_failure(res->Err_0)))
    &&& (ring != open_name() ==> (endpoint_id_from_str(peer) matches Some(b) ==> (res is Err && is_storage_failure(
        res->Err_0,
    ) ==> after == before || (before.rings.dom().contains(ring) && after == without_member(before, ring, b)))))
    &&& (ring != open_name() && !before.rings.dom().contains(ring) ==> res is Err)
    &&& (res is Err && !is_storage_failure(res->Err_0) ==> after == before)
    &&& (registry_valid(before) ==> registry_valid(after))
}

/// Removes the peer named by `peer` from `ring`. The open ring has no
/// members and is answered without touching the registry; a peer id that
/// does not parse is refused; otherwise the peer leaves an existing ring,
/// and a missing ring is refused.
pub fn ring_remove_lines(registry: &mut RedbRegistry, ring: &str, peer: &str) -> (r: Result<Vec<String>, DaemonError>)
    ensures
        ring_remove_answers(ring@, peer@, lines_of(r), registry_view(*old(registry)), registry_view(*final(registry))),
{
    if same_text(ring, open_ring_name()) {
        let mut v: Vec<String> = Vec::new();
        v.push(String::from_str("The open ring has no membership list to remove from."));
        assert(texts(v@) =~= seq![open_ring_remove_text()]);
        return Ok(v);
    }
    let member = match accept_peer(peer, parse_endpoint_id(peer)) {
        Ok(p) => p,
        Err(e) => return Err(e),
    };
    let ghost before = registry_view(*registry);
    let res = registry_remove_peer_from_ring(registry, ring, &member);
    proof {
        if registry_valid(before) && before.rings.dom().contains(ring@) {
            lemma_membership_valid(before, ring@, member.bytes@, None);
        }
    }
    match res {
        Ok(()) => {
            let mut v: Vec<String> = Vec::new();
            v.push(member_removed_line(&member, ring));
            assert(texts(v@) =~= seq![member_removed_text(member.bytes@, ring@)]);
            Ok(v)
        },
        Err(e) => Err(DaemonError::Registry(e)),
    }
}

/// Law: take a ring other than the open ring, and a peer text that parses to
/// a key other than the node's own and not among the ring's members. Once
/// `ring add` of that peer succeeded, `ring remove` of the same text answers
/// that the peer was removed unless storage fails; once it did, the ring's
/// members and their nicknames, and every ring's members, are those before
/// the add.
pub proof fn lemma_ring_add_then_remove(
    public_id: PeerId,
    ring: Seq<char>,
    peer: Seq<char>,
    nickname: Option<Seq<char>>,
    added: Result<Seq<Seq<char>>, DaemonError>,
    v0: RegistryView,
    v1: RegistryView,
    removed: Result<Seq<Seq<char>>, DaemonError>,
    v2: RegistryView,
)
    requires
        ring != open_name(),
        endpoint_id_from_str(peer) matches Some(b) && b != public_id.bytes@ && !v0.rings[ring].contains(b),
        added is Ok,
        ring_add_answers(public_id, ring, peer, nickname, added, v0, v1),
        ring_remove_answers(ring, peer, removed, v1, v2),
    ensures
        removed is Ok || is_storage_failure(removed->Err_0),
        removed matches Ok(lines) ==> lines == seq![member_removed_text(endpoint_id_from_str(peer)->Some_0, ring)],
        removed is Ok ==> v2.rings == v0.rings && member_listing(v2, ring) == member_listing(v0, ring),
{
    let b = endpoint_id_from_str(peer)->Some_0;
    assert(v0.rings.dom().contains(ring) && v1 == with_member(v0, ring, b, nickname));
    assert(v1.rings.dom().contains(ring));
    if removed is Ok {
        assert(v2 == without_member(v1, ring, b));
        lemma_add_then_remove_restores(v0, ring, b, nickname);
    }
}

// ── members ───────────────────────────────────────────────────────────────

/// What `ring members` prints for the open ring.
pub open spec fn open_ring_members_text() -> Seq<char> {
    "The open ring is public — any peer may access blobs tagged with it."@
}

/// The `ring members` line of one member.
pub open spec fn member_entry(m: (PeerId, Option<String>)) -> Seq<char> {
    match m.1 {
        Some(nick) => "  "@ + hex_lower(m.0.bytes@) + "  ("@ + nick@ + ")"@,
        None => "  "@ + hex_lower(m.0.bytes@),
    }
}

/// What `ring members` prints for `ring` with these members.
pub open spec fn members_text(ring: Seq<char>, members: Seq<(PeerId, Option<String>)>) -> Seq<Seq<char>> {
    if members.len() == 0 {
        seq![
            "Ring '"@ + ring + "' has no members yet."@,
            "Add peers: rdrop ring add "@ + ring + " <peer-id>"@,
            "Peers print their peer-id with: rdrop id"@,
        ]
    } else {
        seq!["Ring '"@ + ring + "' — "@ + decimal(members.len()) + " members:"@]
            + Seq::new(members.len(), |i: int| member_entry(members[i]))
    }
}

/// The `ring members` line of one member.
pub fn member_entry_line(peer: &PeerId, nickname: &Option<String>) -> (r: String)
    ensures
        r@ == member_entry((*peer, *nickname)),
{
    let id = peer.to_text();
    match nickname {
        Some(nick) => concat5("  ", id.as_str(), "  (", nick.as_str(), ")"),
        None => concat2("  ", id.as_str()),
    }
}

/// The lines `ring members` prints for `ring` with these members.
pub fn members_lines(ring: &str, members: &Vec<(PeerId, Option<String>)>) -> (r: Vec<String>)
    ensures
        texts(r@) == members_text(ring@, members@),
{
    let n = members.len();
    let mut out: Vec<String> = Vec::new();
    if n == 0 {
        out.push(concat3("Ring '", ring, "' has no members yet."));
        out.push(concat3("Add peers: rdrop ring add ", ring, " <peer-id>"));
        out.push(String::from_str("Peers print their peer-id with: rdrop id"));
        assert(texts(out@) =~= members_text(ring@, members@));
        return out;
    }
    let count = decimal_string(n as u64);
    out.push(concat5("Ring '", ring, "' — ", count.as_str(), " members:"));
    let ghost head = seq!["Ring '"@ + ring@ + "' — "@ + decimal(n as nat) + " members:"@];
    assert(texts(out@) =~= head);
    let mut i: usize = 0;
    while i < n
        invariant
            n == members@.len(),
            n > 0,
            i <= n,
            head == seq!["Ring '"@ + ring@ + "' — "@ + decimal(n as nat) + " members:"@],
            texts(out@) == head + Seq::new(i as nat, |k: int| member_entry(members@[k])),
        decreases n - i,
    {
        let (peer, nickname) = &members[i];
        let line = member_entry_line(peer, nickname);
        let ghost before = out@;
        out.push(line);
        assert(texts(out@) =~= texts(before).push(line@));
        assert(texts(out@) =~= head + Seq::new((i + 1) as nat, |k: int| member_entry(members@[k])));
        i = i + 1;
    }
    assert(texts(out@) =~= members_text(ring@, members@));
    out
}

/// The answers `ring members` may give for the registry's tables. The open
/// ring gets a fixed answer; an existing ring's members are listed in order
/// with their nicknames, unless storage fails; a missing ring is refused.
pub open spec fn ring_members_answers(ring: Seq<char>, res: Result<Seq<Seq<char>>, DaemonError>, v: RegistryView) -> bool {
    &&& ring == open_name() ==> res == Ok::<Seq<Seq<char>>, DaemonError>(seq![open_ring_members_text()])
    &&& (ring != open_name() ==> (res matches Ok(lines) ==> v.rings.dom().contains(ring) && exists|ms: Seq<(PeerId, Option<String>)>|
        #![trigger members_text(ring, ms)]
        peer_listing(ms) == member_listing(v, ring) && lines == members_text(ring, ms)))
    &&& (ring != open_name() && v.rings.dom().contains(ring) ==> res is Ok || is_storage_failure(res->Err_0))
    &&& (ring != open_name() && !v.rings.dom().contains(ring) ==> res is Err)
    &&& (res matches Err(DaemonError::Registry(RegistryError::RingNotFound(n))) ==> n@ == ring)
    &&& (res matches Err(e) ==> e is Registry)
}

/// Lists the members of `ring`. The open ring has none and is answered
/// without touching the registry; otherwise the members are the registry's.
pub fn ring_members_lines(registry: &RedbRegistry, ring: &str) -> (r: Result<Vec<String>, DaemonError>)
    ensures
        ring_members_answers(ring@, lines_of(r), registry_view(*registry)),
{
    if same_text(ring, open_ring_name()) {
        let mut v: Vec<String> = Vec::new();
        v.push(String::from_str("The open ring is public — any peer may access blobs tagged with it."));
        assert(texts(v@) =~= seq![open_ring_members_text()]);
        return Ok(v);
    }
    match registry_list_ring_peers(registry, ring) {
        Ok(members) => {
            let r: Result<Vec<String>, DaemonError> = Ok(members_lines(ring, &members));
            assert(lines_of(r) matches Ok(v) && v == members_text(ring@, members@));
            r
        },
        Err(e) => Err(DaemonError::Registry(e)),
    }
}

/// Law: `ring members` of a ring other than the open ring, when it
/// answers, lists the ring's members as the registry holds them: with no
/// members, the three lines saying so; otherwise a header with the count,
/// then one line per member, in order, each the member's key in hex and its
/// nickname in that ring, when it has one.
pub proof fn lemma_members_answer_lists_each_member(ring: Seq<char>, lines: Seq<Seq<char>>, v: RegistryView)
    requires
        ring != open_name(),
        ring_members_answers(ring, Ok(lines), v),
    ensures
        v.rings.dom().contains(ring),
        member_listing(v, ring).len() == 0 ==> lines == seq![
            "Ring '"@ + ring + "' has no members yet."@,
            "Add peers: rdrop ring add "@ + ring + " <peer-id>"@,
            "Peers print their peer-id with: rdrop id"@,
        ],
        member_listing(v, ring).len() > 0 ==> lines.len() == member_listing(v, ring).len() + 1 && lines[0] == "Ring '"@
            + ring + "' — "@ + decimal(member_listing(v, ring).len()) + " members:"@,
        member_listing(v, ring).len() > 0 ==> forall|i: int|
            0 <= i < member_listing(v, ring).len() ==> #[trigger] lines[i + 1] == match member_listing(v, ring)[i].1 {
                Some(nick) => "  "@ + hex_lower(member_listing(v, ring)[i].0) + "  ("@ + nick + ")"@,
                None => "  "@ + hex_lower(member_listing(v, ring)[i].0),
            },
{
    let ms = choose|ms: Seq<(PeerId, Option<String>)>|
        #![trigger members_text(ring, ms)]
        peer_listing(ms) == member_listing(v, ring) && lines == members_text(ring, ms);
    let m = member_listing(v, ring);
    assert(ms.len() == peer_listing(ms).len());
    assert forall|i: int| 0 <= i < m.len() implies #[trigger] lines[i + 1] == match m[i].1 {
        Some(nick) => "  "@ + hex_lower(m[i].0) + "  ("@ + nick + ")"@,
        None => "  "@ + hex_lower(m[i].0),
    } by {
        assert(peer_listing(ms)[i] == (ms[i].0.bytes@, crate::registry::opt_view(ms[i].1)));
        assert(lines[i + 1] == member_entry(ms[i]));
    }
}

/// Law: `ring new` that succeeded says the ring was created and how to add
/// peers; the ring was new and now exists with no members, and nothing else
/// changed.
pub proof fn lemma_ring_new_answer(name: Seq<char>, lines: Seq<Seq<char>>, before: RegistryView, after: RegistryView)
    requires
        ring_new_answers(name, Ok(lines), before, after),
    ensures
        lines == seq!["Ring created: "@ + name, "Add peers: rdrop ring add "@ + name + " <peer-id>"@],
        !before.rings.dom().contains(name),
        after.rings == before.rings.insert(name, Seq::empty()),
        after.nicknames == before.nicknames,
        after.resources == before.resources,
{
}

/// Law: `ring list` that succeeded prints a header with the number of rings,
/// the open ring first with its note, then every other ring of the registry
/// once, in name order, each with the number of its members.
pub proof fn lemma_ring_list_answer(lines: Seq<Seq<char>>, v: RegistryView)
    requires
        ring_list_answers(Ok(lines), v),
    ensures
        exists|names: Seq<Seq<char>>|
            #![trigger lists_rings(v, names)]
            lists_rings(v, names) && lines.len() == names.len() + 1 && lines[0] == decimal(names.len()) + " rings:"@
                && names[0] == "open"@ && lines[1] == "  "@ + names[0] + "  — publicly accessible (no membership required)"@
                && forall|i: int|
                1 <= i < names.len() ==> #[trigger] lines[i + 1] == "  "@ + names[i] + "  ("@ + decimal(v.rings[names[i]].len())
                    + " members)"@,
{
    let names = choose|names: Seq<Seq<char>>|
        #![trigger lists_rings(v, names)]
        lists_rings(v, names) && lines == ring_list_text(names, member_counts(v, names));
    assert(lines[1] == ring_entry(names[0], member_counts(v, names)[0]));
    assert forall|i: int| 1 <= i < names.len() implies #[trigger] lines[i + 1] == "  "@ + names[i] + "  ("@ + decimal(
        v.rings[names[i]].len(),
    ) + " members)"@ by {
        assert(lines[i + 1] == ring_entry(names[i], member_counts(v, names)[i]));
    }
}

/// Law: `ring add` to a ring other than the open ring that succeeded had a
/// peer text naming a key other than the node's own; it says the peer was
/// added (with its nickname, when given); the ring existed, and the peer is
/// now among its members, with that nickname.
pub proof fn lemma_ring_add_answer(
    public_id: PeerId,
    ring: Seq<char>,
    peer: Seq<char>,
    nickname: Option<Seq<char>>,
    lines: Seq<Seq<char>>,
    before: RegistryView,
    after: RegistryView,
)
    requires
        ring != open_name(),
        ring_add_answers(public_id, ring, peer, nickname, Ok(lines), before, after),
    ensures
        endpoint_id_from_str(peer) is Some,
        endpoint_id_from_str(peer)->Some_0 != public_id.bytes@,
        lines == seq![
            match nickname {
                Some(n) => "Added "@ + hex_lower(endpoint_id_from_str(peer)->Some_0) + " ("@ + n + ") to ring "@ + ring,
                None => "Added "@ + hex_lower(endpoint_id_from_str(peer)->Some_0) + " to ring "@ + ring,
            },
        ],
        before.rings.dom().contains(ring),
        after.rings[ring].contains(endpoint_id_from_str(peer)->Some_0),
        nickname is Some ==> nickname_of(after, ring, endpoint_id_from_str(peer)->Some_0) == nickname,
{
    let b = endpoint_id_from_str(peer)->Some_0;
    lemma_added_peer_is_member(before, ring, b, nickname);
}

/// Law: `ring remove` from a ring other than the open ring that succeeded
/// had a peer text naming a key; it says the peer was removed; the ring
/// existed, and the peer is no longer among its members nor has a nickname
/// there.
pub proof fn lemma_ring_remove_answer(
    ring: Seq<char>,
    peer: Seq<char>,
    lines: Seq<Seq<char>>,
    before: RegistryView,
    after: RegistryView,
)
    requires
        ring != open_name(),
        ring_remove_answers(ring, peer, Ok(lines), before, after),
    ensures
        endpoint_id_from_str(peer) is Some,
        lines == seq!["Removed "@ + hex_lower(endpoint_id_from_str(peer)->Some_0) + " from ring "@ + ring],
        before.rings.dom().contains(ring),
        !after.rings[ring].contains(endpoint_id_from_str(peer)->Some_0),
        nickname_of(after, ring, endpoint_id_from_str(peer)->Some_0) is None,
{
    let b = endpoint_id_from_str(peer)->Some_0;
    lemma_without_drops(before.rings[ring], b);
}

} // verus!
