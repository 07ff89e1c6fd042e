//! The ring registry as mathematical values: what its tables hold, and how
//! each of its writes changes them.

use vstd::prelude::*;
use crate::outside::{has_forbidden_char, is_unicode_whitespace, nickname_table, resource_table, ring_table};
use crate::error::{DaemonError, RegistryError};
use crate::peer::PeerId;

verus! {

/// The registry's tables.
pub struct RegistryView {
    /// Each ring, by name, with its members' key bytes in the order they joined.
    pub rings: Map<Seq<char>, Seq<Seq<u8>>>,
    /// Members' nicknames, by ring name and member key.
    pub nicknames: Map<(Seq<char>, Seq<u8>), Seq<char>>,
    /// The rings each resource is tagged with, by resource id, in stored order.
    pub resources: Map<Seq<u8>, Seq<Seq<char>>>,
}

/// What a registry holds.
pub open spec fn registry_view(reg: iroh_rings::RedbRegistry) -> RegistryView {
    RegistryView { rings: ring_table(reg), nicknames: nickname_table(reg), resources: resource_table(reg) }
}

/// The name of the built-in open ring.
pub open spec fn open_ring() -> Seq<char> {
    "open"@
}

/// A registry failure of storage, after which nothing is known of the tables.
pub open spec fn is_storage_failure(e: DaemonError) -> bool {
    e matches DaemonError::Registry(RegistryError::Other(_))
}

/// A name the registry accepts for a new ring: not empty, free of
/// whitespace and NUL, and not the open ring's.
pub open spec fn valid_new_ring_name(name: Seq<char>) -> bool {
    name.len() > 0 && !has_forbidden_char(name) && name != open_ring()
}

/// A name `Ring::new` accepts: not empty, free of whitespace and NUL.
pub open spec fn valid_ring_name(name: Seq<char>) -> bool {
    name.len() > 0 && !has_forbidden_char(name)
}

/// Every ring name the tables hold is one `Ring::new` accepts: the ring
/// table's names, and the names in each resource's list. The registry's own
/// writes keep this; its listings rely on it.
pub open spec fn registry_valid(v: RegistryView) -> bool {
    &&& forall|n: Seq<char>| #[trigger] v.rings.dom().contains(n) ==> valid_ring_name(n)
    &&& forall|res: Seq<u8>, i: int|
        #![trigger v.resources[res][i]]
        v.resources.dom().contains(res) && 0 <= i < v.resources[res].len() ==> valid_ring_name(v.resources[res][i])
}

/// `a` comes before `b` in the order of their characters' code points (the
/// order of their UTF-8 bytes): a proper prefix first, else the first
/// differing character decides.
pub open spec fn text_before(a: Seq<char>, b: Seq<char>) -> bool {
    exists|k: int|
        #![trigger a.subrange(0, k), b.subrange(0, k)]
        0 <= k <= a.len() && k <= b.len() && a.subrange(0, k) == b.subrange(0, k) && ((k == a.len() && k < b.len())
            || (k < a.len() && k < b.len() && (a[k] as u32) < (b[k] as u32)))
}

/// A ring name that reads back as itself from a resource's stored list of
/// ring names: not empty, and free of NUL (the list's separator).
pub open spec fn storable_name(name: Seq<char>) -> bool {
    name.len() > 0 && !name.contains('\0')
}

/// `s` with every occurrence of `x` dropped, the rest in order.
pub open spec fn without<A>(s: Seq<A>, x: A) -> Seq<A>
    decreases s.len(),
{
    if s.len() == 0 {
        s
    } else if s.last() == x {
        without(s.drop_last(), x)
    } else {
        without(s.drop_last(), x).push(s.last())
    }
}

/// The tables once ring `name` was created, with no members.
pub open spec fn created(v: RegistryView, name: Seq<char>) -> RegistryView {
    RegistryView { rings: v.rings.insert(name, Seq::empty()), nicknames: v.nicknames, resources: v.resources }
}

/// The tables once `peer` joined `ring` (a member already stays where it
/// is), with its nickname when one is given.
pub open spec fn with_member(v: RegistryView, ring: Seq<char>, peer: Seq<u8>, nickname: Option<Seq<char>>) -> RegistryView {
    let members = v.rings[ring];
    RegistryView {
        rings: v.rings.insert(ring, if members.contains(peer) { members } else { members.push(peer) }),
        nicknames: match nickname {
            Some(n) => v.nicknames.insert((ring, peer), n),
            None => v.nicknames,
        },
        resources: v.resources,
    }
}

/// The tables once `peer` left `ring`, with its nickname there dropped.
pub open spec fn without_member(v: RegistryView, ring: Seq<char>, peer: Seq<u8>) -> RegistryView {
    RegistryView {
        rings: v.rings.insert(ring, without(v.rings[ring], peer)),
        nicknames: v.nicknames.remove((ring, peer)),
        resources: v.resources,
    }
}

/// The nickname of `peer` in `ring`, if it has one.
pub open spec fn nickname_of(v: RegistryView, ring: Seq<char>, peer: Seq<u8>) -> Option<Seq<char>> {
    if v.nicknames.dom().contains((ring, peer)) {
        Some(v.nicknames[(ring, peer)])
    } else {
        None
    }
}

/// The members of `ring` with their nicknames, in order.
pub open spec fn member_listing(v: RegistryView, ring: Seq<char>) -> Seq<(Seq<u8>, Option<Seq<char>>)> {
    Seq::new(v.rings[ring].len(), |i: int| (v.rings[ring][i], nickname_of(v, ring, v.rings[ring][i])))
}

/// An optional text, as an optional character sequence.
pub open spec fn opt_view(o: Option<String>) -> Option<Seq<char>> {
    match o {
        Some(s) => Some(s@),
        None => None,
    }
}

/// Members as listed, as key bytes and nicknames.
pub open spec fn peer_listing(members: Seq<(PeerId, Option<String>)>) -> Seq<(Seq<u8>, Option<Seq<char>>)> {
    Seq::new(members.len(), |i: int| (members[i].0.bytes@, opt_view(members[i].1)))
}

/// A listing of the rings: the open ring first, then every other ring once,
/// in the order of their names.
pub open spec fn lists_rings(v: RegistryView, names: Seq<Seq<char>>) -> bool {
    &&& names.len() >= 1
    &&& names[0] == open_ring()
    &&& forall|i: int| 1 <= i < names.len() ==> #[trigger] names[i] != open_ring() && v.rings.dom().contains(names[i])
    &&& forall|n: Seq<char>|
        #![trigger v.rings.dom().contains(n)]
        v.rings.dom().contains(n) && n != open_ring() ==> exists|i: int| 1 <= i < names.len() && #[trigger] names[i] == n
    &&& forall|i: int, j: int| 1 <= i < j < names.len() ==> #[trigger] names[i] != #[trigger] names[j]
    &&& forall|i: int, j: int| 1 <= i < j < names.len() ==> text_before(#[trigger] names[i], #[trigger] names[j])
}

/// The member count shown for each listed ring (the open ring has none).
pub open spec fn member_counts(v: RegistryView, names: Seq<Seq<char>>) -> Seq<nat> {
    Seq::new(names.len(), |i: int| if names[i] == open_ring() { 0 } else { v.rings[names[i]].len() })
}

/// The rings a resource is tagged with (none when it has no entry).
pub open spec fn stored_rings(v: RegistryView, resource: Seq<u8>) -> Seq<Seq<char>> {
    if v.resources.dom().contains(resource) {
        v.resources[resource]
    } else {
        Seq::empty()
    }
}

/// The rings a resource is tagged with after tagging it with `ring`: the
/// open ring replaces every other; a private ring drops the open ring and
/// joins at the end unless already there.
pub open spec fn rings_after_tag(existing: Seq<Seq<char>>, ring: Seq<char>) -> Seq<Seq<char>> {
    if ring == open_ring() {
        seq![open_ring()]
    } else {
        let kept = without(existing, open_ring());
        if kept.contains(ring) {
            kept
        } else {
            kept.push(ring)
        }
    }
}

/// The tables once `resource` was tagged with `ring`.
pub open spec fn tagged(v: RegistryView, resource: Seq<u8>, ring: Seq<char>) -> RegistryView {
    RegistryView {
        rings: v.rings,
        nicknames: v.nicknames,
        resources: v.resources.insert(resource, rings_after_tag(stored_rings(v, resource), ring)),
    }
}

/// The tables once `resource` was tagged with the first `k` of `rings`, in order.
pub open spec fn tagged_all(v: RegistryView, resource: Seq<u8>, rings: Seq<Seq<char>>, k: int) -> RegistryView
    decreases k,
{
    if k <= 0 {
        v
    } else {
        tagged(tagged_all(v, resource, rings, k - 1), resource, rings[k - 1])
    }
}

/// Tagging a resource changes neither the rings nor the nicknames.
pub proof fn lemma_tagged_all_keeps_rings(v: RegistryView, resource: Seq<u8>, rings: Seq<Seq<char>>, k: int)
    ensures
        tagged_all(v, resource, rings, k).rings == v.rings,
        tagged_all(v, resource, rings, k).nicknames == v.nicknames,
    decreases k,
{
    if k > 0 {
        lemma_tagged_all_keeps_rings(v, resource, rings, k - 1);
    }
}

/// The tables once every ring of `resource` was dropped.
pub open spec fn untagged(v: RegistryView, resource: Seq<u8>) -> RegistryView {
    RegistryView { rings: v.rings, nicknames: v.nicknames, resources: v.resources.remove(resource) }
}

/// What is left after dropping a value was there before.
pub proof fn lemma_without_keeps<A>(s: Seq<A>, x: A)
    ensures
        forall|i: int| 0 <= i < without(s, x).len() ==> s.contains(#[trigger] without(s, x)[i]),
        without(s, x).len() <= s.len(),
    decreases s.len(),
{
    if s.len() > 0 {
        lemma_without_keeps(s.drop_last(), x);
        let w = without(s, x);
        assert forall|i: int| 0 <= i < w.len() implies s.contains(#[trigger] w[i]) by {
            let d = s.drop_last();
            if i < without(d, x).len() {
                assert(d.contains(without(d, x)[i]));
                let j = choose|j: int| 0 <= j < d.len() && d[j] == without(d, x)[i];
                assert(s[j] == d[j]);
            } else {
                assert(s[s.len() - 1] == s.last());
            }
        }
    }
}

/// The dropped value no longer occurs.
pub proof fn lemma_without_drops<A>(s: Seq<A>, x: A)
    ensures
        !without(s, x).contains(x),
    decreases s.len(),
{
    if s.len() > 0 {
        lemma_without_drops(s.drop_last(), x);
        let w = without(s, x);
        let d = without(s.drop_last(), x);
        if s.last() != x {
            assert forall|i: int| 0 <= i < w.len() implies w[i] != x by {
                if i < d.len() {
                    assert(w[i] == d[i]);
                }
            }
        }
    }
}

/// A name `Ring::new` accepts reads back as itself from a stored list.
pub proof fn lemma_valid_name_storable(name: Seq<char>)
    requires
        valid_ring_name(name),
    ensures
        storable_name(name),
{
    if name.contains('\0') {
        let i = choose|i: int| 0 <= i < name.len() && name[i] == '\0';
        assert(has_forbidden_char(name));
    }
}

/// The open ring's name is one `Ring::new` accepts.
pub proof fn lemma_open_name_valid()
    ensures
        valid_ring_name(open_ring()),
{
    reveal_strlit("open");
    assert(!has_forbidden_char(open_ring())) by {
        if has_forbidden_char(open_ring()) {
            let i = choose|i: int| 0 <= i < open_ring().len() && (is_unicode_whitespace(#[trigger] open_ring()[i]) || open_ring()[i] == '\0');
            assert(0 <= i < 4);
        }
    }
}

/// Creating a ring with a valid name keeps the tables valid.
pub proof fn lemma_created_valid(v: RegistryView, name: Seq<char>)
    requires
        registry_valid(v),
        valid_ring_name(name),
    ensures
        registry_valid(created(v, name)),
{
    let after = created(v, name);
    assert forall|n: Seq<char>| #[trigger] after.rings.dom().contains(n) implies valid_ring_name(n) by {
        if n != name {
            assert(v.rings.dom().contains(n));
        }
    }
}

/// Joining or leaving an existing ring keeps the tables valid.
pub proof fn lemma_membership_valid(v: RegistryView, ring: Seq<char>, peer: Seq<u8>, nickname: Option<Seq<char>>)
    requires
        registry_valid(v),
        v.rings.dom().contains(ring),
    ensures
        registry_valid(with_member(v, ring, peer, nickname)),
        registry_valid(without_member(v, ring, peer)),
{
    let a = with_member(v, ring, peer, nickname);
    let b = without_member(v, ring, peer);
    assert forall|n: Seq<char>| #[trigger] a.rings.dom().contains(n) implies valid_ring_name(n) by {
        assert(v.rings.dom().contains(n));
    }
    assert forall|n: Seq<char>| #[trigger] b.rings.dom().contains(n) implies valid_ring_name(n) by {
        assert(v.rings.dom().contains(n));
    }
}

/// Tagging a resource with a valid ring keeps the tables valid.
pub proof fn lemma_tagged_valid(v: RegistryView, resource: Seq<u8>, ring: Seq<char>)
    requires
        registry_valid(v),
        valid_ring_name(ring),
    ensures
        registry_valid(tagged(v, resource, ring)),
{
    let after = tagged(v, resource, ring);
    let existing = stored_rings(v, resource);
    assert forall|i: int| 0 <= i < existing.len() implies valid_ring_name(#[trigger] existing[i]) by {
        if v.resources.dom().contains(resource) {
            assert(valid_ring_name(v.resources[resource][i]));
        }
    }
    let list = rings_after_tag(existing, ring);
    assert forall|i: int| 0 <= i < list.len() implies valid_ring_name(#[trigger] list[i]) by {
        if ring == open_ring() {
            assert(list[i] == ring);
        } else {
            let kept = without(existing, open_ring());
            lemma_without_keeps(existing, open_ring());
            if i < kept.len() {
                assert(existing.contains(kept[i]));
                let j = choose|j: int| 0 <= j < existing.len() && existing[j] == kept[i];
                assert(valid_ring_name(existing[j]));
            } else {
                assert(list[i] == ring);
            }
        }
    }
    assert forall|res: Seq<u8>, i: int|
        after.resources.dom().contains(res) && 0 <= i < after.resources[res].len() implies valid_ring_name(
            #[trigger] after.resources[res][i],
        ) by {
        if res == resource {
            assert(after.resources[res] == list);
            assert(valid_ring_name(list[i]));
        } else {
            assert(v.resources.dom().contains(res));
            assert(valid_ring_name(v.resources[res][i]));
        }
    }
    assert forall|n: Seq<char>| #[trigger] after.rings.dom().contains(n) implies valid_ring_name(n) by {
        assert(v.rings.dom().contains(n));
    }
}

/// Dropping a resource's rings keeps the tables valid.
pub proof fn lemma_untagged_valid(v: RegistryView, resource: Seq<u8>)
    requires
        registry_valid(v),
    ensures
        registry_valid(untagged(v, resource)),
{
    let after = untagged(v, resource);
    assert forall|res: Seq<u8>, i: int|
        after.resources.dom().contains(res) && 0 <= i < after.resources[res].len() implies valid_ring_name(
            #[trigger] after.resources[res][i],
        ) by {
        assert(v.resources.dom().contains(res));
        assert(valid_ring_name(v.resources[res][i]));
    }
    assert forall|n: Seq<char>| #[trigger] after.rings.dom().contains(n) implies valid_ring_name(n) by {
        assert(v.rings.dom().contains(n));
    }
}

/// Dropping a value that does not occur changes nothing.
pub proof fn lemma_without_absent<A>(s: Seq<A>, x: A)
    requires
        !s.contains(x),
    ensures
        without(s, x) == s,
    decreases s.len(),
{
    if s.len() > 0 {
        assert(!s.drop_last().contains(x)) by {
            if s.drop_last().contains(x) {
                let i = choose|i: int| 0 <= i < s.drop_last().len() && s.drop_last()[i] == x;
                assert(s[i] == x);
            }
        }
        lemma_without_absent(s.drop_last(), x);
        assert(s.last() != x) by {
            assert(s[s.len() - 1] == s.last());
        }
        assert(s.drop_last().push(s.last()) =~= s);
    }
}

/// Law: a peer that was no member of a ring, added to it and then removed
/// again, leaves the ring's members, their nicknames and every other table
/// entry of the ring as they were.
pub proof fn lemma_add_then_remove_restores(v: RegistryView, ring: Seq<char>, peer: Seq<u8>, nickname: Option<Seq<char>>)
    requires
        v.rings.dom().contains(ring),
        !v.rings[ring].contains(peer),
    ensures
        without_member(with_member(v, ring, peer, nickname), ring, peer).rings == v.rings,
        member_listing(without_member(with_member(v, ring, peer, nickname), ring, peer), ring) == member_listing(v, ring),
        without_member(with_member(v, ring, peer, nickname), ring, peer).resources == v.resources,
{
    let s = v.rings[ring];
    let after = without_member(with_member(v, ring, peer, nickname), ring, peer);
    lemma_without_absent(s, peer);
    assert(s.push(peer).drop_last() =~= s);
    assert(without(s.push(peer), peer) == s);
    assert(after.rings =~= v.rings);
    assert forall|i: int| 0 <= i < s.len() implies nickname_of(after, ring, #[trigger] s[i]) == nickname_of(v, ring, s[i]) by {
        assert(s[i] != peer);
    }
    assert(member_listing(after, ring) =~= member_listing(v, ring));
}

/// Law: once a peer was added to a ring, it is among the ring's members,
/// with the nickname given (an earlier one stays when none is given); adding
/// a member again leaves the members as they were.
pub proof fn lemma_added_peer_is_member(v: RegistryView, ring: Seq<char>, peer: Seq<u8>, nickname: Option<Seq<char>>)
    ensures
        with_member(v, ring, peer, nickname).rings[ring].contains(peer),
        nickname is Some ==> nickname_of(with_member(v, ring, peer, nickname), ring, peer) == nickname,
        nickname is None ==> nickname_of(with_member(v, ring, peer, nickname), ring, peer) == nickname_of(v, ring, peer),
        v.rings.dom().contains(ring) && v.rings[ring].contains(peer) ==> with_member(v, ring, peer, nickname).rings
            == v.rings,
{
    let members = v.rings[ring];
    if !members.contains(peer) {
        assert(members.push(peer)[members.len() as int] == peer);
    }
    if v.rings.dom().contains(ring) && members.contains(peer) {
        assert(v.rings.insert(ring, members) =~= v.rings);
    }
}

/// Law: once a resource is tagged with a ring, the ring is among the
/// resource's rings; tagging with the open ring leaves it the only one.
pub proof fn lemma_tag_shows_ring(v: RegistryView, resource: Seq<u8>, ring: Seq<char>)
    ensures
        stored_rings(tagged(v, resource, ring), resource).contains(ring),
        ring == open_ring() ==> stored_rings(tagged(v, resource, ring), resource) == seq![open_ring()],
{
    let after = stored_rings(tagged(v, resource, ring), resource);
    if ring == open_ring() {
        assert(after[0] == ring);
    } else {
        let kept = without(stored_rings(v, resource), open_ring());
        if !kept.contains(ring) {
            assert(after[after.len() - 1] == ring);
        }
    }
}

/// Law: once a resource's rings were dropped, it has none.
pub proof fn lemma_untag_leaves_none(v: RegistryView, resource: Seq<u8>)
    ensures
        stored_rings(untagged(v, resource), resource) == Seq::<Seq<char>>::empty(),
{
}

} // verus!
