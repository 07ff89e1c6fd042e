//! The library's contact points with its outside crates: the outside types
//! it carries, and one wrapper per outside function it calls. Each wrapper's
//! contract is trusted, not proved; its doc comment says what it claims.

use vstd::prelude::*;
use iroh_rings::Registry;
use std::str::FromStr;
use crate::error::RegistryError;
use crate::peer::PeerId;
use crate::protocol::texts;
use crate::registry::{
    created, lists_rings, member_listing, peer_listing, registry_valid, registry_view, storable_name, stored_rings, tagged, untagged,
    valid_new_ring_name, with_member, without_member,
};
use crate::rings::opt_text;
use crate::text::hex_lower;

verus! {

/// `uuid::Uuid`: a request id, carried through unread.
#[verifier::external_type_specification]
#[verifier::external_body]
pub struct ExUuid(uuid::Uuid);

/// `iroh_rings::RedbRegistry`: the ring registry, stored on disk; what its
/// tables hold is named below (`ring_table`, `nickname_table`, `resource_table`).
#[verifier::external_type_specification]
#[verifier::external_body]
pub struct ExRedbRegistry(iroh_rings::RedbRegistry);

/// Reads `iroh_rings::OPEN_RING_NAME`, the name of the built-in open ring.
/// Claims: it is `"open"`, as the crate defines it.
#[verifier::external_body]
pub(crate) fn open_ring_name() -> (r: &'static str)
    ensures
        r@ == "open"@,
{
    iroh_rings::OPEN_RING_NAME
}

/// What `<iroh::EndpointId as FromStr>::from_str` makes of a text: the key's
/// 32 bytes, or `None` where it refuses the text.
pub uninterp spec fn endpoint_id_from_str(text: Seq<char>) -> Option<Seq<u8>>;

/// The bytes are those of a valid endpoint key: its hex text parses back to them.
pub open spec fn is_endpoint_key(bytes: Seq<u8>) -> bool {
    endpoint_id_from_str(hex_lower(bytes)) == Some(bytes)
}

/// A whitespace character as `char::is_whitespace` defines it: the Unicode
/// `White_Space` property.
pub open spec fn is_unicode_whitespace(c: char) -> bool {
    let u = c as int;
    ||| 0x09 <= u <= 0x0D
    ||| u == 0x20
    ||| u == 0x85
    ||| u == 0xA0
    ||| u == 0x1680
    ||| 0x2000 <= u <= 0x200A
    ||| u == 0x2028
    ||| u == 0x2029
    ||| u == 0x202F
    ||| u == 0x205F
    ||| u == 0x3000
}

/// The name holds a character `Ring::new` refuses in a ring name: a
/// whitespace character or NUL.
pub open spec fn has_forbidden_char(name: Seq<char>) -> bool {
    exists|i: int| 0 <= i < name.len() && (is_unicode_whitespace(#[trigger] name[i]) || name[i] == '\0')
}

/// Calls `<iroh::EndpointId as FromStr>::from_str`. Claims: the result is the
/// named parse of the text (the error carries the parser's message), and a
/// parsed key's hex text parses back to the same key (`Display` writes the
/// key's bytes in lower-case hex, and `from_str` decodes 64-character input as
/// hex before validating the key, which never fails for a key's own bytes).
#[verifier::external_body]
pub(crate) fn parse_endpoint_id(text: &str) -> (r: Result<PeerId, String>)
    ensures
        match endpoint_id_from_str(text@) {
            Some(b) => r is Ok && r->Ok_0.bytes@ == b,
            None => r is Err,
        },
        r matches Ok(p) ==> is_endpoint_key(p.bytes@),
{
    match iroh::EndpointId::from_str(text) {
        Ok(id) => Ok(PeerId { bytes: *id.as_bytes() }),
        Err(e) => Err(e.to_string()),
    }
}

/// What the registry's ring table holds: each ring's name, with its members'
/// key bytes in the order they joined.
pub uninterp spec fn ring_table(reg: iroh_rings::RedbRegistry) -> Map<Seq<char>, Seq<Seq<u8>>>;

/// What the registry's nickname table holds: members' nicknames, by ring
/// name and member key.
pub uninterp spec fn nickname_table(reg: iroh_rings::RedbRegistry) -> Map<(Seq<char>, Seq<u8>), Seq<char>>;

/// What the registry's resource table holds: the ring names each resource is
/// tagged with, by resource id, as the backend reads them back.
pub uninterp spec fn resource_table(reg: iroh_rings::RedbRegistry) -> Map<Seq<u8>, Seq<Seq<char>>>;

// The three tables above are what the database file holds. Every write of
// the library goes through a `&mut` handle; the contracts below hold as long
// as nothing else writes the same file meanwhile (another clone of the handle
// used outside the library); redb itself refuses a second opener of the file.

/// Calls `Registry::create_ring` on a `RedbRegistry`. Claims what `Ring::new`
/// and the reserved-name check decide before the database is read (an empty
/// name, a name with whitespace or NUL, the open ring's name); that an
/// existing ring gives "already exists" or a storage failure, and a valid new
/// name success or a storage failure; that success adds the ring with no
/// members and changes nothing else; that a refusal other than a storage
/// failure changes nothing; and that after a storage failure the tables are
/// as before or as success leaves them (each call is one redb transaction:
/// an error before the commit drops it, a poisoned commit is rolled back,
/// and any other failed commit is applied wholly or not at all).
#[verifier::external_body]
pub(crate) fn registry_create_ring(reg: &mut iroh_rings::RedbRegistry, name: &str) -> (r: Result<(), RegistryError>)
    ensures
        name@.len() == 0 ==> r matches Err(RegistryError::RingNameEmpty),
        name@.len() > 0 && has_forbidden_char(name@) ==> r matches Err(RegistryError::RingNameInvalidChars),
        name@ == "open"@ ==> r is Err && r->Err_0 is RingNameReserved && r->Err_0->RingNameReserved_0@ == "open"@,
        r matches Err(e) ==> (e matches RegistryError::RingAlreadyExists(n) ==> n@ == name@
            && ring_table(*old(reg)).dom().contains(name@)),
        r matches Err(e) ==> !(e is RingNotFound),
        valid_new_ring_name(name@) && ring_table(*old(reg)).dom().contains(name@) ==> r is Err && (
        r->Err_0 is RingAlreadyExists || r->Err_0 is Other),
        valid_new_ring_name(name@) && !ring_table(*old(reg)).dom().contains(name@) ==> r is Ok || (r is Err
            && r->Err_0 is Other),
        r is Ok ==> valid_new_ring_name(name@) && !ring_table(*old(reg)).dom().contains(name@) && registry_view(
            *final(reg),
        ) == created(registry_view(*old(reg)), name@),
        r is Err && !(r->Err_0 is Other) ==> registry_view(*final(reg)) == registry_view(*old(reg)),
        r is Err && r->Err_0 is Other ==> registry_view(*final(reg)) == registry_view(*old(reg)) || (valid_new_ring_name(
            name@,
        ) && !ring_table(*old(reg)).dom().contains(name@) && registry_view(*final(reg)) == created(
            registry_view(*old(reg)),
            name@,
        )),
{
    iroh_rings::Registry::create_ring(&*reg, name).map_err(|e| match e {
        iroh_rings::Error::RingNameEmpty => RegistryError::RingNameEmpty,
        iroh_rings::Error::RingNameInvalidChars => RegistryError::RingNameInvalidChars,
        iroh_rings::Error::RingNameReserved(n) => RegistryError::RingNameReserved(n),
        iroh_rings::Error::RingAlreadyExists(n) => RegistryError::RingAlreadyExists(n),
        other => RegistryError::Other(other.to_string()),
    })
}

/// Calls `Registry::list_rings` on a `RedbRegistry` and keeps each ring's
/// name. Claims: the list is the open ring, then every other ring of the
/// ring table once (the backend puts the open ring first and walks the
/// table's keys in their order, skipping the open ring's row); a failure is
/// a storage failure. The backend panics on a stored ring name that
/// `Ring::new` refuses, so the tables must hold none.
#[verifier::external_body]
pub(crate) fn registry_list_rings(reg: &iroh_rings::RedbRegistry) -> (r: Result<Vec<String>, RegistryError>)
    requires
        registry_valid(registry_view(*reg)),
    ensures
        r matches Ok(v) ==> lists_rings(registry_view(*reg), texts(v@)),
        r matches Err(e) ==> e is Other,
{
    match reg.list_rings() {
        Ok(rings) => Ok(rings.iter().map(|ring| ring.as_str().to_string()).collect()),
        Err(e) => Err(RegistryError::Other(e.to_string())),
    }
}

/// Calls `Registry::list_ring_peers` on a `RedbRegistry`, keeping each
/// member's key bytes and nickname. Claims: the list is the ring's members in
/// order, each with its nickname in that ring; every member is a valid key
/// (the backend rebuilds each with `EndpointId::from_bytes`, and fails with a
/// storage error otherwise); a ring missing from the table gives "ring not
/// found" or a storage failure.
#[verifier::external_body]
pub(crate) fn registry_list_ring_peers(reg: &iroh_rings::RedbRegistry, ring: &str)
    -> (r: Result<Vec<(PeerId, Option<String>)>, RegistryError>)
    ensures
        r is Ok ==> ring_table(*reg).dom().contains(ring@),
        r matches Ok(v) ==> peer_listing(v@) == member_listing(registry_view(*reg), ring@),
        r matches Ok(v) ==> (forall|i: int| 0 <= i < v@.len() ==> is_endpoint_key(#[trigger] v@[i].0.bytes@)),
        !ring_table(*reg).dom().contains(ring@) ==> r is Err,
        r matches Err(e) ==> (e matches RegistryError::RingNotFound(n) ==> n@ == ring@
            && !ring_table(*reg).dom().contains(ring@)),
        r matches Err(e) ==> (e is RingNotFound || e is Other),
{
    match reg.list_ring_peers(ring) {
        Ok(members) => Ok(members.into_iter().map(|(id, nick)| (PeerId { bytes: *id.as_bytes() }, nick)).collect()),
        Err(iroh_rings::Error::RingNotFound(n)) => Err(RegistryError::RingNotFound(n)),
        Err(e) => Err(RegistryError::Other(e.to_string())),
    }
}

/// Calls `Registry::add_peer_to_ring` on a `RedbRegistry`, after rebuilding
/// the key with `EndpointId::from_bytes`. Claims: success means the ring
/// existed and now has the peer (appended unless already a member) and, when
/// given, its nickname there, nothing else changed; a ring missing from the
/// table gives "ring not found" (nothing changed) or a storage failure; an
/// existing ring gives success or a storage failure. After a storage failure
/// the tables are as before or as success leaves them (one transaction,
/// applied wholly or not at all).
#[verifier::external_body]
pub(crate) fn registry_add_peer_to_ring(reg: &mut iroh_rings::RedbRegistry, ring: &str, peer: &PeerId, nickname: Option<&str>)
    -> (r: Result<(), RegistryError>)
    ensures
        r is Ok ==> ring_table(*old(reg)).dom().contains(ring@),
        r is Ok ==> registry_view(*final(reg)) == with_member(registry_view(*old(reg)), ring@, peer.bytes@, opt_text(nickname)),
        !ring_table(*old(reg)).dom().contains(ring@) ==> r is Err,
        ring_table(*old(reg)).dom().contains(ring@) ==> r is Ok || (r is Err && r->Err_0 is Other),
        r matches Err(e) ==> (e matches RegistryError::RingNotFound(n) ==> n@ == ring@
            && !ring_table(*old(reg)).dom().contains(ring@)),
        r matches Err(e) ==> (e is RingNotFound || e is Other),
        r is Err && !(r->Err_0 is Other) ==> registry_view(*final(reg)) == registry_view(*old(reg)),
        r is Err && r->Err_0 is Other ==> registry_view(*final(reg)) == registry_view(*old(reg)) || (ring_table(
            *old(reg),
        ).dom().contains(ring@) && registry_view(*final(reg)) == with_member(
            registry_view(*old(reg)),
            ring@,
            peer.bytes@,
            opt_text(nickname),
        )),
{
    let id = match iroh::EndpointId::from_bytes(&peer.bytes) {
        Ok(id) => id,
        Err(e) => return Err(RegistryError::Other(e.to_string())),
    };
    match reg.add_peer_to_ring(ring, id, nickname) {
        Ok(()) => Ok(()),
        Err(iroh_rings::Error::RingNotFound(n)) => Err(RegistryError::RingNotFound(n)),
        Err(e) => Err(RegistryError::Other(e.to_string())),
    }
}

/// Calls `Registry::remove_peer_from_ring` on a `RedbRegistry`, after
/// rebuilding the key with `EndpointId::from_bytes`. Claims: success means
/// the ring existed and the peer is no longer among its members (the others
/// keep their order) and has no nickname there, nothing else changed; a ring
/// missing from the table gives "ring not found" (nothing changed) or a
/// storage failure; an existing ring gives success or a storage failure.
/// After a storage failure the tables are as before or as success leaves
/// them (one transaction, applied wholly or not at all).
#[verifier::external_body]
pub(crate) fn registry_remove_peer_from_ring(reg: &mut iroh_rings::RedbRegistry, ring: &str, peer: &PeerId)
    -> (r: Result<(), RegistryError>)
    ensures
        r is Ok ==> ring_table(*old(reg)).dom().contains(ring@),
        r is Ok ==> registry_view(*final(reg)) == without_member(registry_view(*old(reg)), ring@, peer.bytes@),
        r is Ok ==> !nickname_table(*final(reg)).dom().contains((ring@, peer.bytes@)),
        !ring_table(*old(reg)).dom().contains(ring@) ==> r is Err,
        ring_table(*old(reg)).dom().contains(ring@) ==> r is Ok || (r is Err && r->Err_0 is Other),
        r matches Err(e) ==> (e matches RegistryError::RingNotFound(n) ==> n@ == ring@
            && !ring_table(*old(reg)).dom().contains(ring@)),
        r matches Err(e) ==> (e is RingNotFound || e is Other),
        r is Err && !(r->Err_0 is Other) ==> registry_view(*final(reg)) == registry_view(*old(reg)),
        r is Err && r->Err_0 is Other ==> registry_view(*final(reg)) == registry_view(*old(reg)) || (ring_table(
            *old(reg),
        ).dom().contains(ring@) && registry_view(*final(reg)) == without_member(
            registry_view(*old(reg)),
            ring@,
            peer.bytes@,
        )),
{
    let id = match iroh::EndpointId::from_bytes(&peer.bytes) {
        Ok(id) => id,
        Err(e) => return Err(RegistryError::Other(e.to_string())),
    };
    match reg.remove_peer_from_ring(ring, id) {
        Ok(()) => Ok(()),
        Err(iroh_rings::Error::RingNotFound(n)) => Err(RegistryError::RingNotFound(n)),
        Err(e) => Err(RegistryError::Other(e.to_string())),
    }
}

/// Calls `Registry::list_resource_rings` on a `RedbRegistry` with the
/// resource's 32 bytes, keeping each ring's name. Claims: the list is the
/// resource's rings in stored order (none without an entry); a failure is a
/// storage failure. The backend panics on a stored ring name that
/// `Ring::new` refuses, so the tables must hold none.
#[verifier::external_body]
pub(crate) fn registry_list_resource_rings(reg: &iroh_rings::RedbRegistry, resource: [u8; 32])
    -> (r: Result<Vec<String>, RegistryError>)
    requires
        registry_valid(registry_view(*reg)),
    ensures
        r matches Ok(v) ==> texts(v@) == stored_rings(registry_view(*reg), resource@),
        r matches Err(e) ==> e is Other,
{
    match reg.list_resource_rings(resource) {
        Ok(rings) => Ok(rings.iter().map(|ring| ring.as_str().to_string()).collect()),
        Err(e) => Err(RegistryError::Other(e.to_string())),
    }
}

/// Calls `Registry::add_ring_to_resource` on a `RedbRegistry` with the
/// resource's 32 bytes. Claims: success means the ring existed, and, for a
/// ring name that reads back as itself from the stored list, the resource's
/// rings became those `compute_resource_rings` gives (the open ring replaces
/// all; another ring drops the open ring and is appended unless present),
/// nothing else changed; a ring missing from the table gives "ring not found"
/// (nothing changed) or a storage failure; an existing ring gives success or
/// a storage failure. After a storage failure the tables are as before or as
/// success leaves them (one transaction, applied wholly or not at all).
#[verifier::external_body]
pub(crate) fn registry_add_ring_to_resource(reg: &mut iroh_rings::RedbRegistry, resource: [u8; 32], ring: &str)
    -> (r: Result<(), RegistryError>)
    ensures
        r is Ok ==> ring_table(*old(reg)).dom().contains(ring@),
        r is Ok ==> ring_table(*final(reg)) == ring_table(*old(reg)),
        r is Ok && storable_name(ring@) ==> registry_view(*final(reg)) == tagged(registry_view(*old(reg)), resource@, ring@),
        !ring_table(*old(reg)).dom().contains(ring@) ==> r is Err,
        ring_table(*old(reg)).dom().contains(ring@) ==> r is Ok || (r is Err && r->Err_0 is Other),
        r matches Err(e) ==> (e matches RegistryError::RingNotFound(n) ==> n@ == ring@
            && !ring_table(*old(reg)).dom().contains(ring@)),
        r matches Err(e) ==> (e is RingNotFound || e is Other),
        r is Err && !(r->Err_0 is Other) ==> registry_view(*final(reg)) == registry_view(*old(reg)),
        r is Err && r->Err_0 is Other ==> registry_view(*final(reg)) == registry_view(*old(reg)) || (ring_table(
            *old(reg),
        ).dom().contains(ring@) && ring_table(*final(reg)) == ring_table(*old(reg)) && (storable_name(ring@)
            ==> registry_view(*final(reg)) == tagged(registry_view(*old(reg)), resource@, ring@))),
{
    match reg.add_ring_to_resource(resource, ring) {
        Ok(()) => Ok(()),
        Err(iroh_rings::Error::RingNotFound(n)) => Err(RegistryError::RingNotFound(n)),
        Err(e) => Err(RegistryError::Other(e.to_string())),
    }
}

/// Calls `Registry::remove_ring_from_resource` on a `RedbRegistry` with the
/// resource's 32 bytes. Claims: success means the resource's entry is gone,
/// nothing else changed; a failure is a storage failure, after which the
/// tables are as before or as success leaves them (one transaction, applied
/// wholly or not at all).
#[verifier::external_body]
pub(crate) fn registry_remove_ring_from_resource(reg: &mut iroh_rings::RedbRegistry, resource: [u8; 32])
    -> (r: Result<(), RegistryError>)
    ensures
        r is Ok ==> registry_view(*final(reg)) == untagged(registry_view(*old(reg)), resource@),
        r is Ok ==> !resource_table(*final(reg)).dom().contains(resource@),
        r matches Err(e) ==> e is Other,
        r is Err ==> registry_view(*final(reg)) == registry_view(*old(reg)) || registry_view(*final(reg)) == untagged(
            registry_view(*old(reg)),
            resource@,
        ),
{
    match reg.remove_ring_from_resource(resource) {
        Ok(()) => Ok(()),
        Err(e) => Err(RegistryError::Other(e.to_string())),
    }
}

} // verus!
