use iroh_rings::{RedbRegistry, Registry, OPEN_RING_NAME};
use ringdrop::error::{DaemonError, RegistryError};
use ringdrop::peer::PeerId;
use ringdrop::rings::{
    ring_add_lines, ring_list_lines, ring_members_lines, ring_new_lines, ring_remove_lines,
};
use tempfile::TempDir;

fn setup(dir: &TempDir) -> (RedbRegistry, PeerId) {
    let key = iroh::SecretKey::generate().public();
    let public_id = PeerId { bytes: *key.as_bytes() };
    let registry = RedbRegistry::open(dir.path().join("registry.redb")).unwrap();
    (registry, public_id)
}

fn new_peer() -> (PeerId, String) {
    let key = iroh::SecretKey::generate().public();
    (PeerId { bytes: *key.as_bytes() }, key.to_string())
}

#[test]
fn ring_add_self_is_rejected() {
    let dir = TempDir::new().unwrap();
    let (mut registry, public_id) = setup(&dir);
    registry.create_ring("friends").unwrap();

    let err = ring_add_lines(
        &mut registry,
        public_id,
        "friends",
        &public_id.to_text(),
        None,
    )
    .unwrap_err();
    assert!(err.message().contains("yourself"));
}

#[test]
fn ring_add_to_open_ring_does_not_add_member() {
    let dir = TempDir::new().unwrap();
    let (mut registry, public_id) = setup(&dir);
    let (_, peer) = new_peer();

    ring_add_lines(&mut registry, public_id, OPEN_RING_NAME, &peer, None).unwrap();

    assert_eq!(registry.list_ring_peers(OPEN_RING_NAME).unwrap().len(), 0);
}

#[test]
fn ring_add_self_message_is_exact() {
    let dir = TempDir::new().unwrap();
    let (mut registry, public_id) = setup(&dir);
    registry.create_ring("friends").unwrap();
    let err = ring_add_lines(&mut registry, public_id, "friends", &public_id.to_text(), None).unwrap_err();
    assert_eq!(err, DaemonError::AddSelf);
    assert_eq!(err.message(), "cannot add yourself to a ring");
}

#[test]
fn ring_add_open_ring_answer() {
    let dir = TempDir::new().unwrap();
    let (mut registry, public_id) = setup(&dir);
    let lines = ring_add_lines(&mut registry, public_id, "open", "not a key", None).unwrap();
    assert_eq!(
        lines,
        vec!["The open ring has no membership list — everyone is welcome by default.".to_string()]
    );
}

#[test]
fn ring_new_then_list_shows_ring() {
    let dir = TempDir::new().unwrap();
    let (mut registry, _) = setup(&dir);
    let lines = ring_new_lines(&mut registry, "friends").unwrap();
    assert_eq!(
        lines,
        vec![
            "Ring created: friends".to_string(),
            "Add peers: rdrop ring add friends <peer-id>".to_string(),
        ]
    );
    let listed = ring_list_lines(&registry).unwrap();
    assert_eq!(
        listed,
        vec![
            "2 rings:".to_string(),
            "  open  — publicly accessible (no membership required)".to_string(),
            "  friends  (0 members)".to_string(),
        ]
    );
}

#[test]
fn ring_new_refusals() {
    let dir = TempDir::new().unwrap();
    let (mut registry, _) = setup(&dir);
    assert_eq!(
        ring_new_lines(&mut registry, "").unwrap_err(),
        DaemonError::Registry(RegistryError::RingNameEmpty)
    );
    assert_eq!(
        ring_new_lines(&mut registry, "my ring").unwrap_err(),
        DaemonError::Registry(RegistryError::RingNameInvalidChars)
    );
    let reserved = ring_new_lines(&mut registry, "open").unwrap_err();
    assert_eq!(reserved, DaemonError::Registry(RegistryError::RingNameReserved("open".to_string())));
    assert_eq!(reserved.message(), "'open' is a reserved ring name");
    ring_new_lines(&mut registry, "friends").unwrap();
    let dup = ring_new_lines(&mut registry, "friends").unwrap_err();
    assert_eq!(dup.message(), "ring 'friends' already exists");
}

#[test]
fn ring_add_and_members_and_remove() {
    let dir = TempDir::new().unwrap();
    let (mut registry, public_id) = setup(&dir);
    ring_new_lines(&mut registry, "friends").unwrap();
    let (peer, text) = new_peer();

    let empty = ring_members_lines(&registry, "friends").unwrap();
    assert_eq!(
        empty,
        vec![
            "Ring 'friends' has no members yet.".to_string(),
            "Add peers: rdrop ring add friends <peer-id>".to_string(),
            "Peers print their peer-id with: rdrop id".to_string(),
        ]
    );

    let added = ring_add_lines(&mut registry, public_id, "friends", &text, Some("alice")).unwrap();
    assert_eq!(added, vec![format!("Added {text} (alice) to ring friends")]);

    let members = ring_members_lines(&registry, "friends").unwrap();
    assert_eq!(
        members,
        vec!["Ring 'friends' — 1 members:".to_string(), format!("  {text}  (alice)")]
    );
    assert_eq!(peer.to_text(), text);

    let listed = ring_list_lines(&registry).unwrap();
    assert_eq!(listed[2], "  friends  (1 members)");

    let removed = ring_remove_lines(&mut registry, "friends", &text).unwrap();
    assert_eq!(removed, vec![format!("Removed {text} from ring friends")]);
    assert_eq!(ring_members_lines(&registry, "friends").unwrap().len(), 3);
}

#[test]
fn ring_add_without_nickname() {
    let dir = TempDir::new().unwrap();
    let (mut registry, public_id) = setup(&dir);
    ring_new_lines(&mut registry, "work").unwrap();
    let (_, text) = new_peer();
    let added = ring_add_lines(&mut registry, public_id, "work", &text, None).unwrap();
    assert_eq!(added, vec![format!("Added {text} to ring work")]);
    let members = ring_members_lines(&registry, "work").unwrap();
    assert_eq!(members, vec!["Ring 'work' — 1 members:".to_string(), format!("  {text}")]);
}

#[test]
fn ring_add_errors() {
    let dir = TempDir::new().unwrap();
    let (mut registry, public_id) = setup(&dir);
    let bad = ring_add_lines(&mut registry, public_id, "friends", "zzz", None).unwrap_err();
    match &bad {
        DaemonError::InvalidPeerId(text, _) => assert_eq!(text, "zzz"),
        other => panic!("unexpected {other:?}"),
    }
    assert!(bad.message().starts_with("invalid peer id 'zzz': "));
    let (_, text) = new_peer();
    let missing = ring_add_lines(&mut registry, public_id, "ghost", &text, None).unwrap_err();
    assert_eq!(missing, DaemonError::Registry(RegistryError::RingNotFound("ghost".to_string())));
    assert_eq!(missing.message(), "ring 'ghost' not found");
}

#[test]
fn open_ring_answers_without_registry() {
    let dir = TempDir::new().unwrap();
    let (mut registry, _) = setup(&dir);
    assert_eq!(
        ring_remove_lines(&mut registry, "open", "anything").unwrap(),
        vec!["The open ring has no membership list to remove from.".to_string()]
    );
    assert_eq!(
        ring_members_lines(&registry, "open").unwrap(),
        vec!["The open ring is public — any peer may access blobs tagged with it.".to_string()]
    );
    assert_eq!(
        ring_members_lines(&registry, "ghost").unwrap_err().message(),
        "ring 'ghost' not found"
    );
}

#[test]
fn ring_name_with_any_unicode_whitespace_is_refused() {
    let dir = TempDir::new().unwrap();
    let (mut registry, _) = setup(&dir);
    for name in ["a\u{0B}b", "a\u{3000}b", "a\u{85}b", "a\u{2028}b", "a\0b"] {
        assert_eq!(
            ring_new_lines(&mut registry, name).unwrap_err(),
            DaemonError::Registry(RegistryError::RingNameInvalidChars)
        );
    }
    assert_eq!(ring_list_lines(&registry).unwrap(), vec!["1 rings:", "  open  — publicly accessible (no membership required)"]);
}

#[test]
fn member_added_then_removed_leaves_members_as_they_were() {
    let dir = TempDir::new().unwrap();
    let (mut registry, public_id) = setup(&dir);
    ring_new_lines(&mut registry, "friends").unwrap();
    let (_, alice) = new_peer();
    ring_add_lines(&mut registry, public_id, "friends", &alice, Some("alice")).unwrap();
    let before = ring_members_lines(&registry, "friends").unwrap();
    let peers_before = registry.list_ring_peers("friends").unwrap();

    let (_, bob) = new_peer();
    ring_add_lines(&mut registry, public_id, "friends", &bob, Some("bob")).unwrap();
    assert_eq!(ring_members_lines(&registry, "friends").unwrap().len(), 3);
    let removed = ring_remove_lines(&mut registry, "friends", &bob).unwrap();
    assert_eq!(removed, vec![format!("Removed {bob} from ring friends")]);

    assert_eq!(ring_members_lines(&registry, "friends").unwrap(), before);
    assert_eq!(registry.list_ring_peers("friends").unwrap(), peers_before);
}

#[test]
fn ring_list_shows_each_ring_with_its_member_count() {
    let dir = TempDir::new().unwrap();
    let (mut registry, public_id) = setup(&dir);
    ring_new_lines(&mut registry, "b-ring").unwrap();
    ring_new_lines(&mut registry, "a-ring").unwrap();
    let (_, peer) = new_peer();
    ring_add_lines(&mut registry, public_id, "b-ring", &peer, None).unwrap();
    ring_add_lines(&mut registry, public_id, "b-ring", &peer, Some("again")).unwrap();
    let listed = ring_list_lines(&registry).unwrap();
    assert_eq!(listed[0], "3 rings:");
    assert_eq!(listed[1], "  open  — publicly accessible (no membership required)");
    assert_eq!(listed[2], "  a-ring  (0 members)");
    assert_eq!(listed[3], "  b-ring  (1 members)");
}
