use iroh_rings::{RedbRegistry, Registry};
use ringdrop::blobs::{
    blob_list_lines, blob_removed_reply, import_lines, tag_lines, tags_lines, untag_blob, BlobRef, ListedBlob,
    Surface,
};
use ringdrop::error::{DaemonError, RegistryError};
use tempfile::TempDir;

fn registry(dir: &TempDir) -> RedbRegistry {
    RedbRegistry::open(dir.path().join("registry.redb")).unwrap()
}

fn blob(b: u8) -> BlobRef {
    BlobRef { id: [b; 32], text: format!("hash{b}") }
}

fn ticket(t: &str) -> Result<String, String> {
    Ok(t.to_string())
}

#[test]
fn import_untagged_warns() {
    let dir = TempDir::new().unwrap();
    let mut reg = registry(&dir);
    let r = import_lines(&mut reg, &blob(1), &vec![], false, &ticket("T"), Surface::Daemon);
    assert_eq!(r.failure, None);
    assert_eq!(
        r.lines,
        vec![
            "Warning: not tagged — this blob won't be served to any peer.",
            "Tag it with:",
            "  rdrop tag hash1 --ring <ring-name>",
            "  rdrop tag hash1 --open",
            "\nTicket:",
            "  T\n",
            "Peers receive with:",
            "  rdrop receive T",
        ]
    );
}

#[test]
fn import_open_then_again_reports_existing() {
    let dir = TempDir::new().unwrap();
    let mut reg = registry(&dir);
    let r = import_lines(&mut reg, &blob(2), &vec!["ignored".to_string()], true, &ticket("T"), Surface::Cli);
    assert_eq!(r.failure, None);
    assert_eq!(
        r.lines,
        vec![
            "Tagged as open (publicly accessible)",
            "\nTicket:",
            "  T\n",
            "Run `rdrop share` to start accepting connections.",
            "Peers receive with:",
            "  rdrop receive T",
        ]
    );
    let again = import_lines(&mut reg, &blob(2), &vec![], false, &ticket("T"), Surface::Daemon);
    assert_eq!(again.lines[0], "Already tagged:");
    assert_eq!(again.lines[1], "  open (open — publicly accessible)");
}

#[test]
fn import_with_rings_and_failures() {
    let dir = TempDir::new().unwrap();
    let mut reg = registry(&dir);
    reg.create_ring("friends").unwrap();
    let r = import_lines(
        &mut reg,
        &blob(3),
        &vec!["friends".to_string(), "ghost".to_string(), "friends".to_string()],
        false,
        &ticket("T"),
        Surface::Daemon,
    );
    assert_eq!(r.lines, vec!["Tagged with ring 'friends'"]);
    assert_eq!(r.failure, Some(DaemonError::Registry(RegistryError::RingNotFound("ghost".to_string()))));

    let no_ticket = import_lines(&mut reg, &blob(4), &vec!["friends".to_string()], false, &Err("no ticket".to_string()), Surface::Daemon);
    assert_eq!(no_ticket.lines, vec!["Tagged with ring 'friends'"]);
    assert_eq!(no_ticket.failure, Some(DaemonError::Node("no ticket".to_string())));
    assert_eq!(no_ticket.failure.unwrap().message(), "no ticket");
}

#[test]
fn blob_list_on_empty_store() {
    let dir = TempDir::new().unwrap();
    let mut reg = registry(&dir);
    let r = blob_list_lines(&reg, &Ok(vec![]), Surface::Daemon);
    assert_eq!(r.lines, vec!["No blobs in local store."]);
    assert_eq!(r.failure, None);
    let failed = blob_list_lines(&reg, &Err("store closed".to_string()), Surface::Daemon);
    assert!(failed.lines.is_empty());
    assert_eq!(failed.failure, Some(DaemonError::Node("store closed".to_string())));
}

#[test]
fn blob_list_entries() {
    let dir = TempDir::new().unwrap();
    let mut reg = registry(&dir);
    reg.create_ring("a").unwrap();
    reg.create_ring("b").unwrap();
    reg.add_ring_to_resource([5u8; 32], "a").unwrap();
    reg.add_ring_to_resource([5u8; 32], "b").unwrap();
    let blobs = vec![
        ListedBlob { hash: blob(5), name: "x.txt".to_string(), ticket: ticket("T5") },
        ListedBlob { hash: blob(6), name: "y.txt".to_string(), ticket: ticket("T6") },
    ];
    let r = blob_list_lines(&reg, &Ok(blobs), Surface::Daemon);
    assert_eq!(r.failure, None);
    assert_eq!(
        r.lines,
        vec![
            "2 blobs:",
            "\n  hash5  (x.txt)",
            "    rings:  a, b",
            "    ticket: T5",
            "\n  hash6  (y.txt)",
            "    no rings:  (inaccessible for all peers)",
            "    ticket: T6",
        ]
    );
    let blobs = vec![
        ListedBlob { hash: blob(6), name: "y.txt".to_string(), ticket: ticket("T6") },
        ListedBlob { hash: blob(7), name: "z".to_string(), ticket: Err("bad".to_string()) },
        ListedBlob { hash: blob(8), name: "w".to_string(), ticket: ticket("T8") },
    ];
    let cli = blob_list_lines(&reg, &Ok(blobs), Surface::Cli);
    assert_eq!(cli.lines.len(), 4);
    assert_eq!(cli.lines[0], "3 Blobs:");
    assert_eq!(cli.failure, Some(DaemonError::Node("bad".to_string())));
}

#[test]
fn blob_list_cli_note() {
    let dir = TempDir::new().unwrap();
    let mut reg = registry(&dir);
    let blobs = vec![ListedBlob { hash: blob(9), name: "n".to_string(), ticket: ticket("T") }];
    let r = blob_list_lines(&reg, &Ok(blobs), Surface::Cli);
    assert_eq!(r.lines.len(), 5);
    assert_eq!(
        r.lines[4],
        "\nNote that the ticket link may change between sessions, but the blob is always uniquely identified and addressed by the protocol."
    );
}

#[test]
fn remove_untags_and_reports() {
    let dir = TempDir::new().unwrap();
    let mut reg = registry(&dir);
    reg.add_ring_to_resource([10u8; 32], "open").unwrap();
    untag_blob(&mut reg, &blob(10)).unwrap();
    assert!(reg.list_resource_rings([10u8; 32]).unwrap().is_empty());
    let r = blob_removed_reply(&blob(10), Ok(()), Surface::Daemon);
    assert_eq!(r.lines, vec!["Removed hash10", "Disk space will be reclaimed on the next GC cycle."]);
    let cli = blob_removed_reply(&blob(10), Ok(()), Surface::Cli);
    assert_eq!(cli.lines[1], "Disk space will be reclaimed on the next `rdrop share` run.");
    let failed = blob_removed_reply(&blob(10), Err("busy".to_string()), Surface::Daemon);
    assert!(failed.lines.is_empty());
    assert_eq!(failed.failure, Some(DaemonError::Node("busy".to_string())));
}

#[test]
fn tag_and_tags() {
    let dir = TempDir::new().unwrap();
    let mut reg = registry(&dir);
    reg.create_ring("friends").unwrap();
    let r = tag_lines(&mut reg, &blob(11), &vec!["friends".to_string()], false);
    assert_eq!(r.lines, vec!["Tagged hash11 with ring 'friends'"]);
    assert_eq!(r.failure, None);
    let shown = tags_lines(&reg, &blob(11));
    assert_eq!(shown.lines, vec!["hash11: 1 rings:", "  friends"]);

    let opened = tag_lines(&mut reg, &blob(11), &vec![], true);
    assert_eq!(opened.lines, vec!["Tagged hash11 as open (publicly accessible)"]);
    let shown = tags_lines(&reg, &blob(11));
    assert_eq!(shown.lines, vec!["hash11: 1 rings:", "  open  (open — publicly accessible)"]);

    let none = tags_lines(&reg, &blob(12));
    assert_eq!(none.lines, vec!["hash12: no rings (access denied to all peers)"]);

    let refused = tag_lines(&mut reg, &blob(13), &vec!["ghost".to_string()], true);
    assert!(refused.lines.is_empty());
    assert_eq!(refused.failure, Some(DaemonError::Registry(RegistryError::RingNotFound("ghost".to_string()))));
}

#[test]
fn tags_follow_the_blob_id() {
    let dir = TempDir::new().unwrap();
    let mut reg = registry(&dir);
    reg.create_ring("friends").unwrap();
    let tagged = BlobRef { id: [21u8; 32], text: "same".to_string() };
    let other = BlobRef { id: [22u8; 32], text: "same".to_string() };
    tag_lines(&mut reg, &tagged, &vec!["friends".to_string()], false);
    assert_eq!(tags_lines(&reg, &tagged).lines, vec!["same: 1 rings:", "  friends"]);
    assert_eq!(tags_lines(&reg, &other).lines, vec!["same: no rings (access denied to all peers)"]);
    assert_eq!(reg.list_resource_rings([21u8; 32]).unwrap().len(), 1);
}

#[test]
fn untagged_blob_shows_no_rings() {
    let dir = TempDir::new().unwrap();
    let mut reg = registry(&dir);
    reg.create_ring("friends").unwrap();
    tag_lines(&mut reg, &blob(23), &vec!["friends".to_string()], true);
    assert_eq!(tags_lines(&reg, &blob(23)).lines, vec!["hash23: 1 rings:", "  open  (open — publicly accessible)"]);
    untag_blob(&mut reg, &blob(23)).unwrap();
    assert_eq!(tags_lines(&reg, &blob(23)).lines, vec!["hash23: no rings (access denied to all peers)"]);
}

#[test]
fn private_ring_replaces_open_tag() {
    let dir = TempDir::new().unwrap();
    let mut reg = registry(&dir);
    reg.create_ring("friends").unwrap();
    tag_lines(&mut reg, &blob(24), &vec![], true);
    tag_lines(&mut reg, &blob(24), &vec!["friends".to_string(), "friends".to_string()], false);
    assert_eq!(tags_lines(&reg, &blob(24)).lines, vec!["hash24: 1 rings:", "  friends"]);
}

#[test]
fn tagging_stops_at_a_missing_ring_and_keeps_earlier_tags() {
    let dir = TempDir::new().unwrap();
    let mut reg = registry(&dir);
    reg.create_ring("friends").unwrap();
    let r = tag_lines(&mut reg, &blob(25), &vec!["friends".to_string(), "ghost".to_string()], true);
    assert_eq!(r.lines, vec!["Tagged hash25 with ring 'friends'"]);
    assert_eq!(r.failure, Some(DaemonError::Registry(RegistryError::RingNotFound("ghost".to_string()))));
    assert_eq!(tags_lines(&reg, &blob(25)).lines, vec!["hash25: 1 rings:", "  friends"]);
}
