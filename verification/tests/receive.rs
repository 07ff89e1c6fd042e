use ringdrop::error::{DaemonError, TransferFailure};
use ringdrop::peer::PeerId;
use ringdrop::receive::{download_file_name_of, receive_outcome, receive_preflight, TicketInfo};

fn ticket(name: Option<&str>) -> TicketInfo {
    TicketInfo { hash_text: "abc".to_string(), peer: PeerId { bytes: [0xab; 32] }, name: name.map(|n| n.to_string()) }
}

#[test]
fn preflight_lines() {
    let lines = receive_preflight(&ticket(Some("a.txt")), "/tmp/a.txt", false, false).unwrap();
    assert_eq!(
        lines,
        vec![
            format!("Fetching abc from {} (a.txt)", "ab".repeat(32)),
            "Destination: /tmp/a.txt".to_string(),
            "(If interrupted, re-run this command to resume from where it stopped.)".to_string(),
        ]
    );
    let lines = receive_preflight(&ticket(None), "d", true, true).unwrap();
    assert_eq!(lines[0], format!("Fetching abc from {}", "ab".repeat(32)));
}

#[test]
fn preflight_refuses_existing_destination() {
    let err = receive_preflight(&ticket(None), "/tmp/x", true, false).unwrap_err();
    assert_eq!(err, DaemonError::DestinationExists("/tmp/x".to_string()));
    assert_eq!(
        err.message(),
        "destination '/tmp/x' already exists; use --dest to choose a different location or --force-overwrite to replace it"
    );
}

#[test]
fn file_name_choice() {
    assert_eq!(download_file_name_of(&ticket(Some("n"))), "n");
    assert_eq!(download_file_name_of(&ticket(None)), "abc");
}

#[test]
fn outcome_messages() {
    let me = PeerId { bytes: [0x01; 32] };
    let ok = receive_outcome(Ok(()), me);
    assert_eq!(ok.lines, vec!["Transfer complete."]);
    assert_eq!(ok.failure, None);

    let plain = receive_outcome(
        Err(TransferFailure { detail: "timeout: peer gone".to_string(), summary: "timeout".to_string() }),
        me,
    );
    assert!(plain.lines.is_empty());
    assert_eq!(plain.failure.unwrap().message(), "Transfer failed: timeout: peer gone");

    let denied = receive_outcome(
        Err(TransferFailure { detail: "access denied: no ring".to_string(), summary: "access denied".to_string() }),
        me,
    );
    let id = "01".repeat(32);
    assert_eq!(
        denied.failure.unwrap().message(),
        format!(
            "Transfer failed: access denied: no ring\n\nYour peer-id: {id}\nAsk the file owner to run:\n  rdrop ring add <ring-name> {id}"
        )
    );
}
