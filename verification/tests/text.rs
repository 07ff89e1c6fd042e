use ringdrop::peer::PeerId;
use ringdrop::text::{concat3, contains, decimal_string, hex_string, join_strings, same_text};

#[test]
fn decimal_rendering() {
    assert_eq!(decimal_string(0), "0");
    assert_eq!(decimal_string(7), "7");
    assert_eq!(decimal_string(10), "10");
    assert_eq!(decimal_string(1234567890), "1234567890");
    assert_eq!(decimal_string(u64::MAX), u64::MAX.to_string());
}

#[test]
fn hex_rendering() {
    assert_eq!(hex_string(&[]), "");
    assert_eq!(hex_string(&[0x00, 0x0f, 0xab, 0xff]), "000fabff");
    let key = iroh::SecretKey::generate().public();
    assert_eq!(hex_string(key.as_bytes()), key.to_string());
    let id = PeerId { bytes: *key.as_bytes() };
    assert_eq!(id.to_text(), key.to_string());
}

#[test]
fn peer_id_sameness() {
    let a = PeerId { bytes: [1u8; 32] };
    let b = PeerId { bytes: [1u8; 32] };
    let mut c = [1u8; 32];
    c[31] = 2;
    assert!(a.same(&b));
    assert!(!a.same(&PeerId { bytes: c }));
}

#[test]
fn substring_search() {
    assert!(contains("peer said: access denied", "access denied"));
    assert!(contains("abc", ""));
    assert!(!contains("access denie", "access denied"));
    assert!(!contains("", "x"));
    assert!(contains("ünïcödé access denied!", "access denied"));
}

#[test]
fn joining_and_comparing() {
    assert_eq!(join_strings(&vec![], ", "), "");
    assert_eq!(join_strings(&vec!["a".to_string()], ", "), "a");
    assert_eq!(join_strings(&vec!["a".to_string(), "b".to_string(), "c".to_string()], ", "), "a, b, c");
    assert!(same_text("open", "open"));
    assert!(!same_text("open", "opens"));
    assert_eq!(concat3("a", "b", "c"), "abc");
}
