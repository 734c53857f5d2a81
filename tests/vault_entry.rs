use password_manager::{Vault, VaultEntry, VaultError};

fn entry(service: &str, username: Option<&str>, password: &[u8]) -> VaultEntry {
    VaultEntry {
        service: service.to_string(),
        username: username.map(|u| u.to_string()),
        password: password.to_vec(),
    }
}

fn same(a: &VaultEntry, b: &VaultEntry) -> bool {
    a.service == b.service && a.username == b.username && a.password == b.password
}

#[test]
fn entry_serialize_layout() {
    let e = entry("github", Some("alice"), &[0x70, 0x77]);
    let expected: Vec<u8> = vec![
        6, b'g', b'i', b't', b'h', b'u', b'b', 5, b'a', b'l', b'i', b'c', b'e', 2, 0x70, 0x77,
    ];
    assert_eq!(e.serialize(), expected);
}

#[test]
fn entry_serialize_absent_username_is_length_zero() {
    let e = entry("x", None, b"pw");
    assert_eq!(e.serialize(), vec![1, b'x', 0, 2, b'p', b'w']);
}

#[test]
fn entry_serialize_counts_utf8_bytes() {
    let e = entry("é", None, b"");
    assert_eq!(e.serialize(), vec![2, 0xc3, 0xa9, 0, 0]);
}

#[test]
fn entry_round_trip() {
    let e = entry("mail", Some("bob"), &[0, 255, 7]);
    let back = VaultEntry::deserialize(&e.serialize()).unwrap();
    assert!(same(&e, &back));
    let e = entry("", None, &[]);
    let back = VaultEntry::deserialize(&e.serialize()).unwrap();
    assert!(same(&e, &back));
}

#[test]
fn entry_deserialize_field_past_end() {
    assert_eq!(VaultEntry::deserialize(&[]).err(), Some(VaultError::CorruptEntryData));
    assert_eq!(VaultEntry::deserialize(&[3, b'a', b'b']).err(), Some(VaultError::CorruptEntryData));
    assert_eq!(VaultEntry::deserialize(&[1, b'a', 0]).err(), Some(VaultError::CorruptEntryData));
    assert_eq!(VaultEntry::deserialize(&[1, b'a', 0, 2, 1]).err(), Some(VaultError::CorruptEntryData));
}

#[test]
fn entry_deserialize_invalid_utf8() {
    assert_eq!(VaultEntry::deserialize(&[1, 0xff, 0, 0]).err(), Some(VaultError::CorruptEntryData));
    assert_eq!(
        VaultEntry::deserialize(&[1, b'a', 1, 0xc3, 0]).err(),
        Some(VaultError::CorruptEntryData)
    );
}

#[test]
fn entries_serialize_layout() {
    let entries = vec![entry("a", None, b"1"), entry("b", Some("u"), b"")];
    assert_eq!(
        Vault::serialize(&entries),
        vec![2, 1, b'a', 0, 1, b'1', 1, b'b', 1, b'u', 0]
    );
    assert_eq!(Vault::serialize(&Vec::new()), vec![0]);
}

#[test]
fn entries_round_trip_empty() {
    let back = Vault::deserialize(&Vault::serialize(&Vec::new())).unwrap();
    assert!(back.is_empty());
}

#[test]
fn entries_round_trip_in_order() {
    let entries = vec![
        entry("github", Some("alice"), &[0x70, 0x77]),
        entry("bank", None, &[1, 2, 3]),
        entry("mail", Some("bob"), b""),
    ];
    let back = Vault::deserialize(&Vault::serialize(&entries)).unwrap();
    assert_eq!(back.len(), 3);
    for (a, b) in entries.iter().zip(back.iter()) {
        assert!(same(a, b));
    }
}

#[test]
fn entries_round_trip_largest() {
    let long = "s".repeat(255);
    let password = vec![0xabu8; 255];
    let entries: Vec<VaultEntry> =
        (0..255).map(|_| entry(&long, Some(&long), &password)).collect();
    let bytes = Vault::serialize(&entries);
    assert_eq!(bytes.len(), 1 + 255 * (3 + 3 * 255));
    let back = Vault::deserialize(&bytes).unwrap();
    assert_eq!(back.len(), 255);
    assert!(same(&back[254], &entries[254]));
}

#[test]
fn entries_deserialize_errors() {
    assert_eq!(Vault::deserialize(&[]).err(), Some(VaultError::CorruptEntryData));
    assert_eq!(Vault::deserialize(&[1]).err(), Some(VaultError::CorruptEntryData));
    assert_eq!(
        Vault::deserialize(&[2, 1, b'a', 0, 0]).err(),
        Some(VaultError::CorruptEntryData)
    );
}

#[test]
fn entries_deserialize_ignores_trailing_bytes() {
    let back = Vault::deserialize(&[1, 1, b'a', 0, 0, 42, 42]).unwrap();
    assert_eq!(back.len(), 1);
    assert_eq!(back[0].service, "a");
    assert_eq!(back[0].username, None);
}

#[test]
fn fits_checks_every_field() {
    assert!(Vault::fits(&entry(&"s".repeat(255), Some(&"u".repeat(255)), &[0; 255])));
    assert!(!Vault::fits(&entry(&"s".repeat(256), None, b"")));
    assert!(!Vault::fits(&entry("s", Some(&"u".repeat(256)), b"")));
    assert!(!Vault::fits(&entry("s", None, &[0; 256])));
}
