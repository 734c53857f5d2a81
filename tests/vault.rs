use password_manager::vault::MAX_ENTRIES;
use password_manager::{Vault, VaultEntry, VaultError};

const SALT: [u8; 16] = [0, 1, 2, 3, 4, 5, 6, 7, 8, 9, 10, 11, 12, 13, 14, 15];

const HUNTER2_VERIFIER: [u8; 32] = [
    28, 179, 104, 185, 19, 127, 110, 55, 90, 219, 67, 19, 97, 183, 231, 104, 98, 92, 64, 217, 124,
    236, 180, 181, 71, 57, 95, 57, 71, 138, 24, 32,
];

fn github() -> VaultEntry {
    VaultEntry {
        service: "github".to_string(),
        username: Some("alice".to_string()),
        password: vec![0x70, 0x77],
    }
}

#[test]
fn save_with_nonce_writes_header_then_ciphertext() {
    let mut vault = Vault::create("hunter2", SALT, [1; 12]).unwrap();
    let bytes = vault.save_with_nonce([7; 12]).unwrap();
    let mut expected: Vec<u8> = b"PMGR".to_vec();
    expected.extend_from_slice(&[1, 0]);
    expected.extend_from_slice(&SALT);
    expected.extend_from_slice(&HUNTER2_VERIFIER);
    expected.extend_from_slice(&[7; 12]);
    expected.extend_from_slice(&[
        77, 116, 47, 49, 28, 162, 82, 221, 4, 130, 177, 145, 50, 0, 249, 218, 192,
    ]);
    assert_eq!(bytes, expected);
}

#[test]
fn create_then_open_yields_empty_vault() {
    let mut vault = Vault::new("hunter2").unwrap();
    assert!(vault.get_entries().is_empty());
    let bytes = vault.save().unwrap();
    let opened = Vault::open_existing("hunter2", &bytes).unwrap();
    assert!(opened.get_entries().is_empty());
}

#[test]
fn open_with_wrong_password_fails() {
    let mut vault = Vault::create("hunter2", SALT, [3; 12]).unwrap();
    let bytes = vault.save().unwrap();
    assert_eq!(Vault::open_existing("wrong", &bytes).err(), Some(VaultError::InvalidPassword));
}

#[test]
fn add_entry_then_reopen_yields_that_entry() {
    let mut vault = Vault::create("hunter2", SALT, [3; 12]).unwrap();
    let bytes = vault.add_entry(github()).unwrap();
    let opened = Vault::open_existing("hunter2", &bytes).unwrap();
    let entries = opened.get_entries();
    assert_eq!(entries.len(), 1);
    assert_eq!(entries[0].service, "github");
    assert_eq!(entries[0].username, Some("alice".to_string()));
    assert_eq!(entries[0].password, vec![0x70, 0x77]);
}

#[test]
fn truncated_file_does_not_open() {
    let mut vault = Vault::create("hunter2", SALT, [3; 12]).unwrap();
    let bytes = vault.add_entry(github()).unwrap();
    let cut = &bytes[..bytes.len() - 10];
    let err = Vault::open_existing("hunter2", cut).err();
    assert!(err == Some(VaultError::Truncated) || err == Some(VaultError::AuthenticationFailure));
}

#[test]
fn file_shorter_than_header_is_truncated() {
    let mut vault = Vault::create("hunter2", SALT, [3; 12]).unwrap();
    let bytes = vault.save().unwrap();
    assert_eq!(Vault::open_existing("hunter2", &bytes[..60]).err(), Some(VaultError::Truncated));
}

#[test]
fn tampered_ciphertext_fails_authentication() {
    let mut vault = Vault::create("hunter2", SALT, [3; 12]).unwrap();
    let mut bytes = vault.add_entry(github()).unwrap();
    let last = bytes.len() - 1;
    bytes[last] ^= 0x80;
    assert_eq!(
        Vault::open_existing("hunter2", &bytes).err(),
        Some(VaultError::AuthenticationFailure)
    );
}

#[test]
fn open_rejects_bad_magic() {
    assert_eq!(Vault::open_existing("hunter2", b"NOPE and more").err(), Some(VaultError::InvalidFormat));
}

#[test]
fn each_save_uses_a_fresh_nonce() {
    let mut vault = Vault::create("hunter2", SALT, [3; 12]).unwrap();
    let first = vault.save().unwrap();
    let second = vault.save().unwrap();
    assert_ne!(&first[54..66], &second[54..66]);
    assert_eq!(&first[..54], &second[..54]);
}

#[test]
fn create_uses_the_given_salt_and_nonce() {
    let mut vault = Vault::create("hunter2", SALT, [5; 12]).unwrap();
    let bytes = vault.save_with_nonce([5; 12]).unwrap();
    assert_eq!(&bytes[6..22], &SALT);
    assert_eq!(&bytes[22..54], &HUNTER2_VERIFIER);
}

#[test]
fn add_entry_rejects_oversized_field() {
    let mut vault = Vault::create("hunter2", SALT, [3; 12]).unwrap();
    let big = VaultEntry { service: "s".repeat(256), username: None, password: vec![] };
    assert_eq!(vault.add_entry(big).err(), Some(VaultError::EntryTooLarge));
    assert!(vault.get_entries().is_empty());
}

#[test]
fn add_entry_rejects_a_full_vault() {
    let mut vault = Vault::create("hunter2", SALT, [3; 12]).unwrap();
    for i in 0..MAX_ENTRIES {
        let e = VaultEntry { service: format!("s{}", i), username: None, password: vec![] };
        vault.add_entry(e).unwrap();
    }
    assert_eq!(vault.get_entries().len(), 255);
    assert_eq!(vault.add_entry(github()).err(), Some(VaultError::VaultFull));
    assert_eq!(vault.get_entries().len(), 255);
}

#[test]
fn get_entry_by_index() {
    let mut vault = Vault::create("hunter2", SALT, [3; 12]).unwrap();
    vault.add_entry(github()).unwrap();
    assert_eq!(vault.get_entry(0).unwrap().service, "github");
    assert!(vault.get_entry(1).is_none());
}
