use password_manager::vault_header::{FORMAT_VERSION, HEADER_LEN};
use password_manager::{VaultError, VaultHeader};

fn sample_header() -> VaultHeader {
    let mut salt = [0u8; 16];
    let mut verifier = [0u8; 32];
    let mut nonce = [0u8; 12];
    for i in 0..16 {
        salt[i] = i as u8 + 1;
    }
    for i in 0..32 {
        verifier[i] = 100 + i as u8;
    }
    for i in 0..12 {
        nonce[i] = 200 + i as u8;
    }
    VaultHeader::new(salt, verifier, nonce)
}

#[test]
fn header_write_layout() {
    let h = sample_header();
    let bytes = h.write();
    assert_eq!(bytes.len(), HEADER_LEN);
    assert_eq!(&bytes[0..4], b"PMGR");
    assert_eq!(&bytes[4..6], &[1, 0]);
    assert_eq!(&bytes[6..22], &h.salt);
    assert_eq!(&bytes[22..54], &h.verifier);
    assert_eq!(&bytes[54..66], &h.nonce);
    assert_eq!(h.version, FORMAT_VERSION);
}

#[test]
fn header_round_trip() {
    let h = sample_header();
    let back = VaultHeader::read(&h.write()).unwrap();
    assert_eq!(back.magic, h.magic);
    assert_eq!(back.version, h.version);
    assert_eq!(back.salt, h.salt);
    assert_eq!(back.verifier, h.verifier);
    assert_eq!(back.nonce, h.nonce);
}

#[test]
fn header_read_ignores_trailing_bytes() {
    let h = sample_header();
    let mut bytes = h.write();
    bytes.extend_from_slice(&[9, 9, 9]);
    let back = VaultHeader::read(&bytes).unwrap();
    assert_eq!(back.nonce, h.nonce);
}

#[test]
fn header_read_rejects_corrupted_magic() {
    let mut bytes = sample_header().write();
    bytes[2] ^= 0x20;
    assert_eq!(VaultHeader::read(&bytes).err(), Some(VaultError::InvalidFormat));
}

#[test]
fn header_read_rejects_bad_magic_before_the_rest() {
    assert_eq!(VaultHeader::read(b"XMGR").err(), Some(VaultError::InvalidFormat));
}

#[test]
fn header_read_rejects_other_version() {
    let mut bytes = sample_header().write();
    bytes[4] = 2;
    assert_eq!(VaultHeader::read(&bytes).err(), Some(VaultError::InvalidFormat));
    let mut bytes = sample_header().write();
    bytes[5] = 1;
    assert_eq!(VaultHeader::read(&bytes).err(), Some(VaultError::InvalidFormat));
}

#[test]
fn header_read_truncated() {
    let bytes = sample_header().write();
    assert_eq!(VaultHeader::read(&bytes[..0]).err(), Some(VaultError::Truncated));
    assert_eq!(VaultHeader::read(&bytes[..3]).err(), Some(VaultError::Truncated));
    assert_eq!(VaultHeader::read(&bytes[..5]).err(), Some(VaultError::Truncated));
    assert_eq!(VaultHeader::read(&bytes[..65]).err(), Some(VaultError::Truncated));
}
