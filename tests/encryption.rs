use password_manager::{Vault, VaultError};

fn key() -> [u8; 32] {
    let mut k = [0u8; 32];
    for (i, b) in k.iter_mut().enumerate() {
        *b = i as u8;
    }
    k
}

fn nonce() -> [u8; 12] {
    let mut n = [0u8; 12];
    for (i, b) in n.iter_mut().enumerate() {
        *b = i as u8;
    }
    n
}

#[test]
fn encrypt_gives_aes256_gcm_ciphertext_and_tag() {
    let c = Vault::encrypt(&key(), &nonce(), b"hello").unwrap();
    let expected: Vec<u8> = vec![
        47, 103, 186, 119, 170, 39, 151, 255, 53, 59, 138, 4, 109, 40, 35, 109, 205, 157, 5, 123,
        187,
    ];
    assert_eq!(c, expected);
    let empty = Vault::encrypt(&key(), &nonce(), b"").unwrap();
    let expected_empty: Vec<u8> =
        vec![244, 194, 219, 29, 195, 136, 5, 163, 123, 146, 23, 28, 93, 10, 129, 204];
    assert_eq!(empty, expected_empty);
}

#[test]
fn encrypt_decrypt_round_trip() {
    let data = b"some secret entries".to_vec();
    let c = Vault::encrypt(&key(), &nonce(), &data).unwrap();
    assert_eq!(c.len(), data.len() + 16);
    assert_eq!(Vault::decrypt(&key(), &nonce(), &c).unwrap(), data);
}

#[test]
fn decrypt_with_wrong_key_fails() {
    let c = Vault::encrypt(&key(), &nonce(), b"data").unwrap();
    let mut other = key();
    other[0] ^= 1;
    assert_eq!(Vault::decrypt(&other, &nonce(), &c).err(), Some(VaultError::AuthenticationFailure));
}

#[test]
fn decrypt_with_flipped_bit_fails() {
    let c = Vault::encrypt(&key(), &nonce(), b"data").unwrap();
    for i in 0..c.len() {
        let mut t = c.clone();
        t[i] ^= 0x01;
        assert_eq!(Vault::decrypt(&key(), &nonce(), &t).err(), Some(VaultError::AuthenticationFailure));
    }
}

#[test]
fn decrypt_too_short_fails() {
    assert_eq!(Vault::decrypt(&key(), &nonce(), &[1, 2, 3]).err(), Some(VaultError::AuthenticationFailure));
}

#[test]
fn user_messages_do_not_tell_password_from_tampering() {
    assert_eq!(
        VaultError::InvalidPassword.user_message(),
        VaultError::AuthenticationFailure.user_message()
    );
    assert_ne!(VaultError::InvalidPassword.user_message(), VaultError::Truncated.user_message());
}
