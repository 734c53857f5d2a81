use password_manager::{create_verifier, derive_key, derive_key_with_salt, verify_password};

const SALT: [u8; 16] = [0, 1, 2, 3, 4, 5, 6, 7, 8, 9, 10, 11, 12, 13, 14, 15];

const HUNTER2_KEY: [u8; 32] = [
    222, 56, 239, 64, 86, 7, 140, 100, 64, 16, 220, 53, 142, 249, 101, 137, 149, 90, 245, 8, 190,
    62, 9, 53, 173, 195, 154, 191, 60, 125, 25, 65,
];

const HUNTER2_VERIFIER: [u8; 32] = [
    28, 179, 104, 185, 19, 127, 110, 55, 90, 219, 67, 19, 97, 183, 231, 104, 98, 92, 64, 217, 124,
    236, 180, 181, 71, 57, 95, 57, 71, 138, 24, 32,
];

#[test]
fn derive_key_with_salt_gives_the_argon2id_key() {
    let key = derive_key_with_salt("hunter2", &SALT).unwrap();
    assert_eq!(key, HUNTER2_KEY);
}

#[test]
fn derive_key_with_salt_is_deterministic() {
    let first = derive_key_with_salt("correct horse", &SALT).unwrap();
    let second = derive_key_with_salt("correct horse", &SALT).unwrap();
    assert_eq!(first, second);
}

#[test]
fn derive_key_with_salt_depends_on_the_salt() {
    let mut other_salt = SALT;
    other_salt[0] = 99;
    let key = derive_key_with_salt("hunter2", &other_salt).unwrap();
    assert_ne!(key, HUNTER2_KEY);
}

#[test]
fn derive_key_draws_a_salt_and_derives_under_it() {
    let (key, salt) = derive_key("hunter2").unwrap();
    assert_eq!(key, derive_key_with_salt("hunter2", &salt).unwrap());
}

#[test]
fn create_verifier_is_hmac_sha256_of_the_context() {
    let mut key = [0u8; 32];
    for (i, b) in key.iter_mut().enumerate() {
        *b = i as u8;
    }
    let expected: [u8; 32] = [
        0xc7, 0x9f, 0xee, 0xe4, 0x3b, 0x6a, 0x27, 0x57, 0x92, 0x32, 0xe6, 0x7f, 0x52, 0x0c, 0xfd,
        0x77, 0xab, 0xc5, 0xd5, 0x33, 0x01, 0x9b, 0x70, 0x2d, 0x88, 0x70, 0x3a, 0x28, 0x63, 0x25,
        0x6b, 0xa3,
    ];
    assert_eq!(create_verifier(&key), expected);
    assert_eq!(create_verifier(&HUNTER2_KEY), HUNTER2_VERIFIER);
}

#[test]
fn verify_password_accepts_its_own_verifier() {
    assert!(verify_password("hunter2", &SALT, &HUNTER2_VERIFIER));
}

#[test]
fn verify_password_rejects_another_password() {
    assert!(!verify_password("hunter3", &SALT, &HUNTER2_VERIFIER));
}

#[test]
fn verify_password_rejects_a_changed_verifier() {
    let mut verifier = HUNTER2_VERIFIER;
    verifier[31] ^= 1;
    assert!(!verify_password("hunter2", &SALT, &verifier));
}
