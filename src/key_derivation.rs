//! Turning a master password into the vault key, and checking a password
//! against the verifier stored in the header.
use vstd::prelude::*;
use vstd::utf8::encode_utf8;

use crate::error::VaultError;
use crate::primitives::{
    argon2id_hash, argon2id_key, compute_hmac_sha256, constant_time_eq, hmac_sha256, random_bytes,
};

verus! {

/// Argon2id memory cost, in KiB (64 MiB).
pub const KDF_MEMORY_KIB: u32 = 65536;

/// Argon2id number of passes.
pub const KDF_PASSES: u32 = 2;

/// Argon2id degree of parallelism.
pub const KDF_LANES: u32 = 1;

/// The domain-separation message that the verifier tag is computed over:
/// ASCII `magic-pwd`.
pub open spec fn verifier_context() -> Seq<u8> {
    seq![0x6du8, 0x61u8, 0x67u8, 0x69u8, 0x63u8, 0x2du8, 0x70u8, 0x77u8, 0x64u8]
}

fn verifier_context_bytes() -> (r: [u8; 9])
    ensures
        r@ == verifier_context(),
{
    let r: [u8; 9] = [0x6d, 0x61, 0x67, 0x69, 0x63, 0x2d, 0x70, 0x77, 0x64];
    assert(r@ == verifier_context());
    r
}

/// The key derived from a password and a salt.
pub open spec fn derived_key(password: Seq<char>, salt: Seq<u8>) -> Seq<u8> {
    argon2id_key(KDF_MEMORY_KIB, KDF_PASSES, KDF_LANES, encode_utf8(password), salt)
}

/// The key-derivation function accepts the password: its UTF-8 encoding is at
/// most 2^32 - 1 bytes long.
pub open spec fn kdf_accepts(password: Seq<char>) -> bool {
    encode_utf8(password).len() <= 0xFFFF_FFFF
}

/// The verifier tag of a key.
pub open spec fn verifier_of(key: Seq<u8>) -> Seq<u8> {
    hmac_sha256(key, verifier_context())
}

/// The password is the one that `verifier` was made for, under `salt`.
pub open spec fn password_matches(password: Seq<char>, salt: Seq<u8>, verifier: Seq<u8>) -> bool {
    kdf_accepts(password) && verifier == verifier_of(derived_key(password, salt))
}

/// Draws a fresh random salt and derives the key for `master_password` under it.
pub fn derive_key(master_password: &str) -> (r: Result<([u8; 32], [u8; 16]), VaultError>)
    ensures
        r matches Ok((key, salt)) ==> kdf_accepts(master_password@) && key@ == derived_key(
            master_password@,
            salt@,
        ),
        r matches Err(e) ==> e == VaultError::RandomnessFailure || (e == VaultError::KdfFailure
            && !kdf_accepts(master_password@)),
        kdf_accepts(master_password@) ==> (r is Ok || r == Err::<([u8; 32], [u8; 16]), VaultError>(
            VaultError::RandomnessFailure,
        )),
{
    let salt: [u8; 16] = match random_bytes() {
        Ok(s) => s,
        Err(_) => {
            return Err(VaultError::RandomnessFailure);
        },
    };
    let key = derive_key_with_salt(master_password, &salt)?;
    Ok((key, salt))
}

/// Derives the key for `master_password` under `salt` with Argon2id (64 MiB,
/// two passes, one lane). The same password and salt always give the same key.
pub fn derive_key_with_salt(master_password: &str, salt: &[u8; 16]) -> (r: Result<
    [u8; 32],
    VaultError,
>)
    ensures
        r is Ok <==> kdf_accepts(master_password@),
        r matches Ok(key) ==> key@ == derived_key(master_password@, salt@),
        r matches Err(e) ==> e == VaultError::KdfFailure,
{
    let password = master_password.as_bytes();
    match argon2id_hash(password, salt.as_slice(), KDF_MEMORY_KIB, KDF_PASSES, KDF_LANES) {
        Ok(key) => Ok(key),
        Err(_) => Err(VaultError::KdfFailure),
    }
}

/// The verifier tag of `derived_key`: HMAC-SHA-256 of the domain-separation
/// message, keyed by the derived key.
pub fn create_verifier(derived_key: &[u8; 32]) -> (r: [u8; 32])
    ensures
        r@ == verifier_of(derived_key@),
{
    let context = verifier_context_bytes();
    compute_hmac_sha256(derived_key.as_slice(), context.as_slice())
}

/// Whether `key` is the key that `verifier` was made from; the tags are
/// compared in constant time.
pub fn key_matches_verifier(key: &[u8; 32], verifier: &[u8; 32]) -> (r: bool)
    ensures
        r == (verifier@ == verifier_of(key@)),
{
    let computed = create_verifier(key);
    constant_time_eq(verifier.as_slice(), computed.as_slice())
}

/// Whether `master_password` is the password that `verifier` was made for,
/// under `salt`: the key is derived again and its tag compared in constant
/// time. A password the key-derivation function refuses matches nothing.
pub fn verify_password(master_password: &str, salt: &[u8; 16], verifier: &[u8; 32]) -> (r: bool)
    ensures
        r == password_matches(master_password@, salt@, verifier@),
{
    match derive_key_with_salt(master_password, salt) {
        Ok(key) => key_matches_verifier(&key, verifier),
        Err(_) => false,
    }
}

/// Key derivation is deterministic: two derivations from the same password and
/// salt give the same key.
pub proof fn lemma_derivation_deterministic(
    password: Seq<char>,
    salt: Seq<u8>,
    first: Seq<u8>,
    second: Seq<u8>,
)
    requires
        first == derived_key(password, salt),
        second == derived_key(password, salt),
    ensures
        first == second,
{
}

/// A password is accepted against the verifier made from its own derived key.
pub proof fn lemma_own_verifier_accepted(password: Seq<char>, salt: Seq<u8>)
    requires
        kdf_accepts(password),
    ensures
        password_matches(password, salt, verifier_of(derived_key(password, salt))),
{
}

} // verus!
