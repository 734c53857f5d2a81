//! The cryptographic primitives the vault is built on, taken from outside
//! crates. Each function here makes one outside call; its contract is what
//! that crate's source shows of the call, and Verus takes it on trust.
use vstd::prelude::*;
use vstd::utf8::{decode_utf8, valid_utf8};

use aes_gcm::aead::Aead;
use aes_gcm::KeyInit;
use hmac::Mac;

verus! {

#[verifier::external_type_specification]
#[verifier::external_body]
pub struct ExArgon2Error(argon2::Error);

#[verifier::external_type_specification]
#[verifier::external_body]
pub struct ExAeadError(aes_gcm::Error);

#[verifier::external_type_specification]
#[verifier::external_body]
pub struct ExRandError(rand::Error);

/// The 32-byte Argon2id (version 0x13) hash of `password` under `salt`, with
/// memory cost `m_cost` KiB, `t_cost` passes and `p_cost` lanes.
pub uninterp spec fn argon2id_key(
    m_cost: u32,
    t_cost: u32,
    p_cost: u32,
    password: Seq<u8>,
    salt: Seq<u8>,
) -> Seq<u8>;

/// The 32-byte HMAC-SHA-256 tag of `message` under `key`.
pub uninterp spec fn hmac_sha256(key: Seq<u8>, message: Seq<u8>) -> Seq<u8>;

/// The AES-256-GCM encryption of `plaintext` under `key` and `nonce`, with no
/// associated data: the encrypted bytes followed by the 16-byte tag.
pub uninterp spec fn aes256_gcm_seal(key: Seq<u8>, nonce: Seq<u8>, plaintext: Seq<u8>) -> Seq<u8>;

/// The longest plaintext AES-GCM encrypts, in bytes (2^36).
pub open spec fn aes_gcm_max_plaintext() -> int {
    0x10_0000_0000
}

/// Relies on argon2's `Params::new` and `Argon2::hash_password_into`
/// (Argon2id, version 0x13, 32-byte output). For cost parameters that
/// `Params::new` accepts, the hash fails only on a password longer than
/// `MAX_PWD_LEN` or a salt outside `MIN_SALT_LEN..=MAX_SALT_LEN`; its output
/// depends on the inputs alone.
#[verifier::external_body]
pub(crate) fn argon2id_hash(
    password: &[u8],
    salt: &[u8],
    m_cost: u32,
    t_cost: u32,
    p_cost: u32,
) -> (r: Result<[u8; 32], argon2::Error>)
    requires
        8 <= m_cost,
        8 * p_cost <= m_cost,
        1 <= t_cost,
        1 <= p_cost <= 0xFF_FFFF,
    ensures
        r is Ok <==> (password@.len() <= 0xFFFF_FFFF && 8 <= salt@.len() <= 0xFFFF_FFFF),
        r matches Ok(k) ==> k@ == argon2id_key(m_cost, t_cost, p_cost, password@, salt@),
{
    let mut key = [0u8; 32];
    let params = argon2::Params::new(m_cost, t_cost, p_cost, Some(key.len()))?;
    let hasher = argon2::Argon2::new(argon2::Algorithm::Argon2id, argon2::Version::V0x13, params);
    hasher.hash_password_into(password, salt, &mut key)?;
    Ok(key)
}

/// Relies on hmac's `Hmac<Sha256>`: `Mac::new_from_slice` accepts a key of
/// any length (it never returns an error), then `update` and `finalize` give
/// the tag, which depends on key and message alone.
#[verifier::external_body]
pub(crate) fn compute_hmac_sha256(key: &[u8], message: &[u8]) -> (r: [u8; 32])
    ensures
        r@ == hmac_sha256(key@, message@),
{
    let mut mac = <hmac::Hmac<sha2::Sha256> as Mac>::new_from_slice(key).expect(
        "HMAC accepts keys of any length",
    );
    mac.update(message);
    mac.finalize().into_bytes().into()
}

/// Relies on subtle's `ConstantTimeEq` for slices and `bool::from(Choice)`:
/// true exactly when both slices have the same length and the same bytes; the
/// bytes are compared without stopping at the first difference.
#[verifier::external_body]
pub(crate) fn constant_time_eq(a: &[u8], b: &[u8]) -> (r: bool)
    ensures
        r == (a@ == b@),
{
    bool::from(subtle::ConstantTimeEq::ct_eq(a, b))
}

/// Relies on aes-gcm's `Aes256Gcm` through `Aead::encrypt` with no associated
/// data: it fails only on a plaintext longer than `P_MAX` (2^36 bytes), and
/// otherwise returns the encrypted bytes followed by the 16-byte tag.
#[verifier::external_body]
pub(crate) fn aes256_gcm_encrypt(key: &[u8; 32], nonce: &[u8; 12], plaintext: &[u8]) -> (r: Result<
    Vec<u8>,
    aes_gcm::Error,
>)
    ensures
        r is Ok <==> plaintext@.len() <= aes_gcm_max_plaintext(),
        r matches Ok(c) ==> c@ == aes256_gcm_seal(key@, nonce@, plaintext@),
        r matches Ok(c) ==> c@.len() == plaintext@.len() + 16,
{
    let cipher = aes_gcm::Aes256Gcm::new(&(*key).into());
    cipher.encrypt(&(*nonce).into(), plaintext)
}

/// Relies on aes-gcm's `Aes256Gcm` through `Aead::decrypt` with no associated
/// data: it returns a plaintext only when the tag verifies, and then the
/// plaintext is 16 bytes shorter than `ciphertext` and is the one whose
/// encryption under this key and nonce is exactly `ciphertext`; every
/// encryption of a plaintext of at most `P_MAX` bytes decrypts to that
/// plaintext.
#[verifier::external_body]
pub(crate) fn aes256_gcm_decrypt(key: &[u8; 32], nonce: &[u8; 12], ciphertext: &[u8]) -> (r: Result<
    Vec<u8>,
    aes_gcm::Error,
>)
    ensures
        r matches Ok(p) ==> p@.len() + 16 == ciphertext@.len() && aes256_gcm_seal(
            key@,
            nonce@,
            p@,
        ) == ciphertext@,
        forall|p: Seq<u8>| #[trigger]
            aes256_gcm_seal(key@, nonce@, p) == ciphertext@ && p.len() <= aes_gcm_max_plaintext()
                ==> r.is_ok() && r.unwrap()@ == p,
{
    let cipher = aes_gcm::Aes256Gcm::new(&(*key).into());
    cipher.decrypt(&(*nonce).into(), ciphertext)
}

/// Relies on rand's `OsRng` through `RngCore::try_fill_bytes`, which fills the
/// buffer from the operating system's random source or reports that it could
/// not. Nothing is known of the bytes.
#[verifier::external_body]
pub(crate) fn random_bytes<const N: usize>() -> (r: Result<[u8; N], rand::Error>) {
    let mut buf = [0u8; N];
    rand::RngCore::try_fill_bytes(&mut rand::rngs::OsRng, &mut buf)?;
    Ok(buf)
}

/// Relies on std's `str::from_utf8`: it accepts exactly the byte strings that
/// are valid UTF-8, and the string it returns holds the characters they encode.
#[verifier::external_body]
pub(crate) fn utf8_str(bytes: &[u8]) -> (r: Option<&str>)
    ensures
        r is Some <==> valid_utf8(bytes@),
        r matches Some(s) ==> s@ == decode_utf8(bytes@),
{
    std::str::from_utf8(bytes).ok()
}

} // verus!
