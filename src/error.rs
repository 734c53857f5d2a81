use vstd::prelude::*;

verus! {

/// Every way in which a vault operation can fail.
#[derive(Debug, Clone, Copy, PartialEq, Eq, Structural)]
pub enum VaultError {
    /// The header's magic bytes or version are not the supported ones.
    InvalidFormat,
    /// The data ends before a fixed-size part of the layout is complete.
    Truncated,
    /// The master password does not match the header's verifier.
    InvalidPassword,
    /// The ciphertext did not authenticate under the derived key and nonce.
    AuthenticationFailure,
    /// The decrypted entry list does not follow the entry layout.
    CorruptEntryData,
    /// The key-derivation function refused its inputs.
    KdfFailure,
    /// The cipher refused to encrypt its input.
    EncryptionFailure,
    /// The operating system's random source could not be read.
    RandomnessFailure,
    /// A field of an entry is longer than its one-byte length prefix allows.
    EntryTooLarge,
    /// The vault already holds as many entries as its one-byte count allows.
    VaultFull,
}

/// What a user is told when a vault cannot be opened with the given password.
pub const CANNOT_OPEN_MESSAGE: &'static str = "wrong password or corrupted vault";

impl VaultError {
    /// A message for the user. A wrong password and a ciphertext that fails to
    /// authenticate read the same, so that the message reveals nothing about
    /// which check failed.
    pub fn user_message(&self) -> (r: &'static str)
        ensures
            (*self == VaultError::InvalidPassword || *self == VaultError::AuthenticationFailure)
                ==> r@ == CANNOT_OPEN_MESSAGE@,
    {
        match self {
            VaultError::InvalidFormat => "the file is not a vault of a supported format",
            VaultError::Truncated => "the vault file is truncated",
            VaultError::InvalidPassword => CANNOT_OPEN_MESSAGE,
            VaultError::AuthenticationFailure => CANNOT_OPEN_MESSAGE,
            VaultError::CorruptEntryData => "the vault's entries are corrupt",
            VaultError::KdfFailure => "the key could not be derived from the password",
            VaultError::EncryptionFailure => "the vault could not be encrypted",
            VaultError::RandomnessFailure => "the system's random source failed",
            VaultError::EntryTooLarge => "an entry field is longer than 255 bytes",
            VaultError::VaultFull => "the vault cannot hold more than 255 entries",
        }
    }
}

} // verus!
