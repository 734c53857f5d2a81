//! A local, single-user encrypted credential store.
//!
//! The library holds the vault engine: password-based key derivation and
//! verification, the binary header and entry formats, authenticated
//! encryption of the entry list, and the orchestration that turns a master
//! password and the bytes of a vault file into an in-memory vault and back.
//! It also holds the keyboard navigation rules of the terminal front end.
//! Reading and writing files and drawing the screen are left to the caller.

mod bytes;
pub mod error;
pub mod key_derivation;
pub mod navigation;
mod primitives;
pub mod vault;
pub mod vault_entry;
pub mod vault_header;

pub use error::VaultError;
pub use key_derivation::{create_verifier, derive_key, derive_key_with_salt, verify_password};
pub use navigation::{
    AppState, CenterLeftWidget, FocusedWidget, Key, KeyPress, Message, TopWidget, TopWidgetState,
    UiState,
};
pub use vault::Vault;
pub use vault_entry::VaultEntry;
pub use vault_header::VaultHeader;
