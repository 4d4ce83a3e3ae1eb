//! The vault file format and the create/open/save flows.

pub mod header;
pub mod recovery_key;
pub mod repository;

pub use header::{decode, VaultFile, VaultFormatError, FORMAT_VERSION, MAGIC};
pub use repository::{create_vault, unlock_with_password, unlock_with_recovery_key, OpenVault, VaultRepoError};

use vstd::prelude::*;

verus! {

/// Declares `std::io::Error`, carried by the I/O error variants, to Verus.
#[verifier::external_type_specification]
#[verifier::external_body]
pub struct ExIoError(std::io::Error);

/// Calls `<std::io::Error as ToString>::to_string`. The text comes from the
/// operating system and is not described.
#[verifier::external_body]
pub(crate) fn io_error_text(e: &std::io::Error) -> String {
    e.to_string()
}

} // verus!
