//! The single error type surfaced to the user interface, and the mappings of
//! the lower layers' errors onto it.

use vstd::prelude::*;

use crate::entries::EntryError;
use crate::vault::io_error_text;
use crate::vault::{VaultFormatError, VaultRepoError};

verus! {

/// Every error condition the commands report. The variant is the stable code
/// the interface switches on; `Io` and `InvalidInput` carry a message.
#[derive(Debug, Clone, PartialEq, Eq)]
pub enum KeyhavenError {
    /// The master password or recovery key could not unwrap the vault key.
    WrongCredentials,
    /// The vault file is damaged, truncated, or not a Keyhaven vault.
    VaultCorrupted,
    /// The vault's format version is newer than this build supports.
    IncompatibleVersion,
    /// An operation that needs an unlocked vault was attempted while locked.
    Locked,
    /// A filesystem (or other runtime) failure, described.
    Io { message: String },
    /// The command's arguments were invalid, described.
    InvalidInput { message: String },
}

impl KeyhavenError {
    /// The user-facing description of this error.
    pub open spec fn message(&self) -> Seq<char> {
        match self {
            KeyhavenError::WrongCredentials => "incorrect master password or recovery key"@,
            KeyhavenError::VaultCorrupted => "this vault file is damaged or not a Keyhaven vault"@,
            KeyhavenError::IncompatibleVersion => "this vault was created by a newer version of Keyhaven"@,
            KeyhavenError::Locked => "the vault is locked"@,
            KeyhavenError::Io { message } => "file error: "@ + message@,
            KeyhavenError::InvalidInput { message } => "invalid input: "@ + message@,
        }
    }

    /// The user-facing description of this error.
    pub fn to_string(&self) -> (s: String)
        ensures
            s@ == self.message(),
    {
        match self {
            KeyhavenError::WrongCredentials => "incorrect master password or recovery key".to_string(),
            KeyhavenError::VaultCorrupted => "this vault file is damaged or not a Keyhaven vault".to_string(),
            KeyhavenError::IncompatibleVersion => "this vault was created by a newer version of Keyhaven".to_string(),
            KeyhavenError::Locked => "the vault is locked".to_string(),
            KeyhavenError::Io { message } => {
                let mut s = "file error: ".to_string();
                s.append(message.as_str());
                s
            },
            KeyhavenError::InvalidInput { message } => {
                let mut s = "invalid input: ".to_string();
                s.append(message.as_str());
                s
            },
        }
    }

    /// An invalid-input error with the given message.
    pub open spec fn is_invalid_input(&self, msg: Seq<char>) -> bool {
        self matches KeyhavenError::InvalidInput { message } && message@ == msg
    }
}

impl From<EntryError> for KeyhavenError {
    /// A missing entry is reported as invalid input.
    fn from(e: EntryError) -> (r: Self)
        ensures
            r.is_invalid_input("no entry with that id exists"@),
    {
        match e {
            EntryError::NotFound => KeyhavenError::InvalidInput { message: "no entry with that id exists".to_string() },
        }
    }
}

/// The conversion carries a message, so it is described by the `ensures` of
/// `from` rather than by a spec-level value.
impl vstd::std_specs::convert::FromSpecImpl<EntryError> for KeyhavenError {
    open spec fn obeys_from_spec() -> bool {
        false
    }

    open spec fn from_spec(e: EntryError) -> Self {
        arbitrary()
    }
}

impl From<VaultRepoError> for KeyhavenError {
    /// Wrong credentials (also a recovery key on a vault without one) stay
    /// wrong credentials; a damaged payload or file is a corrupted vault; a
    /// too-new file is an incompatible version; every other failure is
    /// reported as an I/O error carrying its description.
    fn from(e: VaultRepoError) -> (r: Self)
        ensures
            match e {
                VaultRepoError::WrongCredentials | VaultRepoError::NoRecoverySection => r == KeyhavenError::WrongCredentials,
                VaultRepoError::Corrupted | VaultRepoError::Format(VaultFormatError::VaultCorrupted) => r == KeyhavenError::VaultCorrupted,
                VaultRepoError::Format(VaultFormatError::IncompatibleVersion { .. }) => r == KeyhavenError::IncompatibleVersion,
                VaultRepoError::Format(VaultFormatError::Io(_)) | VaultRepoError::Io(_) => r is Io,
                VaultRepoError::Envelope(inner) => r matches KeyhavenError::Io { message } && message@ == inner.message(),
                VaultRepoError::Model(inner) => r matches KeyhavenError::Io { message } && message@ == inner.message(),
                VaultRepoError::Crypto(inner) => r matches KeyhavenError::Io { message } && message@ == inner.message(),
            },
    {
        match e {
            VaultRepoError::WrongCredentials | VaultRepoError::NoRecoverySection => KeyhavenError::WrongCredentials,
            VaultRepoError::Corrupted => KeyhavenError::VaultCorrupted,
            VaultRepoError::Format(VaultFormatError::VaultCorrupted) => KeyhavenError::VaultCorrupted,
            VaultRepoError::Format(VaultFormatError::IncompatibleVersion { .. }) => KeyhavenError::IncompatibleVersion,
            VaultRepoError::Format(VaultFormatError::Io(err)) => KeyhavenError::Io { message: io_error_text(&err) },
            VaultRepoError::Io(err) => KeyhavenError::Io { message: io_error_text(&err) },
            VaultRepoError::Envelope(err) => KeyhavenError::Io { message: err.to_string() },
            VaultRepoError::Model(err) => KeyhavenError::Io { message: err.to_string() },
            VaultRepoError::Crypto(err) => KeyhavenError::Io { message: err.to_string() },
        }
    }
}

/// The conversion carries messages, so it is described by the `ensures` of
/// `from` rather than by a spec-level value.
impl vstd::std_specs::convert::FromSpecImpl<VaultRepoError> for KeyhavenError {
    open spec fn obeys_from_spec() -> bool {
        false
    }

    open spec fn from_spec(e: VaultRepoError) -> Self {
        arbitrary()
    }
}

} // verus!
