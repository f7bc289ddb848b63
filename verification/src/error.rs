//! Errors of the vault library.
use vstd::prelude::*;

use crate::text;

verus! {

/// What went wrong in the cryptographic layer.
#[derive(Debug, Clone, PartialEq, Eq)]
pub enum EncryptionError {
    Random,
    InvalidKeyLength,
    Encrypt,
    Decrypt,
    KeyDerivation(String),
    InvalidKdfParams,
}

/// Every error the vault reports.
#[derive(Debug, Clone, PartialEq, Eq)]
pub enum StashError {
    EncryptionError(EncryptionError),
    IoError(String),
    SerdeJsonError(String),
    InvalidMasterPassword,
    FileNotFound,
    FileAlreadyExists { path: String },
    CorruptVault,
    ServiceNotFound { service: String },
    DuplicateService { service: String },
    EmptyField { field: &'static str },
    PasswordMismatch,
    VaultLocked,
    NoServicesSelected,
    Clipboard(String),
    InvalidGenerateLength { min: usize, max: usize },
}

fn concat2(a: &str, b: &str) -> (r: String)
    ensures
        r@ == a@ + b@,
{
    let mut s = text::to_owned(a);
    s.append(b);
    s
}

fn concat3(a: &str, b: &str, c: &str) -> (r: String)
    ensures
        r@ == a@ + b@ + c@,
{
    let mut s = text::to_owned(a);
    s.append(b);
    s.append(c);
    s
}

impl EncryptionError {
    /// The message shown for this error.
    pub open spec fn spec_message(&self) -> Seq<char> {
        match self {
            EncryptionError::Random => "failed to generate random bytes"@,
            EncryptionError::InvalidKeyLength => "invalid encryption key length"@,
            EncryptionError::Encrypt => "encryption failed"@,
            EncryptionError::Decrypt => "decryption failed"@,
            EncryptionError::KeyDerivation(m) => "key derivation failed: "@ + m@,
            EncryptionError::InvalidKdfParams => "invalid Argon2 parameters"@,
        }
    }

    /// The message shown for this error.
    pub fn message(&self) -> (r: String)
        ensures
            r@ == self.spec_message(),
    {
        match self {
            EncryptionError::Random => text::to_owned("failed to generate random bytes"),
            EncryptionError::InvalidKeyLength => text::to_owned("invalid encryption key length"),
            EncryptionError::Encrypt => text::to_owned("encryption failed"),
            EncryptionError::Decrypt => text::to_owned("decryption failed"),
            EncryptionError::KeyDerivation(m) => concat2("key derivation failed: ", m.as_str()),
            EncryptionError::InvalidKdfParams => text::to_owned("invalid Argon2 parameters"),
        }
    }
}

impl StashError {
    /// The message shown for this error.
    pub open spec fn spec_message(&self) -> Seq<char> {
        match self {
            StashError::EncryptionError(e) => "encryption error: "@ + e.spec_message(),
            StashError::IoError(m) => "I/O error: "@ + m@,
            StashError::SerdeJsonError(m) => "JSON error: "@ + m@,
            StashError::InvalidMasterPassword => "invalid master password or vault is corrupt"@,
            StashError::FileNotFound => "stash file not found"@,
            StashError::FileAlreadyExists { path } => "stash file "@ + path@ + " already exists"@,
            StashError::CorruptVault => "vault file is corrupt"@,
            StashError::ServiceNotFound { service } => "no entry for "@ + service@
                + " found in stash"@,
            StashError::DuplicateService { service } => "an entry for "@ + service@
                + " already exists"@,
            StashError::EmptyField { field } => field@ + " must not be empty"@,
            StashError::PasswordMismatch => "master passwords do not match"@,
            StashError::VaultLocked => "vault is locked"@,
            StashError::NoServicesSelected => "no services selected"@,
            StashError::Clipboard(m) => "clipboard error: "@ + m@,
            StashError::InvalidGenerateLength { min, max } => "generated password length must be between "@
                + text::spec_decimal(*min as nat) + " and "@ + text::spec_decimal(*max as nat),
        }
    }

    /// The message shown for this error.
    pub fn message(&self) -> (r: String)
        ensures
            r@ == self.spec_message(),
    {
        match self {
            StashError::EncryptionError(e) => {
                let inner = e.message();
                concat2("encryption error: ", inner.as_str())
            },
            StashError::IoError(m) => concat2("I/O error: ", m.as_str()),
            StashError::SerdeJsonError(m) => concat2("JSON error: ", m.as_str()),
            StashError::InvalidMasterPassword => text::to_owned(
                "invalid master password or vault is corrupt",
            ),
            StashError::FileNotFound => text::to_owned("stash file not found"),
            StashError::FileAlreadyExists { path } => concat3(
                "stash file ",
                path.as_str(),
                " already exists",
            ),
            StashError::CorruptVault => text::to_owned("vault file is corrupt"),
            StashError::ServiceNotFound { service } => concat3(
                "no entry for ",
                service.as_str(),
                " found in stash",
            ),
            StashError::DuplicateService { service } => concat3(
                "an entry for ",
                service.as_str(),
                " already exists",
            ),
            StashError::EmptyField { field } => concat2(field, " must not be empty"),
            StashError::PasswordMismatch => text::to_owned("master passwords do not match"),
            StashError::VaultLocked => text::to_owned("vault is locked"),
            StashError::NoServicesSelected => text::to_owned("no services selected"),
            StashError::Clipboard(m) => concat2("clipboard error: ", m.as_str()),
            StashError::InvalidGenerateLength { min, max } => {
                let lo = text::decimal(*min);
                let hi = text::decimal(*max);
                let mut s = concat3(
                    "generated password length must be between ",
                    lo.as_str(),
                    " and ",
                );
                s.append(hi.as_str());
                s
            },
        }
    }
}

} // verus!
