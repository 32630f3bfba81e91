//! The error taxonomy. Every check in the library fails fast with one of
//! these kinds; nothing is retried and a failing call leaves the ledger
//! unchanged.

use vstd::prelude::*;

verus! {

/// Why an operation was refused.
#[derive(Clone, Copy, Debug, PartialEq, Eq, Structural)]
pub enum RegistryError {
    /// The claimed payer was not attested as a transaction signer.
    MissingSignature,
    /// The signer does not match the recorded (or required) authority.
    Unauthorized,
    /// A presented address does not match the value re-derived from its
    /// seeds, or no derived address exists for the seeds.
    InvalidAddress,
    /// A create targeted an address that already holds data.
    AlreadyExists,
    /// An update or read targeted an address with no populated record.
    Uninitialized,
    /// A record buffer does not hold an encoding the schema recognizes.
    DataCorrupt,
    /// A referenced value is out of bounds or refers to the wrong account.
    InvalidArgument,
    /// The moved amount exceeds the source holding's balance.
    InsufficientFunds,
}

impl RegistryError {
    /// A short human-readable description of the error kind.
    pub fn message(&self) -> &'static str {
        match self {
            RegistryError::MissingSignature => "required signature is missing",
            RegistryError::Unauthorized => "signer is not the recorded authority",
            RegistryError::InvalidAddress => "address does not match its derivation",
            RegistryError::AlreadyExists => "target address already holds a record",
            RegistryError::Uninitialized => "target address holds no record",
            RegistryError::DataCorrupt => "stored bytes are not a valid record",
            RegistryError::InvalidArgument => "argument out of bounds or mismatched",
            RegistryError::InsufficientFunds => "amount exceeds the source balance",
        }
    }
}

} // verus!
