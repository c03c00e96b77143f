//! The failures of a ceremony.

use vstd::prelude::*;
use crate::config::ConfigError;
use crate::curve::DecodeError;
use crate::keypair::Exponent;
use crate::store::IoError;

verus! {

/// Why an operation of the ceremony fails or a contribution is rejected.
#[derive(Debug, Clone, Copy, PartialEq, Eq, Structural)]
pub enum CeremonyError {
    /// The parameters are invalid: nothing has been read or written.
    Config(ConfigError),
    /// A file does not fit the layout or cannot be written.
    Io(IoError),
    /// A point is malformed or outside its subgroup.
    Decode(DecodeError),
    /// The proof of knowledge of an exponent does not hold.
    ProofOfKnowledge(Exponent),
    /// The response is not the challenge raised to the committed exponent.
    Consistency,
    /// The response was not derived from the challenge at hand.
    HashMismatch,
}

impl CeremonyError {
    /// Whether a new contribution can make up for the failure. Failures of
    /// the configuration and of the store cannot be retried.
    pub open spec fn spec_is_recoverable(self) -> bool {
        !(self is Config) && !(self is Io)
    }

    /// Whether a new contribution can make up for the failure.
    pub fn is_recoverable(&self) -> (r: bool)
        ensures
            r == self.spec_is_recoverable(),
    {
        match self {
            CeremonyError::Config(_) => false,
            CeremonyError::Io(_) => false,
            _ => true,
        }
    }

    /// The check that failed, in words. No secret enters the text.
    pub open spec fn spec_message(self) -> Seq<char> {
        match self {
            CeremonyError::Config(_) => "invalid configuration"@,
            CeremonyError::Io(_) => "file does not fit the layout"@,
            CeremonyError::Decode(DecodeError::NotInSubgroup) => "point outside its subgroup"@,
            CeremonyError::Decode(_) => "malformed point"@,
            CeremonyError::ProofOfKnowledge(_) => "proof of knowledge failed"@,
            CeremonyError::Consistency => "response inconsistent with challenge"@,
            CeremonyError::HashMismatch => "response derived from another challenge"@,
        }
    }

    /// The check that failed, in words.
    pub fn message(&self) -> (text: String)
        ensures
            text@ == self.spec_message(),
    {
        match self {
            CeremonyError::Config(_) => "invalid configuration".to_owned(),
            CeremonyError::Io(_) => "file does not fit the layout".to_owned(),
            CeremonyError::Decode(DecodeError::NotInSubgroup) => "point outside its subgroup"
                .to_owned(),
            CeremonyError::Decode(_) => "malformed point".to_owned(),
            CeremonyError::ProofOfKnowledge(_) => "proof of knowledge failed".to_owned(),
            CeremonyError::Consistency => "response inconsistent with challenge".to_owned(),
            CeremonyError::HashMismatch => "response derived from another challenge".to_owned(),
        }
    }
}

} // verus!
