//! Error kinds reported by the ledger operations.

use vstd::prelude::*;

verus! {

/// The failures that belong to this program.
#[derive(Clone, Copy, Debug, PartialEq, Eq, Structural)]
pub enum IntroError {
    /// A mutation was attempted on a record that is not active yet.
    UninitializedAccount,
    /// A supplied address does not equal the address derived from its seeds.
    InvalidPDA,
    /// The encoded payload does not fit the fixed capacity of a slot.
    InvalidDataLength,
    /// A singleton or program reference is not the expected one.
    IncorrectAccountError,
}

impl IntroError {
    /// The number under which the host reports this failure.
    pub open spec fn spec_code(self) -> u32 {
        match self {
            IntroError::UninitializedAccount => 0,
            IntroError::InvalidPDA => 1,
            IntroError::InvalidDataLength => 2,
            IntroError::IncorrectAccountError => 3,
        }
    }

    /// Returns the number under which the host reports this failure.
    pub fn code(&self) -> (c: u32)
        ensures
            c == self.spec_code(),
    {
        match self {
            IntroError::UninitializedAccount => 0,
            IntroError::InvalidPDA => 1,
            IntroError::InvalidDataLength => 2,
            IntroError::IncorrectAccountError => 3,
        }
    }

    /// The sentence that describes this failure.
    pub open spec fn spec_message(self) -> Seq<char> {
        match self {
            IntroError::UninitializedAccount => "Account not intiialized yet"@,
            IntroError::InvalidPDA => "PDA derived does not equal PDA passed in"@,
            IntroError::InvalidDataLength => "Input data exceeds max length"@,
            IntroError::IncorrectAccountError => "Accounts are not same"@,
        }
    }

    /// Returns the sentence that describes this failure.
    pub fn message(&self) -> (s: String)
        ensures
            s@ == self.spec_message(),
    {
        match self {
            IntroError::UninitializedAccount => "Account not intiialized yet".to_owned(),
            IntroError::InvalidPDA => "PDA derived does not equal PDA passed in".to_owned(),
            IntroError::InvalidDataLength => "Input data exceeds max length".to_owned(),
            IntroError::IncorrectAccountError => "Accounts are not same".to_owned(),
        }
    }
}

/// The failures with which an operation ends: this program's own, under their
/// number, and those of the host.
#[derive(Clone, Copy, Debug, PartialEq, Eq, Structural)]
pub enum ProgramError {
    /// A failure of this program, under its number.
    Custom(u32),
    /// The operation's encoding is malformed.
    InvalidInstructionData,
    /// A slot holds bytes in which no record is laid out.
    InvalidAccountData,
    /// A record does not fit the bytes of its slot, so that it cannot be
    /// written out whole.
    BorshIoError,
    /// The acting identity has not signed the operation.
    MissingRequiredSignature,
    /// The slot to be created holds an initialized record already.
    AccountAlreadyInitialized,
    /// The operation was handed fewer slots than it expects.
    NotEnoughAccountKeys,
    /// A slot to be mutated is owned by another program.
    IllegalOwner,
    /// A counter cannot be advanced any further.
    ArithmeticOverflow,
}

impl From<IntroError> for ProgramError {
    fn from(err: IntroError) -> (e: ProgramError) {
        ProgramError::Custom(err.code())
    }
}

impl vstd::std_specs::convert::FromSpecImpl<IntroError> for ProgramError {
    open spec fn obeys_from_spec() -> bool {
        true
    }

    open spec fn from_spec(err: IntroError) -> ProgramError {
        ProgramError::Custom(err.spec_code())
    }
}

/// The failure of the host's kind that stands for `err`.
pub open spec fn custom(err: IntroError) -> ProgramError {
    ProgramError::Custom(err.spec_code())
}

} // verus!
