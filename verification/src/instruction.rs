//! The operations of the ledger and their encoding.

use crate::error::ProgramError;
use crate::wire::{parse_string, take_string};
use vstd::prelude::*;

verus! {

/// An operation of the ledger.
#[derive(Clone, Debug, PartialEq, Eq)]
pub enum StudentInstruction {
    /// Publish the introduction of the actor.
    StudentIntro { name: String, message: String },
    /// Replace the message of the actor's introduction. The name is ignored.
    UpdateIntro { name: String, message: String },
    /// Attach a reply of the actor to an introduction.
    ReplyIntro { name: String, message: String },
    /// Set up the mint of the reward token. This operation has no encoding.
    InitializeMint,
}

/// What a `StudentInstruction` holds.
pub enum StudentInstructionView {
    StudentIntro { name: Seq<char>, message: Seq<char> },
    UpdateIntro { name: Seq<char>, message: Seq<char> },
    ReplyIntro { name: Seq<char>, message: Seq<char> },
    InitializeMint,
}

impl View for StudentInstruction {
    type V = StudentInstructionView;

    open spec fn view(&self) -> StudentInstructionView {
        match self {
            StudentInstruction::StudentIntro { name, message } => {
                StudentInstructionView::StudentIntro { name: name@, message: message@ }
            },
            StudentInstruction::UpdateIntro { name, message } => {
                StudentInstructionView::UpdateIntro { name: name@, message: message@ }
            },
            StudentInstruction::ReplyIntro { name, message } => {
                StudentInstructionView::ReplyIntro { name: name@, message: message@ }
            },
            StudentInstruction::InitializeMint => StudentInstructionView::InitializeMint,
        }
    }
}

/// The name and the message that make up the whole of `b`, one laid out
/// behind the other, or `None` where `b` is anything else.
pub open spec fn parse_payload(b: Seq<u8>) -> Option<(Seq<char>, Seq<char>)> {
    match parse_string(b) {
        Some((name, n1)) => match parse_string(b.skip(n1)) {
            Some((message, n2)) => if n1 + n2 == b.len() {
                Some((name, message))
            } else {
                None
            },
            None => None,
        },
        None => None,
    }
}

/// The operation that `input` encodes: its first byte says which of the three
/// encoded operations it is, 0 for a new introduction, 1 for an update and 2
/// for a reply, and the rest is the payload. Anything else is malformed.
pub open spec fn unpack_spec(input: Seq<u8>) -> Result<StudentInstructionView, ProgramError> {
    if input.len() == 0 {
        Err(ProgramError::InvalidInstructionData)
    } else {
        match parse_payload(input.skip(1)) {
            Some((name, message)) => if input[0] == 0 {
                Ok(StudentInstructionView::StudentIntro { name, message })
            } else if input[0] == 1 {
                Ok(StudentInstructionView::UpdateIntro { name, message })
            } else if input[0] == 2 {
                Ok(StudentInstructionView::ReplyIntro { name, message })
            } else {
                Err(ProgramError::InvalidInstructionData)
            },
            None => Err(ProgramError::InvalidInstructionData),
        }
    }
}

impl StudentInstruction {
    /// Decodes an operation.
    pub fn unpack(input: &[u8]) -> (r: Result<StudentInstruction, ProgramError>)
        ensures
            match r {
                Ok(instruction) => unpack_spec(input@) == Ok::<
                    StudentInstructionView,
                    ProgramError,
                >(instruction@),
                Err(fault) => unpack_spec(input@) == Err::<StudentInstructionView, ProgramError>(
                    fault,
                ),
            },
    {
        if input.len() == 0 {
            return Err(ProgramError::InvalidInstructionData);
        }
        let variant = input[0];
        let (name, p1) = match take_string(input, 1) {
            Some(found) => found,
            None => { return Err(ProgramError::InvalidInstructionData); },
        };
        assert(input@.skip(1).skip(p1 - 1) =~= input@.skip(p1 as int));
        let (message, p2) = match take_string(input, p1) {
            Some(found) => found,
            None => { return Err(ProgramError::InvalidInstructionData); },
        };
        if p2 != input.len() {
            return Err(ProgramError::InvalidInstructionData);
        }
        match variant {
            0 => Ok(StudentInstruction::StudentIntro { name, message }),
            1 => Ok(StudentInstruction::UpdateIntro { name, message }),
            2 => Ok(StudentInstruction::ReplyIntro { name, message }),
            _ => Err(ProgramError::InvalidInstructionData),
        }
    }
}

} // verus!
