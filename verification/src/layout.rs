//! Address arithmetic. Both passes walk the program with a cursor, the next
//! output address, and both move it by [`address_after`]: the addresses that
//! the first pass records are the ones at which the second pass writes.

use vstd::prelude::*;
use crate::error::{outcome, AssemblyError, SpecError};
use crate::instructions::{
    InstructionOrConstant, NamedInstruction, PreprocessorCommand, SpecCommand, SpecElement,
};

verus! {

/// The number of bytes in a machine word.
pub const WORD_BYTES: u32 = 4;

impl NamedInstruction {
    /// The encoded width in bytes: one word for the opcode and one for each
    /// operand. It depends on the kind alone.
    pub open spec fn spec_width(self) -> nat {
        4 * (1 + self.spec_arity())
    }

    pub fn width(&self) -> (w: u32)
        ensures
            w == self.spec_width(),
    {
        match self.arity() {
            0 => WORD_BYTES,
            1 => 2 * WORD_BYTES,
            _ => 3 * WORD_BYTES,
        }
    }
}

/// The cursor moved forward by `count` bytes, where the machine can address
/// the result.
pub open spec fn spec_advance(cursor: u32, count: nat) -> Result<u32, SpecError> {
    if cursor + count > u32::MAX {
        Err(SpecError::AddressOverflow)
    } else {
        Ok((cursor + count) as u32)
    }
}

/// The number of bytes by which an element moves the cursor forward.
/// An `offset` sets the cursor instead and counts for nothing here.
pub open spec fn spec_size(element: SpecElement) -> nat {
    match element {
        SpecElement::Instruction(i) => i.kind.spec_width(),
        SpecElement::PreprocessorCommand(SpecCommand::DeclareBytes(bytes)) => bytes.len(),
        SpecElement::PreprocessorCommand(SpecCommand::DeclareWord(_)) => 4,
        _ => 0,
    }
}

/// The cursor after an element that stands at `cursor`.
pub open spec fn spec_address_after(cursor: u32, element: SpecElement) -> Result<u32, SpecError> {
    match element {
        SpecElement::PreprocessorCommand(SpecCommand::Offset(offset)) => if offset < cursor {
            Err(SpecError::InvalidOffset { offset, cursor })
        } else {
            Ok(offset)
        },
        _ => spec_advance(cursor, spec_size(element)),
    }
}

pub fn advance(cursor: u32, count: usize) -> (r: Result<u32, AssemblyError>)
    ensures
        outcome(r) == spec_advance(cursor, count as nat),
{
    if count > (u32::MAX - cursor) as usize {
        Err(AssemblyError::AddressOverflow)
    } else {
        Ok(cursor + count as u32)
    }
}

/// The cursor after `element`, which stands at `cursor`. An `offset` that
/// points below the cursor is refused; so is an element that ends beyond the
/// last address.
pub fn address_after(cursor: u32, element: &InstructionOrConstant) -> (r: Result<
    u32,
    AssemblyError,
>)
    ensures
        outcome(r) == spec_address_after(cursor, element@),
{
    match element {
        InstructionOrConstant::Instruction(i) => advance(cursor, i.kind().width() as usize),
        InstructionOrConstant::PreprocessorCommand(PreprocessorCommand::Offset(offset)) => {
            if *offset < cursor {
                Err(AssemblyError::InvalidOffset { offset: *offset, cursor })
            } else {
                Ok(*offset)
            }
        },
        InstructionOrConstant::PreprocessorCommand(PreprocessorCommand::DeclareBytes(bytes)) => {
            advance(cursor, bytes.len())
        },
        InstructionOrConstant::PreprocessorCommand(PreprocessorCommand::DeclareWord(_)) => {
            advance(cursor, WORD_BYTES as usize)
        },
        _ => advance(cursor, 0),
    }
}

} // verus!
