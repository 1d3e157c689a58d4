//! The errors of an assembly. Each is fatal: the caller gets the first one
//! met and no image.

use vstd::prelude::*;

verus! {

/// A place in the source text.
#[derive(Debug, PartialEq, Eq, Clone, Copy, Structural)]
pub struct Position {
    pub line: u32,
    pub column: u32,
}

#[derive(Debug, PartialEq, Eq, Clone)]
pub enum AssemblyError {
    /// A statement starts with a word that names no instruction.
    UnknownMnemonic { text: String, position: Position },
    /// The statement that starts at `position` has the wrong number of
    /// operands, or one that cannot be read.
    MalformedOperand { position: Position },
    /// The name is already defined in its scope.
    DuplicateSymbol(String),
    /// The scoped name is defined before any top-level label.
    NoEnclosingLabel(String),
    /// An `offset` directive would move the cursor backward.
    InvalidOffset { offset: u32, cursor: u32 },
    /// An operand refers to a name that the applicable scope does not hold.
    UnresolvedSymbol(String),
    /// The image would outgrow the address space of the machine.
    AddressOverflow,
}

/// The view of an [`AssemblyError`].
pub enum SpecError {
    UnknownMnemonic { text: Seq<char>, position: Position },
    MalformedOperand { position: Position },
    DuplicateSymbol(Seq<char>),
    NoEnclosingLabel(Seq<char>),
    InvalidOffset { offset: u32, cursor: u32 },
    UnresolvedSymbol(Seq<char>),
    AddressOverflow,
}

impl View for AssemblyError {
    type V = SpecError;

    open spec fn view(&self) -> SpecError {
        match self {
            AssemblyError::UnknownMnemonic { text, position } => SpecError::UnknownMnemonic {
                text: text@,
                position: *position,
            },
            AssemblyError::MalformedOperand { position } => SpecError::MalformedOperand {
                position: *position,
            },
            AssemblyError::DuplicateSymbol(n) => SpecError::DuplicateSymbol(n@),
            AssemblyError::NoEnclosingLabel(n) => SpecError::NoEnclosingLabel(n@),
            AssemblyError::InvalidOffset { offset, cursor } => SpecError::InvalidOffset {
                offset: *offset,
                cursor: *cursor,
            },
            AssemblyError::UnresolvedSymbol(n) => SpecError::UnresolvedSymbol(n@),
            AssemblyError::AddressOverflow => SpecError::AddressOverflow,
        }
    }
}

impl DeepView for AssemblyError {
    type V = SpecError;

    open spec fn deep_view(&self) -> SpecError {
        self@
    }
}

/// An executable result with its error taken by its view.
pub open spec fn outcome<T>(r: Result<T, AssemblyError>) -> Result<T, SpecError> {
    match r {
        Ok(v) => Ok(v),
        Err(e) => Err(e@),
    }
}

/// An executable result taken by the views of its value and of its error.
pub open spec fn outcome_view<T: View>(r: Result<T, AssemblyError>) -> Result<T::V, SpecError> {
    match r {
        Ok(v) => Ok(v@),
        Err(e) => Err(e@),
    }
}

} // verus!
