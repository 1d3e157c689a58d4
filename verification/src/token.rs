//! The lexical units that a tokenizer hands to the parser.

use vstd::prelude::*;
use crate::error::Position;
use crate::instructions::Register;

verus! {

#[derive(Debug, PartialEq, Eq, Clone)]
pub enum TokenKind {
    /// A mnemonic, a directive or an identifier: the parser tells them apart.
    Word(String),
    /// A register name.
    Register(Register),
    /// A numeric literal.
    Number(u32),
    /// `[`, which opens an indirect operand.
    OpenBracket,
    /// `]`, which closes an indirect operand.
    CloseBracket,
    /// `,`, which separates operands.
    Comma,
    /// `:`, which ends the definition of a label.
    Colon,
    /// `.`, which marks a name as scoped to the enclosing label.
    Dot,
    /// `+`, which marks the operand of a `jmp` as relative.
    Plus,
}

/// The view of a [`TokenKind`].
pub enum SpecTokenKind {
    Word(Seq<char>),
    Register(Register),
    Number(u32),
    OpenBracket,
    CloseBracket,
    Comma,
    Colon,
    Dot,
    Plus,
}

impl View for TokenKind {
    type V = SpecTokenKind;

    open spec fn view(&self) -> SpecTokenKind {
        match self {
            TokenKind::Word(w) => SpecTokenKind::Word(w@),
            TokenKind::Register(r) => SpecTokenKind::Register(*r),
            TokenKind::Number(n) => SpecTokenKind::Number(*n),
            TokenKind::OpenBracket => SpecTokenKind::OpenBracket,
            TokenKind::CloseBracket => SpecTokenKind::CloseBracket,
            TokenKind::Comma => SpecTokenKind::Comma,
            TokenKind::Colon => SpecTokenKind::Colon,
            TokenKind::Dot => SpecTokenKind::Dot,
            TokenKind::Plus => SpecTokenKind::Plus,
        }
    }
}

/// A lexical unit and where it stands in the source.
#[derive(Debug, PartialEq, Eq, Clone)]
pub struct Token {
    pub kind: TokenKind,
    pub position: Position,
}

/// The view of a [`Token`].
pub struct SpecToken {
    pub kind: SpecTokenKind,
    pub position: Position,
}

impl View for Token {
    type V = SpecToken;

    open spec fn view(&self) -> SpecToken {
        SpecToken { kind: self.kind@, position: self.position }
    }
}

impl DeepView for Token {
    type V = SpecToken;

    open spec fn deep_view(&self) -> SpecToken {
        self@
    }
}

} // verus!
