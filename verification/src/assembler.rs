//! The assembler: the first pass over the whole program, then the second.

use vstd::prelude::*;
use crate::emitter::{encode_program, spec_image};
use crate::error::{outcome_view, AssemblyError, SpecError};
use crate::instructions::{InstructionOrConstant, SpecElement};
use crate::parser::{parse, spec_parse};
use crate::symbols::{build_symbol_table, spec_symbols};
use crate::token::{SpecToken, Token};

verus! {

/// The image of a program: the bytes that the second pass writes under the
/// symbol table that the first pass builds; or the first failure, of the
/// first pass if it has one.
pub open spec fn spec_assemble(elements: Seq<SpecElement>) -> Result<Seq<u8>, SpecError> {
    match spec_symbols(elements) {
        Err(e) => Err(e),
        Ok(symbols) => spec_image(symbols, elements),
    }
}

/// Assembles a program into its image. Nothing is produced where either
/// pass fails.
pub fn assemble(elements: &Vec<InstructionOrConstant>) -> (r: Result<Vec<u8>, AssemblyError>)
    ensures
        outcome_view(r) == spec_assemble(elements.deep_view()),
{
    let table = build_symbol_table(elements)?;
    encode_program(&table, elements)
}

/// The image of a token stream: that of the program it parses to.
pub open spec fn spec_assemble_tokens(tokens: Seq<SpecToken>) -> Result<Seq<u8>, SpecError> {
    match spec_parse(tokens) {
        Err(e) => Err(e),
        Ok(elements) => spec_assemble(elements),
    }
}

/// Parses a token stream and assembles the program. The caller gets the
/// image, or the first failure: of the parser, else of the first pass, else
/// of the second.
pub fn assemble_tokens(tokens: &Vec<Token>) -> (r: Result<Vec<u8>, AssemblyError>)
    ensures
        outcome_view(r) == spec_assemble_tokens(tokens.deep_view()),
{
    let elements = parse(tokens)?;
    assemble(&elements)
}

} // verus!
