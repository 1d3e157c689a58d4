//! The second pass: walks the program with a fresh cursor, resolves and
//! encodes every instruction, expands every directive, and writes the bytes
//! in program order.

use vstd::prelude::*;
use crate::encoder::{
    encode_instruction, resolve_instruction, spec_encode, spec_resolve_instruction,
    spec_word_bytes, word_bytes,
};
use crate::error::{outcome_view, AssemblyError, SpecError};
use crate::image::{spec_padding, ImageWriter};
use crate::instructions::{InstructionOrConstant, PreprocessorCommand, SpecCommand, SpecElement};
use crate::layout::{address_after, spec_address_after};
use crate::symbols::{spec_scope_after, SpecSymbols, SymbolTable};

verus! {

/// The bytes that an element contributes to the image, where it stands at
/// `cursor` under the enclosing label `scope` and the cursor after it is
/// `next`. An `offset` contributes the padding that closes the gap.
pub open spec fn spec_element_bytes(
    symbols: SpecSymbols,
    scope: Option<Seq<char>>,
    cursor: u32,
    next: u32,
    element: SpecElement,
) -> Result<Seq<u8>, SpecError> {
    match element {
        SpecElement::Instruction(i) => match spec_resolve_instruction(symbols, scope, next, i) {
            Err(e) => Err(e),
            Ok(resolved) => spec_encode(resolved),
        },
        SpecElement::PreprocessorCommand(SpecCommand::Offset(_)) => Ok(
            spec_padding((next - cursor) as nat),
        ),
        SpecElement::PreprocessorCommand(SpecCommand::DeclareBytes(bytes)) => Ok(bytes),
        SpecElement::PreprocessorCommand(SpecCommand::DeclareWord(word)) => Ok(
            spec_word_bytes(word),
        ),
        _ => Ok(seq![]),
    }
}

/// The view of an [`Emission`].
pub struct SpecEmission {
    pub cursor: u32,
    pub scope: Option<Seq<char>>,
    pub image: Seq<u8>,
}

impl SpecEmission {
    pub open spec fn start() -> SpecEmission {
        SpecEmission { cursor: 0, scope: None, image: seq![] }
    }

    /// The state of the second pass after `element`.
    pub open spec fn step(self, symbols: SpecSymbols, element: SpecElement) -> Result<
        SpecEmission,
        SpecError,
    > {
        match spec_address_after(self.cursor, element) {
            Err(e) => Err(e),
            Ok(next) => match spec_element_bytes(symbols, self.scope, self.cursor, next, element) {
                Err(e) => Err(e),
                Ok(bytes) => Ok(
                    SpecEmission {
                        cursor: next,
                        scope: spec_scope_after(self.scope, element),
                        image: self.image + bytes,
                    },
                ),
            },
        }
    }
}

/// The state of the second pass after all of `elements`, or the first
/// failure on the way.
pub open spec fn spec_emission(symbols: SpecSymbols, elements: Seq<SpecElement>) -> Result<
    SpecEmission,
    SpecError,
>
    decreases elements.len(),
{
    if elements.len() == 0 {
        Ok(SpecEmission::start())
    } else {
        match spec_emission(symbols, elements.drop_last()) {
            Err(e) => Err(e),
            Ok(emission) => emission.step(symbols, elements.last()),
        }
    }
}

/// The image of a program under a symbol table, or the first failure of the
/// second pass.
pub open spec fn spec_image(symbols: SpecSymbols, elements: Seq<SpecElement>) -> Result<
    Seq<u8>,
    SpecError,
> {
    match spec_emission(symbols, elements) {
        Err(e) => Err(e),
        Ok(emission) => Ok(emission.image),
    }
}

/// A failure of the second pass on a prefix is its failure on the whole.
pub proof fn lemma_emission_failure_stays(
    symbols: SpecSymbols,
    elements: Seq<SpecElement>,
    n: int,
)
    requires
        0 <= n <= elements.len(),
        spec_emission(symbols, elements.take(n)) is Err,
    ensures
        spec_emission(symbols, elements) == spec_emission(symbols, elements.take(n)),
    decreases elements.len() - n,
{
    if n == elements.len() {
        assert(elements.take(n) == elements);
    } else {
        assert(elements.take(n + 1).drop_last() == elements.take(n));
        lemma_emission_failure_stays(symbols, elements, n + 1);
    }
}

/// The state of the second pass: where it stands, under which label, and
/// what it has written.
#[derive(Debug)]
pub struct Emission {
    pub cursor: u32,
    pub scope: Option<String>,
    pub writer: ImageWriter,
}

impl View for Emission {
    type V = SpecEmission;

    open spec fn view(&self) -> SpecEmission {
        SpecEmission {
            cursor: self.cursor,
            scope: self.scope.deep_view(),
            image: self.writer@,
        }
    }
}

impl Emission {
    pub fn new() -> (emission: Emission)
        ensures
            emission@ == SpecEmission::start(),
    {
        Emission { cursor: 0, scope: None, writer: ImageWriter::new() }
    }

    /// Takes one element in: writes its bytes and moves the cursor past it.
    pub fn step(self, table: &SymbolTable, element: &InstructionOrConstant) -> (r: Result<
        Emission,
        AssemblyError,
    >)
        ensures
            outcome_view(r) == self@.step(table@, element@),
    {
        let Emission { cursor, scope, writer } = self;
        let mut writer = writer;
        let next = address_after(cursor, element)?;
        match element {
            InstructionOrConstant::Instruction(i) => {
                let resolved = resolve_instruction(table, scope.as_ref(), next, i)?;
                let bytes = encode_instruction(&resolved)?;
                writer.write(bytes.as_slice());
            },
            InstructionOrConstant::PreprocessorCommand(PreprocessorCommand::Offset(_)) => {
                writer.pad(next - cursor);
            },
            InstructionOrConstant::PreprocessorCommand(
                PreprocessorCommand::DeclareBytes(bytes),
            ) => {
                writer.write(bytes.as_slice());
            },
            InstructionOrConstant::PreprocessorCommand(PreprocessorCommand::DeclareWord(word)) => {
                writer.write(word_bytes(*word).as_slice());
            },
            _ => {
                assert(writer@ + Seq::<u8>::empty() == writer@);
            },
        }
        let scope = match element {
            InstructionOrConstant::Label(name) => Some(name.clone()),
            _ => scope,
        };
        Ok(Emission { cursor: next, scope, writer })
    }
}

/// The second pass: the image of `elements` under `table`.
pub fn encode_program(table: &SymbolTable, elements: &Vec<InstructionOrConstant>) -> (r: Result<
    Vec<u8>,
    AssemblyError,
>)
    ensures
        outcome_view(r) == spec_image(table@, elements.deep_view()),
{
    let ghost program = elements.deep_view();
    let mut emission = Emission::new();
    let mut i: usize = 0;
    while i < elements.len()
        invariant
            i <= elements.len(),
            program == elements.deep_view(),
            spec_emission(table@, program.take(i as int)) == Ok::<SpecEmission, SpecError>(
                emission@,
            ),
        decreases elements.len() - i,
    {
        proof {
            assert(program.take(i + 1).drop_last() == program.take(i as int));
            assert(program.take(i + 1).last() == elements@[i as int]@);
        }
        match emission.step(table, &elements[i]) {
            Ok(next) => {
                emission = next;
            },
            Err(e) => {
                proof {
                    lemma_emission_failure_stays(table@, program, i + 1);
                }
                return Err(e);
            },
        }
        i += 1;
    }
    assert(program.take(i as int) == program);
    let (image, _) = emission.writer.finish();
    Ok(image)
}

} // verus!
