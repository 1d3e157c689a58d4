//! Resolution of operands and encoding of instructions.
//!
//! An instruction is encoded as an opcode word followed by one word for each
//! operand, every word in little-endian byte order. The four bytes of the
//! opcode word are: the code of the kind; the addressing modes (bits 0-1 for
//! the first operand, bits 2-3 for the second, bit 4 set for a relative
//! `jmp`); and two zero bytes. The word of a register operand is the code of
//! the register; the word of an immediate operand is its value.

use vstd::prelude::*;
use crate::error::{outcome_view, AssemblyError, SpecError};
use crate::instructions::{
    Instruction, JmpVariant, NamedInstruction, Register, SpecInstruction, SpecTarget, Target,
};
use crate::symbols::{SpecSymbols, SymbolTable};

verus! {

impl Register {
    /// The two-bit code of the register.
    pub open spec fn spec_code(self) -> u8 {
        match self {
            Register::GeneralPurpose0 => 0,
            Register::GeneralPurpose1 => 1,
            Register::Flag => 2,
            Register::ProgramCounter => 3,
        }
    }

    pub fn code(&self) -> (c: u8)
        ensures
            c == self.spec_code(),
    {
        match self {
            Register::GeneralPurpose0 => 0,
            Register::GeneralPurpose1 => 1,
            Register::Flag => 2,
            Register::ProgramCounter => 3,
        }
    }
}

impl NamedInstruction {
    /// The code of the kind, which is the first byte of the opcode word.
    pub open spec fn spec_code(self) -> u8 {
        match self {
            NamedInstruction::Nop => 0,
            NamedInstruction::Hlt => 1,
            NamedInstruction::Mov => 2,
            NamedInstruction::Not => 3,
            NamedInstruction::Or => 4,
            NamedInstruction::And => 5,
            NamedInstruction::Xor => 6,
            NamedInstruction::Shl => 7,
            NamedInstruction::Shr => 8,
            NamedInstruction::Add => 9,
            NamedInstruction::Sub => 10,
            NamedInstruction::Mul => 11,
            NamedInstruction::IMul => 12,
            NamedInstruction::Div => 13,
            NamedInstruction::IDiv => 14,
            NamedInstruction::Rem => 15,
            NamedInstruction::Cmp => 16,
            NamedInstruction::Jmp => 17,
            NamedInstruction::Jz => 18,
            NamedInstruction::Jnz => 19,
        }
    }

    pub fn code(&self) -> (c: u8)
        ensures
            c == self.spec_code(),
    {
        match self {
            NamedInstruction::Nop => 0,
            NamedInstruction::Hlt => 1,
            NamedInstruction::Mov => 2,
            NamedInstruction::Not => 3,
            NamedInstruction::Or => 4,
            NamedInstruction::And => 5,
            NamedInstruction::Xor => 6,
            NamedInstruction::Shl => 7,
            NamedInstruction::Shr => 8,
            NamedInstruction::Add => 9,
            NamedInstruction::Sub => 10,
            NamedInstruction::Mul => 11,
            NamedInstruction::IMul => 12,
            NamedInstruction::Div => 13,
            NamedInstruction::IDiv => 14,
            NamedInstruction::Rem => 15,
            NamedInstruction::Cmp => 16,
            NamedInstruction::Jmp => 17,
            NamedInstruction::Jz => 18,
            NamedInstruction::Jnz => 19,
        }
    }
}

impl SpecTarget {
    /// The name that a symbolic operand refers to.
    pub open spec fn symbol(self) -> Option<Seq<char>> {
        match self {
            SpecTarget::Constant(n)
            | SpecTarget::ConstantAddress(n)
            | SpecTarget::SubConstant(n)
            | SpecTarget::SubConstantAddress(n) => Some(n),
            _ => None,
        }
    }

    /// The two-bit code of the addressing mode. A symbolic operand has the
    /// mode of what it resolves to.
    pub open spec fn mode(self) -> u8 {
        match self {
            SpecTarget::Register(_) => 0,
            SpecTarget::RegisterAddress(_) => 1,
            SpecTarget::Immediate(_) | SpecTarget::Constant(_) | SpecTarget::SubConstant(_) => 2,
            SpecTarget::ImmediateAddress(_)
            | SpecTarget::ConstantAddress(_)
            | SpecTarget::SubConstantAddress(_) => 3,
        }
    }

    /// The operand word of a concrete operand; zero for a symbolic one,
    /// which has none until it is resolved.
    pub open spec fn word(self) -> u32 {
        match self {
            SpecTarget::Register(r) | SpecTarget::RegisterAddress(r) => r.spec_code() as u32,
            SpecTarget::Immediate(v) | SpecTarget::ImmediateAddress(v) => v,
            _ => 0,
        }
    }
}

impl Target {
    pub fn symbol(&self) -> (name: Option<&String>)
        ensures
            name.deep_view() == self@.symbol(),
    {
        match self {
            Target::Constant(n)
            | Target::ConstantAddress(n)
            | Target::SubConstant(n)
            | Target::SubConstantAddress(n) => Some(n),
            _ => None,
        }
    }

    pub fn mode(&self) -> (m: u8)
        ensures
            m == self@.mode(),
    {
        match self {
            Target::Register(_) => 0,
            Target::RegisterAddress(_) => 1,
            Target::Immediate(_) | Target::Constant(_) | Target::SubConstant(_) => 2,
            Target::ImmediateAddress(_)
            | Target::ConstantAddress(_)
            | Target::SubConstantAddress(_) => 3,
        }
    }

    pub fn word(&self) -> (w: u32)
        ensures
            w == self@.word(),
    {
        match self {
            Target::Register(r) | Target::RegisterAddress(r) => r.code() as u32,
            Target::Immediate(v) | Target::ImmediateAddress(v) => *v,
            _ => 0,
        }
    }
}

/// The four bytes of a word, the least significant first.
pub open spec fn spec_word_bytes(word: u32) -> Seq<u8> {
    seq![
        (word % 256) as u8,
        (word / 256 % 256) as u8,
        (word / 65536 % 256) as u8,
        (word / 16777216) as u8,
    ]
}

pub fn word_bytes(word: u32) -> (bytes: [u8; 4])
    ensures
        bytes@ == spec_word_bytes(word),
{
    let bytes = [
        (word % 256) as u8,
        (word / 256 % 256) as u8,
        (word / 65536 % 256) as u8,
        (word / 16777216) as u8,
    ];
    assert(bytes@ =~= spec_word_bytes(word));
    bytes
}

/// The addressing mode of the operand at `index`; zero where the
/// instruction has no such operand.
pub open spec fn spec_mode_at(operands: Seq<SpecTarget>, index: int) -> u8 {
    if 0 <= index < operands.len() {
        operands[index].mode()
    } else {
        0
    }
}

/// The second byte of the opcode word.
pub open spec fn spec_modes(instruction: SpecInstruction) -> u8 {
    let relative: int = if instruction.variant == JmpVariant::Relative {
        16
    } else {
        0
    };
    (spec_mode_at(instruction.operands, 0) + 4 * spec_mode_at(instruction.operands, 1)
        + relative) as u8
}

/// The operand words of an instruction, in order.
pub open spec fn spec_operand_bytes(operands: Seq<SpecTarget>) -> Seq<u8>
    decreases operands.len(),
{
    if operands.len() == 0 {
        seq![]
    } else {
        spec_operand_bytes(operands.drop_last()) + spec_word_bytes(operands.last().word())
    }
}

/// The name of the first symbolic operand.
pub open spec fn spec_first_symbol(operands: Seq<SpecTarget>) -> Option<Seq<char>>
    decreases operands.len(),
{
    if operands.len() == 0 {
        None
    } else {
        match spec_first_symbol(operands.drop_last()) {
            Some(n) => Some(n),
            None => operands.last().symbol(),
        }
    }
}

/// The encoding of an instruction. Only concrete operands can be encoded:
/// a symbolic one is unresolved.
pub open spec fn spec_encode(instruction: SpecInstruction) -> Result<Seq<u8>, SpecError> {
    match spec_first_symbol(instruction.operands) {
        Some(name) => Err(SpecError::UnresolvedSymbol(name)),
        None => Ok(
            seq![instruction.kind.spec_code(), spec_modes(instruction), 0u8, 0u8]
                + spec_operand_bytes(instruction.operands),
        ),
    }
}

/// Encodes an instruction whose operands are all concrete. It is refused
/// with the name of its first symbolic operand where it has one.
pub fn encode_instruction(instruction: &Instruction) -> (r: Result<Vec<u8>, AssemblyError>)
    ensures
        outcome_view(r) == spec_encode(instruction@),
        r matches Ok(bytes) ==> bytes@.len() == instruction@.kind.spec_width(),
{
    let first = instruction.first();
    let second = instruction.second();
    let ghost operands = instruction@.operands;
    proof {
        instruction.lemma_view_wf();
        reveal_with_fuel(spec_first_symbol, 3);
        reveal_with_fuel(spec_operand_bytes, 3);
        if operands.len() == 2 {
            assert(operands.drop_last().drop_last().len() == 0);
            assert(operands.drop_last().last() == operands[0]);
        }
    }
    let mut modes: u8 = 0;
    let mut bytes: Vec<u8> = Vec::new();
    bytes.push(instruction.kind().code());
    bytes.push(0);
    bytes.push(0);
    bytes.push(0);
    if let Some(target) = first {
        if let Some(name) = target.symbol() {
            return Err(AssemblyError::UnresolvedSymbol(name.clone()));
        }
        modes = target.mode();
        bytes.extend_from_slice(word_bytes(target.word()).as_slice());
    }
    if let Some(target) = second {
        if let Some(name) = target.symbol() {
            return Err(AssemblyError::UnresolvedSymbol(name.clone()));
        }
        modes = modes + 4 * target.mode();
        bytes.extend_from_slice(word_bytes(target.word()).as_slice());
    }
    match instruction.variant() {
        JmpVariant::Relative => {
            modes = modes + 16;
        },
        JmpVariant::Absolute => {},
    }
    bytes.set(1, modes);
    assert(bytes@ =~= spec_encode(instruction@)->Ok_0);
    Ok(bytes)
}

/// The offset from `next` to `target` as a word: the difference in two's
/// complement.
pub open spec fn spec_displacement(target: u32, next: u32) -> u32 {
    if target >= next {
        (target - next) as u32
    } else {
        (target + 0x1_0000_0000 - next) as u32
    }
}

pub fn displacement(target: u32, next: u32) -> (d: u32)
    ensures
        d == spec_displacement(target, next),
{
    if target >= next {
        target - next
    } else {
        u32::MAX - (next - target) + 1
    }
}

/// What an operand stands for: a concrete operand for itself, a name for the
/// value that the table holds for it, in the global table or under the
/// enclosing label `scope`.
pub open spec fn spec_resolve(symbols: SpecSymbols, scope: Option<Seq<char>>, target: SpecTarget)
    -> Result<SpecTarget, SpecError> {
    match target {
        SpecTarget::Constant(name) => match symbols.globals.get(name) {
            Some(value) => Ok(SpecTarget::Immediate(value)),
            None => Err(SpecError::UnresolvedSymbol(name)),
        },
        SpecTarget::ConstantAddress(name) => match symbols.globals.get(name) {
            Some(value) => Ok(SpecTarget::ImmediateAddress(value)),
            None => Err(SpecError::UnresolvedSymbol(name)),
        },
        SpecTarget::SubConstant(name) => match symbols.sub(scope, name) {
            Some(value) => Ok(SpecTarget::Immediate(value)),
            None => Err(SpecError::UnresolvedSymbol(name)),
        },
        SpecTarget::SubConstantAddress(name) => match symbols.sub(scope, name) {
            Some(value) => Ok(SpecTarget::ImmediateAddress(value)),
            None => Err(SpecError::UnresolvedSymbol(name)),
        },
        _ => Ok(target),
    }
}

/// Resolves one operand against the table.
pub fn resolve_target(table: &SymbolTable, scope: Option<&String>, target: &Target) -> (r: Result<
    Target,
    AssemblyError,
>)
    ensures
        outcome_view(r) == spec_resolve(table@, scope.deep_view(), target@),
{
    match target {
        Target::Constant(name) => match table.global(name) {
            Some(value) => Ok(Target::Immediate(value)),
            None => Err(AssemblyError::UnresolvedSymbol(name.clone())),
        },
        Target::ConstantAddress(name) => match table.global(name) {
            Some(value) => Ok(Target::ImmediateAddress(value)),
            None => Err(AssemblyError::UnresolvedSymbol(name.clone())),
        },
        Target::SubConstant(name) => match table.sub(scope, name) {
            Some(value) => Ok(Target::Immediate(value)),
            None => Err(AssemblyError::UnresolvedSymbol(name.clone())),
        },
        Target::SubConstantAddress(name) => match table.sub(scope, name) {
            Some(value) => Ok(Target::ImmediateAddress(value)),
            None => Err(AssemblyError::UnresolvedSymbol(name.clone())),
        },
        Target::Register(r) => Ok(Target::Register(*r)),
        Target::RegisterAddress(r) => Ok(Target::RegisterAddress(*r)),
        Target::Immediate(v) => Ok(Target::Immediate(*v)),
        Target::ImmediateAddress(v) => Ok(Target::ImmediateAddress(*v)),
    }
}

/// What an operand of an instruction stands for. Under a relative `jmp` a
/// name that stands for an address becomes the offset to it from `next`,
/// the address of the following instruction. An operand that is written as
/// a number is an offset already, and the address of a memory cell is no
/// jump target: both stay as they are.
pub open spec fn spec_resolve_operand(
    symbols: SpecSymbols,
    scope: Option<Seq<char>>,
    variant: JmpVariant,
    next: u32,
    target: SpecTarget,
) -> Result<SpecTarget, SpecError> {
    match spec_resolve(symbols, scope, target) {
        Err(e) => Err(e),
        Ok(resolved) => if variant == JmpVariant::Relative && (target is Constant
            || target is SubConstant) {
            Ok(SpecTarget::Immediate(spec_displacement(resolved->Immediate_0, next)))
        } else {
            Ok(resolved)
        },
    }
}

/// The operands of an instruction resolved in order, or the failure of the
/// first that cannot be.
pub open spec fn spec_resolve_operands(
    symbols: SpecSymbols,
    scope: Option<Seq<char>>,
    variant: JmpVariant,
    next: u32,
    operands: Seq<SpecTarget>,
) -> Result<Seq<SpecTarget>, SpecError>
    decreases operands.len(),
{
    if operands.len() == 0 {
        Ok(seq![])
    } else {
        match spec_resolve_operands(symbols, scope, variant, next, operands.drop_last()) {
            Err(e) => Err(e),
            Ok(resolved) => match spec_resolve_operand(
                symbols,
                scope,
                variant,
                next,
                operands.last(),
            ) {
                Err(e) => Err(e),
                Ok(last) => Ok(resolved.push(last)),
            },
        }
    }
}

/// The instruction with every operand resolved.
pub open spec fn spec_resolve_instruction(
    symbols: SpecSymbols,
    scope: Option<Seq<char>>,
    next: u32,
    instruction: SpecInstruction,
) -> Result<SpecInstruction, SpecError> {
    match spec_resolve_operands(
        symbols,
        scope,
        instruction.variant,
        next,
        instruction.operands,
    ) {
        Err(e) => Err(e),
        Ok(operands) => Ok(
            SpecInstruction { kind: instruction.kind, variant: instruction.variant, operands },
        ),
    }
}

fn resolve_operand(
    table: &SymbolTable,
    scope: Option<&String>,
    variant: JmpVariant,
    next: u32,
    target: &Target,
) -> (r: Result<Target, AssemblyError>)
    ensures
        outcome_view(r) == spec_resolve_operand(table@, scope.deep_view(), variant, next, target@),
{
    let resolved = resolve_target(table, scope, target)?;
    match variant {
        JmpVariant::Absolute => Ok(resolved),
        JmpVariant::Relative => match (target, resolved) {
            (Target::Constant(_), Target::Immediate(address)) => Ok(
                Target::Immediate(displacement(address, next)),
            ),
            (Target::SubConstant(_), Target::Immediate(address)) => Ok(
                Target::Immediate(displacement(address, next)),
            ),
            (_, resolved) => Ok(resolved),
        },
    }
}

/// Resolves the operands of an instruction that ends at `next`.
pub fn resolve_instruction(
    table: &SymbolTable,
    scope: Option<&String>,
    next: u32,
    instruction: &Instruction,
) -> (r: Result<Instruction, AssemblyError>)
    ensures
        outcome_view(r) == spec_resolve_instruction(
            table@,
            scope.deep_view(),
            next,
            instruction@,
        ),
{
    let kind = instruction.kind();
    let variant = instruction.variant();
    let ghost operands = instruction@.operands;
    proof {
        instruction.lemma_view_wf();
        reveal_with_fuel(spec_resolve_operands, 3);
        if operands.len() == 2 {
            assert(operands.drop_last().drop_last().len() == 0);
            assert(operands.drop_last().last() == operands[0]);
        }
    }
    let first = match instruction.first() {
        Some(target) => Some(resolve_operand(table, scope, variant, next, target)?),
        None => None,
    };
    let second = match instruction.second() {
        Some(target) => Some(resolve_operand(table, scope, variant, next, target)?),
        None => None,
    };
    let resolved = Instruction::new(kind, variant, first, second);
    proof {
        let expected = spec_resolve_instruction(table@, scope.deep_view(), next, instruction@);
        assert(expected is Ok);
        assert(resolved is Some);
        assert(resolved.unwrap()@.operands =~= expected->Ok_0.operands);
    }
    Ok(resolved.unwrap())
}

} // verus!
