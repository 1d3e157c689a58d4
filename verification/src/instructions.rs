//! The instruction set: registers, operand addressing modes, instructions,
//! directives, and the elements a parsed program is made of.
//!
//! Every executable type has a mathematical view (`@`) in which names are
//! sequences of characters and byte strings are sequences of bytes. An
//! instruction's view is normalised: its kind, its jump variant and the
//! sequence of its operands.

use vstd::prelude::*;
use vstd::string::StringSliceAdditionalSpecFns;
use vstd::utf8::{encode_utf8, encode_utf8_decode_utf8};
use crate::text::same_bytes;

verus! {

/// A machine word. Immediates and addresses are words.
pub type Immediate = u32;

/// The four registers of the machine.
#[derive(Debug, PartialEq, Eq, Clone, Copy, Structural)]
pub enum Register {
    GeneralPurpose0,
    GeneralPurpose1,
    Flag,
    ProgramCounter,
}

/// An operand and its addressing mode.
///
/// `Constant` names an entry of the global symbol table, which holds label
/// addresses and defined constants alike; `SubConstant` names an entry scoped
/// to the enclosing label. The `..Address` forms denote the value stored at
/// the address rather than the address itself.
#[derive(Debug, PartialEq, Eq, Clone)]
pub enum Target {
    Register(Register),
    RegisterAddress(Register),
    Immediate(Immediate),
    ImmediateAddress(Immediate),
    Constant(String),
    ConstantAddress(String),
    SubConstant(String),
    SubConstantAddress(String),
}

/// The view of a [`Target`].
pub enum SpecTarget {
    Register(Register),
    RegisterAddress(Register),
    Immediate(Immediate),
    ImmediateAddress(Immediate),
    Constant(Seq<char>),
    ConstantAddress(Seq<char>),
    SubConstant(Seq<char>),
    SubConstantAddress(Seq<char>),
}

impl SpecTarget {
    /// A concrete operand names no symbol: it is ready to be encoded.
    pub open spec fn is_concrete(self) -> bool {
        self is Register || self is RegisterAddress || self is Immediate
            || self is ImmediateAddress
    }
}

impl View for Target {
    type V = SpecTarget;

    open spec fn view(&self) -> SpecTarget {
        match self {
            Target::Register(r) => SpecTarget::Register(*r),
            Target::RegisterAddress(r) => SpecTarget::RegisterAddress(*r),
            Target::Immediate(v) => SpecTarget::Immediate(*v),
            Target::ImmediateAddress(v) => SpecTarget::ImmediateAddress(*v),
            Target::Constant(n) => SpecTarget::Constant(n@),
            Target::ConstantAddress(n) => SpecTarget::ConstantAddress(n@),
            Target::SubConstant(n) => SpecTarget::SubConstant(n@),
            Target::SubConstantAddress(n) => SpecTarget::SubConstantAddress(n@),
        }
    }
}

impl DeepView for Target {
    type V = SpecTarget;

    open spec fn deep_view(&self) -> SpecTarget {
        self@
    }
}

impl SpecTarget {
    /// The operand that denotes the value stored at the address which this
    /// one gives.
    pub open spec fn indirect(self) -> SpecTarget {
        match self {
            SpecTarget::Register(r) | SpecTarget::RegisterAddress(r) =>
                SpecTarget::RegisterAddress(r),
            SpecTarget::Immediate(v) | SpecTarget::ImmediateAddress(v) =>
                SpecTarget::ImmediateAddress(v),
            SpecTarget::Constant(n) | SpecTarget::ConstantAddress(n) =>
                SpecTarget::ConstantAddress(n),
            SpecTarget::SubConstant(n) | SpecTarget::SubConstantAddress(n) =>
                SpecTarget::SubConstantAddress(n),
        }
    }
}

impl Target {
    /// The operand that denotes the value stored at the address which this
    /// one gives.
    pub fn indirect(self) -> (t: Target)
        ensures
            t@ == self@.indirect(),
    {
        match self {
            Target::Register(r) | Target::RegisterAddress(r) => Target::RegisterAddress(r),
            Target::Immediate(v) | Target::ImmediateAddress(v) => Target::ImmediateAddress(v),
            Target::Constant(n) | Target::ConstantAddress(n) => Target::ConstantAddress(n),
            Target::SubConstant(n) | Target::SubConstantAddress(n) => Target::SubConstantAddress(n),
        }
    }

    /// Whether the operand names no symbol.
    pub fn is_concrete(&self) -> (r: bool)
        ensures
            r == self@.is_concrete(),
    {
        match self {
            Target::Register(_) => true,
            Target::RegisterAddress(_) => true,
            Target::Immediate(_) => true,
            Target::ImmediateAddress(_) => true,
            _ => false,
        }
    }
}

/// How the operand of a `jmp` is applied by the machine: as the address to
/// continue at, or as an offset added to the program counter.
#[derive(Debug, PartialEq, Eq, Clone, Copy, Structural)]
pub enum JmpVariant {
    Absolute,
    Relative,
}

/// Directives: they lay out the image or define symbols, and are not
/// instructions.
#[derive(Debug, PartialEq, Eq, Clone)]
pub enum PreprocessorCommand {
    Offset(u32),
    DeclareBytes(Vec<u8>),
    DeclareWord(u32),
    Define(String, u32),
    DefineSub(String, u32),
}

/// The view of a [`PreprocessorCommand`].
pub enum SpecCommand {
    Offset(u32),
    DeclareBytes(Seq<u8>),
    DeclareWord(u32),
    Define(Seq<char>, u32),
    DefineSub(Seq<char>, u32),
}

impl View for PreprocessorCommand {
    type V = SpecCommand;

    open spec fn view(&self) -> SpecCommand {
        match self {
            PreprocessorCommand::Offset(a) => SpecCommand::Offset(*a),
            PreprocessorCommand::DeclareBytes(b) => SpecCommand::DeclareBytes(b@),
            PreprocessorCommand::DeclareWord(w) => SpecCommand::DeclareWord(*w),
            PreprocessorCommand::Define(n, v) => SpecCommand::Define(n@, *v),
            PreprocessorCommand::DefineSub(n, v) => SpecCommand::DefineSub(n@, *v),
        }
    }
}

impl DeepView for PreprocessorCommand {
    type V = SpecCommand;

    open spec fn deep_view(&self) -> SpecCommand {
        self@
    }
}

/// The twenty operations of the machine.
#[derive(Debug, PartialEq, Eq, Clone)]
pub enum Instruction {
    Nop,
    Hlt,
    Mov(Target, Target),
    Not(Target),
    Or(Target, Target),
    And(Target, Target),
    Xor(Target, Target),
    Shl(Target, Target),
    Shr(Target, Target),
    Add(Target, Target),
    Sub(Target, Target),
    Mul(Target, Target),
    IMul(Target, Target),
    Div(Target, Target),
    IDiv(Target, Target),
    Rem(Target, Target),
    Cmp(Target, Target),
    Jmp(JmpVariant, Target),
    Jz(Target, Target),
    Jnz(Target, Target),
}

/// The kind of an instruction, without its operands.
#[derive(Debug, PartialEq, Eq, Clone, Copy, Structural)]
pub enum NamedInstruction {
    Nop,
    Hlt,
    Mov,
    Not,
    Or,
    And,
    Xor,
    Shl,
    Shr,
    Add,
    Sub,
    Mul,
    IMul,
    Div,
    IDiv,
    Rem,
    Cmp,
    Jmp,
    Jz,
    Jnz,
}

/// The view of an [`Instruction`]: what it does, and on what.
pub struct SpecInstruction {
    pub kind: NamedInstruction,
    /// `Absolute` for every kind but `Jmp`.
    pub variant: JmpVariant,
    pub operands: Seq<SpecTarget>,
}

impl SpecInstruction {
    /// The operand count fits the kind, and only a `jmp` is relative.
    pub open spec fn wf(self) -> bool {
        &&& self.operands.len() == self.kind.spec_arity()
        &&& self.kind != NamedInstruction::Jmp ==> self.variant == JmpVariant::Absolute
    }

    /// No operand names a symbol.
    pub open spec fn is_concrete(self) -> bool {
        forall|i: int| 0 <= i < self.operands.len() ==> (#[trigger] self.operands[i]).is_concrete()
    }
}

impl NamedInstruction {
    /// The number of operands that an instruction of this kind takes.
    pub open spec fn spec_arity(self) -> nat {
        match self {
            NamedInstruction::Nop | NamedInstruction::Hlt => 0,
            NamedInstruction::Not | NamedInstruction::Jmp => 1,
            _ => 2,
        }
    }

    /// The text by which source code names this kind.
    pub open spec fn spec_mnemonic(self) -> Seq<char> {
        match self {
            NamedInstruction::Nop => "nop"@,
            NamedInstruction::Hlt => "hlt"@,
            NamedInstruction::Mov => "mov"@,
            NamedInstruction::Not => "not"@,
            NamedInstruction::Or => "or"@,
            NamedInstruction::And => "and"@,
            NamedInstruction::Xor => "xor"@,
            NamedInstruction::Shl => "shl"@,
            NamedInstruction::Shr => "shr"@,
            NamedInstruction::Add => "add"@,
            NamedInstruction::Sub => "sub"@,
            NamedInstruction::Mul => "mul"@,
            NamedInstruction::IMul => "imul"@,
            NamedInstruction::Div => "div"@,
            NamedInstruction::IDiv => "idiv"@,
            NamedInstruction::Rem => "rem"@,
            NamedInstruction::Cmp => "cmp"@,
            NamedInstruction::Jmp => "jmp"@,
            NamedInstruction::Jz => "jz"@,
            NamedInstruction::Jnz => "jnz"@,
        }
    }

    pub fn arity(&self) -> (n: usize)
        ensures
            n == self.spec_arity(),
    {
        match self {
            NamedInstruction::Nop | NamedInstruction::Hlt => 0,
            NamedInstruction::Not | NamedInstruction::Jmp => 1,
            _ => 2,
        }
    }

    pub fn mnemonic(&self) -> (text: &'static str)
        ensures
            text@ == self.spec_mnemonic(),
    {
        match self {
            NamedInstruction::Nop => "nop",
            NamedInstruction::Hlt => "hlt",
            NamedInstruction::Mov => "mov",
            NamedInstruction::Not => "not",
            NamedInstruction::Or => "or",
            NamedInstruction::And => "and",
            NamedInstruction::Xor => "xor",
            NamedInstruction::Shl => "shl",
            NamedInstruction::Shr => "shr",
            NamedInstruction::Add => "add",
            NamedInstruction::Sub => "sub",
            NamedInstruction::Mul => "mul",
            NamedInstruction::IMul => "imul",
            NamedInstruction::Div => "div",
            NamedInstruction::IDiv => "idiv",
            NamedInstruction::Rem => "rem",
            NamedInstruction::Cmp => "cmp",
            NamedInstruction::Jmp => "jmp",
            NamedInstruction::Jz => "jz",
            NamedInstruction::Jnz => "jnz",
        }
    }
}

/// The operands that two optional targets stand for, in order; `None` where
/// a second operand is given without a first.
pub open spec fn spec_operands(first: Option<Target>, second: Option<Target>) -> Option<
    Seq<SpecTarget>,
> {
    match (first, second) {
        (None, None) => Some(seq![]),
        (Some(a), None) => Some(seq![a@]),
        (Some(a), Some(b)) => Some(seq![a@, b@]),
        (None, Some(_)) => None,
    }
}

impl View for Instruction {
    type V = SpecInstruction;

    open spec fn view(&self) -> SpecInstruction {
        SpecInstruction {
            kind: self.spec_kind(),
            variant: match self {
                Instruction::Jmp(v, _) => *v,
                _ => JmpVariant::Absolute,
            },
            operands: self.spec_targets(),
        }
    }
}

impl DeepView for Instruction {
    type V = SpecInstruction;

    open spec fn deep_view(&self) -> SpecInstruction {
        self@
    }
}

impl Instruction {
    pub open spec fn spec_kind(&self) -> NamedInstruction {
        match self {
            Instruction::Nop => NamedInstruction::Nop,
            Instruction::Hlt => NamedInstruction::Hlt,
            Instruction::Mov(..) => NamedInstruction::Mov,
            Instruction::Not(..) => NamedInstruction::Not,
            Instruction::Or(..) => NamedInstruction::Or,
            Instruction::And(..) => NamedInstruction::And,
            Instruction::Xor(..) => NamedInstruction::Xor,
            Instruction::Shl(..) => NamedInstruction::Shl,
            Instruction::Shr(..) => NamedInstruction::Shr,
            Instruction::Add(..) => NamedInstruction::Add,
            Instruction::Sub(..) => NamedInstruction::Sub,
            Instruction::Mul(..) => NamedInstruction::Mul,
            Instruction::IMul(..) => NamedInstruction::IMul,
            Instruction::Div(..) => NamedInstruction::Div,
            Instruction::IDiv(..) => NamedInstruction::IDiv,
            Instruction::Rem(..) => NamedInstruction::Rem,
            Instruction::Cmp(..) => NamedInstruction::Cmp,
            Instruction::Jmp(..) => NamedInstruction::Jmp,
            Instruction::Jz(..) => NamedInstruction::Jz,
            Instruction::Jnz(..) => NamedInstruction::Jnz,
        }
    }

    pub open spec fn spec_targets(&self) -> Seq<SpecTarget> {
        match self {
            Instruction::Nop | Instruction::Hlt => seq![],
            Instruction::Not(a) | Instruction::Jmp(_, a) => seq![a@],
            Instruction::Mov(a, b)
            | Instruction::Or(a, b)
            | Instruction::And(a, b)
            | Instruction::Xor(a, b)
            | Instruction::Shl(a, b)
            | Instruction::Shr(a, b)
            | Instruction::Add(a, b)
            | Instruction::Sub(a, b)
            | Instruction::Mul(a, b)
            | Instruction::IMul(a, b)
            | Instruction::Div(a, b)
            | Instruction::IDiv(a, b)
            | Instruction::Rem(a, b)
            | Instruction::Cmp(a, b)
            | Instruction::Jz(a, b)
            | Instruction::Jnz(a, b) => seq![a@, b@],
        }
    }

    /// Every instruction has as many operands as its kind takes.
    pub proof fn lemma_view_wf(&self)
        ensures
            self@.wf(),
    {
    }

    /// The instruction of the given kind on the given operands, where their
    /// number is the one the kind takes. The variant matters to a `jmp` only.
    pub fn new(
        kind: NamedInstruction,
        variant: JmpVariant,
        first: Option<Target>,
        second: Option<Target>,
    ) -> (r: Option<Instruction>)
        ensures
            r is Some <==> (spec_operands(first, second) matches Some(ops) && ops.len()
                == kind.spec_arity()),
            r matches Some(i) ==> i@ == (SpecInstruction {
                kind,
                variant: if kind == NamedInstruction::Jmp {
                    variant
                } else {
                    JmpVariant::Absolute
                },
                operands: spec_operands(first, second).unwrap(),
            }),
    {
        match (first, second) {
            (None, None) => match kind {
                NamedInstruction::Nop => Some(Instruction::Nop),
                NamedInstruction::Hlt => Some(Instruction::Hlt),
                _ => None,
            },
            (Some(a), None) => match kind {
                NamedInstruction::Not => Some(Instruction::Not(a)),
                NamedInstruction::Jmp => Some(Instruction::Jmp(variant, a)),
                _ => None,
            },
            (Some(a), Some(b)) => match kind {
                NamedInstruction::Mov => Some(Instruction::Mov(a, b)),
                NamedInstruction::Or => Some(Instruction::Or(a, b)),
                NamedInstruction::And => Some(Instruction::And(a, b)),
                NamedInstruction::Xor => Some(Instruction::Xor(a, b)),
                NamedInstruction::Shl => Some(Instruction::Shl(a, b)),
                NamedInstruction::Shr => Some(Instruction::Shr(a, b)),
                NamedInstruction::Add => Some(Instruction::Add(a, b)),
                NamedInstruction::Sub => Some(Instruction::Sub(a, b)),
                NamedInstruction::Mul => Some(Instruction::Mul(a, b)),
                NamedInstruction::IMul => Some(Instruction::IMul(a, b)),
                NamedInstruction::Div => Some(Instruction::Div(a, b)),
                NamedInstruction::IDiv => Some(Instruction::IDiv(a, b)),
                NamedInstruction::Rem => Some(Instruction::Rem(a, b)),
                NamedInstruction::Cmp => Some(Instruction::Cmp(a, b)),
                NamedInstruction::Jz => Some(Instruction::Jz(a, b)),
                NamedInstruction::Jnz => Some(Instruction::Jnz(a, b)),
                _ => None,
            },
            (None, Some(_)) => None,
        }
    }

    pub fn kind(&self) -> (k: NamedInstruction)
        ensures
            k == self@.kind,
    {
        match self {
            Instruction::Nop => NamedInstruction::Nop,
            Instruction::Hlt => NamedInstruction::Hlt,
            Instruction::Mov(..) => NamedInstruction::Mov,
            Instruction::Not(..) => NamedInstruction::Not,
            Instruction::Or(..) => NamedInstruction::Or,
            Instruction::And(..) => NamedInstruction::And,
            Instruction::Xor(..) => NamedInstruction::Xor,
            Instruction::Shl(..) => NamedInstruction::Shl,
            Instruction::Shr(..) => NamedInstruction::Shr,
            Instruction::Add(..) => NamedInstruction::Add,
            Instruction::Sub(..) => NamedInstruction::Sub,
            Instruction::Mul(..) => NamedInstruction::Mul,
            Instruction::IMul(..) => NamedInstruction::IMul,
            Instruction::Div(..) => NamedInstruction::Div,
            Instruction::IDiv(..) => NamedInstruction::IDiv,
            Instruction::Rem(..) => NamedInstruction::Rem,
            Instruction::Cmp(..) => NamedInstruction::Cmp,
            Instruction::Jmp(..) => NamedInstruction::Jmp,
            Instruction::Jz(..) => NamedInstruction::Jz,
            Instruction::Jnz(..) => NamedInstruction::Jnz,
        }
    }

    pub fn variant(&self) -> (v: JmpVariant)
        ensures
            v == self@.variant,
    {
        match self {
            Instruction::Jmp(v, _) => *v,
            _ => JmpVariant::Absolute,
        }
    }

    /// The first operand, if the instruction has any.
    pub fn first(&self) -> (t: Option<&Target>)
        ensures
            match t {
                Some(t) => self@.operands.len() >= 1 && t@ == self@.operands[0],
                None => self@.operands.len() == 0,
            },
    {
        match self {
            Instruction::Nop | Instruction::Hlt => None,
            Instruction::Not(a) | Instruction::Jmp(_, a) => Some(a),
            Instruction::Mov(a, _)
            | Instruction::Or(a, _)
            | Instruction::And(a, _)
            | Instruction::Xor(a, _)
            | Instruction::Shl(a, _)
            | Instruction::Shr(a, _)
            | Instruction::Add(a, _)
            | Instruction::Sub(a, _)
            | Instruction::Mul(a, _)
            | Instruction::IMul(a, _)
            | Instruction::Div(a, _)
            | Instruction::IDiv(a, _)
            | Instruction::Rem(a, _)
            | Instruction::Cmp(a, _)
            | Instruction::Jz(a, _)
            | Instruction::Jnz(a, _) => Some(a),
        }
    }

    /// The second operand, if the instruction has two.
    pub fn second(&self) -> (t: Option<&Target>)
        ensures
            match t {
                Some(t) => self@.operands.len() == 2 && t@ == self@.operands[1],
                None => self@.operands.len() <= 1,
            },
    {
        match self {
            Instruction::Nop | Instruction::Hlt => None,
            Instruction::Not(_) | Instruction::Jmp(..) => None,
            Instruction::Mov(_, b)
            | Instruction::Or(_, b)
            | Instruction::And(_, b)
            | Instruction::Xor(_, b)
            | Instruction::Shl(_, b)
            | Instruction::Shr(_, b)
            | Instruction::Add(_, b)
            | Instruction::Sub(_, b)
            | Instruction::Mul(_, b)
            | Instruction::IMul(_, b)
            | Instruction::Div(_, b)
            | Instruction::IDiv(_, b)
            | Instruction::Rem(_, b)
            | Instruction::Cmp(_, b)
            | Instruction::Jz(_, b)
            | Instruction::Jnz(_, b) => Some(b),
        }
    }
}

/// One element of a program, in source order.
#[derive(Debug, PartialEq, Eq, Clone)]
pub enum InstructionOrConstant {
    Instruction(Instruction),
    PreprocessorCommand(PreprocessorCommand),
    /// Defines a top-level label at this place.
    Label(String),
    /// Defines a label scoped to the enclosing top-level label.
    SubLabel(String),
    /// The end of the input.
    EOF,
}

/// The view of an [`InstructionOrConstant`].
pub enum SpecElement {
    Instruction(SpecInstruction),
    PreprocessorCommand(SpecCommand),
    Label(Seq<char>),
    SubLabel(Seq<char>),
    EOF,
}

impl View for InstructionOrConstant {
    type V = SpecElement;

    open spec fn view(&self) -> SpecElement {
        match self {
            InstructionOrConstant::Instruction(i) => SpecElement::Instruction(i@),
            InstructionOrConstant::PreprocessorCommand(c) => SpecElement::PreprocessorCommand(c@),
            InstructionOrConstant::Label(n) => SpecElement::Label(n@),
            InstructionOrConstant::SubLabel(n) => SpecElement::SubLabel(n@),
            InstructionOrConstant::EOF => SpecElement::EOF,
        }
    }
}

impl DeepView for InstructionOrConstant {
    type V = SpecElement;

    open spec fn deep_view(&self) -> SpecElement {
        self@
    }
}

/// Whether `text` is the UTF-8 spelling of the mnemonic of `kind`.
pub open spec fn spells(text: Seq<u8>, kind: NamedInstruction) -> bool {
    text == encode_utf8(kind.spec_mnemonic())
}

/// The kind that a word names, if it is a mnemonic.
pub open spec fn instruction_named(word: Seq<char>) -> Option<NamedInstruction> {
    if exists|kind: NamedInstruction| kind.spec_mnemonic() == word {
        Some(choose|kind: NamedInstruction| kind.spec_mnemonic() == word)
    } else {
        None
    }
}

/// No two kinds share a mnemonic.
pub proof fn lemma_mnemonics_differ(a: NamedInstruction, b: NamedInstruction)
    requires
        a != b,
    ensures
        a.spec_mnemonic() != b.spec_mnemonic(),
{
    reveal_strlit("nop");
    reveal_strlit("hlt");
    reveal_strlit("mov");
    reveal_strlit("not");
    reveal_strlit("or");
    reveal_strlit("and");
    reveal_strlit("xor");
    reveal_strlit("shl");
    reveal_strlit("shr");
    reveal_strlit("add");
    reveal_strlit("sub");
    reveal_strlit("mul");
    reveal_strlit("imul");
    reveal_strlit("div");
    reveal_strlit("idiv");
    reveal_strlit("rem");
    reveal_strlit("cmp");
    reveal_strlit("jmp");
    reveal_strlit("jz");
    reveal_strlit("jnz");
    let x = a.spec_mnemonic();
    let y = b.spec_mnemonic();
    if x.len() == y.len() {
        assert(x[0] != y[0] || x[1] != y[1] || (x.len() > 2 && x[2] != y[2]) || (x.len() > 3
            && x[3] != y[3]));
    }
}

/// A mnemonic names its own kind, and nothing else names it.
pub proof fn lemma_instruction_named(word: Seq<char>, kind: NamedInstruction)
    ensures
        instruction_named(word) == Some(kind) <==> word == kind.spec_mnemonic(),
{
    if word == kind.spec_mnemonic() {
        let chosen = choose|k: NamedInstruction| k.spec_mnemonic() == word;
        if chosen != kind {
            lemma_mnemonics_differ(chosen, kind);
        }
    }
}

/// The kind that a word names, if it is a mnemonic.
pub fn instruction_from_word(word: &str) -> (r: Option<NamedInstruction>)
    ensures
        r == instruction_named(word@),
{
    let r = instruction_from_text(word.as_bytes());
    proof {
        match r {
            Some(kind) => {
                encode_utf8_decode_utf8(word@);
                encode_utf8_decode_utf8(kind.spec_mnemonic());
                lemma_instruction_named(word@, kind);
            },
            None => {
                assert forall|kind: NamedInstruction| kind.spec_mnemonic() != word@ by {
                    assert(!spells(word.spec_bytes(), kind));
                }
            },
        }
    }
    r
}

/// Every kind, once.
fn all_kinds() -> (kinds: [NamedInstruction; 20])
    ensures
        forall|kind: NamedInstruction| kinds@.contains(kind),
{
    let kinds = [
        NamedInstruction::Nop,
        NamedInstruction::Hlt,
        NamedInstruction::Mov,
        NamedInstruction::Not,
        NamedInstruction::Or,
        NamedInstruction::And,
        NamedInstruction::Xor,
        NamedInstruction::Shl,
        NamedInstruction::Shr,
        NamedInstruction::Add,
        NamedInstruction::Sub,
        NamedInstruction::Mul,
        NamedInstruction::IMul,
        NamedInstruction::Div,
        NamedInstruction::IDiv,
        NamedInstruction::Rem,
        NamedInstruction::Cmp,
        NamedInstruction::Jmp,
        NamedInstruction::Jz,
        NamedInstruction::Jnz,
    ];
    assert forall|kind: NamedInstruction| kinds@.contains(kind) by {
        let i: int = match kind {
            NamedInstruction::Nop => 0,
            NamedInstruction::Hlt => 1,
            NamedInstruction::Mov => 2,
            NamedInstruction::Not => 3,
            NamedInstruction::Or => 4,
            NamedInstruction::And => 5,
            NamedInstruction::Xor => 6,
            NamedInstruction::Shl => 7,
            NamedInstruction::Shr => 8,
            NamedInstruction::Add => 9,
            NamedInstruction::Sub => 10,
            NamedInstruction::Mul => 11,
            NamedInstruction::IMul => 12,
            NamedInstruction::Div => 13,
            NamedInstruction::IDiv => 14,
            NamedInstruction::Rem => 15,
            NamedInstruction::Cmp => 16,
            NamedInstruction::Jmp => 17,
            NamedInstruction::Jz => 18,
            NamedInstruction::Jnz => 19,
        };
        assert(kinds@[i] == kind);
    }
    kinds
}

/// Looks a mnemonic up in the instruction table. The match is exact and
/// case-sensitive.
#[must_use]
pub fn instruction_from_text(text: &[u8]) -> (r: Option<NamedInstruction>)
    ensures
        match r {
            Some(kind) => spells(text@, kind),
            None => forall|kind: NamedInstruction| !spells(text@, kind),
        },
{
    let kinds = all_kinds();
    let mut i: usize = 0;
    while i < 20
        invariant
            i <= 20,
            kinds@.len() == 20,
            forall|kind: NamedInstruction| kinds@.contains(kind),
            forall|j: int| 0 <= j < i ==> !spells(text@, #[trigger] kinds@[j]),
        decreases 20 - i,
    {
        let kind = kinds[i];
        if same_bytes(text, kind.mnemonic().as_bytes()) {
            return Some(kind);
        }
        i += 1;
    }
    assert forall|kind: NamedInstruction| !spells(text@, kind) by {
        assert(kinds@.contains(kind));
        let j = choose|j: int| 0 <= j < kinds@.len() && kinds@[j] == kind;
        assert(!spells(text@, kinds@[j]));
    }
    None
}

} // verus!
