//! The parser: from the token stream to the elements of the program.
//!
//! A program is a run of statements, with nothing between them:
//!
//! ```text
//! statement := word ':'                          a label
//!            | '.' word ':'                      a sub-label
//!            | "offset" number
//!            | "db" number (',' number)*         each number a byte
//!            | "dw" number
//!            | "define" word ',' number
//!            | "definesub" '.' word ',' number
//!            | mnemonic                          no operand
//!            | mnemonic operand                  one; `jmp` may put '+' first
//!            | mnemonic operand ',' operand      two
//! operand   := direct | '[' direct ']'
//! direct    := register | number | word | '.' word
//! ```
//!
//! A word that opens a statement is a label where a colon follows it, else a
//! directive where it names one, else a mnemonic.

use vstd::prelude::*;
use crate::error::{AssemblyError, SpecError};
use crate::instructions::{
    instruction_from_word, instruction_named, Instruction, InstructionOrConstant,
    JmpVariant, NamedInstruction, PreprocessorCommand, SpecCommand, SpecElement, SpecInstruction,
    SpecTarget, Target,
};
use crate::text::same_text;
use crate::token::{SpecToken, SpecTokenKind, Token, TokenKind};

verus! {

/// The directives by name.
#[derive(Debug, PartialEq, Eq, Clone, Copy, Structural)]
pub enum Directive {
    Offset,
    DeclareBytes,
    DeclareWord,
    Define,
    DefineSub,
}

/// The directive that a word names, if it names one.
pub open spec fn directive_named(word: Seq<char>) -> Option<Directive> {
    if word == "offset"@ {
        Some(Directive::Offset)
    } else if word == "db"@ {
        Some(Directive::DeclareBytes)
    } else if word == "dw"@ {
        Some(Directive::DeclareWord)
    } else if word == "define"@ {
        Some(Directive::Define)
    } else if word == "definesub"@ {
        Some(Directive::DefineSub)
    } else {
        None
    }
}

/// Looks a word up among the directive names. The match is exact and
/// case-sensitive.
pub fn directive_from_word(word: &str) -> (r: Option<Directive>)
    ensures
        r == directive_named(word@),
{
    if same_text(word, "offset") {
        Some(Directive::Offset)
    } else if same_text(word, "db") {
        Some(Directive::DeclareBytes)
    } else if same_text(word, "dw") {
        Some(Directive::DeclareWord)
    } else if same_text(word, "define") {
        Some(Directive::Define)
    } else if same_text(word, "definesub") {
        Some(Directive::DefineSub)
    } else {
        None
    }
}

/// The kind of the token at `index`, if there is one.
pub open spec fn spec_kind_at(tokens: Seq<SpecToken>, index: int) -> Option<SpecTokenKind> {
    if 0 <= index < tokens.len() {
        Some(tokens[index].kind)
    } else {
        None
    }
}

/// A direct operand that starts at `start`, and the index after it.
pub open spec fn spec_parse_direct(tokens: Seq<SpecToken>, start: int) -> Option<
    (SpecTarget, int),
> {
    match spec_kind_at(tokens, start) {
        Some(SpecTokenKind::Register(r)) => Some((SpecTarget::Register(r), start + 1)),
        Some(SpecTokenKind::Number(n)) => Some((SpecTarget::Immediate(n), start + 1)),
        Some(SpecTokenKind::Word(w)) => Some((SpecTarget::Constant(w), start + 1)),
        Some(SpecTokenKind::Dot) => match spec_kind_at(tokens, start + 1) {
            Some(SpecTokenKind::Word(w)) => Some((SpecTarget::SubConstant(w), start + 2)),
            _ => None,
        },
        _ => None,
    }
}

/// An operand that starts at `start`, and the index after it.
pub open spec fn spec_parse_target(tokens: Seq<SpecToken>, start: int) -> Option<
    (SpecTarget, int),
> {
    match spec_kind_at(tokens, start) {
        Some(SpecTokenKind::OpenBracket) => match spec_parse_direct(tokens, start + 1) {
            Some((inner, close)) => match spec_kind_at(tokens, close) {
                Some(SpecTokenKind::CloseBracket) => Some((inner.indirect(), close + 1)),
                _ => None,
            },
            None => None,
        },
        _ => spec_parse_direct(tokens, start),
    }
}

/// The operands of an instruction of the given kind, which start at
/// `start`, and the index after them.
pub open spec fn spec_parse_operands(tokens: Seq<SpecToken>, start: int, kind: NamedInstruction)
    -> Option<(SpecInstruction, int)> {
    if kind.spec_arity() == 0 {
        Some((SpecInstruction { kind, variant: JmpVariant::Absolute, operands: seq![] }, start))
    } else if kind.spec_arity() == 1 {
        let relative = kind == NamedInstruction::Jmp && spec_kind_at(tokens, start) == Some(
            SpecTokenKind::Plus,
        );
        let variant = if relative {
            JmpVariant::Relative
        } else {
            JmpVariant::Absolute
        };
        match spec_parse_target(
            tokens,
            if relative {
                start + 1
            } else {
                start
            },
        ) {
            Some((target, next)) => Some(
                (SpecInstruction { kind, variant, operands: seq![target] }, next),
            ),
            None => None,
        }
    } else {
        match spec_parse_target(tokens, start) {
            Some((first, comma)) => match spec_kind_at(tokens, comma) {
                Some(SpecTokenKind::Comma) => match spec_parse_target(tokens, comma + 1) {
                    Some((second, next)) => Some(
                        (
                            SpecInstruction {
                                kind,
                                variant: JmpVariant::Absolute,
                                operands: seq![first, second],
                            },
                            next,
                        ),
                    ),
                    None => None,
                },
                _ => None,
            },
            None => None,
        }
    }
}

/// The bytes of a `db` directive, which start at `start`, and the index
/// after them: numbers that fit a byte, with commas between.
pub open spec fn spec_parse_bytes(tokens: Seq<SpecToken>, start: int) -> Option<(Seq<u8>, int)>
    decreases tokens.len() - start,
{
    match spec_kind_at(tokens, start) {
        Some(SpecTokenKind::Number(n)) => if n > 255 {
            None
        } else if spec_kind_at(tokens, start + 1) == Some(SpecTokenKind::Comma) {
            match spec_parse_bytes(tokens, start + 2) {
                Some((rest, next)) => Some((seq![n as u8] + rest, next)),
                None => None,
            }
        } else {
            Some((seq![n as u8], start + 1))
        },
        _ => None,
    }
}

/// The arguments of a directive, which start at `start`, and the index
/// after them.
pub open spec fn spec_parse_directive(tokens: Seq<SpecToken>, start: int, directive: Directive)
    -> Option<(SpecCommand, int)> {
    match directive {
        Directive::Offset => match spec_kind_at(tokens, start) {
            Some(SpecTokenKind::Number(n)) => Some((SpecCommand::Offset(n), start + 1)),
            _ => None,
        },
        Directive::DeclareWord => match spec_kind_at(tokens, start) {
            Some(SpecTokenKind::Number(n)) => Some((SpecCommand::DeclareWord(n), start + 1)),
            _ => None,
        },
        Directive::DeclareBytes => match spec_parse_bytes(tokens, start) {
            Some((bytes, next)) => Some((SpecCommand::DeclareBytes(bytes), next)),
            None => None,
        },
        Directive::Define => match (
            spec_kind_at(tokens, start),
            spec_kind_at(tokens, start + 1),
            spec_kind_at(tokens, start + 2),
        ) {
            (
                Some(SpecTokenKind::Word(name)),
                Some(SpecTokenKind::Comma),
                Some(SpecTokenKind::Number(value)),
            ) => Some((SpecCommand::Define(name, value), start + 3)),
            _ => None,
        },
        Directive::DefineSub => match (
            spec_kind_at(tokens, start),
            spec_kind_at(tokens, start + 1),
            spec_kind_at(tokens, start + 2),
            spec_kind_at(tokens, start + 3),
        ) {
            (
                Some(SpecTokenKind::Dot),
                Some(SpecTokenKind::Word(name)),
                Some(SpecTokenKind::Comma),
                Some(SpecTokenKind::Number(value)),
            ) => Some((SpecCommand::DefineSub(name, value), start + 4)),
            _ => None,
        },
    }
}

/// The statement that starts at `start`, and the index after it; at the
/// end of the input, the end marker. A statement that cannot be read is
/// reported at the place of its first token.
pub open spec fn spec_parse_statement(tokens: Seq<SpecToken>, start: int) -> Result<
    (SpecElement, int),
    SpecError,
> {
    if start < 0 || start >= tokens.len() {
        Ok((SpecElement::EOF, start))
    } else {
        spec_parse_words(tokens, start)
    }
}

/// The statement that starts with the token at `start`, and the index
/// after it.
pub open spec fn spec_parse_words(tokens: Seq<SpecToken>, start: int) -> Result<
    (SpecElement, int),
    SpecError,
>
    recommends
        0 <= start < tokens.len(),
{
    let position = tokens[start].position;
    let malformed = Err(SpecError::MalformedOperand { position });
    match tokens[start].kind {
        SpecTokenKind::Dot => match (
            spec_kind_at(tokens, start + 1),
            spec_kind_at(tokens, start + 2),
        ) {
            (Some(SpecTokenKind::Word(name)), Some(SpecTokenKind::Colon)) => Ok(
                (SpecElement::SubLabel(name), start + 3),
            ),
            _ => malformed,
        },
        SpecTokenKind::Word(word) => if spec_kind_at(tokens, start + 1) == Some(
            SpecTokenKind::Colon,
        ) {
            Ok((SpecElement::Label(word), start + 2))
        } else {
            match directive_named(word) {
                Some(directive) => match spec_parse_directive(tokens, start + 1, directive) {
                    Some((command, next)) => Ok((SpecElement::PreprocessorCommand(command), next)),
                    None => malformed,
                },
                None => match instruction_named(word) {
                    Some(kind) => match spec_parse_operands(tokens, start + 1, kind) {
                        Some((instruction, next)) => Ok(
                            (SpecElement::Instruction(instruction), next),
                        ),
                        None => malformed,
                    },
                    None => Err(SpecError::UnknownMnemonic { text: word, position }),
                },
            }
        },
        _ => malformed,
    }
}

/// An operand takes at least one token and none beyond the end.
pub proof fn lemma_target_advances(tokens: Seq<SpecToken>, start: int)
    requires
        0 <= start,
    ensures
        spec_parse_direct(tokens, start) matches Some((_, next)) ==> start < next <= tokens.len(),
        spec_parse_target(tokens, start) matches Some((_, next)) ==> start < next <= tokens.len(),
{
}

/// A byte list takes at least one token and none beyond the end.
pub proof fn lemma_bytes_advance(tokens: Seq<SpecToken>, start: int)
    requires
        0 <= start,
    ensures
        spec_parse_bytes(tokens, start) matches Some((_, next)) ==> start < next <= tokens.len(),
    decreases tokens.len() - start,
{
    if spec_kind_at(tokens, start) is Some && spec_kind_at(tokens, start + 1) == Some(
        SpecTokenKind::Comma,
    ) {
        lemma_bytes_advance(tokens, start + 2);
    }
}

/// A statement takes at least one token and none beyond the end.
pub proof fn lemma_statement_advances(tokens: Seq<SpecToken>, start: int)
    requires
        0 <= start < tokens.len(),
    ensures
        spec_parse_statement(tokens, start) matches Ok((_, next)) ==> start < next
            <= tokens.len(),
{
    lemma_target_advances(tokens, start + 1);
    lemma_target_advances(tokens, start + 2);
    lemma_bytes_advance(tokens, start + 1);
    match spec_parse_target(tokens, start + 1) {
        Some((_, comma)) => {
            lemma_target_advances(tokens, comma + 1);
        },
        None => {},
    }
}

/// The elements of the statements from `start` on, and the end marker after
/// them; or the failure of the first statement that cannot be read.
pub open spec fn spec_parse_from(tokens: Seq<SpecToken>, start: int) -> Result<
    Seq<SpecElement>,
    SpecError,
>
    decreases tokens.len() - start,
{
    if start < 0 || start >= tokens.len() {
        Ok(seq![SpecElement::EOF])
    } else {
        match spec_parse_statement(tokens, start) {
            Err(e) => Err(e),
            Ok((element, next)) => {
                proof {
                    lemma_statement_advances(tokens, start);
                }
                match spec_parse_from(tokens, next) {
                    Err(e) => Err(e),
                    Ok(rest) => Ok(seq![element] + rest),
                }
            },
        }
    }
}

/// The elements of a token stream.
pub open spec fn spec_parse(tokens: Seq<SpecToken>) -> Result<Seq<SpecElement>, SpecError> {
    spec_parse_from(tokens, 0)
}

fn kind_at(tokens: &Vec<Token>, index: usize) -> (r: Option<&TokenKind>)
    ensures
        r is Some <==> index < tokens.len(),
        match r {
            Some(kind) => spec_kind_at(tokens.deep_view(), index as int) == Some(kind@),
            None => spec_kind_at(tokens.deep_view(), index as int) is None,
        },
{
    if index < tokens.len() {
        Some(&tokens[index].kind)
    } else {
        None
    }
}

fn parse_direct(tokens: &Vec<Token>, start: usize) -> (r: Option<(Target, usize)>)
    ensures
        match r {
            Some((target, next)) => spec_parse_direct(tokens.deep_view(), start as int) == Some(
                (target@, next as int),
            ) && start < next <= tokens.len(),
            None => spec_parse_direct(tokens.deep_view(), start as int) is None,
        },
{
    match kind_at(tokens, start) {
        Some(TokenKind::Register(r)) => Some((Target::Register(*r), start + 1)),
        Some(TokenKind::Number(n)) => Some((Target::Immediate(*n), start + 1)),
        Some(TokenKind::Word(w)) => Some((Target::Constant(w.clone()), start + 1)),
        Some(TokenKind::Dot) => match kind_at(tokens, start + 1) {
            Some(TokenKind::Word(w)) => Some((Target::SubConstant(w.clone()), start + 2)),
            _ => None,
        },
        _ => None,
    }
}

fn parse_target(tokens: &Vec<Token>, start: usize) -> (r: Option<(Target, usize)>)
    ensures
        match r {
            Some((target, next)) => spec_parse_target(tokens.deep_view(), start as int) == Some(
                (target@, next as int),
            ) && start < next <= tokens.len(),
            None => spec_parse_target(tokens.deep_view(), start as int) is None,
        },
{
    match kind_at(tokens, start) {
        Some(TokenKind::OpenBracket) => match parse_direct(tokens, start + 1) {
            Some((inner, close)) => match kind_at(tokens, close) {
                Some(TokenKind::CloseBracket) => Some((inner.indirect(), close + 1)),
                _ => None,
            },
            None => None,
        },
        _ => parse_direct(tokens, start),
    }
}

fn parse_operands(tokens: &Vec<Token>, start: usize, kind: NamedInstruction) -> (r: Option<
    (Instruction, usize),
>)
    requires
        start <= tokens.len(),
    ensures
        match r {
            Some((instruction, next)) => spec_parse_operands(
                tokens.deep_view(),
                start as int,
                kind,
            ) == Some((instruction@, next as int)) && start <= next <= tokens.len(),
            None => spec_parse_operands(tokens.deep_view(), start as int, kind) is None,
        },
{
    let arity = kind.arity();
    if arity == 0 {
        let instruction = Instruction::new(kind, JmpVariant::Absolute, None, None);
        assert(instruction.unwrap()@.operands =~= seq![]);
        Some((instruction.unwrap(), start))
    } else if arity == 1 {
        let relative = match kind {
            NamedInstruction::Jmp => match kind_at(tokens, start) {
                Some(TokenKind::Plus) => true,
                _ => false,
            },
            _ => false,
        };
        let (variant, at) = if relative {
            (JmpVariant::Relative, start + 1)
        } else {
            (JmpVariant::Absolute, start)
        };
        match parse_target(tokens, at) {
            Some((target, next)) => {
                let ghost operand = target@;
                let instruction = Instruction::new(kind, variant, Some(target), None);
                assert(instruction.unwrap()@.operands =~= seq![operand]);
                Some((instruction.unwrap(), next))
            },
            None => None,
        }
    } else {
        match parse_target(tokens, start) {
            Some((first, comma)) => match kind_at(tokens, comma) {
                Some(TokenKind::Comma) => match parse_target(tokens, comma + 1) {
                    Some((second, next)) => {
                        let ghost operands = seq![first@, second@];
                        let instruction = Instruction::new(
                            kind,
                            JmpVariant::Absolute,
                            Some(first),
                            Some(second),
                        );
                        assert(instruction.unwrap()@.operands =~= operands);
                        Some((instruction.unwrap(), next))
                    },
                    None => None,
                },
                _ => None,
            },
            None => None,
        }
    }
}

/// A byte list in front of what follows it.
spec fn spec_after(prefix: Seq<u8>, rest: Option<(Seq<u8>, int)>) -> Option<(Seq<u8>, int)> {
    match rest {
        Some((bytes, next)) => Some((prefix + bytes, next)),
        None => None,
    }
}

fn parse_bytes(tokens: &Vec<Token>, start: usize) -> (r: Option<(Vec<u8>, usize)>)
    requires
        start <= tokens.len(),
    ensures
        match r {
            Some((bytes, next)) => spec_parse_bytes(tokens.deep_view(), start as int) == Some(
                (bytes@, next as int),
            ) && start < next <= tokens.len(),
            None => spec_parse_bytes(tokens.deep_view(), start as int) is None,
        },
{
    let ghost stream = tokens.deep_view();
    let mut bytes: Vec<u8> = Vec::new();
    let mut at: usize = start;
    assert(Seq::<u8>::empty() + spec_parse_bytes(stream, at as int)->Some_0.0
        == spec_parse_bytes(stream, at as int)->Some_0.0);
    loop
        invariant
            stream == tokens.deep_view(),
            start <= at <= tokens.len(),
            at == start ==> bytes@.len() == 0,
            at > start ==> bytes@.len() > 0,
            spec_parse_bytes(stream, start as int) == spec_after(
                bytes@,
                spec_parse_bytes(stream, at as int),
            ),
        decreases tokens.len() - at,
    {
        let number = match kind_at(tokens, at) {
            Some(TokenKind::Number(n)) => *n,
            _ => { return None; },
        };
        if number > 255 {
            return None;
        }
        let ghost before = bytes@;
        bytes.push(number as u8);
        match kind_at(tokens, at + 1) {
            Some(TokenKind::Comma) => {
                proof {
                    let rest = spec_parse_bytes(stream, at + 2);
                    if rest is Some {
                        assert(before + (seq![number as u8] + rest->Some_0.0) == bytes@
                            + rest->Some_0.0);
                    }
                }
                at = at + 2;
            },
            _ => {
                assert(before + seq![number as u8] == bytes@);
                return Some((bytes, at + 1));
            },
        }
    }
}

fn parse_directive(tokens: &Vec<Token>, start: usize, directive: Directive) -> (r: Option<
    (PreprocessorCommand, usize),
>)
    requires
        start <= tokens.len(),
    ensures
        match r {
            Some((command, next)) => spec_parse_directive(
                tokens.deep_view(),
                start as int,
                directive,
            ) == Some((command@, next as int)) && start < next <= tokens.len(),
            None => spec_parse_directive(tokens.deep_view(), start as int, directive) is None,
        },
{
    match directive {
        Directive::Offset => match kind_at(tokens, start) {
            Some(TokenKind::Number(n)) => Some((PreprocessorCommand::Offset(*n), start + 1)),
            _ => None,
        },
        Directive::DeclareWord => match kind_at(tokens, start) {
            Some(TokenKind::Number(n)) => Some((PreprocessorCommand::DeclareWord(*n), start + 1)),
            _ => None,
        },
        Directive::DeclareBytes => match parse_bytes(tokens, start) {
            Some((bytes, next)) => Some((PreprocessorCommand::DeclareBytes(bytes), next)),
            None => None,
        },
        Directive::Define => {
            let name = match kind_at(tokens, start) {
                Some(TokenKind::Word(name)) => name,
                _ => { return None; },
            };
            match kind_at(tokens, start + 1) {
                Some(TokenKind::Comma) => {},
                _ => { return None; },
            }
            match kind_at(tokens, start + 2) {
                Some(TokenKind::Number(value)) => Some(
                    (PreprocessorCommand::Define(name.clone(), *value), start + 3),
                ),
                _ => None,
            }
        },
        Directive::DefineSub => {
            match kind_at(tokens, start) {
                Some(TokenKind::Dot) => {},
                _ => { return None; },
            }
            let name = match kind_at(tokens, start + 1) {
                Some(TokenKind::Word(name)) => name,
                _ => { return None; },
            };
            match kind_at(tokens, start + 2) {
                Some(TokenKind::Comma) => {},
                _ => { return None; },
            }
            match kind_at(tokens, start + 3) {
                Some(TokenKind::Number(value)) => Some(
                    (PreprocessorCommand::DefineSub(name.clone(), *value), start + 4),
                ),
                _ => None,
            }
        },
    }
}

/// Reads the statement that starts at `start`, and says where the next one
/// starts. At the end of the input it reads the end marker.
pub fn parse_statement(tokens: &Vec<Token>, start: usize) -> (r: Result<
    (InstructionOrConstant, usize),
    AssemblyError,
>)
    ensures
        match r {
            Ok((element, next)) => spec_parse_statement(tokens.deep_view(), start as int) == Ok::<
                (SpecElement, int),
                SpecError,
            >((element@, next as int)) && (start < tokens.len() ==> start < next <= tokens.len()),
            Err(e) => spec_parse_statement(tokens.deep_view(), start as int) == Err::<
                (SpecElement, int),
                SpecError,
            >(e@),
        },
{
    if start >= tokens.len() {
        return Ok((InstructionOrConstant::EOF, start));
    }
    let position = tokens[start].position;
    assert(tokens.deep_view()[start as int] == tokens@[start as int]@);
    match &tokens[start].kind {
        TokenKind::Dot => {
            let name = match kind_at(tokens, start + 1) {
                Some(TokenKind::Word(name)) => name,
                _ => { return Err(AssemblyError::MalformedOperand { position }); },
            };
            match kind_at(tokens, start + 2) {
                Some(TokenKind::Colon) => Ok(
                    (InstructionOrConstant::SubLabel(name.clone()), start + 3),
                ),
                _ => Err(AssemblyError::MalformedOperand { position }),
            }
        },
        TokenKind::Word(word) => {
            match kind_at(tokens, start + 1) {
                Some(TokenKind::Colon) => {
                    return Ok((InstructionOrConstant::Label(word.clone()), start + 2));
                },
                _ => {},
            }
            match directive_from_word(word.as_str()) {
                Some(directive) => match parse_directive(tokens, start + 1, directive) {
                    Some((command, next)) => Ok(
                        (InstructionOrConstant::PreprocessorCommand(command), next),
                    ),
                    None => Err(AssemblyError::MalformedOperand { position }),
                },
                None => match instruction_from_word(word.as_str()) {
                    Some(kind) => match parse_operands(tokens, start + 1, kind) {
                        Some((instruction, next)) => Ok(
                            (InstructionOrConstant::Instruction(instruction), next),
                        ),
                        None => Err(AssemblyError::MalformedOperand { position }),
                    },
                    None => Err(AssemblyError::UnknownMnemonic { text: word.clone(), position }),
                },
            }
        },
        _ => Err(AssemblyError::MalformedOperand { position }),
    }
}

/// Elements in front of what follows them.
spec fn spec_then(prefix: Seq<SpecElement>, rest: Result<Seq<SpecElement>, SpecError>) -> Result<
    Seq<SpecElement>,
    SpecError,
> {
    match rest {
        Ok(elements) => Ok(prefix + elements),
        Err(e) => Err(e),
    }
}

/// Parses a token stream into the elements of the program, in source order
/// and with the end marker last. The first statement that cannot be read
/// fails the whole.
pub fn parse(tokens: &Vec<Token>) -> (r: Result<Vec<InstructionOrConstant>, AssemblyError>)
    ensures
        match r {
            Ok(elements) => spec_parse(tokens.deep_view()) == Ok::<Seq<SpecElement>, SpecError>(
                elements.deep_view(),
            ),
            Err(e) => spec_parse(tokens.deep_view()) == Err::<Seq<SpecElement>, SpecError>(e@),
        },
{
    let ghost stream = tokens.deep_view();
    let mut elements: Vec<InstructionOrConstant> = Vec::new();
    let mut at: usize = 0;
    assert(elements.deep_view() =~= Seq::<SpecElement>::empty());
    assert(spec_parse_from(stream, 0) is Ok ==> Seq::<SpecElement>::empty() + spec_parse_from(
        stream,
        0,
    )->Ok_0 == spec_parse_from(stream, 0)->Ok_0);
    while at < tokens.len()
        invariant
            stream == tokens.deep_view(),
            at <= tokens.len(),
            spec_parse(stream) == spec_then(
                elements.deep_view(),
                spec_parse_from(stream, at as int),
            ),
        decreases tokens.len() - at,
    {
        match parse_statement(tokens, at) {
            Err(e) => {
                return Err(e);
            },
            Ok((element, next)) => {
                let ghost before = elements.deep_view();
                let ghost added = element@;
                elements.push(element);
                proof {
                    assert(elements.deep_view() =~= before.push(added));
                    let rest = spec_parse_from(stream, next as int);
                    if rest is Ok {
                        assert(before + (seq![added] + rest->Ok_0) == before.push(added)
                            + rest->Ok_0);
                    }
                }
                at = next;
            },
        }
    }
    let ghost before = elements.deep_view();
    elements.push(InstructionOrConstant::EOF);
    assert(elements.deep_view() =~= before + seq![SpecElement::EOF]);
    Ok(elements)
}

} // verus!
