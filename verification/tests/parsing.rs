use vc2_assembler::error::{AssemblyError, Position};
use vc2_assembler::instructions::{
    Instruction, InstructionOrConstant, JmpVariant, PreprocessorCommand, Register, Target,
};
use vc2_assembler::parser::{directive_from_word, parse, parse_statement, Directive};
use vc2_assembler::token::TokenKind::{CloseBracket, Colon, Comma, Dot, Number, OpenBracket};
use vc2_assembler::token::{Token, TokenKind};

fn at(line: u32, column: u32) -> Position {
    Position { line, column }
}

/// Tokens on one line, one column apart.
fn line(kinds: Vec<TokenKind>) -> Vec<Token> {
    kinds
        .into_iter()
        .enumerate()
        .map(|(i, kind)| Token { kind, position: at(1, i as u32 + 1) })
        .collect()
}

fn word(text: &str) -> TokenKind {
    TokenKind::Word(text.to_string())
}

fn expect(tokens: Vec<TokenKind>, elements: Vec<InstructionOrConstant>) {
    let mut expected = elements;
    expected.push(InstructionOrConstant::EOF);
    assert_eq!(parse(&line(tokens)), Ok(expected));
}

#[test]
fn empty_input_is_the_end_marker_alone() {
    expect(vec![], vec![]);
}

#[test]
fn instructions_without_operands() {
    expect(
        vec![word("nop"), word("hlt")],
        vec![
            InstructionOrConstant::Instruction(Instruction::Nop),
            InstructionOrConstant::Instruction(Instruction::Hlt),
        ],
    );
}

#[test]
fn every_direct_and_indirect_operand() {
    expect(
        vec![
            word("mov"),
            TokenKind::Register(Register::GeneralPurpose0),
            Comma,
            Number(5),
            word("add"),
            OpenBracket,
            TokenKind::Register(Register::GeneralPurpose1),
            CloseBracket,
            Comma,
            OpenBracket,
            Number(64),
            CloseBracket,
            word("sub"),
            word("total"),
            Comma,
            OpenBracket,
            word("total"),
            CloseBracket,
            word("cmp"),
            Dot,
            word("count"),
            Comma,
            OpenBracket,
            Dot,
            word("count"),
            CloseBracket,
            word("not"),
            TokenKind::Register(Register::Flag),
        ],
        vec![
            InstructionOrConstant::Instruction(Instruction::Mov(
                Target::Register(Register::GeneralPurpose0),
                Target::Immediate(5),
            )),
            InstructionOrConstant::Instruction(Instruction::Add(
                Target::RegisterAddress(Register::GeneralPurpose1),
                Target::ImmediateAddress(64),
            )),
            InstructionOrConstant::Instruction(Instruction::Sub(
                Target::Constant("total".to_string()),
                Target::ConstantAddress("total".to_string()),
            )),
            InstructionOrConstant::Instruction(Instruction::Cmp(
                Target::SubConstant("count".to_string()),
                Target::SubConstantAddress("count".to_string()),
            )),
            InstructionOrConstant::Instruction(Instruction::Not(Target::Register(Register::Flag))),
        ],
    );
}

#[test]
fn jmp_is_absolute_unless_marked() {
    expect(
        vec![word("jmp"), word("start"), word("jmp"), TokenKind::Plus, word("start")],
        vec![
            InstructionOrConstant::Instruction(Instruction::Jmp(
                JmpVariant::Absolute,
                Target::Constant("start".to_string()),
            )),
            InstructionOrConstant::Instruction(Instruction::Jmp(
                JmpVariant::Relative,
                Target::Constant("start".to_string()),
            )),
        ],
    );
}

#[test]
fn only_jmp_takes_the_relative_mark() {
    let tokens = line(vec![word("not"), TokenKind::Plus, TokenKind::Number(1)]);
    assert_eq!(parse(&tokens), Err(AssemblyError::MalformedOperand { position: at(1, 1) }));
}

#[test]
fn labels_and_sub_labels() {
    expect(
        vec![
            word("start"),
            TokenKind::Colon,
            TokenKind::Dot,
            word("loop"),
            TokenKind::Colon,
            word("hlt"),
            word("mov"),
            TokenKind::Colon,
        ],
        vec![
            InstructionOrConstant::Label("start".to_string()),
            InstructionOrConstant::SubLabel("loop".to_string()),
            InstructionOrConstant::Instruction(Instruction::Hlt),
            InstructionOrConstant::Label("mov".to_string()),
        ],
    );
}

#[test]
fn every_directive() {
    expect(
        vec![
            word("offset"),
            Number(256),
            word("db"),
            Number(1),
            Comma,
            Number(255),
            Comma,
            Number(0),
            word("dw"),
            Number(0xDEADBEEF),
            word("define"),
            word("size"),
            Comma,
            Number(16),
            word("definesub"),
            Dot,
            word("step"),
            Comma,
            Number(2),
            word("db"),
            Number(7),
        ],
        vec![
            InstructionOrConstant::PreprocessorCommand(PreprocessorCommand::Offset(256)),
            InstructionOrConstant::PreprocessorCommand(PreprocessorCommand::DeclareBytes(vec![
                1, 255, 0,
            ])),
            InstructionOrConstant::PreprocessorCommand(PreprocessorCommand::DeclareWord(
                0xDEADBEEF,
            )),
            InstructionOrConstant::PreprocessorCommand(PreprocessorCommand::Define(
                "size".to_string(),
                16,
            )),
            InstructionOrConstant::PreprocessorCommand(PreprocessorCommand::DefineSub(
                "step".to_string(),
                2,
            )),
            InstructionOrConstant::PreprocessorCommand(PreprocessorCommand::DeclareBytes(vec![7])),
        ],
    );
}

#[test]
fn directive_names_are_exact() {
    assert_eq!(directive_from_word("offset"), Some(Directive::Offset));
    assert_eq!(directive_from_word("db"), Some(Directive::DeclareBytes));
    assert_eq!(directive_from_word("dw"), Some(Directive::DeclareWord));
    assert_eq!(directive_from_word("define"), Some(Directive::Define));
    assert_eq!(directive_from_word("definesub"), Some(Directive::DefineSub));
    assert_eq!(directive_from_word("Offset"), None);
    assert_eq!(directive_from_word("defines"), None);
    assert_eq!(directive_from_word(""), None);
}

#[test]
fn unknown_mnemonic_carries_text_and_position() {
    let tokens = vec![
        Token { kind: word("nop"), position: at(1, 1) },
        Token { kind: word("move"), position: at(2, 5) },
        Token { kind: TokenKind::Number(1), position: at(2, 10) },
    ];
    assert_eq!(
        parse(&tokens),
        Err(AssemblyError::UnknownMnemonic { text: "move".to_string(), position: at(2, 5) })
    );
}

#[test]
fn mnemonics_are_case_sensitive_in_source() {
    assert_eq!(
        parse(&line(vec![word("NOP")])),
        Err(AssemblyError::UnknownMnemonic { text: "NOP".to_string(), position: at(1, 1) })
    );
}

#[test]
fn malformed_operands_are_reported_at_the_statement() {
    let malformed = Err(AssemblyError::MalformedOperand { position: at(1, 1) });
    let cases: Vec<Vec<TokenKind>> = vec![
        // too few operands
        vec![word("mov"), Number(1)],
        vec![word("mov"), Number(1), Comma],
        vec![word("not")],
        vec![word("jmp"), TokenKind::Plus],
        // a missing comma
        vec![word("mov"), Number(1), Number(2)],
        // brackets that do not close, or hold nothing
        vec![word("not"), OpenBracket, Number(1)],
        vec![word("not"), OpenBracket, CloseBracket],
        vec![word("not"), OpenBracket, OpenBracket, Number(1), CloseBracket, CloseBracket],
        // a scope mark without a name
        vec![word("not"), Dot, Number(1)],
        // a statement that starts with no word
        vec![Number(1)],
        vec![Comma],
        vec![Colon],
        vec![TokenKind::Register(Register::Flag)],
        // a sub-label without its colon
        vec![Dot, word("x")],
        vec![Dot, Colon],
        // directives
        vec![word("offset")],
        vec![word("offset"), word("x")],
        vec![word("dw"), TokenKind::Register(Register::Flag)],
        vec![word("db")],
        vec![word("db"), Number(256)],
        vec![word("db"), Number(1), Comma],
        vec![word("db"), Number(1), Comma, Number(300)],
        vec![word("define"), word("x"), Number(1)],
        vec![word("define"), Number(1), Comma, Number(1)],
        vec![word("define"), word("x"), Comma],
        vec![word("definesub"), word("x"), Comma, Number(1)],
        vec![word("definesub"), Dot, word("x"), Comma, word("y")],
    ];
    for case in cases {
        let shown = format!("{:?}", case);
        assert_eq!(parse(&line(case)), malformed, "{}", shown);
    }
}

#[test]
fn a_stray_operand_is_reported_where_it_stands() {
    let tokens = line(vec![word("nop"), TokenKind::Number(3)]);
    assert_eq!(parse(&tokens), Err(AssemblyError::MalformedOperand { position: at(1, 2) }));
}

#[test]
fn the_first_failure_wins() {
    let tokens = line(vec![word("bogus"), word("mov")]);
    assert_eq!(
        parse(&tokens),
        Err(AssemblyError::UnknownMnemonic { text: "bogus".to_string(), position: at(1, 1) })
    );
}

#[test]
fn a_statement_says_where_the_next_one_starts() {
    let tokens = line(vec![
        word("mov"),
        TokenKind::OpenBracket,
        TokenKind::Dot,
        word("x"),
        TokenKind::CloseBracket,
        TokenKind::Comma,
        TokenKind::Number(1),
        word("hlt"),
    ]);
    let (element, next) = parse_statement(&tokens, 0).unwrap();
    assert_eq!(next, 7);
    assert_eq!(
        element,
        InstructionOrConstant::Instruction(Instruction::Mov(
            Target::SubConstantAddress("x".to_string()),
            Target::Immediate(1)
        ))
    );
    let (_, end) = parse_statement(&tokens, 7).unwrap();
    assert_eq!(end, 8);
    assert_eq!(parse_statement(&tokens, 8), Ok((InstructionOrConstant::EOF, 8)));
    assert_eq!(parse_statement(&tokens, 80), Ok((InstructionOrConstant::EOF, 80)));
    assert_eq!(
        parse_statement(&tokens, 5),
        Err(AssemblyError::MalformedOperand { position: at(1, 6) })
    );
}
