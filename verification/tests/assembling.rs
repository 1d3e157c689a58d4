use vc2_assembler::assembler::{assemble, assemble_tokens};
use vc2_assembler::emitter::{encode_program, Emission};
use vc2_assembler::encoder::{
    displacement, encode_instruction, resolve_instruction, resolve_target, word_bytes,
};
use vc2_assembler::error::{AssemblyError, Position};
use vc2_assembler::image::{ImageWriter, PAD_BYTE};
use vc2_assembler::instructions::{
    Instruction, InstructionOrConstant, JmpVariant, NamedInstruction, PreprocessorCommand,
    Register, Target,
};
use vc2_assembler::layout::{address_after, advance, WORD_BYTES};
use vc2_assembler::symbols::{build_symbol_table, Layout, SymbolTable};
use vc2_assembler::token::{Token, TokenKind};

fn name(text: &str) -> String {
    text.to_string()
}

fn label(text: &str) -> InstructionOrConstant {
    InstructionOrConstant::Label(name(text))
}

fn sub_label(text: &str) -> InstructionOrConstant {
    InstructionOrConstant::SubLabel(name(text))
}

fn instruction(i: Instruction) -> InstructionOrConstant {
    InstructionOrConstant::Instruction(i)
}

fn directive(c: PreprocessorCommand) -> InstructionOrConstant {
    InstructionOrConstant::PreprocessorCommand(c)
}

fn jmp(text: &str) -> InstructionOrConstant {
    instruction(Instruction::Jmp(JmpVariant::Absolute, Target::Constant(name(text))))
}

fn jmp_relative(text: &str) -> InstructionOrConstant {
    instruction(Instruction::Jmp(JmpVariant::Relative, Target::Constant(name(text))))
}

fn mov_r0(value: u32) -> InstructionOrConstant {
    instruction(Instruction::Mov(
        Target::Register(Register::GeneralPurpose0),
        Target::Immediate(value),
    ))
}

const HLT: [u8; 4] = [1, 0, 0, 0];

#[test]
fn widths_depend_on_the_kind_alone() {
    assert_eq!(WORD_BYTES, 4);
    assert_eq!(NamedInstruction::Nop.width(), 4);
    assert_eq!(NamedInstruction::Hlt.width(), 4);
    assert_eq!(NamedInstruction::Not.width(), 8);
    assert_eq!(NamedInstruction::Jmp.width(), 8);
    assert_eq!(NamedInstruction::Mov.width(), 12);
    assert_eq!(NamedInstruction::Jz.width(), 12);
    assert_eq!(NamedInstruction::Jnz.width(), 12);
    assert_eq!(NamedInstruction::Nop.arity(), 0);
    assert_eq!(NamedInstruction::Not.arity(), 1);
    assert_eq!(NamedInstruction::Cmp.arity(), 2);
}

#[test]
fn words_are_little_endian() {
    assert_eq!(word_bytes(0x12345678), [0x78, 0x56, 0x34, 0x12]);
    assert_eq!(word_bytes(0), [0, 0, 0, 0]);
    assert_eq!(word_bytes(u32::MAX), [255, 255, 255, 255]);
    assert_eq!(word_bytes(256), [0, 1, 0, 0]);
    assert_eq!(word_bytes(0x12345678), 0x12345678u32.to_le_bytes());
}

#[test]
fn the_encoding_of_each_addressing_mode() {
    let encoded = encode_instruction(&Instruction::Mov(
        Target::Register(Register::GeneralPurpose1),
        Target::Immediate(0x0A0B0C0D),
    ));
    assert_eq!(encoded, Ok(vec![2, 0 + 4 * 2, 0, 0, 1, 0, 0, 0, 0x0D, 0x0C, 0x0B, 0x0A]));
    let encoded = encode_instruction(&Instruction::Add(
        Target::RegisterAddress(Register::ProgramCounter),
        Target::ImmediateAddress(7),
    ));
    assert_eq!(encoded, Ok(vec![9, 1 + 4 * 3, 0, 0, 3, 0, 0, 0, 7, 0, 0, 0]));
    let encoded = encode_instruction(&Instruction::Not(Target::Register(Register::Flag)));
    assert_eq!(encoded, Ok(vec![3, 0, 0, 0, 2, 0, 0, 0]));
    assert_eq!(encode_instruction(&Instruction::Nop), Ok(vec![0, 0, 0, 0]));
    assert_eq!(encode_instruction(&Instruction::Hlt), Ok(HLT.to_vec()));
}

#[test]
fn the_code_of_each_kind_is_its_first_byte() {
    let r = || Target::Register(Register::GeneralPurpose0);
    let all = vec![
        Instruction::Nop,
        Instruction::Hlt,
        Instruction::Mov(r(), r()),
        Instruction::Not(r()),
        Instruction::Or(r(), r()),
        Instruction::And(r(), r()),
        Instruction::Xor(r(), r()),
        Instruction::Shl(r(), r()),
        Instruction::Shr(r(), r()),
        Instruction::Add(r(), r()),
        Instruction::Sub(r(), r()),
        Instruction::Mul(r(), r()),
        Instruction::IMul(r(), r()),
        Instruction::Div(r(), r()),
        Instruction::IDiv(r(), r()),
        Instruction::Rem(r(), r()),
        Instruction::Cmp(r(), r()),
        Instruction::Jmp(JmpVariant::Absolute, r()),
        Instruction::Jz(r(), r()),
        Instruction::Jnz(r(), r()),
    ];
    for (code, i) in all.iter().enumerate() {
        let bytes = encode_instruction(i).unwrap();
        assert_eq!(bytes[0] as usize, code);
        assert_eq!(i.kind().code() as usize, code);
        assert_eq!(bytes.len() as u32, i.kind().width());
        assert_eq!(&bytes[1..4], &[0, 0, 0]);
    }
}

#[test]
fn a_relative_jmp_sets_its_flag() {
    let absolute = encode_instruction(&Instruction::Jmp(JmpVariant::Absolute, Target::Immediate(8)));
    let relative = encode_instruction(&Instruction::Jmp(JmpVariant::Relative, Target::Immediate(8)));
    assert_eq!(absolute, Ok(vec![17, 2, 0, 0, 8, 0, 0, 0]));
    assert_eq!(relative, Ok(vec![17, 2 + 16, 0, 0, 8, 0, 0, 0]));
}

#[test]
fn a_symbolic_operand_cannot_be_encoded() {
    let encoded = encode_instruction(&Instruction::Mov(
        Target::Register(Register::GeneralPurpose0),
        Target::Constant(name("size")),
    ));
    assert_eq!(encoded, Err(AssemblyError::UnresolvedSymbol(name("size"))));
    let encoded = encode_instruction(&Instruction::Mov(
        Target::SubConstantAddress(name("first")),
        Target::ConstantAddress(name("second")),
    ));
    assert_eq!(encoded, Err(AssemblyError::UnresolvedSymbol(name("first"))));
}

#[test]
fn the_round_trip_scenario() {
    // mov r0, 5; label: hlt; jmp label
    let program = vec![
        mov_r0(5),
        label("label"),
        instruction(Instruction::Hlt),
        jmp("label"),
        InstructionOrConstant::EOF,
    ];
    let image = assemble(&program).unwrap();
    assert_eq!(
        image,
        vec![
            2, 8, 0, 0, 0, 0, 0, 0, 5, 0, 0, 0, // mov r0, 5
            1, 0, 0, 0, // hlt
            17, 2, 0, 0, 12, 0, 0, 0, // jmp 12
        ]
    );
    let resolved = u32::from_le_bytes([image[20], image[21], image[22], image[23]]) as usize;
    assert_eq!(&image[resolved..resolved + 4], &HLT);
}

#[test]
fn what_does_not_move_the_label_does_not_change_the_jump() {
    let before = vec![mov_r0(5), label("label"), instruction(Instruction::Hlt), jmp("label")];
    let after = vec![
        mov_r0(5),
        label("label"),
        instruction(Instruction::Hlt),
        instruction(Instruction::Nop),
        directive(PreprocessorCommand::DeclareBytes(vec![9, 9, 9])),
        jmp("label"),
        instruction(Instruction::Nop),
    ];
    let first = assemble(&before).unwrap();
    let second = assemble(&after).unwrap();
    assert_eq!(&first[16..24], &[17, 2, 0, 0, 12, 0, 0, 0]);
    assert_eq!(&second[23..31], &[17, 2, 0, 0, 12, 0, 0, 0]);
    assert_eq!(&second[12..16], &HLT);
}

#[test]
fn the_same_scenario_from_tokens() {
    let kinds = vec![
        TokenKind::Word(name("mov")),
        TokenKind::Register(Register::GeneralPurpose0),
        TokenKind::Comma,
        TokenKind::Number(5),
        TokenKind::Word(name("label")),
        TokenKind::Colon,
        TokenKind::Word(name("hlt")),
        TokenKind::Word(name("jmp")),
        TokenKind::Word(name("label")),
    ];
    let tokens: Vec<Token> = kinds
        .into_iter()
        .enumerate()
        .map(|(i, kind)| Token { kind, position: Position { line: 1, column: i as u32 } })
        .collect();
    assert_eq!(
        assemble_tokens(&tokens),
        Ok(vec![2, 8, 0, 0, 0, 0, 0, 0, 5, 0, 0, 0, 1, 0, 0, 0, 17, 2, 0, 0, 12, 0, 0, 0])
    );
    let broken = vec![Token { kind: TokenKind::Comma, position: Position { line: 3, column: 9 } }];
    assert_eq!(
        assemble_tokens(&broken),
        Err(AssemblyError::MalformedOperand { position: Position { line: 3, column: 9 } })
    );
}

#[test]
fn image_length_is_the_sum_of_the_sizes() {
    let program = vec![
        instruction(Instruction::Nop),
        mov_r0(1),
        directive(PreprocessorCommand::DeclareBytes(vec![1, 2, 3, 4, 5])),
        instruction(Instruction::Not(Target::Register(Register::Flag))),
        directive(PreprocessorCommand::DeclareWord(0x01020304)),
        label("end"),
        directive(PreprocessorCommand::Define(name("k"), 3)),
        instruction(Instruction::Hlt),
        InstructionOrConstant::EOF,
    ];
    let image = assemble(&program).unwrap();
    assert_eq!(image.len(), 4 + 12 + 5 + 8 + 4 + 4);
    assert_eq!(&image[16..21], &[1, 2, 3, 4, 5]);
    assert_eq!(&image[29..33], &[4, 3, 2, 1]);
}

#[test]
fn an_empty_program_has_an_empty_image() {
    assert_eq!(assemble(&vec![]), Ok(vec![]));
    assert_eq!(assemble(&vec![InstructionOrConstant::EOF]), Ok(vec![]));
}

#[test]
fn a_forward_reference_resolves_like_a_backward_one() {
    let forward = vec![jmp("target"), instruction(Instruction::Nop), label("target"), jmp("target")];
    let image = assemble(&forward).unwrap();
    assert_eq!(&image[0..8], &[17, 2, 0, 0, 12, 0, 0, 0]);
    assert_eq!(&image[12..20], &[17, 2, 0, 0, 12, 0, 0, 0]);
}

#[test]
fn constants_resolve_in_both_modes_and_before_their_definition() {
    let program = vec![
        instruction(Instruction::Mov(
            Target::Constant(name("size")),
            Target::ConstantAddress(name("size")),
        )),
        directive(PreprocessorCommand::Define(name("size"), 0x100)),
    ];
    assert_eq!(assemble(&program), Ok(vec![2, 2 + 4 * 3, 0, 0, 0, 1, 0, 0, 0, 1, 0, 0]));
}

#[test]
fn sub_labels_resolve_under_their_own_label() {
    let sub_jmp = || instruction(Instruction::Jmp(JmpVariant::Absolute, Target::SubConstant(name("loop"))));
    let program = vec![
        label("first"),
        sub_jmp(),
        sub_label("loop"),
        instruction(Instruction::Nop),
        label("second"),
        sub_label("loop"),
        sub_jmp(),
    ];
    let image = assemble(&program).unwrap();
    assert_eq!(&image[0..8], &[17, 2, 0, 0, 8, 0, 0, 0]);
    assert_eq!(&image[12..20], &[17, 2, 0, 0, 12, 0, 0, 0]);
}

#[test]
fn sub_constants_are_scoped_too() {
    let read = || {
        instruction(Instruction::Not(Target::SubConstantAddress(name("cell"))))
    };
    let program = vec![
        label("a"),
        directive(PreprocessorCommand::DefineSub(name("cell"), 0x10)),
        read(),
        label("b"),
        directive(PreprocessorCommand::DefineSub(name("cell"), 0x20)),
        read(),
    ];
    let image = assemble(&program).unwrap();
    assert_eq!(image, vec![3, 3, 0, 0, 0x10, 0, 0, 0, 3, 3, 0, 0, 0x20, 0, 0, 0]);
}

#[test]
fn a_sub_label_is_not_seen_from_another_label() {
    let program = vec![
        label("a"),
        sub_label("inner"),
        label("b"),
        instruction(Instruction::Jmp(JmpVariant::Absolute, Target::SubConstant(name("inner")))),
    ];
    assert_eq!(assemble(&program), Err(AssemblyError::UnresolvedSymbol(name("inner"))));
    let unscoped = vec![instruction(Instruction::Not(Target::SubConstant(name("inner"))))];
    assert_eq!(assemble(&unscoped), Err(AssemblyError::UnresolvedSymbol(name("inner"))));
}

#[test]
fn a_relative_jmp_encodes_the_distance_from_the_next_instruction() {
    // forward: the jmp stands at 4 and is 8 wide; the target stands at 16
    let forward = vec![
        instruction(Instruction::Nop),
        jmp_relative("target"),
        instruction(Instruction::Nop),
        label("target"),
        instruction(Instruction::Hlt),
    ];
    let image = assemble(&forward).unwrap();
    assert_eq!(&image[4..12], &[17, 18, 0, 0, 4, 0, 0, 0]);
    // backward: the jmp stands at 4, the target at 0: 0 - 12 = -12
    let backward = vec![label("target"), instruction(Instruction::Nop), jmp_relative("target")];
    let image = assemble(&backward).unwrap();
    assert_eq!(&image[4..12], &[17, 18, 0, 0, 0xF4, 0xFF, 0xFF, 0xFF]);
    let offset = u32::from_le_bytes([image[8], image[9], image[10], image[11]]);
    assert_eq!(offset as i32, -12);
    assert_eq!((4u32 + 8).wrapping_add(offset), 0);
}

#[test]
fn displacement_is_the_wrapping_difference() {
    assert_eq!(displacement(16, 12), 4);
    assert_eq!(displacement(12, 12), 0);
    assert_eq!(displacement(0, 12), 0u32.wrapping_sub(12));
    assert_eq!(displacement(0, u32::MAX), 1);
    assert_eq!(displacement(u32::MAX, 0), u32::MAX);
    for (target, next) in [(5u32, 900u32), (900, 5), (0, 0), (77, u32::MAX - 3)] {
        assert_eq!(displacement(target, next), target.wrapping_sub(next));
        assert_eq!(next.wrapping_add(displacement(target, next)), target);
    }
}

#[test]
fn a_relative_jmp_leaves_numbers_and_cells_alone() {
    let table = SymbolTable::new().define(name("cell"), 40).unwrap();
    let number = Instruction::Jmp(JmpVariant::Relative, Target::Immediate(40));
    let resolved = resolve_instruction(&table, None, 100, &number).unwrap();
    assert_eq!(resolved.first(), Some(&Target::Immediate(40)));
    let cell = Instruction::Jmp(JmpVariant::Relative, Target::ConstantAddress(name("cell")));
    let resolved = resolve_instruction(&table, None, 100, &cell).unwrap();
    assert_eq!(resolved.first(), Some(&Target::ImmediateAddress(40)));
    let named = Instruction::Jmp(JmpVariant::Relative, Target::Constant(name("cell")));
    let resolved = resolve_instruction(&table, None, 100, &named).unwrap();
    assert_eq!(resolved.first(), Some(&Target::Immediate(40u32.wrapping_sub(100))));
    assert_eq!(resolved.variant(), JmpVariant::Relative);
    let absolute = Instruction::Jmp(JmpVariant::Absolute, Target::Constant(name("cell")));
    let resolved = resolve_instruction(&table, None, 100, &absolute).unwrap();
    assert_eq!(resolved.first(), Some(&Target::Immediate(40)));
}

#[test]
fn only_jmp_is_relative() {
    let table = SymbolTable::new().define(name("x"), 40).unwrap();
    let jz = Instruction::Jz(Target::Constant(name("x")), Target::Constant(name("x")));
    let resolved = resolve_instruction(&table, None, 100, &jz).unwrap();
    assert_eq!(resolved.first(), Some(&Target::Immediate(40)));
    assert_eq!(resolved.second(), Some(&Target::Immediate(40)));
    assert_eq!(resolved.kind(), NamedInstruction::Jz);
}

#[test]
fn an_offset_pads_the_gap_with_the_fill_value() {
    let program = vec![
        instruction(Instruction::Hlt),
        directive(PreprocessorCommand::Offset(10)),
        label("after"),
        instruction(Instruction::Hlt),
        jmp("after"),
    ];
    let image = assemble(&program).unwrap();
    assert_eq!(PAD_BYTE, 0);
    assert_eq!(image.len(), 22);
    assert_eq!(&image[0..4], &HLT);
    assert_eq!(&image[4..10], &[PAD_BYTE; 6]);
    assert_eq!(&image[10..14], &HLT);
    assert_eq!(&image[14..22], &[17, 2, 0, 0, 10, 0, 0, 0]);
}

#[test]
fn an_offset_to_the_cursor_pads_nothing() {
    let program = vec![
        instruction(Instruction::Hlt),
        directive(PreprocessorCommand::Offset(4)),
        instruction(Instruction::Nop),
    ];
    assert_eq!(assemble(&program), Ok(vec![1, 0, 0, 0, 0, 0, 0, 0]));
}

#[test]
fn an_offset_below_the_cursor_is_invalid() {
    let program = vec![
        instruction(Instruction::Hlt),
        instruction(Instruction::Hlt),
        directive(PreprocessorCommand::Offset(7)),
    ];
    assert_eq!(assemble(&program), Err(AssemblyError::InvalidOffset { offset: 7, cursor: 8 }));
    assert_eq!(
        build_symbol_table(&program).map(|_| ()),
        Err(AssemblyError::InvalidOffset { offset: 7, cursor: 8 })
    );
}

#[test]
fn redefinition_is_a_duplicate_symbol() {
    let labels = vec![label("x"), instruction(Instruction::Nop), label("x")];
    assert_eq!(assemble(&labels), Err(AssemblyError::DuplicateSymbol(name("x"))));
    let label_and_constant = vec![directive(PreprocessorCommand::Define(name("x"), 1)), label("x")];
    assert_eq!(assemble(&label_and_constant), Err(AssemblyError::DuplicateSymbol(name("x"))));
    let constants = vec![
        directive(PreprocessorCommand::Define(name("x"), 1)),
        directive(PreprocessorCommand::Define(name("x"), 1)),
    ];
    assert_eq!(assemble(&constants), Err(AssemblyError::DuplicateSymbol(name("x"))));
    let subs = vec![label("a"), sub_label("s"), sub_label("s")];
    assert_eq!(assemble(&subs), Err(AssemblyError::DuplicateSymbol(name("s"))));
    let sub_and_constant = vec![
        label("a"),
        sub_label("s"),
        directive(PreprocessorCommand::DefineSub(name("s"), 1)),
    ];
    assert_eq!(assemble(&sub_and_constant), Err(AssemblyError::DuplicateSymbol(name("s"))));
}

#[test]
fn the_two_tables_do_not_collide() {
    let program = vec![label("x"), sub_label("x"), label("y"), sub_label("x"), sub_label("y")];
    assert_eq!(assemble(&program), Ok(vec![]));
}

#[test]
fn a_sub_symbol_needs_an_enclosing_label() {
    let program = vec![instruction(Instruction::Nop), sub_label("s"), label("a")];
    assert_eq!(assemble(&program), Err(AssemblyError::NoEnclosingLabel(name("s"))));
    let program = vec![directive(PreprocessorCommand::DefineSub(name("k"), 1))];
    assert_eq!(assemble(&program), Err(AssemblyError::NoEnclosingLabel(name("k"))));
}

#[test]
fn an_undefined_name_is_unresolved() {
    assert_eq!(assemble(&vec![jmp("nowhere")]), Err(AssemblyError::UnresolvedSymbol(name("nowhere"))));
    let second_operand = vec![
        label("here"),
        instruction(Instruction::Mov(
            Target::Constant(name("here")),
            Target::ConstantAddress(name("there")),
        )),
    ];
    assert_eq!(assemble(&second_operand), Err(AssemblyError::UnresolvedSymbol(name("there"))));
}

#[test]
fn the_first_pass_fails_before_the_second() {
    let program = vec![jmp("nowhere"), label("x"), label("x")];
    assert_eq!(assemble(&program), Err(AssemblyError::DuplicateSymbol(name("x"))));
}

#[test]
fn the_image_cannot_outgrow_the_address_space() {
    let program = vec![
        directive(PreprocessorCommand::Offset(u32::MAX - 3)),
        instruction(Instruction::Not(Target::Immediate(0))),
    ];
    assert_eq!(build_symbol_table(&program).map(|_| ()), Err(AssemblyError::AddressOverflow));
    assert_eq!(advance(u32::MAX - 4, 4), Ok(u32::MAX));
    assert_eq!(advance(u32::MAX - 4, 5), Err(AssemblyError::AddressOverflow));
    assert_eq!(advance(0, 0), Ok(0));
}

#[test]
fn address_after_each_kind_of_element() {
    assert_eq!(address_after(10, &instruction(Instruction::Nop)), Ok(14));
    assert_eq!(address_after(10, &mov_r0(0)), Ok(22));
    assert_eq!(address_after(10, &jmp("x")), Ok(18));
    assert_eq!(address_after(10, &directive(PreprocessorCommand::DeclareBytes(vec![1, 2, 3]))), Ok(13));
    assert_eq!(address_after(10, &directive(PreprocessorCommand::DeclareBytes(vec![]))), Ok(10));
    assert_eq!(address_after(10, &directive(PreprocessorCommand::DeclareWord(9))), Ok(14));
    assert_eq!(address_after(10, &directive(PreprocessorCommand::Offset(10))), Ok(10));
    assert_eq!(address_after(10, &directive(PreprocessorCommand::Offset(99))), Ok(99));
    assert_eq!(
        address_after(10, &directive(PreprocessorCommand::Offset(9))),
        Err(AssemblyError::InvalidOffset { offset: 9, cursor: 10 })
    );
    assert_eq!(address_after(10, &directive(PreprocessorCommand::Define(name("x"), 500))), Ok(10));
    assert_eq!(address_after(10, &directive(PreprocessorCommand::DefineSub(name("x"), 500))), Ok(10));
    assert_eq!(address_after(10, &label("x")), Ok(10));
    assert_eq!(address_after(10, &sub_label("x")), Ok(10));
    assert_eq!(address_after(10, &InstructionOrConstant::EOF), Ok(10));
}

#[test]
fn the_symbol_table_keeps_what_is_defined() {
    let table = SymbolTable::new();
    assert_eq!(table.global(&name("a")), None);
    let table = table.define(name("a"), 1).unwrap();
    let table = table.define(name("b"), 2).unwrap();
    assert_eq!(table.global(&name("a")), Some(1));
    assert_eq!(table.global(&name("b")), Some(2));
    assert_eq!(table.global(&name("c")), None);
    let scope = name("a");
    let other = name("b");
    let table = table.define_sub(Some(&scope), name("s"), 3).unwrap();
    let table = table.define_sub(Some(&other), name("s"), 4).unwrap();
    assert_eq!(table.sub(Some(&scope), &name("s")), Some(3));
    assert_eq!(table.sub(Some(&other), &name("s")), Some(4));
    assert_eq!(table.sub(None, &name("s")), None);
    assert_eq!(table.sub(Some(&scope), &name("a")), None);
    assert_eq!(table.global(&name("s")), None);
    assert_eq!(
        table.clone().define(name("a"), 9).map(|_| ()),
        Err(AssemblyError::DuplicateSymbol(name("a")))
    );
    assert_eq!(
        table.clone().define_sub(Some(&scope), name("s"), 9).map(|_| ()),
        Err(AssemblyError::DuplicateSymbol(name("s")))
    );
    assert_eq!(
        table.define_sub(None, name("t"), 9).map(|_| ()),
        Err(AssemblyError::NoEnclosingLabel(name("t")))
    );
}

#[test]
fn the_first_pass_binds_labels_to_the_cursor() {
    let program = vec![
        mov_r0(1),
        label("a"),
        directive(PreprocessorCommand::Define(name("k"), 77)),
        sub_label("s"),
        instruction(Instruction::Nop),
        directive(PreprocessorCommand::DefineSub(name("d"), 5)),
        directive(PreprocessorCommand::Offset(100)),
        label("b"),
        sub_label("s"),
    ];
    let table = build_symbol_table(&program).unwrap();
    assert_eq!(table.global(&name("a")), Some(12));
    assert_eq!(table.global(&name("k")), Some(77));
    assert_eq!(table.global(&name("b")), Some(100));
    assert_eq!(table.sub(Some(&name("a")), &name("s")), Some(12));
    assert_eq!(table.sub(Some(&name("a")), &name("d")), Some(5));
    assert_eq!(table.sub(Some(&name("b")), &name("s")), Some(100));
    assert_eq!(table.sub(Some(&name("b")), &name("d")), None);
}

#[test]
fn the_passes_step_through_the_same_addresses() {
    let program = vec![
        mov_r0(1),
        label("a"),
        directive(PreprocessorCommand::Offset(20)),
        directive(PreprocessorCommand::DeclareBytes(vec![1, 2, 3])),
        jmp("a"),
        directive(PreprocessorCommand::DeclareWord(1)),
    ];
    let table = build_symbol_table(&program).unwrap();
    let mut layout = Layout::new();
    let mut emission = Emission::new();
    for element in &program {
        layout = layout.step(element).unwrap();
        emission = emission.step(&table, element).unwrap();
        assert_eq!(layout.cursor, emission.cursor);
        assert_eq!(layout.scope, emission.scope);
        assert_eq!(emission.writer.len(), emission.cursor as usize);
    }
    assert_eq!(layout.cursor, 35);
    assert_eq!(encode_program(&table, &program).unwrap().len(), 35);
}

#[test]
fn resolving_a_target() {
    let table = SymbolTable::new().define(name("g"), 7).unwrap();
    let scope = name("g");
    let table = table.define_sub(Some(&scope), name("s"), 9).unwrap();
    let resolve = |target: Target| resolve_target(&table, Some(&scope), &target);
    assert_eq!(resolve(Target::Constant(name("g"))), Ok(Target::Immediate(7)));
    assert_eq!(resolve(Target::ConstantAddress(name("g"))), Ok(Target::ImmediateAddress(7)));
    assert_eq!(resolve(Target::SubConstant(name("s"))), Ok(Target::Immediate(9)));
    assert_eq!(resolve(Target::SubConstantAddress(name("s"))), Ok(Target::ImmediateAddress(9)));
    assert_eq!(resolve(Target::Immediate(3)), Ok(Target::Immediate(3)));
    assert_eq!(resolve(Target::ImmediateAddress(3)), Ok(Target::ImmediateAddress(3)));
    assert_eq!(
        resolve(Target::Register(Register::Flag)),
        Ok(Target::Register(Register::Flag))
    );
    assert_eq!(
        resolve(Target::RegisterAddress(Register::Flag)),
        Ok(Target::RegisterAddress(Register::Flag))
    );
    assert_eq!(
        resolve(Target::Constant(name("s"))),
        Err(AssemblyError::UnresolvedSymbol(name("s")))
    );
    assert_eq!(
        resolve(Target::SubConstant(name("g"))),
        Err(AssemblyError::UnresolvedSymbol(name("g")))
    );
    assert_eq!(
        resolve_target(&table, None, &Target::SubConstant(name("s"))),
        Err(AssemblyError::UnresolvedSymbol(name("s")))
    );
}

#[test]
fn the_image_writer_appends_and_pads() {
    let mut writer = ImageWriter::new();
    assert_eq!(writer.len(), 0);
    writer.write(&[1, 2]);
    writer.pad(3);
    writer.write(&[]);
    writer.pad(0);
    writer.write(&[9]);
    assert_eq!(writer.len(), 6);
    assert_eq!(writer.finish(), (vec![1, 2, PAD_BYTE, PAD_BYTE, PAD_BYTE, 9], 6));
}

#[test]
fn building_instructions_from_parts() {
    let a = || Some(Target::Immediate(1));
    let b = || Some(Target::Immediate(2));
    let absolute = JmpVariant::Absolute;
    assert!(matches!(Instruction::new(NamedInstruction::Nop, absolute, None, None), Some(Instruction::Nop)));
    assert!(Instruction::new(NamedInstruction::Nop, absolute, a(), None).is_none());
    assert!(Instruction::new(NamedInstruction::Not, absolute, None, None).is_none());
    assert!(Instruction::new(NamedInstruction::Not, absolute, a(), b()).is_none());
    assert!(Instruction::new(NamedInstruction::Mov, absolute, a(), None).is_none());
    assert!(Instruction::new(NamedInstruction::Mov, absolute, None, b()).is_none());
    let mov = Instruction::new(NamedInstruction::Mov, JmpVariant::Relative, a(), b()).unwrap();
    assert_eq!(mov.kind(), NamedInstruction::Mov);
    assert_eq!(mov.variant(), JmpVariant::Absolute);
    assert_eq!(mov.first(), Some(&Target::Immediate(1)));
    assert_eq!(mov.second(), Some(&Target::Immediate(2)));
    let jmp = Instruction::new(NamedInstruction::Jmp, JmpVariant::Relative, a(), None).unwrap();
    assert_eq!(jmp.variant(), JmpVariant::Relative);
    assert_eq!(jmp.second(), None);
    assert_eq!(Instruction::Hlt.first(), None);
}

#[test]
fn operands_and_their_modes() {
    assert_eq!(Target::Register(Register::GeneralPurpose0).word(), 0);
    assert_eq!(Target::Register(Register::GeneralPurpose1).word(), 1);
    assert_eq!(Target::RegisterAddress(Register::Flag).word(), 2);
    assert_eq!(Target::RegisterAddress(Register::ProgramCounter).word(), 3);
    assert_eq!(Target::Immediate(77).word(), 77);
    assert_eq!(Target::ImmediateAddress(78).word(), 78);
    assert_eq!(Target::Register(Register::Flag).mode(), 0);
    assert_eq!(Target::RegisterAddress(Register::Flag).mode(), 1);
    assert_eq!(Target::Immediate(0).mode(), 2);
    assert_eq!(Target::ImmediateAddress(0).mode(), 3);
    assert_eq!(Target::Constant(name("x")).mode(), 2);
    assert_eq!(Target::SubConstantAddress(name("x")).mode(), 3);
    assert!(Target::Immediate(0).is_concrete());
    assert!(!Target::Constant(name("x")).is_concrete());
    assert_eq!(Target::Constant(name("x")).symbol(), Some(&name("x")));
    assert_eq!(Target::Immediate(0).symbol(), None);
    assert_eq!(Target::Constant(name("x")).indirect(), Target::ConstantAddress(name("x")));
    assert_eq!(Target::SubConstant(name("x")).indirect(), Target::SubConstantAddress(name("x")));
    assert_eq!(Target::Immediate(4).indirect(), Target::ImmediateAddress(4));
    assert_eq!(
        Target::Register(Register::Flag).indirect(),
        Target::RegisterAddress(Register::Flag)
    );
}
