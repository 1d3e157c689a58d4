use vc2_assembler::instructions::{instruction_from_text, instruction_from_word, NamedInstruction};

#[test]
fn every_mnemonic_is_found() {
    let table: [(&[u8], NamedInstruction); 20] = [
        (b"nop", NamedInstruction::Nop),
        (b"hlt", NamedInstruction::Hlt),
        (b"mov", NamedInstruction::Mov),
        (b"not", NamedInstruction::Not),
        (b"or", NamedInstruction::Or),
        (b"and", NamedInstruction::And),
        (b"xor", NamedInstruction::Xor),
        (b"shl", NamedInstruction::Shl),
        (b"shr", NamedInstruction::Shr),
        (b"add", NamedInstruction::Add),
        (b"sub", NamedInstruction::Sub),
        (b"mul", NamedInstruction::Mul),
        (b"imul", NamedInstruction::IMul),
        (b"div", NamedInstruction::Div),
        (b"idiv", NamedInstruction::IDiv),
        (b"rem", NamedInstruction::Rem),
        (b"cmp", NamedInstruction::Cmp),
        (b"jmp", NamedInstruction::Jmp),
        (b"jz", NamedInstruction::Jz),
        (b"jnz", NamedInstruction::Jnz),
    ];
    for (text, kind) in table {
        assert_eq!(instruction_from_text(text), Some(kind));
        assert_eq!(kind.mnemonic().as_bytes(), text);
    }
}

#[test]
fn mnemonics_are_case_sensitive_and_exact() {
    assert_eq!(instruction_from_text(b"NOP"), None);
    assert_eq!(instruction_from_text(b"Mov"), None);
    assert_eq!(instruction_from_text(b"mo"), None);
    assert_eq!(instruction_from_text(b"movv"), None);
    assert_eq!(instruction_from_text(b" mov"), None);
    assert_eq!(instruction_from_text(b""), None);
    assert_eq!(instruction_from_word("jmpp"), None);
    assert_eq!(instruction_from_word("jmp"), Some(NamedInstruction::Jmp));
}
