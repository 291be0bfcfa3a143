use iridium::instruction::{Instruction, Opcode};

#[test]
fn test_create_hlt() {
    let opcode = Opcode::HLT;
    assert_eq!(opcode, Opcode::HLT);
}

#[test]
fn test_create_instruction() {
    let instruction = Instruction::new(Opcode::HLT);
    assert_eq!(instruction.opcode(), Opcode::HLT);
}

#[test]
fn test_str_to_opcode() {
    let opcode = Opcode::from("load");
    assert_eq!(opcode, Opcode::LOAD);
    let opcode = Opcode::from("illegal");
    assert_eq!(opcode, Opcode::IGL);
}

#[test]
fn test_str_to_opcode_numeric() {
    let opcode = Opcode::from("inc");
    assert_eq!(opcode as u8, 17);
    let opcode = Opcode::from("aloc");
    assert_eq!(opcode as u8, 19);
}

#[test]
fn every_byte_decodes_and_encodes_back() {
    for b in 0u8..=255 {
        let op = Opcode::from(b);
        if b < 20 {
            assert_eq!(op.to_byte(), b);
            assert_eq!(op as u8, b);
        } else {
            assert_eq!(op, Opcode::IGL);
        }
    }
}

#[test]
fn every_mnemonic_names_its_opcode() {
    for b in 0u8..20 {
        let op = Opcode::from(b);
        assert_eq!(Opcode::from(op.mnemonic()), op);
    }
    assert_eq!(Opcode::GTQ.mnemonic(), "gte");
    assert_eq!(Opcode::LTQ.mnemonic(), "lte");
    assert_eq!(Opcode::JEQ.mnemonic(), "jmpe");
    assert_eq!(Opcode::from("LOAD"), Opcode::IGL);
    assert_eq!(Opcode::from(""), Opcode::IGL);
    assert_eq!(Opcode::from("loadx"), Opcode::IGL);
}
