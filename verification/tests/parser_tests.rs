use iridium::assembler::directive_parsers::directive;
use iridium::assembler::instruction_parsers::{instruction, AssemblerInstruction};
use iridium::assembler::label_parsers::{label_declaration, label_usage};
use iridium::assembler::opcode_parsers::opcode;
use iridium::assembler::operand_parsers::{integer_operand, irstring, operand};
use iridium::assembler::program_parsers::program;
use iridium::assembler::register_parsers::register;
use iridium::assembler::symbols::SymbolTable;
use iridium::assembler::Token;
use iridium::instruction::Opcode;

#[test]
fn test_string_directive() {
    let result = directive("test: .asciiz 'Hello'");
    assert_eq!(result.is_ok(), true);
    let (_, directive) = result.unwrap();

    let correct_instruction = AssemblerInstruction {
        opcode: None,
        label: Some(Token::LabelDeclaration { name: "test".to_string() }),
        directive: Some(Token::Directive { name: "asciiz".to_string() }),
        operand1: Some(Token::IrString { literal: "Hello".to_string() }),
        operand2: None,
        operand3: None,
    };

    assert_eq!(directive, correct_instruction);
}

#[test]
fn test_parse_instruction_form_one() {
    let result = instruction("load $0 #100\n");
    assert_eq!(
        result,
        Ok((
            "",
            AssemblerInstruction {
                opcode: Some(Token::Op { code: Opcode::LOAD }),
                directive: None,
                label: None,
                operand1: Some(Token::Register { reg_num: 0 }),
                operand2: Some(Token::Number { value: 100 }),
                operand3: None
            }
        ))
    );
}

#[test]
fn test_parse_instruction_form_two() {
    let result = instruction("hlt\n");
    assert_eq!(
        result,
        Ok((
            "",
            AssemblerInstruction {
                opcode: Some(Token::Op { code: Opcode::HLT }),
                directive: None,
                label: None,
                operand1: None,
                operand2: None,
                operand3: None
            }
        ))
    );
}

#[test]
fn test_parse_instruction_form_three() {
    let result = instruction("add $0 $1 $2\n");
    assert_eq!(
        result,
        Ok((
            "",
            AssemblerInstruction {
                opcode: Some(Token::Op { code: Opcode::ADD }),
                directive: None,
                label: None,
                operand1: Some(Token::Register { reg_num: 0 }),
                operand2: Some(Token::Register { reg_num: 1 }),
                operand3: Some(Token::Register { reg_num: 2 })
            }
        ))
    );
}

#[test]
fn test_opcode_load() {
    // First tests that the opcode is detected and parsed correctly
    let result = opcode("load");
    assert_eq!(result.is_ok(), true);
    let (rest, token) = result.unwrap();
    assert_eq!(token, Token::Op { code: Opcode::LOAD });
    assert_eq!(rest, "");

    // Tests that an invalid opcode isn't recognized
    let result = opcode("aold");
    assert_eq!(result.is_ok(), false);
}

#[test]
fn test_parse_integer_operand() {
    println!("testing integer");

    // Test a valid integer operand
    let result = integer_operand("#10");
    assert_eq!(result.is_ok(), true);
    let (rest, value) = result.unwrap();
    assert_eq!(rest, "");
    assert_eq!(value, Token::Number { value: 10 });

    // Test an invalid one (missing the #)
    let result = integer_operand("10");
    assert_eq!(result.is_ok(), false);
}

#[test]
fn test_parse_string_operand() {
    let result = irstring("'This is a test'");
    assert_eq!(result.is_ok(), true);
}

#[test]
fn test_program_to_bytes() {
    let result = program("load $0 #100\n");
    assert_eq!(result.is_ok(), true);
    let (_, program) = result.unwrap();
    let symbols = SymbolTable::new();
    let bytecode = program.to_bytes(&symbols).unwrap();
    assert_eq!(bytecode.len(), 4);
    println!("{:?}", bytecode);
}

#[test]
fn test_parse_program() {
    let result = program("load $0 #100\n");
    assert_eq!(result.is_ok(), true);
    let (leftover, p) = result.unwrap();
    assert_eq!(leftover, "");
    assert_eq!(1, p.instructions.len());
}

#[test]
fn test_complete_program() {
    let test_program = ".data\nhello: .asciiz 'Hello everyone!'\n.code\nhlt";
    let result = program(test_program);
    assert_eq!(result.is_ok(), true);
}

#[test]
fn test_parse_register() {
    println!("testing register");

    let result = register("$0");
    assert_eq!(result.is_ok(), true);
    let result = register("0");
    assert_eq!(result.is_ok(), false);
    let result = register("$a");
    assert_eq!(result.is_ok(), false);
}

#[test]
fn register_index_is_a_byte() {
    assert_eq!(register("$255"), Ok(("", Token::Register { reg_num: 255 })));
    assert_eq!(register("$0031 rest"), Ok(("rest", Token::Register { reg_num: 31 })));
    let failed = register("$256").unwrap_err();
    assert_eq!(failed.remainder, "$256");
    assert!(register("$").is_err());
    assert!(register("$ 1").is_err());
    assert!(register("").is_err());
}

#[test]
fn immediate_fits_thirty_two_signed_bits() {
    assert_eq!(integer_operand("#2147483647"), Ok(("", Token::Number { value: 2147483647 })));
    assert!(integer_operand("#2147483648").is_err());
    assert!(integer_operand("#99999999999999999999999999").is_err());
    assert_eq!(integer_operand("  #007\t\n$1"), Ok(("$1", Token::Number { value: 7 })));
    assert!(integer_operand("#-1").is_err());
}

#[test]
fn string_literal_runs_to_the_next_quote() {
    assert_eq!(
        irstring("'a b' 'c'"),
        Ok(("'c'", Token::IrString { literal: "a b".to_string() }))
    );
    assert_eq!(irstring("''"), Ok(("", Token::IrString { literal: String::new() })));
    assert_eq!(
        irstring("'h\u{e9}llo \u{4e16}'x"),
        Ok(("x", Token::IrString { literal: "h\u{e9}llo \u{4e16}".to_string() }))
    );
    assert!(irstring("'open").is_err());
    assert!(irstring("x'y'").is_err());
}

#[test]
fn labels_are_names_of_letters_and_digits() {
    assert_eq!(
        label_declaration("again7: inc $0"),
        Ok(("inc $0", Token::LabelDeclaration { name: "again7".to_string() }))
    );
    assert!(label_declaration("again7 : inc $0").is_err());
    assert!(label_declaration(": inc").is_err());
    assert_eq!(
        label_usage("@again7\n"),
        Ok(("", Token::LabelUsage { name: "again7".to_string() }))
    );
    assert!(label_usage("@").is_err());
    assert!(label_usage("again7").is_err());
}

#[test]
fn operand_is_one_of_four_kinds() {
    assert_eq!(operand("#5"), Ok(("", Token::Number { value: 5 })));
    assert_eq!(operand("$5"), Ok(("", Token::Register { reg_num: 5 })));
    assert_eq!(operand("@five"), Ok(("", Token::LabelUsage { name: "five".to_string() })));
    assert_eq!(operand("'5'"), Ok(("", Token::IrString { literal: "5".to_string() })));
    assert!(operand("5").is_err());
    assert!(operand("load").is_err());
}

#[test]
fn opcode_is_a_known_word_of_letters() {
    assert_eq!(opcode("  jmpe @x"), Ok(("@x", Token::Op { code: Opcode::JEQ })));
    assert_eq!(opcode("gte"), Ok(("", Token::Op { code: Opcode::GTQ })));
    assert_eq!(opcode("gt"), Ok(("", Token::Op { code: Opcode::GT })));
    assert!(opcode("igl").is_err());
    assert!(opcode("LOAD").is_err());
    assert!(opcode("load1").is_ok());
    assert_eq!(opcode("load1").unwrap().0, "1");
    assert!(opcode("1load").is_err());
}

#[test]
fn instruction_takes_label_and_up_to_three_operands() {
    let (rest, parsed) = instruction("test: inc $0\nneq $0 $2").unwrap();
    assert_eq!(rest, "neq $0 $2");
    assert_eq!(parsed.label, Some(Token::LabelDeclaration { name: "test".to_string() }));
    assert_eq!(parsed.opcode, Some(Token::Op { code: Opcode::INC }));
    assert_eq!(parsed.operand1, Some(Token::Register { reg_num: 0 }));
    assert_eq!(parsed.operand2, None);
    assert!(parsed.is_label());
    assert!(parsed.is_opcode());
    assert!(!parsed.is_directive());
    assert!(parsed.has_operands());
    assert_eq!(parsed.label_name(), Some("test".to_string()));

    let (rest, parsed) = instruction("add $0 $1 $2 $3").unwrap();
    assert_eq!(rest, "$3");
    assert_eq!(parsed.operand3, Some(Token::Register { reg_num: 2 }));

    let (rest, parsed) = instruction(".code\nhlt").unwrap();
    assert_eq!(rest, "hlt");
    assert_eq!(parsed.directive, Some(Token::Directive { name: "code".to_string() }));
    assert_eq!(parsed.get_directive_name(), Some("code".to_string()));
    assert!(!parsed.has_operands());
    assert_eq!(parsed.label_name(), None);

    let failed = instruction("test: 12").unwrap_err();
    assert_eq!(failed.remainder, "test: 12");
}

#[test]
fn program_stops_where_no_record_begins() {
    let (rest, parsed) = program("hlt\nhlt\n").unwrap();
    assert_eq!(rest, "");
    assert_eq!(parsed.instructions.len(), 2);

    let (rest, parsed) = program("load $0 #1\n$$ hlt").unwrap();
    assert_eq!(rest, "$$ hlt");
    assert_eq!(parsed.instructions.len(), 1);

    let failed = program("").unwrap_err();
    assert_eq!(failed.remainder, "");
    let failed = program(" \n 42").unwrap_err();
    assert_eq!(failed.remainder, " \n 42");
}
