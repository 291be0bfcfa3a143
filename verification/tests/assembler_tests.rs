use iridium::assembler::instruction_parsers::AssemblerInstruction;
use iridium::assembler::program_parsers::{program, Program};
use iridium::assembler::{
    Assembler, AssemblerError, AssemblerPhase, AssemblerSection, Symbol, SymbolTable, SymbolType,
    Token, PIE_HEADER_LENGTH, PIE_HEADER_PREFIX,
};
use iridium::instruction::Opcode;
use iridium::vm::VM;

#[test]
fn test_symbol_table() {
    let mut sym = SymbolTable::new();
    let new_symbol = Symbol::new("test".to_string(), SymbolType::Label);
    sym.add_symbol(new_symbol);
    sym.set_symbol_offset("test".to_string(), 12);
    assert_eq!(sym.len(), 1);
    let v = sym.symbol_value("test");
    assert_eq!(v, Some(12));
}

#[test]
fn test_assemble_program() {
    let mut assembler = Assembler::new();
    let test_string = ".code\nload $0 #100\nload $0 #100\nload $2 #0\ntest: inc $0\nneq $0 $2\njmpe @test\nhlt";
    let program = assembler.assemble(test_string).unwrap();
    println!("{:?}", program);
    let mut vm = VM::new();
    assert_eq!(program.len(), PIE_HEADER_LENGTH + 28);
    vm.load(&program);
    assert_eq!(vm.program.len(), PIE_HEADER_LENGTH + 28);
}

#[test]
fn label_in_code_resolves_to_its_byte_offset() {
    let mut assembler = Assembler::new();
    let source = ".code\nload $0 #100\nload $0 #100\nload $2 #0\ntest: inc $0\nneq $0 $2\njmpe @test\nhlt";
    let image = assembler.assemble(source).unwrap();
    assert_eq!(assembler.symbols.symbol_value("test"), Some(12));
    assert_eq!(assembler.bytecode.len(), 28);
    assert_eq!(assembler.phase, AssemblerPhase::Second);
    let code = &image[64..];
    assert_eq!(
        code,
        &[
            0, 0, 0, 100, 0, 0, 0, 100, 0, 2, 0, 0, 17, 0, 0, 0, 11, 0, 2, 0, 16, 12, 0, 0, 5, 0,
            0, 0
        ]
    );
}

#[test]
fn single_load_is_four_bytes_after_the_header() {
    let mut assembler = Assembler::new();
    let image = assembler.assemble("load $0 #100\n").unwrap();
    assert_eq!(image.len(), 68);
    assert_eq!(&image[0..4], &PIE_HEADER_PREFIX);
    assert_eq!(&image[0..4], &[0x2d, 0x32, 0x31, 0x2d]);
    assert!(image[4..64].iter().all(|b| *b == 0));
    assert_eq!(&image[64..], &[Opcode::LOAD as u8, 0, 0, 100]);
}

#[test]
fn assembling_twice_gives_the_same_image() {
    let source = ".data\nhello: .asciiz 'Hello'\n.code\nstart: load $1 #500\njmp @start\nhlt";
    let mut first = Assembler::new();
    let mut second = Assembler::new();
    let a = first.assemble(source).unwrap();
    let b = second.assemble(source).unwrap();
    assert_eq!(a, b);
    // The same assembler, used again, forgets the first program.
    let c = first.assemble(source).unwrap();
    assert_eq!(a, c);
}

#[test]
fn two_labels_outside_a_section_are_two_errors() {
    let mut assembler = Assembler::new();
    let errors = assembler.assemble("first: hlt\nsecond: hlt\n").unwrap_err();
    assert_eq!(
        errors,
        vec![
            AssemblerError::NoSegmentDeclarationFound { instruction: 0 },
            AssemblerError::NoSegmentDeclarationFound { instruction: 1 },
        ]
    );
}

#[test]
fn data_comes_before_code_and_has_its_own_offsets() {
    let mut assembler = Assembler::new();
    let source = ".data\nhi: .asciiz 'Hi'\nyo: .asciiz 'Yo!'\n.code\nload $0 #1\nhere: jmp @yo\nload $1 @hi\njmp @here\n";
    let image = assembler.assemble(source).unwrap();
    assert_eq!(assembler.ro, vec![b'H', b'i', 0, b'Y', b'o', b'!', 0]);
    assert_eq!(assembler.symbols.symbol_value("hi"), Some(0));
    assert_eq!(assembler.symbols.symbol_value("yo"), Some(3));
    assert_eq!(assembler.symbols.symbol_value("here"), Some(4));
    assert_eq!(&image[64..71], &[b'H', b'i', 0, b'Y', b'o', b'!', 0]);
    assert_eq!(
        &image[71..],
        &[0, 0, 0, 1, 6, 3, 0, 0, 0, 1, 0, 0, 6, 4, 0, 0]
    );
    assert_eq!(image.len(), 64 + 7 + 16);
}

#[test]
fn forward_reference_is_resolved() {
    let mut assembler = Assembler::new();
    let image = assembler.assemble(".code\njmp @end\nhlt\nend: hlt").unwrap();
    assert_eq!(&image[64..], &[6, 8, 0, 0, 5, 0, 0, 0, 5, 0, 0, 0]);
}

#[test]
fn immediate_is_truncated_to_sixteen_bits() {
    let mut assembler = Assembler::new();
    let image = assembler.assemble("load $1 #65536\nload $2 #65535\nload $3 #1000\nload $4 #2147483647").unwrap();
    assert_eq!(
        &image[64..],
        &[0, 1, 0, 0, 0, 2, 255, 255, 0, 3, 3, 232, 0, 4, 255, 255]
    );
    let record = AssemblerInstruction {
        opcode: Some(Token::Op { code: Opcode::LOAD }),
        label: None,
        directive: None,
        operand1: Some(Token::Register { reg_num: 9 }),
        operand2: Some(Token::Number { value: -2 }),
        operand3: None,
    };
    assert_eq!(record.to_bytes(&SymbolTable::new()), Ok(vec![0, 9, 255, 254]));
}

#[test]
fn text_that_is_no_program_is_a_parse_error_with_the_rest() {
    let mut assembler = Assembler::new();
    assert_eq!(
        assembler.assemble("load $0 #1\nbogus $1\nhlt"),
        Err(vec![AssemblerError::ParseError { error: "bogus $1\nhlt".to_string() }])
    );
    assert_eq!(
        assembler.assemble(""),
        Err(vec![AssemblerError::ParseError { error: String::new() }])
    );
    assert_eq!(
        assembler.assemble("add $0 $1 $2 $3"),
        Err(vec![AssemblerError::ParseError { error: "$3".to_string() }])
    );
    assert_eq!(
        assembler.assemble("load $300 #1"),
        Err(vec![AssemblerError::ParseError { error: "$300 #1".to_string() }])
    );
}

#[test]
fn label_declared_twice_is_an_error() {
    let mut assembler = Assembler::new();
    assert_eq!(
        assembler.assemble(".code\nx: hlt\nx: hlt\ny: hlt\ny: hlt"),
        Err(vec![AssemblerError::SymbolAlreadyDeclared, AssemblerError::SymbolAlreadyDeclared])
    );
    assert_eq!(
        assembler.assemble(".data\nx: .asciiz 'a'\n.code\nx: hlt"),
        Err(vec![AssemblerError::SymbolAlreadyDeclared])
    );
}

#[test]
fn unknown_directive_with_operands_is_an_error() {
    let mut assembler = Assembler::new();
    assert_eq!(
        assembler.assemble(".code\n.word #5\nhlt"),
        Err(vec![AssemblerError::UnknownDirectiveFound { directive: "word".to_string() }])
    );
}

#[test]
fn unknown_section_is_only_a_warning() {
    let mut assembler = Assembler::new();
    let image = assembler.assemble(".text\n.code\nhlt").unwrap();
    assert_eq!(&image[64..], &[5, 0, 0, 0]);
    assert_eq!(
        assembler.warnings(),
        &vec![AssemblerError::UnknownDirectiveFound { directive: "text".to_string() }]
    );
    // An unknown header begins no section.
    assert_eq!(
        assembler.assemble(".text\nx: hlt"),
        Err(vec![AssemblerError::NoSegmentDeclarationFound { instruction: 1 }])
    );
}

#[test]
fn string_without_label_is_dropped_with_a_warning() {
    let mut assembler = Assembler::new();
    let image = assembler.assemble(".data\n.asciiz 'lost'\n.code\nhlt").unwrap();
    assert_eq!(image.len(), 68);
    assert!(assembler.ro.is_empty());
    assert_eq!(
        assembler.warnings(),
        &vec![AssemblerError::StringConstantDeclaredWithoutLabel { instruction: 1 }]
    );
}

#[test]
fn label_that_was_never_declared_is_an_error() {
    let mut assembler = Assembler::new();
    assert_eq!(
        assembler.assemble(".code\njmp @nowhere\nload $0 @gone\nhlt"),
        Err(vec![
            AssemblerError::UnresolvedSymbol { name: "nowhere".to_string() },
            AssemblerError::UnresolvedSymbol { name: "gone".to_string() },
        ])
    );
}

#[test]
fn data_beyond_256_bytes_is_an_error() {
    let text = "a".repeat(255);
    let mut assembler = Assembler::new();
    let source = format!(".data\nfull: .asciiz '{}'\n.code\nhlt", text);
    let image = assembler.assemble(&source).unwrap();
    assert_eq!(image.len(), 64 + 256 + 4);
    assert_eq!(assembler.ro.len(), 256);

    let source = format!(".data\nfull: .asciiz '{}'\nmore: .asciiz ''\n.code\nhlt", text);
    assert_eq!(assembler.assemble(&source), Err(vec![AssemblerError::DataSegmentOverflow]));

    let source = format!(".data\nbig: .asciiz '{}a'\n.code\nhlt", text);
    assert_eq!(assembler.assemble(&source), Err(vec![AssemblerError::DataSegmentOverflow]));

    // Two bytes for each of these characters.
    let wide = "\u{e9}".repeat(128);
    let source = format!(".data\nwide: .asciiz '{}'\n.code\nhlt", wide);
    assert_eq!(assembler.assemble(&source), Err(vec![AssemblerError::DataSegmentOverflow]));
}

#[test]
fn code_label_above_offset_255_is_an_error() {
    let mut source = String::from(".code\n");
    for _ in 0..63 {
        source.push_str("hlt\n");
    }
    let mut assembler = Assembler::new();
    let fits = format!("{}last: hlt\n", source);
    assert!(assembler.assemble(&fits).is_ok());
    assert_eq!(assembler.symbols.symbol_value("last"), Some(252));

    let over = format!("{}hlt\nlast: hlt\n", source);
    assert_eq!(
        assembler.assemble(&over),
        Err(vec![AssemblerError::SymbolOffsetOverflow { instruction: 65 }])
    );

    // Without a label up there, a long program is fine.
    let long = format!("{}hlt\nhlt\nhlt\n", source);
    assert_eq!(assembler.assemble(&long).unwrap().len(), 64 + 4 * 66);
}

#[test]
fn record_that_cannot_be_encoded_is_malformed() {
    let symbols = SymbolTable::new();
    let (_, parsed) = program("load $0 #1 #2").unwrap();
    assert_eq!(
        parsed.instructions[0].to_bytes(&symbols),
        Err(AssemblerError::MalformedInstruction)
    );
    assert_eq!(parsed.to_bytes(&symbols), Err(vec![AssemblerError::MalformedInstruction]));
    let (_, parsed) = program("load 'text'").unwrap();
    assert_eq!(
        parsed.instructions[0].to_bytes(&symbols),
        Err(AssemblerError::MalformedInstruction)
    );
    let (_, parsed) = program(".code").unwrap();
    assert_eq!(
        parsed.instructions[0].to_bytes(&symbols),
        Err(AssemblerError::MalformedInstruction)
    );
    // A program skips the records without an opcode.
    assert_eq!(parsed.to_bytes(&symbols), Ok(vec![]));
    let mut assembler = Assembler::new();
    assert_eq!(
        assembler.assemble("load $0 #1 #2\nhlt\nadd #1 #2"),
        Err(vec![AssemblerError::MalformedInstruction, AssemblerError::MalformedInstruction])
    );
}

#[test]
fn symbol_table_finds_the_first_of_a_name() {
    let mut table = SymbolTable::new();
    assert!(!table.has_symbol(&"a".to_string()));
    assert_eq!(table.symbol_value("a"), None);
    let mut a = Symbol::new("a".to_string(), SymbolType::Label);
    a.set_offset(7);
    table.add_symbol(a);
    table.add_symbol(Symbol::new("b".to_string(), SymbolType::Label));
    assert!(table.has_symbol(&"a".to_string()));
    assert_eq!(table.symbol_value("a"), Some(7));
    assert_eq!(table.symbol_value("b"), Some(0));
    table.set_symbol_offset("b".to_string(), 200);
    table.set_symbol_offset("c".to_string(), 1);
    assert_eq!(table.symbol_value("b"), Some(200));
    assert_eq!(table.symbol_value("a"), Some(7));
    assert_eq!(table.symbol_value("c"), None);
    assert_eq!(table.len(), 2);
}

#[test]
fn section_names() {
    assert_eq!(AssemblerSection::from("code"), AssemblerSection::Code);
    assert_eq!(AssemblerSection::from("data"), AssemblerSection::Data);
    assert_eq!(AssemblerSection::from("bss"), AssemblerSection::Unknown);
}

#[test]
fn program_of_hand_made_records() {
    let p = Program {
        instructions: vec![AssemblerInstruction {
            opcode: Some(Token::Op { code: Opcode::ADD }),
            label: None,
            directive: None,
            operand1: None,
            operand2: Some(Token::Register { reg_num: 4 }),
            operand3: Some(Token::Register { reg_num: 5 }),
        }],
    };
    assert_eq!(p.to_bytes(&SymbolTable::new()), Ok(vec![1, 4, 5, 0]));
}

#[test]
fn asciiz_without_a_string_is_only_a_warning() {
    let mut assembler = Assembler::new();
    let image = assembler.assemble(".data\n.asciiz $1\n.code\nhlt").unwrap();
    assert_eq!(image.len(), 68);
    assert_eq!(assembler.warnings(), &vec![AssemblerError::MalformedInstruction]);
}

#[test]
fn label_on_a_section_header_names_the_next_code() {
    let mut assembler = Assembler::new();
    let image = assembler.assemble(".code\nhlt\nmark: .data\njmp @mark").unwrap();
    assert_eq!(assembler.symbols.symbol_value("mark"), Some(4));
    assert_eq!(&image[64..], &[5, 0, 0, 0, 6, 4, 0, 0]);
}

#[test]
fn label_that_is_no_declaration_is_malformed() {
    let p = Program {
        instructions: vec![
            AssemblerInstruction {
                opcode: None,
                label: None,
                directive: Some(Token::Directive { name: "code".to_string() }),
                operand1: None,
                operand2: None,
                operand3: None,
            },
            AssemblerInstruction {
                opcode: Some(Token::Op { code: Opcode::HLT }),
                label: Some(Token::Register { reg_num: 1 }),
                directive: None,
                operand1: None,
                operand2: None,
                operand3: None,
            },
        ],
    };
    assert!(p.instructions[1].is_label());
    assert_eq!(p.instructions[1].label_name(), None);
    assert_eq!(p.instructions[1].get_string_constant(), None);
    assert_eq!(p.to_bytes(&SymbolTable::new()), Ok(vec![5, 0, 0, 0]));
}

#[test]
fn whole_source_is_a_program_or_a_syntax_error() {
    let parsed = program_parsers_parse("hlt\nhlt\n").unwrap();
    assert_eq!(parsed.instructions.len(), 2);
    let failed = program_parsers_parse("hlt\n#oops").unwrap_err();
    assert_eq!(failed.remainder, "#oops");
    let failed = program_parsers_parse("   ").unwrap_err();
    assert_eq!(failed.remainder, "   ");
}

fn program_parsers_parse(
    source: &str,
) -> Result<Program, iridium::assembler::SyntaxError> {
    iridium::assembler::program_parsers::parse(source)
}
