use synthia::assembler::assembler_errors::AssemblerError;
use synthia::assembler::directive_parsers::{directive, directive_combined};
use synthia::assembler::instruction_parsers::{instruction, instruction_combined, AssemblerInstruction};
use synthia::assembler::label_parsers::{label_declaration, label_usage};
use synthia::assembler::opcode_parsers::opcode;
use synthia::assembler::operand_parsers::{integer_operand, operand, systring};
use synthia::assembler::program_parsers::{program, Program};
use synthia::assembler::register_parsers::register;
use synthia::assembler::symbols::{Symbol, SymbolTable, SymbolType};
use synthia::assembler::{
    Assembler, AssemblerPhase, AssemblerSection, NoMatch, Token, PIE_HEADER_PREFIX,
};
use synthia::instruction::Opcode;
use synthia::vm::{Outcome, VM};

#[test]
fn test_string_directive() {
    let result = directive_combined("test: .asciiz 'Hello'");
    assert!(result.is_ok());
    let (_, directive) = result.unwrap();

    let correct_instruction = AssemblerInstruction {
        opcode: None,
        label: Some(Token::LabelDeclaration {
            name: "test".to_string(),
        }),
        directive: Some(Token::Directive {
            name: "asciiz".to_string(),
        }),
        operand1: Some(Token::SyString {
            name: "Hello".to_string(),
        }),
        operand2: None,
        operand3: None,
    };
    assert_eq!(directive, correct_instruction);
}

#[test]
fn test_parse_instruction_form_one() {
    let result = instruction("load $0 @test1\n");
    assert_eq!(
        result,
        Ok((
            "",
            AssemblerInstruction {
                opcode: Some(Token::Op { code: Opcode::LOAD }),
                label: None,
                directive: None,
                operand1: Some(Token::Register { reg_num: 0 }),
                operand2: Some(Token::LabelUsage {
                    name: "test1".to_string()
                }),
                operand3: None
            }
        ))
    )
}

#[test]
fn test_parse_instruction_form_two() {
    let result = instruction("hlt");
    assert_eq!(
        result,
        Ok((
            "",
            AssemblerInstruction {
                opcode: Some(Token::Op { code: Opcode::HLT }),
                label: None,
                directive: None,
                operand1: None,
                operand2: None,
                operand3: None
            }
        ))
    )
}

#[test]
fn test_parse_instructions_form_three() {
    let result = instruction("add $0 $1 $2");
    assert_eq!(
        result,
        Ok((
            "",
            AssemblerInstruction {
                opcode: Some(Token::Op { code: Opcode::ADD }),
                label: None,
                directive: None,
                operand1: Some(Token::Register { reg_num: 0 }),
                operand2: Some(Token::Register { reg_num: 1 }),
                operand3: Some(Token::Register { reg_num: 2 })
            }
        ))
    )
}

#[test]
fn test_directive() {
    let result = instruction(".data\nhello: .asciiz 'Hello'\n.code\nhlt");
    assert!(result.is_ok());
}

#[test]
fn test_parse_label_declaration() {
    let input = "test:";
    let expected_token = Token::LabelDeclaration {
        name: "test".to_string(),
    };
    let result = label_declaration(input);
    assert_eq!(result, Ok(("", expected_token)));
}

#[test]
fn test_parse_label_usage() {
    let input = "@test";
    let expected_token = Token::LabelUsage {
        name: "test".to_string(),
    };
    let result = label_usage(input);
    assert_eq!(result, Ok(("", expected_token)));
}

#[test]
fn test_assemble_program() {
    let mut assembler = Assembler::new();
    let test_string =
        ".data\n.code\nload $0 #100\nload $1 #1\nload $2 #0\ntest: inc $0\nneq $0 $2\njmpe @test\nhlt";
    let program = assembler.assemble(test_string).unwrap();
    let mut vm = VM::new();
    assert_eq!(program.len(), 93);
    vm.add_bytes(program);
    assert_eq!(vm.program.len(), 93);
}

#[test]
fn test_opcode_load() {
    let result = opcode("load");
    assert_eq!(result, Ok(("", Token::Op { code: Opcode::LOAD })));
    let result = opcode("aold");
    assert_eq!(result, Ok(("", Token::Op { code: Opcode::IGL })));
}

#[test]
fn test_parse_integar_operand() {
    let result = integer_operand("#10");
    assert_eq!(result, Ok(("", Token::IntegerOperand { value: 10 })));
    let result = integer_operand("10");
    assert_ne!(result, Ok(("", Token::IntegerOperand { value: 10 })));
    let result = integer_operand("#a");
    assert!(result.is_err());
}

#[test]
fn test_parse_string_single_quotes() {
    let result = systring("'hello'");
    assert!(result.is_ok());
}

#[test]
fn test_parse_string_double_quotes() {
    let result = systring("\"hello\"");
    assert!(result.is_ok());
}

#[test]
fn test_parse_program() {
    let result = program("load $0 #100\n");
    assert_eq!(result.is_ok(), true);
    let (_, program) = result.unwrap();
    assert_eq!(program.instructions.len(), 1);
}

#[test]
fn test_program_to_bytes() {
    let result = program("load $0 #100\n");
    assert_eq!(result.is_ok(), true);
    let (_, program) = result.unwrap();
    let symbols = SymbolTable::new();
    let bytecode = program.to_bytes(&symbols);
    assert_eq!(bytecode.len(), 4);
    println!("{:?}", bytecode)
}

#[test]
fn test_complete_program() {
    let test_program = ".data\nhello: .ascizz 'Hello Everyone!'\n.code\nhlt";
    let result = program(test_program);
    assert!(result.is_ok());
}

#[test]
fn test_parse_register() {
    let result = register("$0");
    assert_eq!(result, Ok(("", Token::Register { reg_num: 0 })));
    let result = register("0");
    assert!(result.is_err());
    let result = register("$a");
    assert!(result.is_err());
}

#[test]
fn test_symbol_table() {
    let mut sym = SymbolTable::new();
    let new_symbol = Symbol::new_with_offset("test".to_string(), SymbolType::Label, 12);
    sym.add_symbol(new_symbol);
    assert_eq!(sym.len(), 1);
    let v = sym.symbol_value("test");
    assert_eq!(true, v.is_some());
    let v = v.unwrap();
    assert_eq!(v, 12);
    let v = sym.symbol_value("does_not_exist");
    assert_eq!(false, v.is_some());
}

fn code(op: Opcode, o1: Option<Token>, o2: Option<Token>, o3: Option<Token>) -> AssemblerInstruction {
    AssemblerInstruction {
        opcode: Some(Token::Op { code: op }),
        label: None,
        directive: None,
        operand1: o1,
        operand2: o2,
        operand3: o3,
    }
}

fn reg(n: u8) -> Option<Token> {
    Some(Token::Register { reg_num: n })
}

fn imm(v: i32) -> Option<Token> {
    Some(Token::IntegerOperand { value: v })
}

fn usage(name: &str) -> Option<Token> {
    Some(Token::LabelUsage { name: name.to_string() })
}

#[test]
fn symbols_are_added_once() {
    let mut table = SymbolTable::new();
    assert!(!table.has_symbol("a"));
    table.add_symbol(Symbol::new("a".to_string(), SymbolType::Label));
    table.add_symbol(Symbol::new_with_offset("a".to_string(), SymbolType::Integer, 7));
    assert_eq!(table.len(), 1);
    assert!(table.has_symbol("a"));
    assert_eq!(table.symbol_value("a"), None);
    table.add_symbol(Symbol::new("b".to_string(), SymbolType::Label));
    assert_eq!(table.len(), 2);
    assert!(table.set_symbol_offset("b", 9));
    assert!(!table.set_symbol_offset("c", 9));
    assert_eq!(table.symbol_value("b"), Some(9));
    assert_eq!(table.symbol_value("a"), None);
    assert!(table.set_symbol_offset("a", 1));
    assert!(table.set_symbol_offset("a", 2));
    assert_eq!(table.symbol_value("a"), Some(2));
    assert_eq!(table.symbol_value("A"), None);
    assert_eq!(table.len(), 2);
}

#[test]
fn every_opcode_has_its_code_and_its_mnemonic() {
    let table: [(u8, &str, Opcode); 23] = [
        (0, "load", Opcode::LOAD),
        (1, "add", Opcode::ADD),
        (2, "sub", Opcode::SUB),
        (3, "mul", Opcode::MUL),
        (4, "div", Opcode::DIV),
        (5, "hlt", Opcode::HLT),
        (6, "jmp", Opcode::JMP),
        (7, "jmpf", Opcode::JMPF),
        (9, "jmpb", Opcode::JMPB),
        (10, "eq", Opcode::EQ),
        (11, "neq", Opcode::NEQ),
        (12, "gt", Opcode::GT),
        (13, "lt", Opcode::LT),
        (14, "gte", Opcode::GTE),
        (15, "lte", Opcode::LTE),
        (16, "jeq", Opcode::JEQ),
        (17, "jneq", Opcode::JNEQ),
        (18, "aloc", Opcode::ALOC),
        (19, "inc", Opcode::INC),
        (20, "dec", Opcode::DEC),
        (21, "djmpe", Opcode::DJMPE),
        (22, "nop", Opcode::NOP),
        (23, "prts", Opcode::PRTS),
    ];
    for (code, mnemonic, op) in table {
        assert_eq!(Opcode::from(code), op);
        assert_eq!(op.code(), code);
        assert_eq!(Opcode::from(mnemonic), op);
    }
    assert_eq!(Opcode::from(8u8), Opcode::IGL);
    for code in 24..=255u8 {
        assert_eq!(Opcode::from(code), Opcode::IGL);
    }
    assert_eq!(Opcode::from(Opcode::IGL.code()), Opcode::IGL);
    assert_eq!(Opcode::from("LOAD"), Opcode::IGL);
    assert_eq!(Opcode::from("jmpe"), Opcode::IGL);
    assert_eq!(Opcode::from(""), Opcode::IGL);
    assert_eq!(Opcode::from("loads"), Opcode::IGL);
}

#[test]
fn instructions_are_written_as_four_bytes() {
    let mut symbols = SymbolTable::new();
    symbols.add_symbol(Symbol::new_with_offset("far".to_string(), SymbolType::Label, 0x0001_0203));
    symbols.add_symbol(Symbol::new("open".to_string(), SymbolType::Label));

    assert_eq!(code(Opcode::LOAD, reg(0), imm(500), None).to_bytes(&symbols), vec![0, 0, 1, 244]);
    assert_eq!(code(Opcode::ADD, reg(0), reg(1), reg(2)).to_bytes(&symbols), vec![1, 0, 1, 2]);
    assert_eq!(code(Opcode::HLT, None, None, None).to_bytes(&symbols), vec![5, 0, 0, 0]);
    assert_eq!(code(Opcode::LOAD, reg(31), imm(65535), None).to_bytes(&symbols), vec![0, 31, 255, 255]);
    assert_eq!(code(Opcode::LOAD, reg(1), imm(65536 + 258), None).to_bytes(&symbols), vec![0, 1, 1, 2]);
    assert_eq!(code(Opcode::LOAD, reg(1), imm(-1), None).to_bytes(&symbols), vec![0, 1, 255, 255]);
    assert_eq!(code(Opcode::LOAD, reg(1), imm(-2), None).to_bytes(&symbols), vec![0, 1, 255, 254]);
    assert_eq!(code(Opcode::PRTS, usage("far"), None, None).to_bytes(&symbols), vec![23, 2, 3, 0]);
    assert_eq!(code(Opcode::JEQ, usage("open"), reg(9), None).to_bytes(&symbols), vec![16, 0, 0, 9]);
    assert_eq!(code(Opcode::JEQ, usage("none"), reg(9), None).to_bytes(&symbols), vec![16, 0, 0, 9]);
    assert_eq!(code(Opcode::IGL, None, None, None).to_bytes(&symbols), vec![24, 0, 0, 0]);
    assert_eq!(code(Opcode::LOAD, imm(1), imm(2), imm(3)).to_bytes(&symbols), vec![0, 0, 1, 0]);
    assert_eq!(code(Opcode::LOAD, reg(1), reg(2), imm(0x0304)).to_bytes(&symbols), vec![0, 1, 2, 3]);
    assert_eq!(
        code(Opcode::PRTS, Some(Token::SyString { name: "x".to_string() }), reg(4), None)
            .to_bytes(&symbols),
        vec![23, 4, 0, 0]
    );
    let no_opcode = AssemblerInstruction {
        opcode: None,
        label: None,
        directive: Some(Token::Directive { name: "data".to_string() }),
        operand1: reg(7),
        operand2: None,
        operand3: None,
    };
    assert_eq!(no_opcode.to_bytes(&symbols), vec![7, 0, 0, 0]);
    let odd_opcode = AssemblerInstruction {
        opcode: reg(3),
        label: None,
        directive: None,
        operand1: reg(7),
        operand2: None,
        operand3: None,
    };
    assert_eq!(odd_opcode.to_bytes(&symbols), vec![7, 0, 0, 0]);
}

#[test]
fn programs_are_written_instruction_by_instruction() {
    let symbols = SymbolTable::new();
    let program = Program {
        instructions: vec![
            code(Opcode::LOAD, reg(0), imm(100), None),
            code(Opcode::INC, reg(0), None, None),
            code(Opcode::HLT, None, None, None),
        ],
    };
    assert_eq!(program.to_bytes(&symbols), vec![0, 0, 0, 100, 19, 0, 0, 0, 5, 0, 0, 0]);
    assert_eq!(Program { instructions: vec![] }.to_bytes(&symbols), Vec::<u8>::new());
}

#[test]
fn instruction_accessors() {
    let i = AssemblerInstruction {
        opcode: None,
        label: Some(Token::LabelDeclaration { name: "l".to_string() }),
        directive: Some(Token::Directive { name: "asciiz".to_string() }),
        operand1: Some(Token::SyString { name: "text".to_string() }),
        operand2: None,
        operand3: None,
    };
    assert!(i.is_label());
    assert!(i.is_directive());
    assert!(!i.is_opcode());
    assert!(i.has_operands());
    assert_eq!(i.get_label_name(), Some("l".to_string()));
    assert_eq!(i.get_directive_name(), Some("asciiz".to_string()));
    assert_eq!(i.get_string_constant(), Some("text".to_string()));

    let j = AssemblerInstruction {
        opcode: Some(Token::Op { code: Opcode::HLT }),
        label: Some(Token::Register { reg_num: 1 }),
        directive: Some(Token::Register { reg_num: 1 }),
        operand1: None,
        operand2: None,
        operand3: Some(Token::Register { reg_num: 1 }),
    };
    assert!(j.is_label());
    assert!(j.is_directive());
    assert!(j.is_opcode());
    assert!(j.has_operands());
    assert_eq!(j.get_label_name(), None);
    assert_eq!(j.get_directive_name(), None);
    assert_eq!(j.get_string_constant(), None);

    let k = code(Opcode::NOP, None, None, None);
    assert!(!k.is_label());
    assert!(!k.is_directive());
    assert!(!k.has_operands());
}

#[test]
fn parsers_hand_back_the_rest() {
    assert_eq!(opcode("load $1"), Ok((" $1", Token::Op { code: Opcode::LOAD })));
    assert_eq!(opcode("$1"), Err(NoMatch));
    assert_eq!(opcode(""), Err(NoMatch));
    assert_eq!(register("$255 x"), Ok((" x", Token::Register { reg_num: 255 })));
    assert_eq!(register("$256"), Err(NoMatch));
    assert_eq!(register("$007"), Ok(("", Token::Register { reg_num: 7 })));
    assert_eq!(register("$"), Err(NoMatch));
    assert_eq!(
        integer_operand("#2147483647"),
        Ok(("", Token::IntegerOperand { value: i32::MAX }))
    );
    assert_eq!(integer_operand("#2147483648"), Err(NoMatch));
    assert_eq!(integer_operand("#99999999999999999999999999"), Err(NoMatch));
    assert_eq!(integer_operand("#12ab"), Ok(("ab", Token::IntegerOperand { value: 12 })));
    assert_eq!(
        label_declaration("  \n name1:  \t\nrest"),
        Ok(("rest", Token::LabelDeclaration { name: "name1".to_string() }))
    );
    assert_eq!(label_declaration("name :"), Err(NoMatch));
    assert_eq!(label_declaration(":"), Err(NoMatch));
    assert_eq!(
        label_usage(" \t@there\n\nnext"),
        Ok(("\nnext", Token::LabelUsage { name: "there".to_string() }))
    );
    assert_eq!(label_usage("@"), Err(NoMatch));
    assert_eq!(label_usage("@ x"), Err(NoMatch));
    assert_eq!(systring("''"), Ok(("", Token::SyString { name: "".to_string() })));
    assert_eq!(systring("'a\""), Err(NoMatch));
    assert_eq!(systring("\"a1\"'"), Ok(("'", Token::SyString { name: "a1".to_string() })));
    assert_eq!(systring("'a b'"), Err(NoMatch));
    assert_eq!(operand("#1"), Ok(("", Token::IntegerOperand { value: 1 })));
    assert_eq!(operand("$1"), Ok(("", Token::Register { reg_num: 1 })));
    assert_eq!(operand(" @l"), Ok(("", Token::LabelUsage { name: "l".to_string() })));
    assert_eq!(operand("'s'"), Ok(("", Token::SyString { name: "s".to_string() })));
    assert_eq!(operand(" $1"), Err(NoMatch));
    assert_eq!(operand("x"), Err(NoMatch));
    assert_eq!(opcode("l\u{e9}a"), Ok(("\u{e9}a", Token::Op { code: Opcode::IGL })));
    assert_eq!(
        label_declaration("a\u{161}:"),
        Err(NoMatch)
    );
}

#[test]
fn instructions_in_both_forms() {
    let (rest, i) = instruction("start: load $1 #2 @x\n  next").unwrap();
    assert_eq!(rest, "next");
    assert_eq!(
        i,
        AssemblerInstruction {
            opcode: Some(Token::Op { code: Opcode::LOAD }),
            label: Some(Token::LabelDeclaration { name: "start".to_string() }),
            directive: None,
            operand1: reg(1),
            operand2: imm(2),
            operand3: usage("x"),
        }
    );
    let (rest, i) = instruction_combined("hlt $1 $2 $3 $4").unwrap();
    assert_eq!(rest, "$4");
    assert_eq!(i, code(Opcode::HLT, reg(1), reg(2), reg(3)));
    assert!(instruction_combined(".data").is_err());
    assert!(instruction_combined("").is_err());
    assert!(instruction("#1").is_err());

    let (rest, d) = directive(".data\n.code").unwrap();
    assert_eq!(rest, ".code");
    assert_eq!(
        d,
        AssemblerInstruction {
            opcode: None,
            label: None,
            directive: Some(Token::Directive { name: "data".to_string() }),
            operand1: None,
            operand2: None,
            operand3: None,
        }
    );
    let (rest, d) = directive("s: .asciiz 'a' \"b\" #3 $4").unwrap();
    assert_eq!(rest, " $4");
    assert_eq!(d.operand3, imm(3));
    assert!(directive("load").is_err());
    assert!(directive(". data").is_err());
}

#[test]
fn programs_stop_at_what_is_no_instruction() {
    let (rest, p) = program("load $0 #1\nhlt\n#junk").unwrap();
    assert_eq!(rest, "#junk");
    assert_eq!(p.instructions.len(), 2);
    assert_eq!(program(""), Err(NoMatch));
    assert_eq!(program("  "), Err(NoMatch));
    assert_eq!(program("#1"), Err(NoMatch));
    let (rest, p) = program(".data\nhello: .ascizz 'Hello Everyone!'\n.code\nhlt").unwrap();
    assert_eq!(rest, "'Hello Everyone!'\n.code\nhlt");
    assert_eq!(p.instructions.len(), 2);
}

#[test]
fn sections_by_name() {
    assert_eq!(AssemblerSection::from("data"), AssemblerSection::Data { starting_instruction: None });
    assert_eq!(AssemblerSection::from("code"), AssemblerSection::Code { starting_instruction: None });
    assert_eq!(AssemblerSection::from("text"), AssemblerSection::Unknown);
    assert_eq!(AssemblerSection::from("Data"), AssemblerSection::Unknown);
    assert_eq!(AssemblerSection::default(), AssemblerSection::Unknown);
    assert_eq!(AssemblerPhase::default(), AssemblerPhase::First);
}

#[test]
fn images_open_with_the_header() {
    let mut assembler = Assembler::new();
    let image = assembler.assemble(".data\n.code\nhlt").unwrap();
    assert_eq!(image.len(), 65 + 4);
    assert_eq!(&image[0..4], &PIE_HEADER_PREFIX);
    assert_eq!(&image[0..4], &[0x2D, 0x32, 0x31, 0x2D]);
    assert!(image[4..65].iter().all(|b| *b == 0));
    assert_eq!(&image[65..], &[5, 0, 0, 0]);
    assert_eq!(assembler.phase, AssemblerPhase::Second);
}

#[test]
fn basic_loop_is_assembled_and_run() {
    let mut assembler = Assembler::new();
    let source =
        ".data\n.code\nload $0 #100\nload $1 #1\nload $2 #0\ntest: inc $0\nneq $0 $2\njmpe @test\nhlt";
    let image = assembler.assemble(source).unwrap();
    assert_eq!(image.len(), 93);
    assert_eq!(
        &image[65..],
        &[
            0, 0, 0, 100, 0, 1, 0, 1, 0, 2, 0, 0, 19, 0, 0, 0, 11, 0, 2, 0, 24, 0, 0, 0, 5, 0, 0,
            0
        ]
    );
    assert!(assembler.symbols.has_symbol("test"));
    assert_eq!(assembler.symbols.symbol_value("test"), None);
    let mut vm = VM::new();
    vm.add_bytes(image);
    assert_eq!(vm.run(1000), Outcome::Illegal);
    assert_eq!(vm.registers[0], 101);
    assert_eq!(vm.registers[1], 1);
    assert_eq!(vm.equal_flag, true);
    assert_eq!(vm.pc, 65 + 21);
}

#[test]
fn a_program_runs_to_hlt() {
    let mut assembler = Assembler::new();
    let image = assembler
        .assemble(".data\n.code\nload $0 #7\nload $1 #5\nmul $0 $1 $2\nhlt\ninc $2")
        .unwrap();
    let mut vm = VM::new();
    vm.add_bytes(image);
    assert_eq!(vm.run(1000), Outcome::Halted);
    assert_eq!(vm.registers[2], 35);
}

#[test]
fn missing_sections_are_reported() {
    let mut assembler = Assembler::new();
    assert_eq!(assembler.assemble("hlt"), Err(vec![AssemblerError::InsufficientSections]));
    assert_eq!(
        assembler.assemble("here: hlt"),
        Err(vec![
            AssemblerError::NoSegmentDeclarationFound { instruction: 0 },
            AssemblerError::InsufficientSections
        ])
    );
    assert_eq!(
        assembler.assemble("hlt\nnop\nhere: hlt\n.data"),
        Err(vec![
            AssemblerError::NoSegmentDeclarationFound { instruction: 2 },
            AssemblerError::InsufficientSections
        ])
    );
    assert_eq!(assembler.assemble(".code\nhlt"), Err(vec![AssemblerError::InsufficientSections]));
    assert_eq!(assembler.assemble(".data\n.bss\nhlt"), Err(vec![AssemblerError::InsufficientSections]));
    assert!(assembler.assemble(".data\n.code\n.data\nhlt").is_ok());
}

#[test]
fn every_error_has_an_input() {
    let mut assembler = Assembler::new();
    assert_eq!(
        assembler.assemble("#1"),
        Err(vec![AssemblerError::ParseError {
            error: "no instruction at the start of the text".to_string()
        }])
    );
    assert_eq!(
        assembler.assemble(""),
        Err(vec![AssemblerError::ParseError {
            error: "no instruction at the start of the text".to_string()
        }])
    );
    assert_eq!(
        assembler.assemble(".data\n.code\na: hlt\na: hlt"),
        Err(vec![AssemblerError::SymbolAlreadyDeclared])
    );
    assert_eq!(assembler.symbols.len(), 1);
    assert_eq!(
        assembler.assemble(".data\n.word #1\n.code\nhlt"),
        Err(vec![AssemblerError::UnknownDirectiveFound { directive: "word".to_string() }])
    );
    assert_eq!(
        assembler.assemble(".data\n.asciiz 'a'\n.code\nhlt"),
        Err(vec![AssemblerError::StringConstantDeclaredWithoutLabel { instruction: 1 }])
    );
    assert_eq!(assembler.ro, Vec::<u8>::new());
    assert_eq!(
        assembler.assemble("x: .word #1\n.asciiz 'a'\nx: hlt"),
        Err(vec![
            AssemblerError::NoSegmentDeclarationFound { instruction: 0 },
            AssemblerError::UnknownDirectiveFound { directive: "word".to_string() },
            AssemblerError::StringConstantDeclaredWithoutLabel { instruction: 1 },
            AssemblerError::NoSegmentDeclarationFound { instruction: 2 },
            AssemblerError::InsufficientSections,
        ])
    );
}

#[test]
fn a_label_is_declared_once() {
    let labelled = |name: &str| AssemblerInstruction {
        opcode: Some(Token::Op { code: Opcode::HLT }),
        label: Some(Token::LabelDeclaration { name: name.to_string() }),
        directive: None,
        operand1: None,
        operand2: None,
        operand3: None,
    };
    let mut assembler = Assembler::new();
    assembler.process_label_declarations(&labelled("a"));
    assert!(assembler.errors.is_empty());
    assert_eq!(assembler.symbols.len(), 1);
    assert!(assembler.symbols.set_symbol_offset("a", 5));
    assembler.process_label_declarations(&labelled("a"));
    assert_eq!(assembler.errors, vec![AssemblerError::SymbolAlreadyDeclared]);
    assert_eq!(assembler.symbols.len(), 1);
    assert_eq!(assembler.symbols.symbol_value("a"), Some(5));
    assembler.process_label_declarations(&labelled("b"));
    assert_eq!(assembler.errors, vec![AssemblerError::SymbolAlreadyDeclared]);
    assert_eq!(assembler.symbols.len(), 2);
    assert_eq!(assembler.symbols.symbol_value("b"), None);
    assembler.current_instruction = 7;
    assembler.process_label_declarations(&code(Opcode::HLT, None, None, None));
    assert_eq!(
        assembler.errors,
        vec![
            AssemblerError::SymbolAlreadyDeclared,
            AssemblerError::StringConstantDeclaredWithoutLabel { instruction: 7 }
        ]
    );
    assert_eq!(assembler.symbols.len(), 2);
}

#[test]
fn strings_go_to_the_read_only_data() {
    let mut assembler = Assembler::new();
    let image = assembler
        .assemble(".data\nhello: .asciiz 'Hello'\nbye: .asciiz 'Bye'\n.code\nprts @bye\nprts @hello\nhlt")
        .unwrap();
    assert_eq!(assembler.ro, vec![72, 101, 108, 108, 111, 0, 66, 121, 101, 0]);
    assert_eq!(assembler.symbols.symbol_value("hello"), Some(0));
    assert_eq!(assembler.symbols.symbol_value("bye"), Some(6));
    assert_eq!(&image[65..], &[23, 0, 6, 0, 23, 0, 0, 0, 5, 0, 0, 0]);

    let mut vm = VM::new();
    vm.add_bytes(image);
    vm.ro_data = assembler.ro.clone();
    vm.pc = 65;
    assert_eq!(vm.step(), Outcome::Continue);
    assert_eq!(vm.output, b"Bye".to_vec());
    assert_eq!(vm.pc, 68);
}

#[test]
fn every_call_starts_afresh() {
    let mut assembler = Assembler::new();
    assert!(assembler.assemble("a: hlt").is_err());
    let first = assembler.assemble(".data\ns: .asciiz 'x'\n.code\nl: hlt").unwrap();
    let second = assembler.assemble(".data\ns: .asciiz 'x'\n.code\nl: hlt").unwrap();
    assert_eq!(first, second);
    assert_eq!(assembler.ro, vec![120, 0]);
    assert_eq!(assembler.symbols.len(), 2);
    assert_eq!(assembler.sections.len(), 2);
    assert!(assembler.errors.is_empty());
}

#[test]
fn load_then_read_gives_the_number_back() {
    for r in [0u8, 1, 17, 31] {
        for v in [0i32, 1, 255, 256, 500, 32767, 32768, 65535] {
            let bytes = code(Opcode::LOAD, reg(r), imm(v), None).to_bytes(&SymbolTable::new());
            let mut vm = VM::new();
            vm.add_bytes(bytes);
            assert_eq!(vm.step(), Outcome::Continue);
            assert_eq!(vm.registers[r as usize], v);
        }
    }
}
