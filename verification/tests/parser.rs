use mvm::assembly::Operand;
use mvm::context::ExecError;
use mvm::opcodes::{Add, Addi, Beq, InstructionRunner, InstructionType, Jal, Lui, Lw, Nop, Sb};
use mvm::parser::{parse, parse_line, ParseError, Parsed};
use mvm::program::Instruction;
use mvm::register::RegisterType;
use mvm::text::{chars_of, decimal, digits, parse_integer, split_at, trimmed};

fn error_of(text: &str) -> ParseError {
    match parse(text.to_string()) {
        Ok(_) => panic!("parsed: {}", text),
        Err(e) => e,
    }
}

fn chars(text: &str) -> Vec<char> {
    text.chars().collect()
}

#[test]
fn parse_reads_instructions_and_labels() {
    let application = parse(
        "# a comment line
        start:
        add t0, t1, t2   # trailing comment

        ADDI $t0, $zero, -5
        beq t0, t1, start
        end:"
            .to_string(),
    )
    .unwrap();
    assert_eq!(application.instructions.len(), 3);
    assert_eq!(
        application.instructions[0],
        Instruction::Add(Add { rd: RegisterType::T0, rs1: RegisterType::T1, rs2: RegisterType::T2 })
    );
    assert_eq!(
        application.instructions[1],
        Instruction::Addi(Addi { imm: -5, rd: RegisterType::T0, rs: RegisterType::ZERO })
    );
    assert_eq!(
        application.instructions[2],
        Instruction::Beq(Beq {
            rs1: RegisterType::T0,
            rs2: RegisterType::T1,
            label: "start".to_string()
        })
    );
    assert_eq!(application.labels.get(&"start".to_string()), Some(0));
    assert_eq!(application.labels.get(&"end".to_string()), Some(12));
    assert_eq!(application.labels.get(&"other".to_string()), None);
    assert_eq!(application.labels.len(), 2);
}

#[test]
fn parse_operand_order() {
    let application = parse(
        "lw t0, 8, sp
        sb t1, 4, gp
        sb t1, -4(gp)
        sb t1 ,  12 ( $a0 )
        jal ra, there
        lui a0, +7"
            .to_string(),
    )
    .unwrap();
    assert_eq!(
        application.instructions[0],
        Instruction::Lw(Lw { rs2: RegisterType::T0, offset: 8, rs1: RegisterType::SP })
    );
    assert_eq!(
        application.instructions[1],
        Instruction::Sb(Sb { rs2: RegisterType::T1, offset: 4, rs1: RegisterType::GP })
    );
    assert_eq!(
        application.instructions[2],
        Instruction::Sb(Sb { rs2: RegisterType::T1, offset: -4, rs1: RegisterType::GP })
    );
    assert_eq!(
        application.instructions[3],
        Instruction::Sb(Sb { rs2: RegisterType::T1, offset: 12, rs1: RegisterType::A0 })
    );
    assert_eq!(
        application.instructions[4],
        Instruction::Jal(Jal { label: "there".to_string(), rd: RegisterType::RA })
    );
    assert_eq!(application.instructions[5], Instruction::Lui(Lui { rd: RegisterType::A0, imm: 7 }));
}

#[test]
fn parse_every_register_name() {
    let names = [
        "zero", "ra", "sp", "gp", "tp", "t0", "t1", "t2", "s0", "s1", "a0", "a1", "a2", "a3", "a4",
        "a5", "a6", "a7", "s2", "s3", "s4", "s5", "s6", "s7", "s8", "s9", "s10", "s11", "t3", "t4",
        "t5", "t6",
    ];
    for (number, name) in names.iter().enumerate() {
        for prefix in ["", "$"] {
            let application = parse(format!("add {}{}, zero, zero", prefix, name)).unwrap();
            match &application.instructions[0] {
                Instruction::Add(add) => assert_eq!(add.rd.index() as usize, number),
                other => panic!("{:?}", other),
            }
        }
    }
}

#[test]
fn parse_every_opcode() {
    let lines = [
        ("add t0, t1, t2", InstructionType::ADD),
        ("addi t0, t1, 1", InstructionType::ADDI),
        ("and t0, t1, t2", InstructionType::AND),
        ("andi t0, t1, 1", InstructionType::ANDI),
        ("auipc t0, 1", InstructionType::AUIPC),
        ("beq t0, t1, x", InstructionType::BEQ),
        ("bge t0, t1, x", InstructionType::BGE),
        ("bgeu t0, t1, x", InstructionType::BGEU),
        ("blt t0, t1, x", InstructionType::BLT),
        ("bltu t0, t1, x", InstructionType::BLTU),
        ("bne t0, t1, x", InstructionType::BNE),
        ("div t0, t1, t2", InstructionType::DIV),
        ("jal t0, x", InstructionType::JAL),
        ("jalr t0, t1, 4", InstructionType::JALR),
        ("lui t0, 1", InstructionType::LUI),
        ("lb t0, 0, t1", InstructionType::LB),
        ("lh t0, 0, t1", InstructionType::LH),
        ("lw t0, 0, t1", InstructionType::LW),
        ("nop", InstructionType::NOP),
        ("mul t0, t1, t2", InstructionType::MUL),
        ("or t0, t1, t2", InstructionType::OR),
        ("ori t0, t1, 1", InstructionType::ORI),
        ("rem t0, t1, t2", InstructionType::REM),
        ("sb t0, 0, t1", InstructionType::SB),
        ("sh t0, 0, t1", InstructionType::SH),
        ("sll t0, t1, t2", InstructionType::SLL),
        ("slli t0, t1, 1", InstructionType::SLLI),
        ("slt t0, t1, t2", InstructionType::SLT),
        ("sltu t0, t1, t2", InstructionType::SLTU),
        ("slti t0, t1, 1", InstructionType::SLTI),
        ("sra t0, t1, t2", InstructionType::SRA),
        ("srai t0, t1, 1", InstructionType::SRAI),
        ("srl t0, t1, t2", InstructionType::SRL),
        ("srli t0, t1, 1", InstructionType::SRLI),
        ("sub t0, t1, t2", InstructionType::SUB),
        ("sw t0, 0, t1", InstructionType::SW),
        ("xor t0, t1, t2", InstructionType::XOR),
        ("xori t0, t1, 1", InstructionType::XORI),
    ];
    for (line, opcode) in lines {
        let application = parse(line.to_string()).unwrap();
        assert_eq!(application.instructions.len(), 1);
        assert_eq!(application.instructions[0].instruction_type(), opcode);
        // The opcode may be written in either case.
        let (word, rest) = match line.find(' ') {
            Some(i) => (&line[..i], &line[i..]),
            None => (line, ""),
        };
        let upper = parse(format!("{}{}", word.to_uppercase(), rest)).unwrap();
        assert_eq!(upper.instructions[0].instruction_type(), opcode);
    }
}

#[test]
fn parse_nop_takes_no_operands_and_ignores_any() {
    let application = parse("nop\nNop whatever, comes\nnop # nothing".to_string()).unwrap();
    assert_eq!(application.instructions.len(), 3);
    for instruction in &application.instructions {
        assert_eq!(*instruction, Instruction::Nop(Nop {}));
    }
}

#[test]
fn parse_errors() {
    assert_eq!(error_of("add"), ParseError::InvalidLine("add".to_string()));
    assert_eq!(error_of("  what  "), ParseError::InvalidLine("what".to_string()));
    assert_eq!(
        error_of("frob t0, t1"),
        ParseError::UnknownInstruction("frob t0, t1".to_string())
    );
    assert_eq!(
        error_of("label: # not a label"),
        ParseError::UnknownInstruction("label: # not a label".to_string())
    );
    assert_eq!(
        error_of("add t0, t1"),
        ParseError::ArgumentCount { min: 3, max: 3, got: 2, text: "t0, t1".to_string() }
    );
    assert_eq!(
        error_of("add # nothing"),
        ParseError::ArgumentCount { min: 3, max: 3, got: 1, text: "".to_string() }
    );
    assert_eq!(
        error_of("sb t0"),
        ParseError::ArgumentCount { min: 2, max: 3, got: 1, text: "t0".to_string() }
    );
    assert_eq!(
        error_of("sb t0, 1, t1, t2"),
        ParseError::ArgumentCount { min: 2, max: 3, got: 4, text: "t0, 1, t1, t2".to_string() }
    );
    assert_eq!(error_of("add t0, t9, t1"), ParseError::UnknownRegister("t9".to_string()));
    assert_eq!(error_of("add T0, t1, t1"), ParseError::UnknownRegister("T0".to_string()));
    assert_eq!(error_of("add $$t0, t1, t1"), ParseError::UnknownRegister("$$t0".to_string()));
    assert_eq!(error_of("addi t0, t1, one"), ParseError::InvalidImmediate("one".to_string()));
    assert_eq!(error_of("addi t0, t1, "), ParseError::InvalidImmediate("".to_string()));
    assert_eq!(
        error_of("addi t0, t1, 2147483648"),
        ParseError::InvalidImmediate("2147483648".to_string())
    );
    assert_eq!(error_of("sb t0, 4 t1"), ParseError::InvalidOffsetRegister("4 t1".to_string()));
    assert_eq!(error_of("sb t0, 4(t1"), ParseError::InvalidOffsetRegister("4(t1".to_string()));
    assert_eq!(error_of("sb t0, x(t1)"), ParseError::InvalidImmediate("x".to_string()));
    assert_eq!(error_of("sb t0, 4(q)"), ParseError::UnknownRegister("q".to_string()));
    // The first fault of the first faulty line is reported.
    assert_eq!(
        error_of("add t0, t1, t2\naddi q, r, s\nfrob"),
        ParseError::UnknownRegister("q".to_string())
    );
}

#[test]
fn parse_accepts_the_bounds_of_immediates() {
    let application = parse("addi t0, zero, 2147483647\naddi t1, zero, -2147483648".to_string())
        .unwrap();
    assert_eq!(
        application.instructions[0],
        Instruction::Addi(Addi { imm: i32::MAX, rd: RegisterType::T0, rs: RegisterType::ZERO })
    );
    assert_eq!(
        application.instructions[1],
        Instruction::Addi(Addi { imm: i32::MIN, rd: RegisterType::T1, rs: RegisterType::ZERO })
    );
}

#[test]
fn parse_a_later_label_replaces_an_earlier_one() {
    let application = parse("x:\nnop\nx:\nnop".to_string()).unwrap();
    assert_eq!(application.labels.get(&"x".to_string()), Some(4));
}

#[test]
fn parse_line_by_line() {
    assert_eq!(parse_line(&chars("   ")).map(|p| matches!(p, Parsed::Nothing)), Ok(true));
    assert_eq!(parse_line(&chars("# add")).map(|p| matches!(p, Parsed::Nothing)), Ok(true));
    match parse_line(&chars("\tloop:\r")) {
        Ok(Parsed::Label(name)) => assert_eq!(name, "loop"),
        _ => panic!(),
    }
    match parse_line(&chars("add\tt0,t1,t2")) {
        Ok(Parsed::Operation(Instruction::Add(add))) => assert_eq!(add.rs2, RegisterType::T2),
        _ => panic!(),
    }
}

#[test]
fn messages() {
    assert_eq!(error_of("add").message(), "invalid line: add");
    assert_eq!(error_of("frob t0").message(), "invalid instruction type: frob t0");
    assert_eq!(
        error_of("add t0, t1").message(),
        "invalid line expected 3 arguments, got 2: t0, t1"
    );
    assert_eq!(
        error_of("sb t0, 1, t1, t2").message(),
        "invalid line expected between 2 and 3 arguments, got 4: t0, 1, t1, t2"
    );
    assert_eq!(error_of("add t0, t9, t1").message(), "unknown register: t9");
    assert_eq!(error_of("addi t0, t1, x").message(), "invalid immediate: x");
    assert_eq!(error_of("sb t0, 4 t1").message(), "invalid offset register: 4 t1");
    assert_eq!(ParseError::TooManyInstructions.message(), "too many instructions");
    assert_eq!(ExecError::UnknownLabel("foo".to_string()).message(), "label foo does not exist");
    assert_eq!(ExecError::DivisionByZero.message(), "division by zero");
    assert_eq!(ExecError::MemoryOutOfRange(-12).message(), "memory access out of range: -12");
    assert_eq!(ExecError::CounterOverflow.message(), "counter overflow");
}

#[test]
fn assemble_builds_the_instruction() {
    let operands = vec![
        Operand::Register(RegisterType::T0),
        Operand::Register(RegisterType::T1),
        Operand::Label("x".to_string()),
    ];
    assert_eq!(
        Instruction::assemble(InstructionType::BEQ, &operands),
        Instruction::Beq(Beq { rs1: RegisterType::T0, rs2: RegisterType::T1, label: "x".to_string() })
    );
}

#[test]
fn text_helpers() {
    assert_eq!(chars_of("héllo"), chars("héllo"));
    assert_eq!(trimmed(&chars(" \t a b \u{a0}\n")), chars("a b"));
    assert_eq!(trimmed(&chars("   ")), chars(""));
    assert_eq!(
        split_at(&chars("a,,b,"), ','),
        vec![chars("a"), chars(""), chars("b"), chars("")]
    );
    assert_eq!(split_at(&chars(""), ','), vec![chars("")]);
    assert_eq!(parse_integer(&chars("0")), Some(0));
    assert_eq!(parse_integer(&chars("-0")), Some(0));
    assert_eq!(parse_integer(&chars("+12")), Some(12));
    assert_eq!(parse_integer(&chars("007")), Some(7));
    assert_eq!(parse_integer(&chars("-2147483648")), Some(i32::MIN));
    assert_eq!(parse_integer(&chars("-2147483649")), None);
    assert_eq!(parse_integer(&chars("99999999999999999999999")), None);
    assert_eq!(parse_integer(&chars("")), None);
    assert_eq!(parse_integer(&chars("-")), None);
    assert_eq!(parse_integer(&chars("1 2")), None);
    assert_eq!(parse_integer(&chars("--1")), None);
    assert_eq!(decimal(0), chars("0"));
    assert_eq!(decimal(-1), chars("-1"));
    assert_eq!(decimal(1234567890123), chars("1234567890123"));
    assert_eq!(decimal(i64::MIN), chars("-9223372036854775808"));
    assert_eq!(digits(u64::MAX), chars("18446744073709551615"));
    for n in [0, 7, -7, 10, 1109, i32::MAX, i32::MIN] {
        assert_eq!(parse_integer(&decimal(n as i64)), Some(n));
    }
}
