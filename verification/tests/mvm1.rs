use mvm::bit::bytes_from_low_bits;
use mvm::context::ExecError;
use mvm::mvm1::Mvm1;
use mvm::mvm2::Mvm2;
use mvm::parser::parse;
use mvm::register::RegisterType;

const PRIME_NUMBER: &str = "
    lw t0, 0, zero
    addi a0, zero, 4
    addi t1, zero, 2
    addi t2, zero, 1
    blt t0, t1, composite
    next:
    mul t3, t1, t1
    blt t0, t3, done
    rem t4, t0, t1
    beq t4, zero, composite
    addi t1, t1, 1
    jal zero, next
    composite:
    addi t2, zero, 0
    done:
    sb t2, 0, a0
";

fn prime_on_mvm1(n: i32) -> (Mvm1, u64) {
    let bits = bytes_from_low_bits(n);
    let application = parse(PRIME_NUMBER.to_string()).unwrap();
    let mut vm = Mvm1::new(5);
    assert!(vm.set_memory(0, bits.0));
    assert!(vm.set_memory(1, bits.1));
    assert!(vm.set_memory(2, bits.2));
    assert!(vm.set_memory(3, bits.3));
    let cycles = vm.run(&application).unwrap();
    (vm, cycles)
}

fn prime_on_mvm2(n: i32) -> (Mvm2, u64) {
    let bits = bytes_from_low_bits(n);
    let application = parse(PRIME_NUMBER.to_string()).unwrap();
    let mut vm = Mvm2::new(5);
    assert!(vm.set_memory(0, bits.0));
    assert!(vm.set_memory(1, bits.1));
    assert!(vm.set_memory(2, bits.2));
    assert!(vm.set_memory(3, bits.3));
    let cycles = vm.run(&application).unwrap();
    (vm, cycles)
}

#[test]
fn mvm1_test_prime_number() {
    let (vm, _) = prime_on_mvm1(1109);
    assert_eq!(vm.context().register(RegisterType::A0), 4);
    assert_eq!(vm.context().load(4), 1);
}

#[test]
fn mvm2_test_prime_number() {
    let (vm, _) = prime_on_mvm2(1109);
    assert_eq!(vm.context().register(RegisterType::A0), 4);
    assert_eq!(vm.context().load(4), 1);
}

#[test]
fn test_mvm1_prime_number() {
    let (vm, cycles) = prime_on_mvm1(1109);
    assert_eq!(vm.cycles(), cycles);
    assert!(cycles > 0);
}

#[test]
fn test_mvm2_prime_number() {
    let (vm, cycles) = prime_on_mvm2(1109);
    assert_eq!(vm.cycles(), cycles);
    assert!(cycles > 0);
}

#[test]
fn prime_number_composite_input() {
    let (vm, _) = prime_on_mvm1(9);
    assert_eq!(vm.context().register(RegisterType::A0), 4);
    assert_eq!(vm.context().load(4), 0);
    let (vm, _) = prime_on_mvm2(9);
    assert_eq!(vm.context().register(RegisterType::A0), 4);
    assert_eq!(vm.context().load(4), 0);
}

#[test]
fn mvm1_counts_every_step() {
    // Fetch 50, decode 1, execute 1, write-back 1.
    let application = parse("addi t0, zero, 1".to_string()).unwrap();
    let mut vm = Mvm1::new(0);
    assert_eq!(vm.run(&application), Ok(53));
    // A store executes in 50 cycles and has no write-back.
    let application = parse("sb t0, 0, zero".to_string()).unwrap();
    let mut vm = Mvm1::new(1);
    assert_eq!(vm.run(&application), Ok(101));
    // A load executes in 50 cycles and has one.
    let application = parse("lb t0, 0, zero".to_string()).unwrap();
    let mut vm = Mvm1::new(1);
    assert_eq!(vm.run(&application), Ok(102));
    // The empty program takes no time.
    let application = parse(String::new()).unwrap();
    let mut vm = Mvm1::new(0);
    assert_eq!(vm.run(&application), Ok(0));
}

#[test]
fn mvm2_fetches_from_its_cache_line() {
    // A miss costs 51 cycles and brings in the addresses pc to pc + 64; the
    // sixteen instructions after it are hits of 1 cycle each.
    let mut text = String::new();
    for _ in 0..18 {
        text.push_str("addi t0, t0, 1\n");
    }
    let application = parse(text).unwrap();
    let mut vm = Mvm2::new(0);
    // 18 times decode, execute and write-back, 2 misses, 16 hits.
    assert_eq!(vm.run(&application), Ok(18 * 3 + 2 * 51 + 16));
    assert_eq!(vm.context().register(RegisterType::T0), 18);
}

#[test]
fn mvm1_nop() {
    let application = parse("nop\nNOP\naddi t0, zero, 1".to_string()).unwrap();
    let mut vm = Mvm1::new(0);
    assert_eq!(vm.run(&application), Ok(3 * 53));
    assert_eq!(vm.context().register(RegisterType::T0), 1);
    assert_eq!(vm.context().pc(), 12);
}

#[test]
fn run_reports_faults() {
    let application = parse("beq t0, t1, nowhere".to_string()).unwrap();
    let mut vm = Mvm1::new(0);
    assert_eq!(vm.run(&application), Err(ExecError::UnknownLabel("nowhere".to_string())));
    // Fetch and decode were counted; nothing else happened.
    assert_eq!(vm.cycles(), 51);
    assert_eq!(vm.context().pc(), 0);

    // A branch that is not taken does not look its label up.
    let application = parse("bne t0, t1, nowhere".to_string()).unwrap();
    let mut vm = Mvm1::new(0);
    assert_eq!(vm.run(&application), Ok(53));

    let application = parse("div t0, t1, t2".to_string()).unwrap();
    let mut vm = Mvm2::new(0);
    vm.set_register(RegisterType::T1, 7);
    assert_eq!(vm.run(&application), Err(ExecError::DivisionByZero));

    let application = parse("rem t0, t1, t2".to_string()).unwrap();
    let mut vm = Mvm2::new(0);
    assert_eq!(vm.run(&application), Err(ExecError::DivisionByZero));

    let application = parse("lw t0, 1, zero".to_string()).unwrap();
    let mut vm = Mvm1::new(4);
    assert_eq!(vm.run(&application), Err(ExecError::MemoryOutOfRange(1)));

    let application = parse("sb t0, -1, zero".to_string()).unwrap();
    let mut vm = Mvm1::new(4);
    assert_eq!(vm.run(&application), Err(ExecError::MemoryOutOfRange(-1)));
}

#[test]
fn arithmetic_wraps() {
    let application = parse(
        "add t2, t0, t1
        sub t3, t1, t0
        mul t4, t0, t0
        div t5, t1, t6
        rem a0, t1, t6
        slli a1, t0, 33
        srai a2, t1, 31
        srli a3, t1, 31
        sltu a4, t1, t0"
            .to_string(),
    )
    .unwrap();
    let mut vm = Mvm1::new(0);
    vm.set_register(RegisterType::T0, i32::MAX);
    vm.set_register(RegisterType::T1, i32::MIN);
    vm.set_register(RegisterType::T6, -1);
    vm.run(&application).unwrap();
    assert_eq!(vm.context().register(RegisterType::T2), -1);
    assert_eq!(vm.context().register(RegisterType::T3), 1);
    assert_eq!(vm.context().register(RegisterType::T4), 1);
    assert_eq!(vm.context().register(RegisterType::T5), i32::MIN);
    assert_eq!(vm.context().register(RegisterType::A0), 0);
    assert_eq!(vm.context().register(RegisterType::A1), -2);
    assert_eq!(vm.context().register(RegisterType::A2), -1);
    assert_eq!(vm.context().register(RegisterType::A3), -1);
    assert_eq!(vm.context().register(RegisterType::A4), 1);
}

#[test]
fn store_then_load_gives_the_value_back() {
    for n in [0, 1, -1, 258, 2047, -2048, 65535, 65536, i32::MAX, i32::MIN, 0x1234_5678] {
        let application = parse(
            "sw t0, 0, zero
            lw t1, 0, zero
            sh t0, 4, zero
            lh t2, 4, zero
            sb t0, 6, zero
            lb t3, 6, zero"
                .to_string(),
        )
        .unwrap();
        let mut vm = Mvm1::new(7);
        vm.set_register(RegisterType::T0, n);
        vm.run(&application).unwrap();
        assert_eq!(vm.context().register(RegisterType::T1), n);
        assert_eq!(vm.context().register(RegisterType::T2), n & 0xffff);
        assert_eq!(vm.context().register(RegisterType::T3), n as i8 as i32);
    }
}

fn on_mvm1(
    init_registers: &[(RegisterType, i32)],
    memory_bytes: usize,
    init_memory: &[(usize, i8)],
    instructions: &str,
) -> Mvm1 {
    let application = parse(instructions.to_string()).unwrap();
    let mut vm = Mvm1::new(memory_bytes);
    for register in init_registers {
        vm.set_register(register.0, register.1);
    }
    for memory in init_memory {
        assert!(vm.set_memory(memory.0, memory.1));
    }
    vm.run(&application).unwrap();
    vm
}

#[test]
fn every_register_opcode_on_mvm1() {
    let (t0, t1, t2) = (RegisterType::T0, RegisterType::T1, RegisterType::T2);
    let cases: [(&str, i32, i32, i32); 21] = [
        ("add t0, t1, t2", 5, -7, -2),
        ("sub t0, t1, t2", 5, -7, 12),
        ("mul t0, t1, t2", 5, -7, -35),
        ("div t0, t1, t2", -7, 2, -3),
        ("rem t0, t1, t2", -7, 2, -1),
        ("and t0, t1, t2", 12, 10, 8),
        ("or t0, t1, t2", 12, 10, 14),
        ("xor t0, t1, t2", 12, 10, 6),
        ("sll t0, t1, t2", 3, 4, 48),
        ("srl t0, t1, t2", -16, 2, -4),
        ("sra t0, t1, t2", -16, 2, -4),
        ("slt t0, t1, t2", -1, 1, 1),
        ("sltu t0, t1, t2", -1, 1, 1),
        ("addi t0, t1, -3", 5, 0, 2),
        ("andi t0, t1, 6", 12, 0, 4),
        ("ori t0, t1, 3", 12, 0, 15),
        ("xori t0, t1, 5", 12, 0, 9),
        ("slli t0, t1, 3", 3, 0, 24),
        ("srli t0, t1, 1", -16, 0, -8),
        ("srai t0, t1, 1", -16, 0, -8),
        ("slti t0, t1, 6", 5, 0, 1),
    ];
    for (text, a, b, expected) in cases {
        let vm = on_mvm1(&[(t1, a), (t2, b)], 0, &[], text);
        assert_eq!(vm.context().register(t0), expected, "{}", text);
        assert_eq!(vm.context().pc(), 4);
        assert_eq!(vm.cycles(), 53);
    }
}

#[test]
fn every_other_opcode_on_mvm1() {
    let (ra, t0, t1, t2) =
        (RegisterType::RA, RegisterType::T0, RegisterType::T1, RegisterType::T2);
    let vm = on_mvm1(&[], 0, &[], "lui t0, 2");
    assert_eq!(vm.context().register(t0), 8192);
    let vm = on_mvm1(&[], 0, &[], "nop\nauipc t0, 1");
    assert_eq!(vm.context().register(t0), 4100);
    let vm = on_mvm1(&[], 0, &[], "nop");
    assert_eq!(vm.context().pc(), 4);
    assert_eq!(vm.cycles(), 53);

    let vm = on_mvm1(&[], 0, &[], "jal ra, over\naddi t0, zero, 1\nover:");
    assert_eq!(vm.context().register(ra), 4);
    assert_eq!(vm.context().register(t0), 0);
    assert_eq!(vm.context().pc(), 8);
    let vm = on_mvm1(&[(t1, 4)], 0, &[], "jalr ra, t1, 4\naddi t0, zero, 1");
    assert_eq!(vm.context().register(ra), 4);
    assert_eq!(vm.context().register(t0), 0);
    assert_eq!(vm.context().pc(), 8);

    let branches: [(&str, i32, i32, bool); 12] = [
        ("beq", 3, 3, true),
        ("beq", 3, 4, false),
        ("bne", 3, 4, true),
        ("bne", 3, 3, false),
        ("blt", -1, 0, true),
        ("blt", 0, 0, false),
        ("bltu", -1, 0, true),
        ("bltu", 0, -1, false),
        ("bge", 0, 0, true),
        ("bge", -1, 0, false),
        ("bgeu", 0, -1, true),
        ("bgeu", -1, 0, false),
    ];
    for (opcode, a, b, taken) in branches {
        let text = format!("{} t1, t2, over\naddi t0, zero, 1\nover:", opcode);
        let vm = on_mvm1(&[(t1, a), (t2, b)], 0, &[], &text);
        assert_eq!(vm.context().register(t0) == 0, taken, "{} {} {}", opcode, a, b);
        assert_eq!(vm.context().pc(), 8);
    }

    let vm = on_mvm1(&[(t1, 1)], 4, &[(3, -2)], "lb t0, 2, t1");
    assert_eq!(vm.context().register(t0), -2);
    assert_eq!(vm.cycles(), 102);
    let vm = on_mvm1(&[(t1, 1)], 4, &[(2, -2), (3, 1)], "lh t0, 1, t1");
    assert_eq!(vm.context().register(t0), 510);
    let vm = on_mvm1(&[], 4, &[(0, 4), (1, 3), (2, 2), (3, 1)], "lw t0, 0, zero");
    assert_eq!(vm.context().register(t0), 0x0102_0304);

    let vm = on_mvm1(&[(t0, 0x0102_0384)], 4, &[], "sb t0, 1, zero");
    assert_eq!(vm.context().load(0), 0);
    assert_eq!(vm.context().load(1), -124);
    assert_eq!(vm.context().load(2), 0);
    assert_eq!(vm.cycles(), 101);
    let vm = on_mvm1(&[(t0, 0x0102_0384)], 4, &[], "sh t0, 1, zero");
    assert_eq!(vm.context().load(1), -124);
    assert_eq!(vm.context().load(2), 3);
    assert_eq!(vm.context().load(3), 0);
    let vm = on_mvm1(&[(t0, 0x0102_0384)], 4, &[], "sw t0, 0, zero");
    assert_eq!(vm.context().load(0), -124);
    assert_eq!(vm.context().load(1), 3);
    assert_eq!(vm.context().load(2), 2);
    assert_eq!(vm.context().load(3), 1);
}
