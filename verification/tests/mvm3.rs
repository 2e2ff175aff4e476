use mvm::bit::bytes_from_low_bits;
use mvm::context::ExecError;
use mvm::mvm1::Mvm1;
use mvm::mvm2::Mvm2;
use mvm::mvm3::Mvm3;
use mvm::parser::parse;
use mvm::register::RegisterType;

const PRIME_NUMBER: &str = "
    lw t0, 0, zero
    addi a0, zero, 4
    addi t1, zero, 2
    addi t2, zero, 1
    blt t0, t1, composite
    next:
    mul t3, t1, t1
    blt t0, t3, done
    rem t4, t0, t1
    beq t4, zero, composite
    addi t1, t1, 1
    jal zero, next
    composite:
    addi t2, zero, 0
    done:
    sb t2, 0, a0
";

const REGISTERS: [RegisterType; 32] = [
    RegisterType::ZERO,
    RegisterType::RA,
    RegisterType::SP,
    RegisterType::GP,
    RegisterType::TP,
    RegisterType::T0,
    RegisterType::T1,
    RegisterType::T2,
    RegisterType::S0,
    RegisterType::S1,
    RegisterType::A0,
    RegisterType::A1,
    RegisterType::A2,
    RegisterType::A3,
    RegisterType::A4,
    RegisterType::A5,
    RegisterType::A6,
    RegisterType::A7,
    RegisterType::S2,
    RegisterType::S3,
    RegisterType::S4,
    RegisterType::S5,
    RegisterType::S6,
    RegisterType::S7,
    RegisterType::S8,
    RegisterType::S9,
    RegisterType::S10,
    RegisterType::S11,
    RegisterType::T3,
    RegisterType::T4,
    RegisterType::T5,
    RegisterType::T6,
];

fn check(
    init_registers: &[(RegisterType, i32)],
    memory_bytes: usize,
    init_memory: &[(usize, i8)],
    instructions: &str,
    assertions_registers: &[(RegisterType, i32)],
    assertions_memory: &[(usize, i8)],
    expected_cycles: u64,
) {
    let application = parse(instructions.to_string()).unwrap();
    let mut runner = Mvm3::new(memory_bytes);
    for register in init_registers {
        runner.set_register(register.0, register.1);
    }
    for memory in init_memory {
        assert!(runner.set_memory(memory.0, memory.1));
    }
    let cycles = runner.run(&application).unwrap();
    assert_eq!(expected_cycles, cycles);
    for assertion in assertions_registers {
        assert_eq!(assertion.1, runner.context().register(assertion.0));
    }
    for assertion in assertions_memory {
        assert_eq!(assertion.1, runner.context().load(assertion.0));
    }
}

/// Runs `instructions` on the three machines and checks that they leave the
/// same registers and memory.
fn agree(init_registers: &[(RegisterType, i32)], memory_bytes: usize, init_memory: &[(usize, i8)], instructions: &str) {
    let application = parse(instructions.to_string()).unwrap();
    let mut vm1 = Mvm1::new(memory_bytes);
    let mut vm2 = Mvm2::new(memory_bytes);
    let mut vm3 = Mvm3::new(memory_bytes);
    for register in init_registers {
        vm1.set_register(register.0, register.1);
        vm2.set_register(register.0, register.1);
        vm3.set_register(register.0, register.1);
    }
    for memory in init_memory {
        assert!(vm1.set_memory(memory.0, memory.1));
        assert!(vm2.set_memory(memory.0, memory.1));
        assert!(vm3.set_memory(memory.0, memory.1));
    }
    vm1.run(&application).unwrap();
    vm2.run(&application).unwrap();
    vm3.run(&application).unwrap();
    for register in REGISTERS {
        assert_eq!(vm1.context().register(register), vm2.context().register(register));
        assert_eq!(vm1.context().register(register), vm3.context().register(register));
    }
    for address in 0..memory_bytes {
        assert_eq!(vm1.context().load(address), vm2.context().load(address));
        assert_eq!(vm1.context().load(address), vm3.context().load(address));
    }
    assert_eq!(vm1.context().pc(), vm2.context().pc());
    assert_eq!(vm1.context().pc(), vm3.context().pc());
}

#[test]
fn test_pipelining_simple() {
    check(&[], 0, &[], "addi t0, zero, 1", &[(RegisterType::T0, 1)], &[], 54);
}

#[test]
fn test_pipelining_multiple() {
    check(
        &[],
        0,
        &[],
        "addi t0, zero, 1
            addi t1, zero, 2
            addi t2, zero, 3",
        &[(RegisterType::T0, 1), (RegisterType::T1, 2), (RegisterType::T2, 3)],
        &[],
        56,
    );
}

#[test]
fn test_pipelining_jal() {
    check(
        &[],
        0,
        &[],
        "addi t0, zero, 1
            jal t2, foo
            addi t1, zero, 2
            foo:
            addi t2, zero, 3",
        &[(RegisterType::T0, 1), (RegisterType::T1, 0), (RegisterType::T2, 3)],
        &[],
        59,
    );
}

#[test]
fn test_pipelining_conditional_branching_true() {
    check(
        &[],
        0,
        &[],
        "addi t0, zero, 1
            addi t1, zero, 1
            beq t0, t1, foo
            addi t1, zero, 2
            foo:
            addi t2, zero, 3",
        &[(RegisterType::T0, 1), (RegisterType::T1, 1), (RegisterType::T2, 3)],
        &[],
        61,
    );
}

#[test]
fn test_pipelining_conditional_branching_false() {
    check(
        &[],
        0,
        &[],
        "addi t0, zero, 0
            addi t1, zero, 1
            beq t0, t1, foo
            addi t1, zero, 2
            foo:
            addi t2, zero, 3",
        &[(RegisterType::T0, 0), (RegisterType::T1, 2), (RegisterType::T2, 3)],
        &[],
        59,
    );
}

#[test]
fn test_mvm3_prime_number() {
    let bits = bytes_from_low_bits(1109);
    let application = parse(PRIME_NUMBER.to_string()).unwrap();
    let mut vm = Mvm3::new(5);
    assert!(vm.set_memory(0, bits.0));
    assert!(vm.set_memory(1, bits.1));
    assert!(vm.set_memory(2, bits.2));
    assert!(vm.set_memory(3, bits.3));
    let cycles = vm.run(&application).unwrap();
    assert!(cycles > 0);
    assert_eq!(vm.context().register(RegisterType::A0), 4);
    assert_eq!(vm.context().load(4), 1);
}

#[test]
fn mvm3_prime_number_composite() {
    let application = parse(PRIME_NUMBER.to_string()).unwrap();
    let mut vm = Mvm3::new(5);
    assert!(vm.set_memory(0, 9));
    vm.run(&application).unwrap();
    assert_eq!(vm.context().register(RegisterType::A0), 4);
    assert_eq!(vm.context().load(4), 0);
}

#[test]
fn machines_agree_on_prime_number() {
    let bits = bytes_from_low_bits(1109);
    agree(&[], 5, &[(0, bits.0), (1, bits.1), (2, bits.2), (3, bits.3)], PRIME_NUMBER);
    agree(&[], 5, &[(0, 9)], PRIME_NUMBER);
    agree(&[], 5, &[(0, 1)], PRIME_NUMBER);
}

#[test]
fn machines_agree_on_hazards() {
    // Each instruction reads what the one before it wrote.
    agree(
        &[(RegisterType::T0, 3)],
        8,
        &[],
        "addi t1, t0, 1
        add t2, t1, t1
        sw t2, 0, zero
        lw t3, 0, zero
        addi t3, t3, 1
        sh t3, 4, zero
        lh t4, 4, zero
        sub t4, t4, t0",
    );
}

#[test]
fn machines_agree_on_branches_of_every_kind() {
    for (a, b) in [(0, 0), (1, 2), (2, 1), (-1, 1), (1, -1)] {
        for opcode in ["beq", "bne", "blt", "bltu", "bge", "bgeu"] {
            let text = format!(
                "{} t0, t1, over
                addi t2, zero, 7
                over:
                addi t3, zero, 9",
                opcode
            );
            agree(&[(RegisterType::T0, a), (RegisterType::T1, b)], 0, &[], &text);
        }
    }
}

#[test]
fn machines_agree_on_jump_past_the_end() {
    agree(
        &[],
        0,
        &[],
        "addi t0, zero, 1
        jal ra, end
        addi t0, zero, 2
        end:",
    );
    agree(&[(RegisterType::T1, 400)], 0, &[], "jalr ra, t1, 0");
    agree(&[(RegisterType::T1, -8)], 0, &[], "jalr ra, t1, 0");
}

#[test]
fn machines_agree_on_a_loop() {
    agree(
        &[],
        0,
        &[],
        "addi t0, zero, 10
        again:
        addi t1, t1, 3
        addi t0, t0, -1
        bne t0, zero, again
        add t2, t1, t1",
    );
}

#[test]
fn pipeline_runs_the_empty_program() {
    let application = parse(String::new()).unwrap();
    let mut vm = Mvm3::new(0);
    assert_eq!(vm.run(&application), Ok(1));
    assert!(vm.is_complete());
}

#[test]
fn pipeline_reports_an_unknown_label() {
    let application = parse("addi t0, zero, 1\njal ra, nowhere".to_string()).unwrap();
    let mut vm = Mvm3::new(0);
    assert_eq!(vm.run(&application), Err(ExecError::UnknownLabel("nowhere".to_string())));
    // The instruction before the fault was executed; its result is still on
    // its way to the register.
    assert_eq!(vm.context().pc(), 4);
}

#[test]
fn pipeline_stalls_on_a_register_in_flight() {
    // The second instruction reads t0 while its write is in flight: one
    // cycle more than for two independent instructions.
    let independent = parse("addi t0, zero, 1\naddi t1, zero, 2".to_string()).unwrap();
    let dependent = parse("addi t0, zero, 1\naddi t1, t0, 2".to_string()).unwrap();
    let mut first = Mvm3::new(0);
    let mut second = Mvm3::new(0);
    assert_eq!(first.run(&independent), Ok(55));
    assert_eq!(second.run(&dependent), Ok(56));
    assert_eq!(second.context().register(RegisterType::T1), 3);
}

#[test]
fn pipeline_charges_fifty_cycles_for_memory() {
    let application = parse("sw t0, 0, zero".to_string()).unwrap();
    let mut vm = Mvm3::new(4);
    vm.set_register(RegisterType::T0, 258);
    assert_eq!(vm.run(&application), Ok(54 + 49));
    assert_eq!(vm.context().load(0), 2);
    assert_eq!(vm.context().load(1), 1);
}

#[test]
fn zero_stays_zero_on_every_machine() {
    let text = "addi zero, zero, 1\nlui zero, 5\njal zero, end\nend:\nadd t0, zero, zero";
    let application = parse(text.to_string()).unwrap();
    let mut vm1 = Mvm1::new(0);
    let mut vm2 = Mvm2::new(0);
    let mut vm3 = Mvm3::new(0);
    vm1.set_register(RegisterType::ZERO, 5);
    vm2.set_register(RegisterType::ZERO, 5);
    vm3.set_register(RegisterType::ZERO, 5);
    vm1.run(&application).unwrap();
    vm2.run(&application).unwrap();
    vm3.run(&application).unwrap();
    assert_eq!(vm1.context().register(RegisterType::ZERO), 0);
    assert_eq!(vm2.context().register(RegisterType::ZERO), 0);
    assert_eq!(vm3.context().register(RegisterType::ZERO), 0);
    assert_eq!(vm3.context().register(RegisterType::T0), 0);
}
