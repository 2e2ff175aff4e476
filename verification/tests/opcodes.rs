use mvm::parser::parse;
use mvm::program::Runner;
use mvm::register::RegisterType;

const PRIME_NUMBER: &str = "
    # Is the number in the four cells from address 0 on a prime number?
    # The answer, 1 or 0, goes to the cell at address 4.
    lw t0, 0, zero
    addi a0, zero, 4
    addi t1, zero, 2
    addi t2, zero, 1
    blt t0, t1, composite
    next:
    mul t3, t1, t1
    blt t0, t3, done
    rem t4, t0, t1
    beq t4, zero, composite
    addi t1, t1, 1
    jal zero, next
    composite:
    addi t2, zero, 0
    done:
    sb t2, 0, a0
";

fn check(
    init_registers: &[(RegisterType, i32)],
    memory_bytes: usize,
    init_memory: &[(usize, i8)],
    instructions: &str,
    assertions_registers: &[(RegisterType, i32)],
    assertions_memory: &[(usize, i8)],
) {
    let application = parse(instructions.to_string()).unwrap();
    let mut runner = Runner::new(application, memory_bytes);
    for register in init_registers {
        runner.set_register(register.0, register.1);
    }
    for memory in init_memory {
        assert!(runner.set_memory(memory.0, memory.1));
    }
    runner.run().unwrap();
    for assertion in assertions_registers {
        assert_eq!(runner.context().register(assertion.0), assertion.1);
    }
    for assertion in assertions_memory {
        assert_eq!(runner.context().load(assertion.0), assertion.1);
    }
}

#[test]
fn opcodes_test_prime_number() {
    check(&[], 5, &[(0, 9)], PRIME_NUMBER, &[(RegisterType::A0, 4)], &[(4, 0)]);

    check(&[], 5, &[(0, 13)], PRIME_NUMBER, &[(RegisterType::A0, 4)], &[(4, 1)]);
}

#[test]
fn test_add() {
    check(
        &[(RegisterType::T1, 1), (RegisterType::T2, 2)],
        0,
        &[],
        "add t0, t1, t2",
        &[(RegisterType::T0, 3)],
        &[],
    );
}

#[test]
fn test_addi() {
    check(
        &[(RegisterType::T1, 1)],
        0,
        &[],
        "addi t0, t1, 1",
        &[(RegisterType::T0, 2)],
        &[],
    );
}

#[test]
fn test_and() {
    check(
        &[(RegisterType::T1, 1), (RegisterType::T2, 3)],
        0,
        &[],
        "and t0, t1, t2",
        &[(RegisterType::T0, 1)],
        &[],
    );
}

#[test]
fn test_andi() {
    check(
        &[(RegisterType::T1, 1)],
        0,
        &[],
        "andi t0, t1, 3",
        &[(RegisterType::T0, 1)],
        &[],
    );
}

#[test]
fn test_auipc() {
    check(
        &[],
        0,
        &[],
        "auipc t0, 0
        auipc t0, 0
        auipc t0, 0",
        &[(RegisterType::T0, 8)],
        &[],
    );

    check(
        &[],
        0,
        &[],
        "auipc t0, 1
        auipc t0, 1
        auipc t0, 1",
        &[(RegisterType::T0, 4104)],
        &[],
    );
}

#[test]
fn test_beq() {
    check(
        &[],
        0,
        &[],
        "beq t0, t1, foo
        addi t0, zero, 2
        foo:
        addi t1, zero, 1",
        &[(RegisterType::T0, 0), (RegisterType::T1, 1)],
        &[],
    );

    check(
        &[(RegisterType::T0, 1)],
        0,
        &[],
        "beq t0, t1, foo
        addi t0, zero, 2
        foo:
        addi t1, zero, 1",
        &[(RegisterType::T0, 2), (RegisterType::T1, 1)],
        &[],
    );
}

#[test]
fn test_bge() {
    check(
        &[],
        0,
        &[],
        "bge t0, t1, foo
        addi t0, zero, 2
        foo:
        addi t1, zero, 1",
        &[(RegisterType::T0, 0), (RegisterType::T1, 1)],
        &[],
    );

    check(
        &[(RegisterType::T1, 10)],
        0,
        &[],
        "bge t0, t1, foo
        addi t0, zero, 2
        foo:
        addi t1, zero, 1",
        &[(RegisterType::T0, 2), (RegisterType::T1, 1)],
        &[],
    );
}

#[test]
fn test_bgeu() {
    check(
        &[],
        0,
        &[],
        "bgeu t0, t1, foo
        addi t0, zero, 2
        foo:
        addi t1, zero, 1",
        &[(RegisterType::T0, 0), (RegisterType::T1, 1)],
        &[],
    );

    check(
        &[(RegisterType::T1, 10)],
        0,
        &[],
        "bgeu t0, t1, foo
        addi t0, zero, 2
        foo:
        addi t1, zero, 1",
        &[(RegisterType::T0, 2), (RegisterType::T1, 1)],
        &[],
    );
}

#[test]
fn test_blt() {
    check(
        &[],
        0,
        &[],
        "blt t0, t1, foo
        addi t0, zero, 2
        foo:
        addi t1, zero, 1",
        &[(RegisterType::T0, 2), (RegisterType::T1, 1)],
        &[],
    );

    check(
        &[(RegisterType::T1, 10)],
        0,
        &[],
        "blt t0, t1, foo
        addi t0, zero, 2
        foo:
        addi t1, zero, 1",
        &[(RegisterType::T0, 0), (RegisterType::T1, 1)],
        &[],
    );
}

#[test]
fn test_bltu() {
    check(
        &[],
        0,
        &[],
        "blt t0, t1, foo
        addi t0, zero, 2
        foo:
        addi t1, zero, 1",
        &[(RegisterType::T0, 2), (RegisterType::T1, 1)],
        &[],
    );

    check(
        &[(RegisterType::T1, 10)],
        0,
        &[],
        "blt t0, t1, foo
        addi t0, zero, 2
        foo:
        addi t1, zero, 1",
        &[(RegisterType::T0, 0), (RegisterType::T1, 1)],
        &[],
    );
}

#[test]
fn test_bne() {
    check(
        &[],
        0,
        &[],
        "bne t0, t1, foo
        addi t0, zero, 2
        foo:
        addi t1, zero, 1",
        &[(RegisterType::T0, 2), (RegisterType::T1, 1)],
        &[],
    );

    check(
        &[(RegisterType::T0, 1)],
        0,
        &[],
        "bne t0, t1, foo
        addi t0, zero, 2
        foo:
        addi t1, zero, 1",
        &[(RegisterType::T0, 1), (RegisterType::T1, 1)],
        &[],
    );
}

#[test]
fn test_div() {
    check(
        &[(RegisterType::T1, 4), (RegisterType::T2, 2)],
        0,
        &[],
        "div t0, t1, t2",
        &[(RegisterType::T0, 2)],
        &[],
    );

    check(
        &[(RegisterType::T1, 4), (RegisterType::T2, 3)],
        0,
        &[],
        "div t0, t1, t2",
        &[(RegisterType::T0, 1)],
        &[],
    );
}

#[test]
fn test_jal() {
    check(
        &[],
        0,
        &[],
        "jal t0, foo
        addi t1, zero, 1
        foo:            
        addi t2, zero, 2",
        &[(RegisterType::T0, 4), (RegisterType::T1, 0), (RegisterType::T2, 2)],
        &[],
    );
}

#[test]
fn test_jalr() {
    check(
        &[],
        0,
        &[],
        "addi t1, zero, 4
        jalr t0, t1, 8
        foo:            
        addi t2, zero, 2
        addi t1, zero, 2",
        &[(RegisterType::T0, 8), (RegisterType::T1, 2), (RegisterType::T2, 0)],
        &[],
    );
}

#[test]
fn test_lui() {
    check(
        &[],
        0,
        &[],
        "lui t0, 0",
        &[(RegisterType::T0, 0)],
        &[],
    );

    check(
        &[],
        0,
        &[],
        "lui t0, 1",
        &[(RegisterType::T0, 4096)],
        &[],
    );

    check(
        &[],
        0,
        &[],
        "lui t0, 3",
        &[(RegisterType::T0, 12288)],
        &[],
    );
}

#[test]
fn test_mul() {
    check(
        &[(RegisterType::T1, 4), (RegisterType::T2, 2)],
        0,
        &[],
        "mul t0, t1, t2",
        &[(RegisterType::T0, 8)],
        &[],
    );
}

#[test]
fn test_or() {
    check(
        &[(RegisterType::T1, 1), (RegisterType::T2, 2)],
        0,
        &[],
        "or t0, t1, t2",
        &[(RegisterType::T0, 3)],
        &[],
    );
}

#[test]
fn test_ori() {
    check(
        &[(RegisterType::T1, 1)],
        0,
        &[],
        "ori t0, t1, 2",
        &[(RegisterType::T0, 3)],
        &[],
    );
}

#[test]
fn rem() {
    check(
        &[(RegisterType::T1, 4), (RegisterType::T2, 2)],
        0,
        &[],
        "rem t0, t1, t2",
        &[(RegisterType::T0, 0)],
        &[],
    );

    check(
        &[(RegisterType::T1, 4), (RegisterType::T2, 3)],
        0,
        &[],
        "rem t0, t1, t2",
        &[(RegisterType::T0, 1)],
        &[],
    );
}

#[test]
fn test_sll() {
    check(
        &[(RegisterType::T1, 1), (RegisterType::T2, 2)],
        0,
        &[],
        "sll t0, t1, t2",
        &[(RegisterType::T0, 4)],
        &[],
    );
}

#[test]
fn test_slli() {
    check(
        &[(RegisterType::T1, 1)],
        0,
        &[],
        "slli t0, t1, 2",
        &[(RegisterType::T0, 4)],
        &[],
    );
}

#[test]
fn test_slt() {
    check(
        &[(RegisterType::T1, 2), (RegisterType::T2, 3)],
        0,
        &[],
        "slt t0, t1, t2",
        &[(RegisterType::T0, 1)],
        &[],
    );
}

#[test]
fn test_slti() {
    check(
        &[(RegisterType::T1, 2)],
        0,
        &[],
        "slti t0, t1, 5",
        &[(RegisterType::T0, 1)],
        &[],
    );
}

#[test]
fn test_sltu() {
    check(
        &[(RegisterType::T1, 2), (RegisterType::T2, 3)],
        0,
        &[],
        "sltu t0, t1, t2",
        &[(RegisterType::T0, 1)],
        &[],
    );
}

#[test]
fn test_sra() {
    check(
        &[(RegisterType::T1, 2), (RegisterType::T2, 1)],
        0,
        &[],
        "sra t0, t1, t2",
        &[(RegisterType::T0, 1)],
        &[],
    );
}

#[test]
fn test_srai() {
    check(
        &[(RegisterType::T1, 2)],
        0,
        &[],
        "srai t0, t1, 1",
        &[(RegisterType::T0, 1)],
        &[],
    );
}

#[test]
fn test_srl() {
    check(
        &[(RegisterType::T1, 4), (RegisterType::T2, 2)],
        0,
        &[],
        "srl t0, t1, t2",
        &[(RegisterType::T0, 1)],
        &[],
    );
}

#[test]
fn test_srli() {
    check(
        &[(RegisterType::T1, 4)],
        0,
        &[],
        "srli t0, t1, 2",
        &[(RegisterType::T0, 1)],
        &[],
    );
}

#[test]
fn test_sub() {
    check(
        &[(RegisterType::T1, 10), (RegisterType::T2, 6)],
        0,
        &[],
        "sub t0, t1, t2",
        &[(RegisterType::T0, 4)],
        &[],
    );
}

#[test]
fn test_sb_lb() {
    check(
        &[(RegisterType::T0, 16), (RegisterType::T1, 2)],
        8,
        &[],
        "sb t0, 2, t1
        lb t2, 2, t1",
        &[(RegisterType::T2, 16)],
        &[(4, 16)],
    );

    check(
        &[(RegisterType::T0, 2047), (RegisterType::T1, 2)],
        8,
        &[],
        "sb t0, 2, t1
        lb t2, 2, t1",
        &[(RegisterType::T2, -1)],
        &[(4, -1)],
    );
}

#[test]
fn test_sh_lh() {
    check(
        &[(RegisterType::T0, 64), (RegisterType::T1, 2)],
        8,
        &[(4, 1), (5, 1)],
        "sh t0, 2, t1
        lh t2, 2, t1",
        &[(RegisterType::T2, 64)],
        &[(4, 64), (5, 0)],
    );

    check(
        &[(RegisterType::T0, 2047), (RegisterType::T1, 2)],
        8,
        &[(4, 1), (5, 1)],
        "sh t0, 2, t1
        lh t2, 2, t1",
        &[(RegisterType::T2, 2047)],
        &[(4, -1), (5, 7)],
    );
}

#[test]
fn test_sw_lw() {
    check(
        &[(RegisterType::T0, 258), (RegisterType::T1, 2)],
        8,
        &[(4, 1), (5, 1), (6, 1), (7, 1)],
        "sw t0, 2, t1
        lw t2, 2, t1",
        &[(RegisterType::T2, 258)],
        &[(4, 2), (5, 1), (6, 0), (7, 0)],
    );

    check(
        &[(RegisterType::T0, 2047), (RegisterType::T1, 2)],
        8,
        &[(4, 1), (5, 1), (6, 1), (7, 1)],
        "sw t0, 2, t1
        lw t2, 2, t1",
        &[(RegisterType::T2, 2047)],
        &[(4, -1), (5, 7), (6, 0), (7, 0)],
    );
}

#[test]
fn test_xor() {
    check(
        &[(RegisterType::T1, 3), (RegisterType::T2, 4)],
        0,
        &[],
        "xor t0, t1, t2",
        &[(RegisterType::T0, 7)],
        &[],
    );
}

#[test]
fn test_xori() {
    check(
        &[(RegisterType::T1, 3)],
        0,
        &[],
        "xori t0, t1, 4",
        &[(RegisterType::T0, 7)],
        &[],
    );
}

#[test]
fn test_zero() {
    check(
        &[],
        0,
        &[],
        "addi zero, zero, 1",
        &[(RegisterType::ZERO, 0)],
        &[],
    );
}
