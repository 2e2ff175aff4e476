use mvm::bit::{bytes_from_low_bits, i32_from_bytes};
use mvm::bus::Bus;
use mvm::cache::CacheLine;
use mvm::context::{Context, ExecError, Execution};
use mvm::labels::Labels;
use mvm::mvm3::{BranchUnit, DecodeUnit, ExecuteUnit, FetchUnit, WriteUnit};
use mvm::opcodes::{
    conditional_branching, cycles_per_instruction, jump, write_back, Add, InstructionRunner,
    InstructionType, Jal, Jalr, Sw,
};
use mvm::parser::parse;
use mvm::program::Runner;
use mvm::register::{RegisterFile, RegisterType};
use mvm::scoreboard::Scoreboard;

#[test]
fn bytes_of_a_word() {
    assert_eq!(bytes_from_low_bits(0), (0, 0, 0, 0));
    assert_eq!(bytes_from_low_bits(1), (1, 0, 0, 0));
    assert_eq!(bytes_from_low_bits(258), (2, 1, 0, 0));
    assert_eq!(bytes_from_low_bits(2047), (-1, 7, 0, 0));
    assert_eq!(bytes_from_low_bits(-1), (-1, -1, -1, -1));
    assert_eq!(bytes_from_low_bits(0x1234_5678), (0x78, 0x56, 0x34, 0x12));
    assert_eq!(bytes_from_low_bits(i32::MIN), (0, 0, 0, -128));
    assert_eq!(bytes_from_low_bits(1109), (85, 4, 0, 0));
}

#[test]
fn word_of_bytes() {
    assert_eq!(i32_from_bytes(0, 0, 0, 0), 0);
    assert_eq!(i32_from_bytes(2, 1, 0, 0), 258);
    assert_eq!(i32_from_bytes(-1, 7, 0, 0), 2047);
    assert_eq!(i32_from_bytes(-1, -1, -1, -1), -1);
    assert_eq!(i32_from_bytes(0, 0, 0, -128), i32::MIN);
    assert_eq!(i32_from_bytes(-1, 0, 0, 0), 255);
    for n in [0, 1, -1, 255, 256, -256, 65535, 0x7fff_ffff, i32::MIN, 0x0102_0304] {
        let b = bytes_from_low_bits(n);
        assert_eq!(i32_from_bytes(b.0, b.1, b.2, b.3), n);
    }
}

#[test]
fn register_file_keeps_values_apart() {
    let mut file = RegisterFile::new();
    assert_eq!(file.get(RegisterType::T6), 0);
    file.set(RegisterType::T6, -3);
    file.set(RegisterType::RA, 7);
    file.set(RegisterType::ZERO, 9);
    assert_eq!(file.get(RegisterType::T6), -3);
    assert_eq!(file.get(RegisterType::RA), 7);
    assert_eq!(file.get(RegisterType::ZERO), 0);
    assert_eq!(file.get(RegisterType::SP), 0);
    assert_eq!(RegisterType::ZERO.index(), 0);
    assert_eq!(RegisterType::S0.index(), 8);
    assert_eq!(RegisterType::A0.index(), 10);
    assert_eq!(RegisterType::S2.index(), 18);
    assert_eq!(RegisterType::T6.index(), 31);
}

#[test]
fn context_starts_zeroed() {
    let mut ctx = Context::new(3);
    assert_eq!(ctx.memory_len(), 3);
    assert_eq!(ctx.pc(), 0);
    assert_eq!(ctx.load(2), 0);
    assert_eq!(ctx.register(RegisterType::A7), 0);
    ctx.store(2, -5);
    ctx.set_pc(8);
    ctx.write(&Execution { pc: 0, register: RegisterType::A7, value: 11 });
    ctx.write(&Execution { pc: 0, register: RegisterType::ZERO, value: 11 });
    assert_eq!(ctx.load(2), -5);
    assert_eq!(ctx.pc(), 8);
    assert_eq!(ctx.register(RegisterType::A7), 11);
    assert_eq!(ctx.register(RegisterType::ZERO), 0);
}

#[test]
fn labels_look_up_the_latest_definition() {
    let mut labels = Labels::new();
    assert_eq!(labels.get(&"a".to_string()), None);
    labels.insert("a".to_string(), 4);
    labels.insert("b".to_string(), 8);
    labels.insert("a".to_string(), 12);
    assert_eq!(labels.get(&"a".to_string()), Some(12));
    assert_eq!(labels.get(&"b".to_string()), Some(8));
    assert_eq!(labels.get(&"".to_string()), None);
    assert_eq!(labels.len(), 3);
}

#[test]
fn opcode_classes() {
    assert_eq!(cycles_per_instruction(InstructionType::ADD), 1);
    assert_eq!(cycles_per_instruction(InstructionType::JAL), 1);
    assert_eq!(cycles_per_instruction(InstructionType::BEQ), 1);
    assert_eq!(cycles_per_instruction(InstructionType::NOP), 1);
    for opcode in [InstructionType::LB, InstructionType::LH, InstructionType::LW] {
        assert_eq!(cycles_per_instruction(opcode), 50);
        assert!(write_back(opcode));
    }
    for opcode in [InstructionType::SB, InstructionType::SH, InstructionType::SW] {
        assert_eq!(cycles_per_instruction(opcode), 50);
        assert!(!write_back(opcode));
    }
    assert!(write_back(InstructionType::ADD));
    assert!(write_back(InstructionType::BEQ));
    assert!(jump(InstructionType::JAL));
    assert!(jump(InstructionType::JALR));
    assert!(!jump(InstructionType::BEQ));
    for opcode in [
        InstructionType::BEQ,
        InstructionType::BNE,
        InstructionType::BLT,
        InstructionType::BLTU,
        InstructionType::BGE,
        InstructionType::BGEU,
    ] {
        assert!(conditional_branching(opcode));
    }
    assert!(!conditional_branching(InstructionType::JAL));
    assert!(!conditional_branching(InstructionType::ADD));
}

#[test]
fn run_hands_the_write_back() {
    let mut ctx = Context::new(4);
    let labels = Labels::new();
    ctx.set_register(RegisterType::T1, 1);
    ctx.set_register(RegisterType::T2, 2);
    ctx.set_pc(8);
    let add = Add { rd: RegisterType::T0, rs1: RegisterType::T1, rs2: RegisterType::T2 };
    assert_eq!(
        add.run(&mut ctx, &labels),
        Ok(Execution { pc: 12, register: RegisterType::T0, value: 3 })
    );
    // The register is written by whoever commits the execution.
    assert_eq!(ctx.register(RegisterType::T0), 0);
    assert_eq!(ctx.pc(), 8);
    assert_eq!(add.read_registers(), vec![RegisterType::T1, RegisterType::T2]);
    assert_eq!(add.write_registers(), vec![RegisterType::T0]);

    let store = Sw { rs2: RegisterType::T2, offset: 0, rs1: RegisterType::ZERO };
    assert_eq!(
        store.run(&mut ctx, &labels),
        Ok(Execution { pc: 12, register: RegisterType::ZERO, value: 0 })
    );
    assert_eq!(ctx.load(0), 2);
    assert_eq!(store.write_registers(), vec![]);

    let jump = Jal { label: "x".to_string(), rd: RegisterType::RA };
    assert_eq!(jump.run(&mut ctx, &labels), Err(ExecError::UnknownLabel("x".to_string())));

    // The target of jalr is computed from the register as it was.
    ctx.set_register(RegisterType::RA, 100);
    let back = Jalr { rd: RegisterType::RA, rs: RegisterType::RA, imm: 4 };
    assert_eq!(
        back.run(&mut ctx, &labels),
        Ok(Execution { pc: 104, register: RegisterType::RA, value: 12 })
    );
}

#[test]
fn runner_counts_instructions() {
    let application = parse("addi t0, zero, 3\nagain:\naddi t0, t0, -1\nbne t0, zero, again".to_string())
        .unwrap();
    let mut runner = Runner::new(application, 0);
    assert_eq!(runner.run(), Ok(()));
    assert_eq!(runner.executed(), 7);
    assert_eq!(runner.context().pc(), 12);
    assert!(!runner.set_memory(0, 1));
}

#[test]
fn cache_line_holds_an_interval() {
    let mut line = CacheLine::empty();
    assert!(!line.present(0));
    line.fetch(8, 64);
    assert_eq!(line, CacheLine { lo: 8, hi: 72 });
    assert!(line.present(8));
    assert!(line.present(72));
    assert!(!line.present(4));
    assert!(!line.present(76));
    line.fetch(i32::MAX, 512);
    assert!(line.present(i32::MAX));
}

#[test]
fn bus_delays_by_one_cycle() {
    let mut bus = Bus::new(1);
    assert!(bus.is_empty());
    assert!(!bus.is_full());
    bus.add((7, 70));
    assert!(bus.contains_element_in_entry());
    assert!(!bus.contains_element_in_queue());
    assert!(bus.is_full());
    // The connect of the cycle in which the item was written.
    bus.connect();
    assert!(bus.contains_element_in_buffer());
    assert!(!bus.contains_element_in_entry());
    assert!(!bus.contains_element_in_queue());
    assert!(!bus.is_full());
    // The connect of the next cycle makes it visible.
    bus.add((8, 80));
    bus.connect();
    assert!(bus.contains_element_in_queue());
    assert!(bus.contains_element_in_buffer());
    assert_eq!(bus.peek(), (7, 70));
    // While the visible item is not taken, nothing moves.
    bus.connect();
    assert!(bus.contains_element_in_buffer());
    assert_eq!(bus.get(), (7, 70));
    assert!(!bus.contains_element_in_queue());
    bus.connect();
    assert_eq!(bus.peek(), (8, 80));
    assert_eq!(bus.get(), (8, 80));
    assert!(bus.is_empty());
    bus.add((9, 90));
    bus.flush();
    assert!(bus.is_empty());
}

#[test]
fn bus_keeps_the_order() {
    let mut bus = Bus::new(3);
    bus.add((1, 0));
    bus.add((2, 0));
    bus.connect();
    bus.add((3, 0));
    bus.connect();
    bus.connect();
    assert_eq!(bus.get(), (1, 0));
    assert_eq!(bus.get(), (2, 0));
    assert_eq!(bus.get(), (3, 0));
    assert!(bus.is_empty());
}

#[test]
fn scoreboard_counts_writes() {
    let mut board = Scoreboard::new();
    let t0 = vec![RegisterType::T0];
    let both = vec![RegisterType::T0, RegisterType::T1];
    assert!(!board.contain_written_registers(&both));
    board.add_write_registers(&t0);
    board.add_write_registers(&both);
    assert!(board.contain_written_registers(&t0));
    assert!(board.contain_written_registers(&vec![RegisterType::A0, RegisterType::T1]));
    assert!(!board.contain_written_registers(&vec![RegisterType::A0]));
    assert!(!board.contain_written_registers(&vec![]));
    board.delete_write_registers(&both);
    assert!(board.contain_written_registers(&t0));
    assert!(!board.contain_written_registers(&vec![RegisterType::T1]));
    board.delete_write_registers(&both);
    assert!(!board.contain_written_registers(&both));
    // Taking out what is not in changes nothing.
    board.delete_write_registers(&both);
    board.add_write_registers(&t0);
    assert!(board.contain_written_registers(&t0));
    board.clear();
    assert!(!board.contain_written_registers(&t0));
}

#[test]
fn fetch_unit_takes_fifty_one_cycles_on_a_miss_and_one_on_a_hit() {
    let application = parse("nop\nnop\nnop".to_string()).unwrap();
    let mut unit = FetchUnit::new();
    let mut bus = Bus::new(1);
    for _ in 0..50 {
        unit.cycle(&application, &mut bus);
        assert!(bus.is_empty());
    }
    unit.cycle(&application, &mut bus);
    assert!(bus.contains_element_in_entry());
    assert_eq!(unit.pc, 4);
    assert_eq!(unit.l1i, CacheLine { lo: 0, hi: 512 });
    // The bus is full: the next instruction waits.
    unit.cycle(&application, &mut bus);
    assert_eq!(unit.pc, 4);
    assert_eq!(unit.remaining_cycles, 1);
    bus.connect();
    unit.cycle(&application, &mut bus);
    assert_eq!(unit.pc, 8);
    assert!(!unit.is_empty());
    bus.flush();
    unit.cycle(&application, &mut bus);
    assert_eq!(unit.pc, 12);
    assert!(unit.is_empty());
    unit.flush(4);
    assert!(!unit.is_empty());
    assert_eq!(unit.pc, 4);
}

#[test]
fn decode_unit_moves_one_token() {
    let unit = DecodeUnit::new();
    let mut from = Bus::new(1);
    let mut to = Bus::new(1);
    unit.cycle(&mut from, &mut to);
    assert!(to.is_empty());
    from.add((3, 0));
    from.connect();
    from.connect();
    unit.cycle(&mut from, &mut to);
    assert!(from.is_empty());
    assert!(to.contains_element_in_entry());
    assert!(unit.is_empty());
}

#[test]
fn execute_and_write_units_work_together() {
    let application = parse("addi t0, zero, 5\nadd t1, t0, t0".to_string()).unwrap();
    let mut ctx = Context::new(0);
    let mut board = Scoreboard::new();
    let mut from = Bus::new(1);
    let mut to = Bus::new(1);
    let mut execute = ExecuteUnit::new();
    let mut write = WriteUnit::new();
    from.add((0, 0));
    from.connect();
    from.connect();
    assert_eq!(execute.cycle(&mut ctx, &mut board, &application, &mut from, &mut to), Ok(()));
    assert!(execute.is_empty());
    assert_eq!(ctx.pc(), 4);
    assert_eq!(ctx.register(RegisterType::T0), 0);
    assert!(board.contain_written_registers(&vec![RegisterType::T0]));
    to.connect();
    // The second instruction reads t0, whose write is in flight: it waits.
    from.add((1, 0));
    from.connect();
    from.connect();
    assert_eq!(execute.cycle(&mut ctx, &mut board, &application, &mut from, &mut to), Ok(()));
    assert!(!execute.is_empty());
    assert_eq!(execute.remaining_cycles, 1);
    to.connect();
    write.cycle(&mut ctx, &mut board, &application, &mut to);
    assert_eq!(ctx.register(RegisterType::T0), 5);
    assert!(!board.contain_written_registers(&vec![RegisterType::T0]));
    assert_eq!(execute.cycle(&mut ctx, &mut board, &application, &mut from, &mut to), Ok(()));
    assert!(execute.is_empty());
    to.connect();
    to.connect();
    write.cycle(&mut ctx, &mut board, &application, &mut to);
    assert_eq!(ctx.register(RegisterType::T1), 10);
    assert!(write.is_empty());
}

#[test]
fn branch_unit_flushes_on_a_jump_or_a_taken_branch() {
    let application = parse("beq t0, t1, x\njal ra, x\nnop\nx:".to_string()).unwrap();
    let mut ctx = Context::new(0);
    let mut unit = BranchUnit::new();
    let mut execute_bus = Bus::new(1);
    let mut write_bus = Bus::new(1);
    // Nothing was executed: no flush, and what was noted stays.
    unit.jump();
    assert!(!unit.pipeline_to_be_flushed(&ctx, &write_bus));
    assert!(unit.jump);
    write_bus.add((0, 0));
    assert!(unit.pipeline_to_be_flushed(&ctx, &write_bus));
    assert!(!unit.jump);
    // A branch at address 0 is about to be executed.
    execute_bus.add((0, 0));
    execute_bus.connect();
    execute_bus.connect();
    unit.predict(&ctx, &application, &execute_bus);
    assert_eq!(unit.condition_branching_expected, Some(4));
    ctx.set_pc(4);
    assert!(!unit.pipeline_to_be_flushed(&ctx, &write_bus));
    unit.conditional_branching(4);
    ctx.set_pc(12);
    assert!(unit.pipeline_to_be_flushed(&ctx, &write_bus));
    assert_eq!(unit.condition_branching_expected, None);
}
