use mvm::mvm1::Mvm1;
use mvm::mvm2::Mvm2;
use mvm::mvm3::Mvm3;
use mvm::parser::parse;
use mvm::program::Runner;
use mvm::register::RegisterType;

/// A small linear congruential generator: the tests must not depend on
/// anything outside this file.
struct Random(u64);

impl Random {
    fn next(&mut self) -> u64 {
        self.0 = self.0.wrapping_mul(6364136223846793005).wrapping_add(1442695040888963407);
        self.0 >> 33
    }

    fn below(&mut self, n: u64) -> u64 {
        self.next() % n
    }

    fn pick<'a>(&mut self, items: &[&'a str]) -> &'a str {
        items[self.below(items.len() as u64) as usize]
    }
}

const NAMES: [&str; 6] = ["zero", "t0", "t1", "t2", "t3", "a0"];
const REGISTERS: [RegisterType; 6] = [
    RegisterType::ZERO,
    RegisterType::T0,
    RegisterType::T1,
    RegisterType::T2,
    RegisterType::T3,
    RegisterType::A0,
];
const MEMORY: usize = 16;

/// A program of `length` instructions that cannot loop: every branch and
/// jump leads forwards.
fn program(random: &mut Random, length: usize) -> String {
    let mut text = String::new();
    for i in 0..length {
        text.push_str(&format!("l{}:\n", i));
        let rd = random.pick(&NAMES);
        let rs1 = random.pick(&NAMES);
        let rs2 = random.pick(&NAMES);
        let imm = random.below(41) as i64 - 20;
        let target = i + 1 + random.below((length - i) as u64) as usize;
        let line = match random.below(10) {
            0 | 1 => {
                let opcode = random.pick(&[
                    "add", "sub", "mul", "and", "or", "xor", "sll", "srl", "sra", "slt", "sltu",
                ]);
                format!("{} {}, {}, {}", opcode, rd, rs1, rs2)
            }
            2 | 3 => {
                let opcode = random.pick(&[
                    "addi", "andi", "ori", "xori", "slli", "srli", "srai", "slti",
                ]);
                format!("{} {}, {}, {}", opcode, rd, rs1, imm)
            }
            4 => format!("{} {}, {}", random.pick(&["lui", "auipc"]), rd, imm),
            5 => {
                let opcode = random.pick(&["beq", "bne", "blt", "bltu", "bge", "bgeu"]);
                format!("{} {}, {}, l{}", opcode, rs1, rs2, target)
            }
            6 => match random.below(3) {
                0 => format!("jal {}, l{}", rd, target),
                1 => format!("jalr {}, zero, {}", rd, 4 * target),
                _ => "nop".to_string(),
            },
            7 => {
                let opcode = random.pick(&["lb", "lh", "lw"]);
                format!("{} {}, {}, zero", opcode, rd, random.below(MEMORY as u64 + 2))
            }
            8 => {
                let opcode = random.pick(&["sb", "sh", "sw"]);
                format!("{} {}, {}, zero", opcode, rs1, random.below(MEMORY as u64 + 2))
            }
            _ => format!("{} {}, {}, {}", random.pick(&["div", "rem"]), rd, rs1, rs2),
        };
        text.push_str(&line);
        text.push('\n');
    }
    text.push_str(&format!("l{}:\n", length));
    text
}

#[test]
fn machines_agree_on_random_programs() {
    let mut random = Random(2024);
    let mut halted = 0;
    let mut faulted = 0;
    for _ in 0..400 {
        let length = 1 + random.below(24) as usize;
        let text = program(&mut random, length);
        let application = parse(text.clone()).unwrap();
        let mut vm1 = Mvm1::new(MEMORY);
        let mut vm2 = Mvm2::new(MEMORY);
        let mut vm3 = Mvm3::new(MEMORY);
        let mut runner = Runner::new(parse(text.clone()).unwrap(), MEMORY);
        for register in &REGISTERS[1..] {
            let value = random.below(17) as i32 - 8;
            vm1.set_register(*register, value);
            vm2.set_register(*register, value);
            vm3.set_register(*register, value);
            runner.set_register(*register, value);
        }
        for address in 0..MEMORY {
            let value = random.below(256) as u8 as i8;
            vm1.set_memory(address, value);
            vm2.set_memory(address, value);
            vm3.set_memory(address, value);
            runner.set_memory(address, value);
        }
        let result1 = vm1.run(&application);
        let result2 = vm2.run(&application);
        let result3 = vm3.run(&application);
        match (&result1, &result2, &result3) {
            (Ok(_), Ok(_), Ok(_)) => {
                halted += 1;
                for register in REGISTERS {
                    let value = vm1.context().register(register);
                    assert_eq!(value, vm2.context().register(register), "{}", text);
                    assert_eq!(value, vm3.context().register(register), "{}", text);
                }
                for address in 0..MEMORY {
                    let value = vm1.context().load(address);
                    assert_eq!(value, vm2.context().load(address), "{}", text);
                    assert_eq!(value, vm3.context().load(address), "{}", text);
                }
                assert_eq!(vm1.context().pc(), vm3.context().pc(), "{}", text);
                assert!(vm3.is_complete());
            }
            (Err(e1), Err(e2), Err(e3)) => {
                faulted += 1;
                assert_eq!(e1, e2, "{}", text);
                assert_eq!(e1, e3, "{}", text);
                assert_eq!(vm1.context().pc(), vm3.context().pc(), "{}", text);
            }
            _ => panic!("{:?} {:?} {:?}\n{}", result1, result2, result3, text),
        }
        // The plain interpreter agrees too.
        assert_eq!(runner.run().is_ok(), result1.is_ok(), "{}", text);
        assert_eq!(runner.context().pc(), vm1.context().pc(), "{}", text);
        for register in REGISTERS {
            let value = vm1.context().register(register);
            assert_eq!(value, runner.context().register(register), "{}", text);
        }
    }
    assert!(halted > 50);
    assert!(faulted > 50);
}
