//! The reference machine: every step of every instruction at its fixed cost.

use crate::context::{Context, ExecError, Fault, State};
use crate::opcodes::{cycles_per_instruction, write_back, InstructionRunner, InstructionType};
use crate::program::Application;
use crate::register::RegisterType;
use vstd::prelude::*;

verus! {

/// The cycles that fetching an instruction from memory takes.
pub const CYCLES_MEMORY_ACCESS: u64 = 50;

/// The cycles that writing a result to a register takes.
pub const CYCLES_REGISTER_ACCESS: u64 = 1;

/// The cycles that decoding an instruction takes.
pub const CYCLES_DECODE: u64 = 1;

/// The most that one instruction can cost on any of the machines that
/// execute one instruction at a time; a step is only begun where the cycle
/// counter can count that many more.
pub const CYCLES_STEP_MAX: u64 = 103;

/// What a run returns and leaves behind.
pub struct Outcome {
    /// The returned value: the cycle count, or the fault.
    pub result: Result<u64, Fault>,
    /// The architectural state that the run leaves.
    pub state: State,
    /// The cycle counter that the run leaves.
    pub cycles: u64,
}

/// The cycles that an instruction of opcode `t` costs after its fetch:
/// decode, execute, and write-back unless it is a store.
pub open spec fn cost_after_fetch(t: InstructionType) -> int {
    CYCLES_DECODE + t.execute_cost() + (if t.is_store() {
        0
    } else {
        CYCLES_REGISTER_ACCESS as int
    })
}

/// The run of the reference machine from state `s` with `cycles` counted so
/// far. Until the program halts, each instruction is fetched, decoded,
/// executed and, unless it is a store, written back. A fault ends the run
/// with the state as the faulting instruction found it and with fetch and
/// decode counted.
pub open spec fn simulate(app: &Application, s: State, cycles: u64) -> Outcome
    decreases u64::MAX - cycles,
{
    if !app.holds(s.pc) {
        Outcome { result: Ok(cycles), state: s, cycles }
    } else if cycles > u64::MAX - CYCLES_STEP_MAX {
        Outcome { result: Err(Fault::CounterOverflow), state: s, cycles }
    } else {
        match app.step(s) {
            Ok(next) => simulate(
                app,
                next,
                (cycles + CYCLES_MEMORY_ACCESS + cost_after_fetch(app.at(s.pc).opcode())) as u64,
            ),
            Err(fault) => Outcome {
                result: Err(fault),
                state: s,
                cycles: (cycles + CYCLES_MEMORY_ACCESS + CYCLES_DECODE) as u64,
            },
        }
    }
}

/// Whether `result` is the executable form of `expected`.
pub open spec fn reports(result: Result<u64, ExecError>, expected: Result<u64, Fault>) -> bool {
    match expected {
        Ok(cycles) => result == Ok::<u64, ExecError>(cycles),
        Err(fault) => result is Err && result->Err_0@ == fault,
    }
}

/// The reference machine.
pub struct Mvm1 {
    ctx: Context,
    cycles: u64,
}

impl Mvm1 {
    /// A machine with `memory_bytes` cells of memory, every cell and register
    /// zero, and no cycle counted.
    pub fn new(memory_bytes: usize) -> (vm: Mvm1)
        ensures
            vm.state() == Context::new_state(memory_bytes),
            vm.cycle_count() == 0,
    {
        Mvm1 { ctx: Context::new(memory_bytes), cycles: 0 }
    }

    /// The architectural state.
    pub closed spec fn state(&self) -> State {
        self.ctx@
    }

    /// The cycles counted so far.
    pub closed spec fn cycle_count(&self) -> u64 {
        self.cycles
    }

    /// The registers, memory and program counter.
    pub fn context(&self) -> (ctx: &Context)
        ensures
            ctx@ == self.state(),
    {
        &self.ctx
    }

    /// The cycles counted so far.
    pub fn cycles(&self) -> (cycles: u64)
        ensures
            cycles == self.cycle_count(),
    {
        self.cycles
    }

    /// Writes `value` to register `r`. A write to `ZERO` is discarded.
    pub fn set_register(&mut self, r: RegisterType, value: i32)
        ensures
            final(self).state() == (State {
                registers: crate::register::written(old(self).state().registers, r, value),
                ..old(self).state()
            }),
            final(self).cycle_count() == old(self).cycle_count(),
    {
        self.ctx.set_register(r, value);
    }

    /// Writes `value` to the memory cell at `address`; `false`, and nothing
    /// written, where the memory has no such cell.
    pub fn set_memory(&mut self, address: usize, value: i8) -> (done: bool)
        ensures
            done == (address < old(self).state().memory.len()),
            final(self).state() == (if done {
                State {
                    memory: old(self).state().memory.update(address as int, value),
                    ..old(self).state()
                }
            } else {
                old(self).state()
            }),
            final(self).cycle_count() == old(self).cycle_count(),
    {
        if address < self.ctx.memory_len() {
            self.ctx.store(address, value);
            true
        } else {
            false
        }
    }

    /// Runs `application` from the current state until it halts or faults,
    /// and returns the cycles counted since the machine was made.
    pub fn run(&mut self, application: &Application) -> (result: Result<u64, ExecError>)
        ensures
            reports(result, simulate(application, old(self).state(), old(self).cycle_count()).result),
            final(self).state() == simulate(
                application,
                old(self).state(),
                old(self).cycle_count(),
            ).state,
            final(self).cycle_count() == simulate(
                application,
                old(self).state(),
                old(self).cycle_count(),
            ).cycles,
            final(self).state().registers[RegisterType::ZERO] == 0,
            result is Ok ==> application.computes(old(self).state(), final(self).state()),
            result is Err && result->Err_0@ != Fault::CounterOverflow ==> application.faults(
                old(self).state(),
                result->Err_0@,
            ),
    {
        proof {
            crate::context::lemma_context_zero(self.ctx);
            crate::laws::lemma_mvm1_outcome(application, self.ctx@, self.cycles);
        }
        loop
            invariant
                crate::laws::outcome(
                    application,
                    old(self).ctx@,
                    simulate(application, old(self).ctx@, old(self).cycles).result,
                    simulate(application, old(self).ctx@, old(self).cycles).state,
                ),
                simulate(application, self.ctx@, self.cycles) == simulate(
                    application,
                    old(self).ctx@,
                    old(self).cycles,
                ),
            decreases u64::MAX - self.cycles,
        {
            proof {
                crate::context::lemma_context_zero(self.ctx);
            }
            let index: usize = match application.fetch(self.ctx.pc()) {
                Some(index) => index,
                None => {
                    return Ok(self.cycles);
                },
            };
            if self.cycles > u64::MAX - CYCLES_STEP_MAX {
                return Err(ExecError::CounterOverflow);
            }
            self.fetch_instruction();
            self.decode();
            let instruction_type = match self.execute(application) {
                Ok(instruction_type) => instruction_type,
                Err(e) => {
                    return Err(e);
                },
            };
            if write_back(instruction_type) {
                self.write();
            }
        }
    }

    /// Counts the fetch of an instruction.
    fn fetch_instruction(&mut self)
        requires
            old(self).cycles <= u64::MAX - CYCLES_MEMORY_ACCESS,
        ensures
            final(self).ctx == old(self).ctx,
            final(self).cycles == old(self).cycles + CYCLES_MEMORY_ACCESS,
    {
        self.cycles = self.cycles + CYCLES_MEMORY_ACCESS;
    }

    /// Counts the decoding of an instruction.
    fn decode(&mut self)
        requires
            old(self).cycles <= u64::MAX - CYCLES_DECODE,
        ensures
            final(self).ctx == old(self).ctx,
            final(self).cycles == old(self).cycles + CYCLES_DECODE,
    {
        self.cycles = self.cycles + CYCLES_DECODE;
    }

    /// Executes the instruction that the machine is at and counts its
    /// execute step.
    fn execute(&mut self, application: &Application) -> (result: Result<InstructionType, ExecError>)
        requires
            application.holds(old(self).ctx@.pc),
            old(self).cycles <= u64::MAX - 50,
        ensures
            match application.step(old(self).ctx@) {
                Ok(next) => result == Ok::<InstructionType, ExecError>(
                    application.at(old(self).ctx@.pc).opcode(),
                ) && final(self).ctx@ == next && final(self).cycles == old(self).cycles
                    + application.at(old(self).ctx@.pc).opcode().execute_cost(),
                Err(fault) => result is Err && result->Err_0@ == fault && final(self).ctx@ == old(
                    self,
                ).ctx@ && final(self).cycles == old(self).cycles,
            },
    {
        let instruction_type = match application.advance(&mut self.ctx) {
            Ok(instruction_type) => instruction_type,
            Err(e) => {
                return Err(e);
            },
        };
        self.cycles = self.cycles + cycles_per_instruction(instruction_type);
        Ok(instruction_type)
    }

    /// Counts the write-back of a result.
    fn write(&mut self)
        requires
            old(self).cycles <= u64::MAX - CYCLES_REGISTER_ACCESS,
        ensures
            final(self).ctx == old(self).ctx,
            final(self).cycles == old(self).cycles + CYCLES_REGISTER_ACCESS,
    {
        self.cycles = self.cycles + CYCLES_REGISTER_ACCESS;
    }
}

} // verus!
