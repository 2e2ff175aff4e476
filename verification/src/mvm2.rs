//! The reference machine with an instruction cache of one line in front of
//! its fetch.

use crate::cache::CacheLine;
use crate::context::{Context, ExecError, Fault, State};
use crate::mvm1::{
    cost_after_fetch, reports, CYCLES_DECODE, CYCLES_MEMORY_ACCESS, CYCLES_REGISTER_ACCESS,
    CYCLES_STEP_MAX,
};
use crate::opcodes::{cycles_per_instruction, write_back, InstructionRunner, InstructionType};
use crate::program::Application;
use crate::register::RegisterType;
use vstd::prelude::*;

verus! {

/// The bytes that a refill of the cache line brings in.
pub const L1I_CACHE_LINE: u16 = 64;

/// The cycles that an access to the cache takes.
pub const CYCLES_L1_ACCESS: u64 = 1;

/// What a run returns and leaves behind.
pub struct Outcome {
    /// The returned value: the cycle count, or the fault.
    pub result: Result<u64, Fault>,
    /// The architectural state that the run leaves.
    pub state: State,
    /// The cache line that the run leaves.
    pub line: CacheLine,
    /// The cycle counter that the run leaves.
    pub cycles: u64,
}

/// The cycles that fetching the instruction at `pc` costs: an access to the
/// cache, and before it an access to memory where the line does not hold
/// `pc`.
pub open spec fn fetch_cost(line: CacheLine, pc: i32) -> int {
    if line.holds(pc) {
        CYCLES_L1_ACCESS as int
    } else {
        CYCLES_MEMORY_ACCESS + CYCLES_L1_ACCESS
    }
}

/// The line after a fetch of the instruction at `pc`: refilled from `pc` on
/// where it did not hold `pc`.
pub open spec fn line_after(line: CacheLine, pc: i32) -> CacheLine {
    if line.holds(pc) {
        line
    } else {
        CacheLine::filled(pc, L1I_CACHE_LINE)
    }
}

/// The run of the machine from state `s` with cache line `line` and `cycles`
/// counted so far. It differs from the reference machine in the cost of a
/// fetch alone.
pub open spec fn simulate(app: &Application, s: State, line: CacheLine, cycles: u64) -> Outcome
    decreases u64::MAX - cycles,
{
    if !app.holds(s.pc) {
        Outcome { result: Ok(cycles), state: s, line, cycles }
    } else if cycles > u64::MAX - CYCLES_STEP_MAX {
        Outcome { result: Err(Fault::CounterOverflow), state: s, line, cycles }
    } else {
        match app.step(s) {
            Ok(next) => simulate(
                app,
                next,
                line_after(line, s.pc),
                (cycles + fetch_cost(line, s.pc) + cost_after_fetch(app.at(s.pc).opcode())) as u64,
            ),
            Err(fault) => Outcome {
                result: Err(fault),
                state: s,
                line: line_after(line, s.pc),
                cycles: (cycles + fetch_cost(line, s.pc) + CYCLES_DECODE) as u64,
            },
        }
    }
}

/// The machine with a one-line instruction cache.
pub struct Mvm2 {
    ctx: Context,
    l1i: CacheLine,
    cycles: u64,
}

impl Mvm2 {
    /// A machine with `memory_bytes` cells of memory, every cell and register
    /// zero, an empty cache line and no cycle counted.
    pub fn new(memory_bytes: usize) -> (vm: Mvm2)
        ensures
            vm.state() == Context::new_state(memory_bytes),
            vm.line() == (CacheLine { lo: -1i64, hi: -1i64 }),
            vm.cycle_count() == 0,
    {
        Mvm2 { ctx: Context::new(memory_bytes), l1i: CacheLine::empty(), cycles: 0 }
    }

    /// The architectural state.
    pub closed spec fn state(&self) -> State {
        self.ctx@
    }

    /// The cache line.
    pub closed spec fn line(&self) -> CacheLine {
        self.l1i
    }

    /// The cycles counted so far.
    pub closed spec fn cycle_count(&self) -> u64 {
        self.cycles
    }

    /// The registers, memory and program counter.
    pub fn context(&self) -> (ctx: &Context)
        ensures
            ctx@ == self.state(),
    {
        &self.ctx
    }

    /// The cycles counted so far.
    pub fn cycles(&self) -> (cycles: u64)
        ensures
            cycles == self.cycle_count(),
    {
        self.cycles
    }

    /// Writes `value` to register `r`. A write to `ZERO` is discarded.
    pub fn set_register(&mut self, r: RegisterType, value: i32)
        ensures
            final(self).state() == (State {
                registers: crate::register::written(old(self).state().registers, r, value),
                ..old(self).state()
            }),
            final(self).line() == old(self).line(),
            final(self).cycle_count() == old(self).cycle_count(),
    {
        self.ctx.set_register(r, value);
    }

    /// Writes `value` to the memory cell at `address`; `false`, and nothing
    /// written, where the memory has no such cell.
    pub fn set_memory(&mut self, address: usize, value: i8) -> (done: bool)
        ensures
            done == (address < old(self).state().memory.len()),
            final(self).state() == (if done {
                State {
                    memory: old(self).state().memory.update(address as int, value),
                    ..old(self).state()
                }
            } else {
                old(self).state()
            }),
            final(self).line() == old(self).line(),
            final(self).cycle_count() == old(self).cycle_count(),
    {
        if address < self.ctx.memory_len() {
            self.ctx.store(address, value);
            true
        } else {
            false
        }
    }

    /// Runs `application` from the current state until it halts or faults,
    /// and returns the cycles counted since the machine was made.
    pub fn run(&mut self, application: &Application) -> (result: Result<u64, ExecError>)
        ensures
            reports(
                result,
                simulate(
                    application,
                    old(self).state(),
                    old(self).line(),
                    old(self).cycle_count(),
                ).result,
            ),
            final(self).state() == simulate(
                application,
                old(self).state(),
                old(self).line(),
                old(self).cycle_count(),
            ).state,
            final(self).line() == simulate(
                application,
                old(self).state(),
                old(self).line(),
                old(self).cycle_count(),
            ).line,
            final(self).cycle_count() == simulate(
                application,
                old(self).state(),
                old(self).line(),
                old(self).cycle_count(),
            ).cycles,
            final(self).state().registers[RegisterType::ZERO] == 0,
            result is Ok ==> application.computes(old(self).state(), final(self).state()),
            result is Err && result->Err_0@ != Fault::CounterOverflow ==> application.faults(
                old(self).state(),
                result->Err_0@,
            ),
    {
        proof {
            crate::context::lemma_context_zero(self.ctx);
            crate::laws::lemma_mvm2_outcome(application, self.ctx@, self.l1i, self.cycles);
        }
        loop
            invariant
                crate::laws::outcome(
                    application,
                    old(self).ctx@,
                    simulate(application, old(self).ctx@, old(self).l1i, old(self).cycles).result,
                    simulate(application, old(self).ctx@, old(self).l1i, old(self).cycles).state,
                ),
                simulate(application, self.ctx@, self.l1i, self.cycles) == simulate(
                    application,
                    old(self).ctx@,
                    old(self).l1i,
                    old(self).cycles,
                ),
            decreases u64::MAX - self.cycles,
        {
            proof {
                crate::context::lemma_context_zero(self.ctx);
            }
            if application.fetch(self.ctx.pc()).is_none() {
                return Ok(self.cycles);
            }
            if self.cycles > u64::MAX - CYCLES_STEP_MAX {
                return Err(ExecError::CounterOverflow);
            }
            self.fetch_instruction();
            self.decode();
            match self.execute_write(application) {
                Ok(()) => {},
                Err(e) => {
                    return Err(e);
                },
            }
        }
    }

    /// Counts the fetch of the instruction that the machine is at, and
    /// refills the cache line where it misses.
    fn fetch_instruction(&mut self)
        requires
            old(self).cycles <= u64::MAX - (CYCLES_MEMORY_ACCESS + CYCLES_L1_ACCESS),
        ensures
            final(self).ctx == old(self).ctx,
            final(self).l1i == line_after(old(self).l1i, old(self).ctx@.pc),
            final(self).cycles == old(self).cycles + fetch_cost(old(self).l1i, old(self).ctx@.pc),
    {
        let pc: i32 = self.ctx.pc();
        if self.l1i.present(pc) {
            self.cycles = self.cycles + CYCLES_L1_ACCESS;
        } else {
            self.l1i.fetch(pc, L1I_CACHE_LINE);
            self.cycles = self.cycles + CYCLES_MEMORY_ACCESS + CYCLES_L1_ACCESS;
        }
    }

    /// Counts the decoding of an instruction.
    fn decode(&mut self)
        requires
            old(self).cycles <= u64::MAX - CYCLES_DECODE,
        ensures
            final(self).ctx == old(self).ctx,
            final(self).l1i == old(self).l1i,
            final(self).cycles == old(self).cycles + CYCLES_DECODE,
    {
        self.cycles = self.cycles + CYCLES_DECODE;
    }

    /// Executes the instruction that the machine is at and counts its
    /// execute step and, unless it is a store, its write-back.
    fn execute_write(&mut self, application: &Application) -> (result: Result<(), ExecError>)
        requires
            application.holds(old(self).ctx@.pc),
            old(self).cycles <= u64::MAX - 51,
        ensures
            final(self).l1i == old(self).l1i,
            match application.step(old(self).ctx@) {
                Ok(next) => result is Ok && final(self).ctx@ == next && final(self).cycles + CYCLES_DECODE
                    == old(self).cycles + cost_after_fetch(
                    application.at(old(self).ctx@.pc).opcode(),
                ),
                Err(fault) => result is Err && result->Err_0@ == fault && final(self).ctx@ == old(
                    self,
                ).ctx@ && final(self).cycles == old(self).cycles,
            },
    {
        let instruction_type = match application.advance(&mut self.ctx) {
            Ok(instruction_type) => instruction_type,
            Err(e) => {
                return Err(e);
            },
        };
        self.cycles = self.cycles + cycles_per_instruction(instruction_type);
        if write_back(instruction_type) {
            self.cycles = self.cycles + CYCLES_REGISTER_ACCESS;
        }
        Ok(())
    }
}

} // verus!
