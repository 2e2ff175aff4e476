//! The pipelined machine: fetch, decode, execute and write-back work at the
//! same time on successive instructions, with a bus between each two stages.
//!
//! What travels on a bus is a token: the index of an instruction in the
//! program and, once the instruction was executed, the value that it computed.

use crate::bus::{Bus, Lanes};
use crate::cache::CacheLine;
use crate::context::{Context, ExecError, Execution, Fault, State};
use crate::mvm1::reports;
use crate::opcodes::{
    conditional_branching, cycles_per_instruction, jump, next_pc, target, write_back,
    InstructionRunner,
};
use crate::program::{Application, Instruction};
use crate::register::{written, RegisterType};
use crate::scoreboard::{added, blocked, clear, count_of, removed, Scoreboard};
use vstd::prelude::*;

verus! {

/// The cycles that an access to the instruction cache takes.
pub const CYCLES_L1_ACCESS: u64 = 1;

/// The cycles that fetching an instruction takes where the cache misses.
pub const CYCLES_MEMORY_ACCESS: u64 = 51;

/// The bytes that a refill of the cache line brings in.
pub const L1I_CACHE_LINE: u16 = 512;

/// The registers written by the instructions of `tokens`, in the order of
/// the tokens.
pub open spec fn in_flight(app: &Application, tokens: Seq<(usize, i32)>) -> Seq<RegisterType>
    decreases tokens.len(),
{
    if tokens.len() == 0 {
        Seq::empty()
    } else {
        in_flight(app, tokens.drop_last()) + app.instructions@[tokens.last().0 as int].writes()
    }
}

/// The stage that brings instructions in, at its own running address.
#[derive(Clone, Copy, PartialEq, Eq, Structural, Debug)]
pub struct FetchUnit {
    /// The address of the instruction to fetch next.
    pub pc: i32,
    /// The instruction cache.
    pub l1i: CacheLine,
    /// The cycles that the fetch under way still takes.
    pub remaining_cycles: u64,
    /// Whether there is nothing more to fetch.
    pub complete: bool,
    /// Whether a fetch is under way.
    pub processing: bool,
}

impl FetchUnit {
    /// Whether a fetch under way has a cycle left to take, and no more than
    /// a miss takes.
    pub open spec fn wf(self) -> bool {
        self.processing ==> 1 <= self.remaining_cycles <= CYCLES_MEMORY_ACCESS
    }

    /// The unit as a fetch under way begins it: a hit in the cache takes one
    /// cycle, a miss refills the line and takes fifty-one.
    pub open spec fn begun(self) -> FetchUnit {
        if self.processing {
            self
        } else if self.l1i.holds(self.pc) {
            FetchUnit { processing: true, remaining_cycles: CYCLES_L1_ACCESS, ..self }
        } else {
            FetchUnit {
                processing: true,
                remaining_cycles: CYCLES_MEMORY_ACCESS,
                l1i: CacheLine::filled(self.pc, L1I_CACHE_LINE),
                ..self
            }
        }
    }

    /// One cycle of the unit, writing to the bus `out`. Once the unit has
    /// nothing more to fetch it does nothing; it has nothing more to fetch
    /// when its address leaves the program. A fetch that has taken its cycles
    /// waits while the bus is full, then hands over the index of its
    /// instruction and moves the address on.
    pub open spec fn cycled(self, app: &Application, out: Lanes) -> (FetchUnit, Lanes) {
        if self.complete {
            (self, out)
        } else if !app.holds(self.pc) {
            (FetchUnit { complete: true, processing: false, ..self }, out)
        } else {
            let unit = self.begun();
            if unit.remaining_cycles != 1 {
                (FetchUnit { remaining_cycles: (unit.remaining_cycles - 1) as u64, ..unit }, out)
            } else if out.is_full() {
                (unit, out)
            } else {
                (
                    FetchUnit {
                        processing: false,
                        remaining_cycles: 0,
                        pc: next_pc(unit.pc),
                        complete: !app.holds(next_pc(unit.pc)),
                        ..unit
                    },
                    out.added(((unit.pc / 4) as usize, 0i32)),
                )
            }
        }
    }

    /// The unit after a flush: about to fetch at `pc`.
    pub open spec fn flushed(self, pc: i32) -> FetchUnit {
        FetchUnit { processing: false, complete: false, pc, ..self }
    }

    /// A unit about to fetch at address `0` with an empty cache.
    pub fn new() -> (unit: FetchUnit)
        ensures
            unit == (FetchUnit {
                pc: 0,
                l1i: CacheLine { lo: -1i64, hi: -1i64 },
                remaining_cycles: 0,
                complete: false,
                processing: false,
            }),
    {
        FetchUnit {
            pc: 0,
            l1i: CacheLine::empty(),
            remaining_cycles: 0,
            complete: false,
            processing: false,
        }
    }

    /// Runs the unit for one cycle.
    pub fn cycle(&mut self, application: &Application, out_bus: &mut Bus)
        requires
            old(self).wf(),
        ensures
            (*final(self), final(out_bus)@) == old(self).cycled(application, old(out_bus)@),
    {
        if self.complete {
            return;
        }
        let index: usize = match application.fetch(self.pc) {
            Some(index) => index,
            None => {
                self.complete = true;
                self.processing = false;
                return;
            },
        };
        if !self.processing {
            self.processing = true;
            if self.l1i.present(self.pc) {
                self.remaining_cycles = CYCLES_L1_ACCESS;
            } else {
                self.remaining_cycles = CYCLES_MEMORY_ACCESS;
                self.l1i.fetch(self.pc, L1I_CACHE_LINE);
            }
        }
        self.remaining_cycles = self.remaining_cycles - 1;
        if self.remaining_cycles == 0 {
            if out_bus.is_full() {
                self.remaining_cycles = 1;
                return;
            }
            self.processing = false;
            self.pc = self.pc.wrapping_add(4);
            if application.fetch(self.pc).is_none() {
                self.complete = true;
            }
            out_bus.add((index, 0));
        }
    }

    /// Discards the fetch under way and goes on at `pc`.
    pub fn flush(&mut self, pc: i32)
        ensures
            *final(self) == old(self).flushed(pc),
    {
        self.processing = false;
        self.complete = false;
        self.pc = pc;
    }

    /// Whether there is nothing more to fetch.
    pub fn is_empty(&self) -> (empty: bool)
        ensures
            empty == self.complete,
    {
        self.complete
    }
}

/// The stage that hands a fetched instruction on to execution; it takes one
/// cycle and holds nothing between cycles.
#[derive(Clone, Copy, PartialEq, Eq, Structural, Debug)]
pub struct DecodeUnit {}

impl DecodeUnit {
    /// One cycle of the unit: the oldest visible token of `from` moves to
    /// `to`, unless there is none or `to` is full.
    pub open spec fn cycled(from: Lanes, to: Lanes) -> (Lanes, Lanes) {
        if from.queue.len() == 0 || to.is_full() {
            (from, to)
        } else {
            (from.taken(), to.added(from.queue[0]))
        }
    }

    /// A decode unit.
    pub fn new() -> DecodeUnit {
        DecodeUnit {  }
    }

    /// Runs the unit for one cycle.
    pub fn cycle(&self, in_bus: &mut Bus, out_bus: &mut Bus)
        ensures
            (final(in_bus)@, final(out_bus)@) == DecodeUnit::cycled(old(in_bus)@, old(out_bus)@),
    {
        if !in_bus.contains_element_in_queue() || out_bus.is_full() {
            return;
        }
        let token = in_bus.get();
        out_bus.add(token);
    }

    /// Has nothing to discard.
    pub fn flush(&mut self)
        ensures
            *final(self) == *old(self),
    {
    }

    /// Whether the unit holds nothing: always.
    pub fn is_empty(&self) -> (empty: bool)
        ensures
            empty,
    {
        true
    }
}

/// The stage that executes instructions, one at a time.
#[derive(Clone, Copy, PartialEq, Eq, Structural, Debug)]
pub struct ExecuteUnit {
    /// Whether an instruction is held.
    pub processing: bool,
    /// The cycles that the held instruction still takes.
    pub remaining_cycles: u64,
    /// The index of the held instruction.
    pub runner: Option<usize>,
}

/// What a cycle of the execute unit leaves.
pub struct Executed {
    /// The fault of the instruction, if it was executed and faulted.
    pub result: Result<(), Fault>,
    pub unit: ExecuteUnit,
    pub ctx: State,
    pub scoreboard: Map<RegisterType, nat>,
    pub in_bus: Lanes,
    pub out_bus: Lanes,
}

impl ExecuteUnit {
    /// Whether a held instruction is named and has a cycle left to take, and
    /// no more than an access to memory takes.
    pub open spec fn wf(self) -> bool {
        self.processing ==> 1 <= self.remaining_cycles <= 50 && self.runner is Some
    }

    /// Whether a held instruction is one of the first `n` of the program.
    pub open spec fn below(self, n: nat) -> bool {
        self.processing ==> self.runner is Some && self.runner->Some_0 < n
    }

    /// The unit and its input bus once an idle unit has taken the oldest
    /// visible token.
    pub open spec fn begun(self, app: &Application, from: Lanes) -> (ExecuteUnit, Lanes) {
        if self.processing || from.queue.len() == 0 {
            (self, from)
        } else {
            (
                ExecuteUnit {
                    processing: true,
                    remaining_cycles: app.instructions@[from.queue[0].0 as int].opcode().execute_cost(),
                    runner: Some(from.queue[0].0),
                },
                from.taken(),
            )
        }
    }

    /// One cycle of the unit. An idle unit takes the oldest visible token of
    /// `from`, if there is one. An instruction that has taken its cycles
    /// waits while `to` is full or a write to a register that it reads is in
    /// flight. Then it is executed: the memory and the program counter
    /// change, the registers do not; its token, now with the computed value,
    /// goes to `to`; its write set is entered in the scoreboard. A fault
    /// changes nothing and leaves the instruction held.
    pub open spec fn cycled(
        self,
        app: &Application,
        ctx: State,
        scoreboard: Map<RegisterType, nat>,
        from: Lanes,
        to: Lanes,
    ) -> Executed {
        let (unit, from) = self.begun(app, from);
        let waiting = Executed {
            result: Ok(()),
            unit,
            ctx,
            scoreboard,
            in_bus: from,
            out_bus: to,
        };
        if !unit.processing {
            waiting
        } else if unit.remaining_cycles != 1 {
            Executed {
                unit: ExecuteUnit { remaining_cycles: (unit.remaining_cycles - 1) as u64, ..unit },
                ..waiting
            }
        } else {
            let index = unit.runner->Some_0;
            let instruction = app.instructions@[index as int];
            if to.is_full() || blocked(scoreboard, instruction.reads()) {
                waiting
            } else {
                match instruction.effect(ctx, app.labels@) {
                    Err(fault) => Executed { result: Err(fault), ..waiting },
                    Ok(effect) => Executed {
                        result: Ok(()),
                        unit: ExecuteUnit { processing: false, remaining_cycles: 0, runner: None },
                        ctx: State { memory: effect.memory, pc: effect.execution.pc, ..ctx },
                        scoreboard: added(scoreboard, instruction.writes()),
                        in_bus: from,
                        out_bus: to.added((index, effect.execution.value)),
                    },
                }
            }
        }
    }

    /// An idle unit.
    pub fn new() -> (unit: ExecuteUnit)
        ensures
            unit == (ExecuteUnit { processing: false, remaining_cycles: 0, runner: None }),
    {
        ExecuteUnit { processing: false, remaining_cycles: 0, runner: None }
    }

    /// Runs the unit for one cycle.
    pub fn cycle(
        &mut self,
        ctx: &mut Context,
        scoreboard: &mut Scoreboard,
        application: &Application,
        in_bus: &mut Bus,
        out_bus: &mut Bus,
    ) -> (result: Result<(), ExecError>)
        requires
            old(self).wf(),
            old(self).below(application.instructions@.len()),
            old(in_bus)@.below(application.instructions@.len()),
            forall|r: RegisterType| old(scoreboard)@[r] < u32::MAX,
        ensures
            ({
                let expected = old(self).cycled(
                    application,
                    old(ctx)@,
                    old(scoreboard)@,
                    old(in_bus)@,
                    old(out_bus)@,
                );
                &&& *final(self) == expected.unit
                &&& final(ctx)@ == expected.ctx
                &&& final(scoreboard)@ == expected.scoreboard
                &&& final(in_bus)@ == expected.in_bus
                &&& final(out_bus)@ == expected.out_bus
                &&& match expected.result {
                    Ok(()) => result is Ok,
                    Err(fault) => result is Err && result->Err_0@ == fault,
                }
            }),
    {
        if !self.processing {
            if !in_bus.contains_element_in_queue() {
                return Ok(());
            }
            assert(old(in_bus)@.items()[0] == old(in_bus)@.queue[0]);
            let token = in_bus.get();
            self.runner = Some(token.0);
            self.remaining_cycles = cycles_per_instruction(
                application.instructions[token.0].instruction_type(),
            );
            self.processing = true;
        }
        self.remaining_cycles = self.remaining_cycles - 1;
        if self.remaining_cycles != 0 {
            return Ok(());
        }
        self.remaining_cycles = 1;
        if out_bus.is_full() {
            return Ok(());
        }
        let index: usize = match self.runner {
            Some(index) => index,
            None => {
                return Ok(());
            },
        };
        let instruction = &application.instructions[index];
        if scoreboard.contain_written_registers(&instruction.read_registers()) {
            return Ok(());
        }
        let execution: Execution = match instruction.run(ctx, &application.labels) {
            Ok(execution) => execution,
            Err(e) => {
                return Err(e);
            },
        };
        ctx.set_pc(execution.pc);
        out_bus.add((index, execution.value));
        let writes = instruction.write_registers();
        proof {
            lemma_writes_short(*instruction);
        }
        scoreboard.add_write_registers(&writes);
        self.runner = None;
        self.remaining_cycles = 0;
        self.processing = false;
        Ok(())
    }

    /// Whether the unit holds no instruction.
    pub fn is_empty(&self) -> (empty: bool)
        ensures
            empty == !self.processing,
    {
        !self.processing
    }
}

/// An instruction writes one register at most, and a store writes none.
pub proof fn lemma_writes_short(instruction: Instruction)
    ensures
        instruction.writes().len() <= 1,
        instruction.opcode().is_store() ==> instruction.writes().len() == 0,
{
    instruction.lemma_writes(arbitrary(), Map::empty());
}

/// The stage that commits results to the registers; it takes one cycle and
/// holds nothing between cycles.
#[derive(Clone, Copy, PartialEq, Eq, Structural, Debug)]
pub struct WriteUnit {}

impl WriteUnit {
    /// One cycle of the unit: the oldest visible token of `from` is taken
    /// off. Unless its instruction is a store, its value is committed to the
    /// register that the instruction writes, and the write set of the
    /// instruction leaves the scoreboard.
    pub open spec fn cycled(
        app: &Application,
        ctx: State,
        scoreboard: Map<RegisterType, nat>,
        from: Lanes,
    ) -> (State, Map<RegisterType, nat>, Lanes) {
        if from.queue.len() == 0 {
            (ctx, scoreboard, from)
        } else {
            let instruction = app.instructions@[from.queue[0].0 as int];
            if instruction.opcode().is_store() {
                (ctx, scoreboard, from.taken())
            } else {
                (
                    State {
                        registers: written(
                            ctx.registers,
                            target(instruction.writes()),
                            from.queue[0].1,
                        ),
                        ..ctx
                    },
                    removed(scoreboard, instruction.writes()),
                    from.taken(),
                )
            }
        }
    }

    /// A write unit.
    pub fn new() -> WriteUnit {
        WriteUnit {  }
    }

    /// Runs the unit for one cycle.
    pub fn cycle(
        &mut self,
        ctx: &mut Context,
        scoreboard: &mut Scoreboard,
        application: &Application,
        write_bus: &mut Bus,
    )
        requires
            old(write_bus)@.below(application.instructions@.len()),
        ensures
            (final(ctx)@, final(scoreboard)@, final(write_bus)@) == WriteUnit::cycled(
                application,
                old(ctx)@,
                old(scoreboard)@,
                old(write_bus)@,
            ),
    {
        if !write_bus.contains_element_in_queue() {
            return;
        }
        assert(old(write_bus)@.items()[0] == old(write_bus)@.queue[0]);
        let token = write_bus.get();
        let instruction = &application.instructions[token.0];
        if write_back(instruction.instruction_type()) {
            let writes = instruction.write_registers();
            let register: RegisterType = if writes.len() > 0 {
                writes[0]
            } else {
                RegisterType::ZERO
            };
            ctx.write(&Execution { pc: ctx.pc(), register, value: token.1 });
            scoreboard.delete_write_registers(&writes);
        }
    }

    /// Whether the unit holds nothing: always.
    pub fn is_empty(&self) -> (empty: bool)
        ensures
            empty,
    {
        true
    }
}

/// The unit that predicts every branch as not taken and finds out when that
/// was wrong.
#[derive(Clone, Copy, PartialEq, Eq, Structural, Debug)]
pub struct BranchUnit {
    /// The address that execution goes on at if the branch about to be
    /// executed is not taken.
    pub condition_branching_expected: Option<i32>,
    /// Whether a jump is about to be executed.
    pub jump: bool,
}

impl BranchUnit {
    /// The unit after it has looked at the instruction that is about to be
    /// executed, the oldest visible one on `execute_bus`, with the program
    /// counter at `pc`: a jump is noted; for a branch, the address after it
    /// is.
    pub open spec fn predicted(self, app: &Application, pc: i32, execute_bus: Lanes) -> BranchUnit {
        if execute_bus.queue.len() == 0 {
            self
        } else {
            let opcode = app.instructions@[execute_bus.queue[0].0 as int].opcode();
            if opcode.is_jump() {
                BranchUnit { jump: true, ..self }
            } else if opcode.is_branch() {
                BranchUnit { condition_branching_expected: Some(next_pc(pc)), ..self }
            } else {
                self
            }
        }
    }

    /// Whether the pipeline is to be flushed, with the program counter at
    /// `pc` after the execute stage, and the unit thereafter. The question
    /// arises only in a cycle in which an instruction was executed, that is,
    /// something was written to `write_bus`; then what was noted is used up.
    pub open spec fn checked(self, pc: i32, write_bus: Lanes) -> (bool, BranchUnit) {
        if write_bus.entry.len() == 0 {
            (false, self)
        } else {
            (
                self.jump || (self.condition_branching_expected is Some
                    && self.condition_branching_expected->Some_0 != pc),
                BranchUnit { condition_branching_expected: None, jump: false },
            )
        }
    }

    /// A unit that has noted nothing.
    pub fn new() -> (unit: BranchUnit)
        ensures
            unit == (BranchUnit { condition_branching_expected: None, jump: false }),
    {
        BranchUnit { condition_branching_expected: None, jump: false }
    }

    /// Looks at the instruction that is about to be executed.
    pub fn predict(&mut self, ctx: &Context, application: &Application, execute_bus: &Bus)
        requires
            execute_bus@.below(application.instructions@.len()),
        ensures
            *final(self) == old(self).predicted(application, ctx@.pc, execute_bus@),
    {
        if execute_bus.contains_element_in_queue() {
            assert(execute_bus@.items()[0] == execute_bus@.queue[0]);
            let token = execute_bus.peek();
            let instruction_type = application.instructions[token.0].instruction_type();
            if jump(instruction_type) {
                self.jump();
            } else if conditional_branching(instruction_type) {
                self.conditional_branching(ctx.pc().wrapping_add(4));
            }
        }
    }

    /// Notes that a jump is about to be executed.
    pub fn jump(&mut self)
        ensures
            *final(self) == (BranchUnit { jump: true, ..*old(self) }),
    {
        self.jump = true;
    }

    /// Notes the address that execution goes on at if the branch about to be
    /// executed is not taken.
    pub fn conditional_branching(&mut self, expected: i32)
        ensures
            *final(self) == (BranchUnit {
                condition_branching_expected: Some(expected),
                ..*old(self)
            }),
    {
        self.condition_branching_expected = Some(expected);
    }

    /// Whether the pipeline is to be flushed.
    pub fn pipeline_to_be_flushed(&mut self, ctx: &Context, write_bus: &Bus) -> (flush: bool)
        ensures
            (flush, *final(self)) == old(self).checked(ctx@.pc, write_bus@),
    {
        if !write_bus.contains_element_in_entry() {
            return false;
        }
        let mut conditional_branching: bool = false;
        match self.condition_branching_expected {
            Some(expected) => {
                conditional_branching = expected != ctx.pc();
            },
            None => {},
        }
        let flush: bool = conditional_branching || self.jump;
        self.condition_branching_expected = None;
        self.jump = false;
        flush
    }
}

/// The board that holds one entry for each occurrence of a register in
/// `registers`.
pub open spec fn tally(registers: Seq<RegisterType>) -> Map<RegisterType, nat> {
    Map::total(|r: RegisterType| count_of(registers, r))
}

/// The pipelined machine as a mathematical value.
pub struct Pipeline {
    pub ctx: State,
    pub scoreboard: Map<RegisterType, nat>,
    pub fetch_unit: FetchUnit,
    pub decode_bus: Lanes,
    pub execute_bus: Lanes,
    pub execute_unit: ExecuteUnit,
    pub write_bus: Lanes,
    pub branch_unit: BranchUnit,
}

/// What one tick of the pipeline leaves.
pub struct Ticked {
    /// The fault of the instruction executed in the tick, if it faulted.
    pub result: Result<(), Fault>,
    /// The pipeline after the tick.
    pub pipeline: Pipeline,
    /// The cycles that the tick took: one, or two where a result had to be
    /// written back before a flush.
    pub cycles: u64,
}

/// What a run returns and leaves behind.
pub struct Outcome {
    /// The returned value: the cycle count, or the fault.
    pub result: Result<u64, Fault>,
    /// The pipeline that the run leaves.
    pub pipeline: Pipeline,
}

impl Pipeline {
    /// The pipeline of a machine just made, with `memory_bytes` cells of
    /// memory.
    pub open spec fn fresh(memory_bytes: usize) -> Pipeline {
        Pipeline {
            ctx: Context::new_state(memory_bytes),
            scoreboard: clear(),
            fetch_unit: FetchUnit {
                pc: 0,
                l1i: CacheLine { lo: -1i64, hi: -1i64 },
                remaining_cycles: 0,
                complete: false,
                processing: false,
            },
            decode_bus: Lanes::empty(1),
            execute_bus: Lanes::empty(1),
            execute_unit: ExecuteUnit { processing: false, remaining_cycles: 0, runner: None },
            write_bus: Lanes::empty(1),
            branch_unit: BranchUnit { condition_branching_expected: None, jump: false },
        }
    }

    /// What holds of the pipeline between any two ticks of a run of `app`:
    /// a stage at work has a cycle left to take; every bus has capacity one
    /// and at most one token in each zone; every token names an instruction
    /// of the program; and the scoreboard holds exactly the registers
    /// written by the instructions whose tokens are on the bus from execute
    /// to write-back, each as often as it is written there.
    pub open spec fn wf(self, app: &Application) -> bool {
        let n = app.instructions@.len();
        &&& self.fetch_unit.wf()
        &&& self.execute_unit.wf()
        &&& self.execute_unit.below(n)
        &&& self.decode_bus.single()
        &&& self.execute_bus.single()
        &&& self.write_bus.single()
        &&& self.decode_bus.below(n)
        &&& self.execute_bus.below(n)
        &&& self.write_bus.below(n)
        &&& self.scoreboard == tally(in_flight(app, self.write_bus.items()))
    }

    /// Whether every stage and every bus is empty.
    pub open spec fn is_complete(self) -> bool {
        self.fetch_unit.complete && !self.execute_unit.processing && self.decode_bus.is_empty()
            && self.execute_bus.is_empty() && self.write_bus.is_empty()
    }

    /// The pipeline after a flush: the buses are empty, nothing is entered
    /// in the scoreboard, and fetch goes on at the program counter.
    pub open spec fn flushed(self) -> Pipeline {
        Pipeline {
            scoreboard: clear(),
            fetch_unit: self.fetch_unit.flushed(self.ctx.pc),
            decode_bus: Lanes::empty(self.decode_bus.max),
            execute_bus: Lanes::empty(self.execute_bus.max),
            write_bus: Lanes::empty(self.write_bus.max),
            ..self
        }
    }

    /// The pipeline as a run begins with it: empty, with one-place buses,
    /// about to fetch at the program counter. Registers, memory, program
    /// counter and cache line are as they were.
    pub open spec fn restarted(self) -> Pipeline {
        Pipeline {
            ctx: self.ctx,
            scoreboard: clear(),
            fetch_unit: self.fetch_unit.flushed(self.ctx.pc),
            decode_bus: Lanes::empty(1),
            execute_bus: Lanes::empty(1),
            execute_unit: ExecuteUnit { processing: false, remaining_cycles: 0, runner: None },
            write_bus: Lanes::empty(1),
            branch_unit: BranchUnit { condition_branching_expected: None, jump: false },
        }
    }

    /// The first half of a tick: fetch runs; the bus to decode moves on;
    /// decode runs; the bus to execute moves on; the branch unit looks at
    /// what is about to be executed.
    pub open spec fn front(self, app: &Application) -> Pipeline {
        let (fetch_unit, decode_bus) = self.fetch_unit.cycled(app, self.decode_bus);
        let (decode_bus, execute_bus) = DecodeUnit::cycled(
            decode_bus.connected(),
            self.execute_bus,
        );
        let execute_bus = execute_bus.connected();
        Pipeline {
            fetch_unit,
            decode_bus,
            execute_bus,
            branch_unit: self.branch_unit.predicted(app, self.ctx.pc, execute_bus),
            ..self
        }
    }

    /// The middle of a tick: execute runs.
    pub open spec fn executed(self, app: &Application) -> Executed {
        self.execute_unit.cycled(app, self.ctx, self.scoreboard, self.execute_bus, self.write_bus)
    }

    /// Whether the tick that begins with this pipeline executes an
    /// instruction.
    pub open spec fn executes(self, app: &Application) -> bool {
        self.front(app).executed(app).out_bus != self.front(app).write_bus
    }

    /// The pipeline with what a cycle of the execute unit left.
    pub open spec fn with(self, executed: Executed) -> Pipeline {
        Pipeline {
            ctx: executed.ctx,
            scoreboard: executed.scoreboard,
            execute_bus: executed.in_bus,
            execute_unit: executed.unit,
            write_bus: executed.out_bus,
            ..self
        }
    }

    /// One step of write-back: the bus from execute moves on and the write
    /// unit runs.
    pub open spec fn retired(self, app: &Application) -> Pipeline {
        let (ctx, scoreboard, write_bus) = WriteUnit::cycled(
            app,
            self.ctx,
            self.scoreboard,
            self.write_bus.connected(),
        );
        Pipeline { ctx, scoreboard, write_bus, ..self }
    }

    /// The second half of a tick, after an instruction was executed or none
    /// was: the branch unit says whether the prediction failed; write-back
    /// runs; on a failed prediction the pipeline is flushed, after one more
    /// step of write-back where a result is still on its way.
    pub open spec fn back(self, app: &Application) -> Ticked {
        let (flush, branch_unit) = self.branch_unit.checked(self.ctx.pc, self.write_bus);
        let retired = (Pipeline { branch_unit, ..self }).retired(app);
        if !flush {
            Ticked { result: Ok(()), pipeline: retired, cycles: 1 }
        } else if retired.write_bus.buffer.len() == 0 {
            Ticked { result: Ok(()), pipeline: retired.flushed(), cycles: 1 }
        } else {
            Ticked { result: Ok(()), pipeline: retired.retired(app).flushed(), cycles: 2 }
        }
    }

    /// One tick of the pipeline. A fault of the executed instruction ends the
    /// tick where it arose.
    pub open spec fn ticked(self, app: &Application) -> Ticked {
        let front = self.front(app);
        let executed = front.executed(app);
        if executed.result is Err {
            Ticked { result: executed.result, pipeline: front.with(executed), cycles: 1 }
        } else {
            front.with(executed).back(app)
        }
    }
}

/// The run of the pipelined machine from the pipeline `p` with `cycles`
/// counted so far: tick after tick until, after a tick, every stage and bus
/// is empty. A fault ends the run with the pipeline as the tick left it. No
/// tick is begun where the counter could not count two more cycles.
pub open spec fn simulate(app: &Application, p: Pipeline, cycles: u64) -> Outcome
    decreases u64::MAX - cycles,
{
    if cycles > u64::MAX - 2 {
        Outcome { result: Err(Fault::CounterOverflow), pipeline: p }
    } else {
        let ticked = p.ticked(app);
        let spent: u64 = if ticked.cycles == 2 {
            2
        } else {
            1
        };
        match ticked.result {
            Err(fault) => Outcome { result: Err(fault), pipeline: ticked.pipeline },
            Ok(()) => if ticked.pipeline.is_complete() {
                Outcome { result: Ok((cycles + spent) as u64), pipeline: ticked.pipeline }
            } else {
                simulate(app, ticked.pipeline, (cycles + spent) as u64)
            },
        }
    }
}

/// The registers in flight after one more token.
pub proof fn lemma_in_flight_push(app: &Application, tokens: Seq<(usize, i32)>, token: (usize, i32))
    ensures
        in_flight(app, tokens.push(token)) == in_flight(app, tokens)
            + app.instructions@[token.0 as int].writes(),
{
    assert(tokens.push(token).drop_last() =~= tokens);
}

/// The registers in flight, the oldest token apart.
pub proof fn lemma_in_flight_front(app: &Application, tokens: Seq<(usize, i32)>)
    requires
        tokens.len() > 0,
    ensures
        in_flight(app, tokens) == app.instructions@[tokens[0].0 as int].writes() + in_flight(
            app,
            tokens.skip(1),
        ),
    decreases tokens.len(),
{
    let first = app.instructions@[tokens[0].0 as int].writes();
    if tokens.len() == 1 {
        assert(tokens.drop_last() =~= Seq::<(usize, i32)>::empty());
        assert(tokens.skip(1) =~= Seq::<(usize, i32)>::empty());
        assert(in_flight(app, tokens) =~= first + in_flight(app, tokens.skip(1)));
    } else {
        lemma_in_flight_front(app, tokens.drop_last());
        assert(tokens.drop_last().skip(1) =~= tokens.skip(1).drop_last());
        assert(tokens.drop_last()[0] == tokens[0]);
        let last = app.instructions@[tokens.last().0 as int].writes();
        assert(tokens.skip(1).last() == tokens.last());
        assert(in_flight(app, tokens) =~= first + in_flight(app, tokens.skip(1))) by {
            assert((first + in_flight(app, tokens.skip(1).drop_last())) + last =~= first + (
            in_flight(app, tokens.skip(1).drop_last()) + last));
        }
    }
}

/// The first half of a tick keeps what holds between ticks.
pub proof fn lemma_front_wf(app: &Application, p: Pipeline)
    requires
        p.wf(app),
    ensures
        p.front(app).wf(app),
{
    let n = app.instructions@.len();
    let (fetch_unit, decode_bus) = p.fetch_unit.cycled(app, p.decode_bus);
    assert(decode_bus.single() && decode_bus.below(n)) by {
        if decode_bus != p.decode_bus {
            let token = ((p.fetch_unit.begun().pc / 4) as usize, 0i32);
            assert(decode_bus == p.decode_bus.added(token));
            lemma_added_below(p.decode_bus, token, n);
        }
    }
    lemma_connected_keeps(decode_bus, n);
    let connected = decode_bus.connected();
    let (decode_bus2, execute_bus) = DecodeUnit::cycled(connected, p.execute_bus);
    assert(decode_bus2.single() && decode_bus2.below(n) && execute_bus.single()
        && execute_bus.below(n)) by {
        if connected.queue.len() != 0 && !p.execute_bus.is_full() {
            assert(connected.items()[0] == connected.queue[0]);
            lemma_taken_below(connected, n);
            lemma_added_below(p.execute_bus, connected.queue[0], n);
        }
    }
    lemma_connected_keeps(execute_bus, n);
}

/// A bus that is not full stays within one token a zone when one is added,
/// and a token below `n` keeps the bus below `n`.
pub proof fn lemma_added_below(bus: Lanes, token: (usize, i32), n: nat)
    requires
        bus.below(n),
        token.0 < n,
    ensures
        bus.added(token).below(n),
        bus.single() && !bus.is_full() ==> bus.added(token).single(),
{
    let after = bus.added(token);
    assert(after.items() =~= bus.items().push(token));
    assert forall|i: int| 0 <= i < after.items().len() implies (#[trigger] after.items()[i]).0
        < n by {
        if i < bus.items().len() {
            assert(after.items()[i] == bus.items()[i]);
        }
    }
}

/// Taking the oldest visible token off keeps a bus below `n` and within one
/// token a zone.
pub proof fn lemma_taken_below(bus: Lanes, n: nat)
    requires
        bus.below(n),
        bus.queue.len() > 0,
    ensures
        bus.taken().below(n),
        bus.single() ==> bus.taken().single(),
        bus.taken().items() == bus.items().skip(1),
{
    let after = bus.taken();
    assert(after.items() =~= bus.items().skip(1));
    assert forall|i: int| 0 <= i < after.items().len() implies (#[trigger] after.items()[i]).0
        < n by {
        assert(after.items()[i] == bus.items()[i + 1]);
    }
}

/// Moving on keeps the tokens of a bus and their order, and keeps it within
/// one token a zone.
pub proof fn lemma_connected_keeps(bus: Lanes, n: nat)
    ensures
        bus.connected().items() == bus.items(),
        bus.below(n) ==> bus.connected().below(n),
        bus.single() ==> bus.connected().single(),
{
    assert(bus.connected().items() =~= bus.items());
}

/// The execute stage keeps what holds between ticks.
pub proof fn lemma_executed_wf(app: &Application, p: Pipeline)
    requires
        p.wf(app),
    ensures
        p.with(p.executed(app)).wf(app),
{
    let n = app.instructions@.len();
    let executed = p.executed(app);
    let (unit, from) = p.execute_unit.begun(app, p.execute_bus);
    if from != p.execute_bus {
        assert(p.execute_bus.items()[0] == p.execute_bus.queue[0]);
        lemma_taken_below(p.execute_bus, n);
    }
    if executed.out_bus != p.write_bus {
        let index = unit.runner->Some_0;
        let instruction = app.instructions@[index as int];
        let effect = instruction.effect(p.ctx, app.labels@)->Ok_0;
        let token = (index, effect.execution.value);
        lemma_added_below(p.write_bus, token, n);
        assert(executed.out_bus.items() =~= p.write_bus.items().push(token));
        lemma_in_flight_push(app, p.write_bus.items(), token);
        assert forall|r: RegisterType| #[trigger]
            executed.scoreboard[r] == count_of(in_flight(app, executed.out_bus.items()), r) by {
            crate::scoreboard::lemma_count_concat(
                in_flight(app, p.write_bus.items()),
                instruction.writes(),
                r,
            );
        }
        assert(executed.scoreboard =~= tally(in_flight(app, executed.out_bus.items())));
    }
}

/// A step of write-back keeps what holds between ticks.
pub proof fn lemma_retired_wf(app: &Application, p: Pipeline)
    requires
        p.wf(app),
    ensures
        p.retired(app).wf(app),
{
    let n = app.instructions@.len();
    lemma_connected_keeps(p.write_bus, n);
    let bus = p.write_bus.connected();
    if bus.queue.len() > 0 {
        assert(bus.items()[0] == bus.queue[0]);
        lemma_taken_below(bus, n);
        lemma_in_flight_front(app, bus.items());
        let instruction = app.instructions@[bus.queue[0].0 as int];
        lemma_writes_short(instruction);
        let after = p.retired(app);
        assert forall|r: RegisterType| #[trigger]
            after.scoreboard[r] == count_of(in_flight(app, after.write_bus.items()), r) by {
            crate::scoreboard::lemma_count_concat(
                instruction.writes(),
                in_flight(app, bus.items().skip(1)),
                r,
            );
            if instruction.opcode().is_store() {
                assert(instruction.writes() =~= Seq::<RegisterType>::empty());
            }
        }
        assert(after.scoreboard =~= tally(in_flight(app, after.write_bus.items())));
    }
}

/// A flush keeps what holds between ticks.
pub proof fn lemma_flushed_wf(app: &Application, p: Pipeline)
    requires
        p.wf(app),
    ensures
        p.flushed().wf(app),
{
    let after = p.flushed();
    assert(after.write_bus.items() =~= Seq::<(usize, i32)>::empty());
    assert(after.scoreboard =~= tally(in_flight(app, after.write_bus.items())));
}

/// At every tick of a run the scoreboard holds exactly the registers written
/// by the instructions that were executed and not yet written back, those
/// whose tokens are on the bus from execute to write-back: a tick keeps what
/// holds between ticks.
pub proof fn lemma_ticked_wf(app: &Application, p: Pipeline)
    requires
        p.wf(app),
    ensures
        p.ticked(app).pipeline.wf(app),
{
    lemma_front_wf(app, p);
    let front = p.front(app);
    lemma_executed_wf(app, front);
    let executed = front.executed(app);
    if executed.result is Ok {
        let middle = front.with(executed);
        let (flush, branch_unit) = middle.branch_unit.checked(middle.ctx.pc, middle.write_bus);
        let checked = Pipeline { branch_unit, ..middle };
        lemma_retired_wf(app, checked);
        let retired = checked.retired(app);
        lemma_flushed_wf(app, retired);
        lemma_retired_wf(app, retired);
        lemma_flushed_wf(app, retired.retired(app));
    }
}

/// A run begins with a pipeline of which what holds between ticks holds.
pub proof fn lemma_restarted_wf(app: &Application, p: Pipeline)
    ensures
        p.restarted().wf(app),
{
    let after = p.restarted();
    assert(after.write_bus.items() =~= Seq::<(usize, i32)>::empty());
    assert(after.decode_bus.items() =~= Seq::<(usize, i32)>::empty());
    assert(after.execute_bus.items() =~= Seq::<(usize, i32)>::empty());
    assert(after.scoreboard =~= tally(in_flight(app, after.write_bus.items())));
}

/// The pipelined machine.
pub struct Mvm3 {
    ctx: Context,
    scoreboard: Scoreboard,
    fetch_unit: FetchUnit,
    decode_bus: Bus,
    decode_unit: DecodeUnit,
    execute_bus: Bus,
    execute_unit: ExecuteUnit,
    write_bus: Bus,
    write_unit: WriteUnit,
    branch_unit: BranchUnit,
}

impl View for Mvm3 {
    type V = Pipeline;

    closed spec fn view(&self) -> Pipeline {
        Pipeline {
            ctx: self.ctx@,
            scoreboard: self.scoreboard@,
            fetch_unit: self.fetch_unit,
            decode_bus: self.decode_bus@,
            execute_bus: self.execute_bus@,
            execute_unit: self.execute_unit,
            write_bus: self.write_bus@,
            branch_unit: self.branch_unit,
        }
    }
}

impl Mvm3 {
    /// A machine with `memory_bytes` cells of memory, every cell and register
    /// zero, and an empty pipeline.
    pub fn new(memory_bytes: usize) -> (vm: Mvm3)
        ensures
            vm@ == Pipeline::fresh(memory_bytes),
    {
        Mvm3 {
            ctx: Context::new(memory_bytes),
            scoreboard: Scoreboard::new(),
            fetch_unit: FetchUnit::new(),
            decode_bus: Bus::new(1),
            decode_unit: DecodeUnit::new(),
            execute_bus: Bus::new(1),
            execute_unit: ExecuteUnit::new(),
            write_bus: Bus::new(1),
            write_unit: WriteUnit::new(),
            branch_unit: BranchUnit::new(),
        }
    }

    /// The registers, memory and program counter.
    pub fn context(&self) -> (ctx: &Context)
        ensures
            ctx@ == self@.ctx,
    {
        &self.ctx
    }

    /// Writes `value` to register `r`. A write to `ZERO` is discarded.
    pub fn set_register(&mut self, r: RegisterType, value: i32)
        ensures
            final(self)@ == (Pipeline {
                ctx: State {
                    registers: written(old(self)@.ctx.registers, r, value),
                    ..old(self)@.ctx
                },
                ..old(self)@
            }),
    {
        self.ctx.set_register(r, value);
    }

    /// Writes `value` to the memory cell at `address`; `false`, and nothing
    /// written, where the memory has no such cell.
    pub fn set_memory(&mut self, address: usize, value: i8) -> (done: bool)
        ensures
            done == (address < old(self)@.ctx.memory.len()),
            final(self)@ == (if done {
                Pipeline {
                    ctx: State {
                        memory: old(self)@.ctx.memory.update(address as int, value),
                        ..old(self)@.ctx
                    },
                    ..old(self)@
                }
            } else {
                old(self)@
            }),
    {
        if address < self.ctx.memory_len() {
            self.ctx.store(address, value);
            true
        } else {
            false
        }
    }

    /// Runs `application` on an empty pipeline, from the program counter on,
    /// until every stage and bus is empty again or an instruction faults, and
    /// returns the cycles that the run took.
    pub fn run(&mut self, application: &Application) -> (result: Result<u64, ExecError>)
        ensures
            reports(result, simulate(application, old(self)@.restarted(), 0).result),
            final(self)@ == simulate(application, old(self)@.restarted(), 0).pipeline,
            final(self)@.ctx.registers[RegisterType::ZERO] == 0,
            result is Ok ==> application.computes(old(self)@.ctx, final(self)@.ctx)
                && final(self)@.is_complete(),
            result is Err && result->Err_0@ != Fault::CounterOverflow ==> application.faults(
                old(self)@.ctx,
                result->Err_0@,
            ),
    {
        self.restart();
        let mut cycles: u64 = 0;
        proof {
            lemma_restarted_wf(application, old(self)@);
            crate::context::lemma_context_zero(self.ctx);
            crate::refinement::lemma_restarted(application, old(self)@);
            crate::refinement::lemma_mvm3_outcome(application, old(self)@.restarted(), 0);
        }
        loop
            invariant
                self@.wf(application),
                crate::laws::outcome(
                    application,
                    old(self)@.ctx,
                    simulate(application, old(self)@.restarted(), 0).result,
                    simulate(application, old(self)@.restarted(), 0).pipeline.ctx,
                ),
                simulate(application, old(self)@.restarted(), 0).result is Ok ==> simulate(
                    application,
                    old(self)@.restarted(),
                    0,
                ).pipeline.is_complete(),
                simulate(application, self@, cycles) == simulate(
                    application,
                    old(self)@.restarted(),
                    0,
                ),
            decreases u64::MAX - cycles,
        {
            proof {
                crate::context::lemma_context_zero(self.ctx);
            }
            if cycles > u64::MAX - 2 {
                return Err(ExecError::CounterOverflow);
            }
            let ghost before = self@;
            match self.cycle(application) {
                Ok(spent) => {
                    cycles = cycles + spent;
                },
                Err(e) => {
                    proof {
                        crate::context::lemma_context_zero(self.ctx);
                    }
                    return Err(e);
                },
            }
            proof {
                crate::context::lemma_context_zero(self.ctx);
            }
            if self.is_complete() {
                return Ok(cycles);
            }
        }
    }

    /// Runs the pipeline for one tick and returns the cycles that it took.
    fn cycle(&mut self, application: &Application) -> (result: Result<u64, ExecError>)
        requires
            old(self)@.wf(application),
        ensures
            final(self)@ == old(self)@.ticked(application).pipeline,
            final(self)@.wf(application),
            match old(self)@.ticked(application).result {
                Ok(()) => result == Ok::<u64, ExecError>(old(self)@.ticked(application).cycles),
                Err(fault) => result is Err && result->Err_0@ == fault,
            },
            old(self)@.ticked(application).cycles == 1 || old(self)@.ticked(application).cycles
                == 2,
    {
        proof {
            lemma_ticked_wf(application, self@);
            lemma_front_wf(application, self@);
        }
        let ghost n = application.instructions@.len();
        self.fetch_unit.cycle(application, &mut self.decode_bus);
        self.decode_bus.connect();
        self.decode_unit.cycle(&mut self.decode_bus, &mut self.execute_bus);
        self.execute_bus.connect();
        self.branch_unit.predict(&self.ctx, application, &self.execute_bus);
        assert(self@ == old(self)@.front(application));
        proof {
            lemma_executed_wf(application, self@);
            lemma_scoreboard_low(application, self@);
        }
        let ghost front = self@;
        match self.execute_unit.cycle(
            &mut self.ctx,
            &mut self.scoreboard,
            application,
            &mut self.execute_bus,
            &mut self.write_bus,
        ) {
            Ok(()) => {},
            Err(e) => {
                assert(self@ == front.with(front.executed(application)));
                return Err(e);
            },
        }
        assert(self@ == front.with(front.executed(application)));
        let ghost middle = self@;
        let flush: bool = self.branch_unit.pipeline_to_be_flushed(&self.ctx, &self.write_bus);
        proof {
            lemma_retired_wf(application, self@);
            lemma_connected_keeps(self@.write_bus, n);
        }
        self.write_bus.connect();
        self.write_unit.cycle(&mut self.ctx, &mut self.scoreboard, application, &mut self.write_bus);
        let mut cycles: u64 = 1;
        if flush {
            if self.write_bus.contains_element_in_buffer() {
                proof {
                    lemma_retired_wf(application, self@);
                    lemma_connected_keeps(self@.write_bus, n);
                }
                cycles = 2;
                self.write_bus.connect();
                self.write_unit.cycle(
                    &mut self.ctx,
                    &mut self.scoreboard,
                    application,
                    &mut self.write_bus,
                );
            }
            self.flush(self.ctx.pc());
        }
        assert(self@ == middle.back(application).pipeline);
        Ok(cycles)
    }

    /// Empties the pipeline and lets fetch go on at `pc`.
    fn flush(&mut self, pc: i32)
        requires
            pc == old(self)@.ctx.pc,
        ensures
            final(self)@ == old(self)@.flushed(),
    {
        self.fetch_unit.flush(pc);
        self.decode_unit.flush();
        self.decode_bus.flush();
        self.execute_bus.flush();
        self.write_bus.flush();
        self.scoreboard.clear();
    }

    /// Makes the pipeline ready for a run.
    fn restart(&mut self)
        ensures
            final(self)@ == old(self)@.restarted(),
    {
        self.fetch_unit.flush(self.ctx.pc());
        self.decode_bus = Bus::new(1);
        self.execute_bus = Bus::new(1);
        self.write_bus = Bus::new(1);
        self.execute_unit = ExecuteUnit::new();
        self.branch_unit = BranchUnit::new();
        self.scoreboard.clear();
    }

    /// Whether every stage and every bus is empty.
    pub fn is_complete(&self) -> (complete: bool)
        ensures
            complete == self@.is_complete(),
    {
        self.fetch_unit.is_empty() && self.decode_unit.is_empty() && self.execute_unit.is_empty()
            && self.write_unit.is_empty() && self.decode_bus.is_empty()
            && self.execute_bus.is_empty() && self.write_bus.is_empty()
    }
}

/// Between ticks no register has more than three writes in flight.
pub proof fn lemma_scoreboard_low(app: &Application, p: Pipeline)
    requires
        p.wf(app),
    ensures
        forall|r: RegisterType| #[trigger] p.scoreboard[r] <= 3,
{
    assert forall|r: RegisterType| #[trigger] p.scoreboard[r] <= 3 by {
        lemma_in_flight_short(app, p.write_bus.items());
        crate::scoreboard::lemma_count_bounded(in_flight(app, p.write_bus.items()), r);
    }
}

/// No more registers are in flight than there are tokens.
pub proof fn lemma_in_flight_short(app: &Application, tokens: Seq<(usize, i32)>)
    ensures
        in_flight(app, tokens).len() <= tokens.len(),
    decreases tokens.len(),
{
    if tokens.len() > 0 {
        lemma_in_flight_short(app, tokens.drop_last());
        lemma_writes_short(app.instructions@[tokens.last().0 as int]);
    }
}

} // verus!
