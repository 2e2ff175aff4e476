//! Why the pipelined machine does not come to a standstill: every tick
//! executes an instruction, or ends the run, or brings the pipeline nearer
//! to one of the two.

use crate::context::{Fault, State};
use crate::laws::lemma_halting_state_unique;
use crate::mvm3::{
    in_flight, simulate, FetchUnit, Pipeline, CYCLES_L1_ACCESS, CYCLES_MEMORY_ACCESS,
};
use crate::opcodes::InstructionRunner;
use crate::program::Application;
use crate::refinement::{
    arch, inv, lemma_fault, lemma_mvm3_computes, lemma_restarted, lemma_tick,
};
use crate::scoreboard::blocked;
use vstd::prelude::*;

verus! {

/// The cycles that the execute step of the instruction of `token` takes.
pub open spec fn cost(app: &Application, token: (usize, i32)) -> nat {
    app.instructions@[token.0 as int].opcode().execute_cost() as nat
}

/// The cycles until the fetch unit has its next instruction, the bus
/// permitting.
pub open spec fn fetch_time(unit: FetchUnit) -> nat {
    if unit.processing {
        unit.remaining_cycles as nat
    } else if unit.l1i.holds(unit.pc) {
        CYCLES_L1_ACCESS as nat
    } else {
        CYCLES_MEMORY_ACCESS as nat
    }
}

/// A bound on the ticks until the pipeline executes its next instruction
/// or, where none is left, is empty. It goes by the place of the next
/// instruction: in the execute unit, it has its remaining cycles to take; on
/// a bus, its execute cost and a tick or two to get there; not yet fetched,
/// the time of the fetch and all of that. A result on its way to write-back
/// may hold the instruction up for one tick more.
pub open spec fn distance(app: &Application, p: Pipeline) -> nat {
    let waiting = p.write_bus.buffer.len();
    if p.execute_unit.processing {
        p.execute_unit.remaining_cycles as nat + waiting
    } else if p.execute_bus.queue.len() > 0 {
        cost(app, p.execute_bus.queue[0]) + waiting
    } else if p.execute_bus.buffer.len() > 0 {
        cost(app, p.execute_bus.buffer[0]) + waiting
    } else if p.execute_bus.entry.len() > 0 {
        cost(app, p.execute_bus.entry[0]) + waiting + 1
    } else if p.decode_bus.queue.len() > 0 {
        cost(app, p.decode_bus.queue[0]) + waiting + 1
    } else if p.decode_bus.buffer.len() > 0 {
        cost(app, p.decode_bus.buffer[0]) + waiting + 1
    } else if p.decode_bus.entry.len() > 0 {
        cost(app, p.decode_bus.entry[0]) + waiting + 2
    } else if p.fetch_unit.complete {
        waiting
    } else if !app.holds(p.fetch_unit.pc) {
        waiting + 1
    } else {
        fetch_time(p.fetch_unit) + 51 + waiting
    }
}

/// With nothing on the bus to write-back, no register has a write in flight.
proof fn lemma_unblocked(app: &Application, p: Pipeline)
    requires
        p.wf(app),
        p.write_bus.is_empty(),
    ensures
        forall|registers: Seq<crate::register::RegisterType>| !blocked(p.scoreboard, registers),
{
    assert(p.write_bus.items() =~= Seq::<(usize, i32)>::empty());
    assert(in_flight(app, p.write_bus.items()) =~= Seq::<crate::register::RegisterType>::empty());
}

/// The pipeline never stands still: a tick executes an instruction, or
/// leaves every stage and bus empty, or leaves the pipeline strictly nearer
/// to that than it was.
pub proof fn lemma_progress(app: &Application, p: Pipeline)
    requires
        inv(app, p),
        p.ticked(app).result is Ok,
    ensures
        p.executes(app) || p.ticked(app).pipeline.is_complete() || distance(
            app,
            p.ticked(app).pipeline,
        ) < distance(app, p),
{
    let n = app.instructions@.len();
    crate::mvm3::lemma_front_wf(app, p);
    let front = p.front(app);
    let executed = front.executed(app);
    let middle = front.with(executed);
    let after = p.ticked(app).pipeline;
    if !p.executes(app) {
        // Nothing was executed, so nothing is flushed, and what was on its
        // way to write-back has arrived.
        assert(after.write_bus.buffer =~= Seq::<(usize, i32)>::empty());
        assert(after.execute_unit == middle.execute_unit);
        assert(after.execute_bus == middle.execute_bus);
        assert(after.decode_bus == front.decode_bus);
        assert(after.fetch_unit == front.fetch_unit);
        if p.write_bus.buffer.len() == 0 {
            assert(p.write_bus.is_empty());
            lemma_unblocked(app, front);
        }
    }
}

/// The most that [`distance`] can be.
pub const DISTANCE_MAX: u64 = 103;

/// The most ticks that a run spends on one instruction, the tick that
/// executes it included.
pub const TICKS_PER_INSTRUCTION: u64 = 104;

/// The distance is bounded.
pub proof fn lemma_distance_bounded(app: &Application, p: Pipeline)
    requires
        p.wf(app),
    ensures
        distance(app, p) <= DISTANCE_MAX,
{
}

/// A run of the pipelined machine ends where the program ends: from a
/// pipeline between ticks whose architectural state the program takes to a
/// halt in `n` instructions or fewer, without a fault, the run returns a
/// cycle count, provided that the counter can count two cycles for each of
/// the ticks that `n` instructions and the way to the first of them can
/// take.
pub proof fn lemma_run_ends(app: &Application, p: Pipeline, cycles: u64, n: nat)
    requires
        inv(app, p),
        app.after(arch(app, p), n) is Ok,
        !app.holds(app.after(arch(app, p), n)->Ok_0.pc),
        cycles + 2 * (TICKS_PER_INSTRUCTION * n + distance(app, p) + 1) <= u64::MAX - 2,
    ensures
        simulate(app, p, cycles).result is Ok,
        simulate(app, p, cycles).result->Ok_0 <= cycles + 2 * (TICKS_PER_INSTRUCTION * n
            + distance(app, p) + 1),
    decreases n, distance(app, p),
{
    let ticked = p.ticked(app);
    let s = arch(app, p);
    if ticked.result is Err {
        lemma_fault(app, p);
        assert(n > 0);
    } else {
        lemma_tick(app, p);
        lemma_progress(app, p);
        let next = ticked.pipeline;
        let spent: u64 = if ticked.cycles == 2 {
            2
        } else {
            1
        };
        if !next.is_complete() {
            lemma_distance_bounded(app, next);
            if p.executes(app) {
                assert(n > 0);
                assert(app.after(arch(app, next), (n - 1) as nat) == app.after(s, n));
                assert(TICKS_PER_INSTRUCTION * n == TICKS_PER_INSTRUCTION * (n - 1)
                    + TICKS_PER_INSTRUCTION) by (nonlinear_arith);
                lemma_run_ends(app, next, (cycles + spent) as u64, (n - 1) as nat);
            } else {
                lemma_run_ends(app, next, (cycles + spent) as u64, n);
            }
        }
    }
}

/// The pipelined machine runs every program to its end that has one: where
/// the program, started in the registers, memory and program counter of the
/// pipeline `p`, halts after `n` instructions or fewer without a fault, a
/// run returns a cycle count of no more than two hundred and eight for each
/// instruction and for the way to the first, and leaves the state in which
/// the program halts, provided that the counter can count so far.
pub proof fn lemma_mvm3_halts(app: &Application, p: Pipeline, n: nat)
    requires
        app.after(p.ctx, n) is Ok,
        !app.holds(app.after(p.ctx, n)->Ok_0.pc),
        2 * TICKS_PER_INSTRUCTION * (n + 1) <= u64::MAX - 2,
    ensures
        simulate(app, p.restarted(), 0).result is Ok,
        simulate(app, p.restarted(), 0).result->Ok_0 <= 2 * TICKS_PER_INSTRUCTION * (n + 1),
        simulate(app, p.restarted(), 0).pipeline.ctx == app.after(p.ctx, n)->Ok_0,
{
    let start = p.restarted();
    let end = app.after(p.ctx, n)->Ok_0;
    lemma_restarted(app, p);
    lemma_distance_bounded(app, start);
    assert(2 * TICKS_PER_INSTRUCTION * (n + 1) == 2 * (TICKS_PER_INSTRUCTION * n) + 2
        * TICKS_PER_INSTRUCTION) by (nonlinear_arith);
    lemma_run_ends(app, start, 0, n);
    lemma_mvm3_computes(app, start, 0);
    assert(app.computes(p.ctx, end));
    lemma_halting_state_unique(app, p.ctx, simulate(app, start, 0).pipeline.ctx, end);
}

} // verus!
