//! Why the pipelined machine computes what the program computes: between
//! ticks, the registers with the results that are still on their way to
//! them, the memory and the program counter are a state of the plain
//! execution of the program, and a tick takes that state one instruction
//! further or leaves it.

use crate::bus::Lanes;
use crate::context::{Fault, State};
use crate::laws::{lemma_computes_step, lemma_faults_step, lemma_halting_state_unique};
use crate::mvm1;
use crate::mvm3::{
    in_flight, lemma_connected_keeps, lemma_ticked_wf, simulate, BranchUnit, DecodeUnit,
    ExecuteUnit, FetchUnit, Pipeline,
};
use crate::opcodes::{next_pc, target, InstructionRunner};
use crate::program::{Application, Instruction};
use crate::register::{written, RegisterType};
use crate::scoreboard::{count_of, lemma_count_concat};
use vstd::prelude::*;

verus! {

/// The registers after the result of `token` was written back.
pub open spec fn retires(
    app: &Application,
    registers: Map<RegisterType, i32>,
    token: (usize, i32),
) -> Map<RegisterType, i32> {
    let instruction = app.instructions@[token.0 as int];
    if instruction.opcode().is_store() {
        registers
    } else {
        written(registers, target(instruction.writes()), token.1)
    }
}

/// The registers after the results of `tokens` were written back, the oldest
/// first.
pub open spec fn settled(
    app: &Application,
    registers: Map<RegisterType, i32>,
    tokens: Seq<(usize, i32)>,
) -> Map<RegisterType, i32>
    decreases tokens.len(),
{
    if tokens.len() == 0 {
        registers
    } else {
        retires(app, settled(app, registers, tokens.drop_last()), tokens.last())
    }
}

/// The architectural state of a pipeline: the registers as they will be
/// when every executed instruction has written back, the memory and the
/// program counter.
pub open spec fn arch(app: &Application, p: Pipeline) -> State {
    State {
        registers: settled(app, p.ctx.registers, p.write_bus.items()),
        memory: p.ctx.memory,
        pc: p.ctx.pc,
    }
}

/// The instruction that the execute unit holds, if it holds one.
pub open spec fn held(unit: ExecuteUnit) -> Seq<usize> {
    if unit.processing && unit.runner is Some {
        seq![unit.runner->Some_0]
    } else {
        Seq::empty()
    }
}

/// The instructions that `tokens` name.
pub open spec fn indices(tokens: Seq<(usize, i32)>) -> Seq<usize> {
    Seq::new(tokens.len(), |i: int| tokens[i].0)
}

/// The instructions that were fetched and not yet executed, the oldest
/// first.
pub open spec fn stream(p: Pipeline) -> Seq<usize> {
    held(p.execute_unit) + indices(p.execute_bus.items()) + indices(p.decode_bus.items())
}

/// Whether `s` are the instructions at `pc` and the addresses after it, one
/// after another, and `end` is the address after the last of them.
pub open spec fn leads(app: &Application, pc: i32, s: Seq<usize>, end: i32) -> bool
    decreases s.len(),
{
    if s.len() == 0 {
        pc == end
    } else {
        app.holds(pc) && s[0] == pc / 4 && leads(app, next_pc(pc), s.skip(1), end)
    }
}

/// Whether the branch unit has noted what it must know of the instruction
/// `index` before that instruction is executed at `pc`.
pub open spec fn noted(app: &Application, unit: BranchUnit, pc: i32, index: usize) -> bool {
    let opcode = app.instructions@[index as int].opcode();
    &&& opcode.is_jump() ==> unit.jump
    &&& opcode.is_branch() ==> unit.condition_branching_expected == Some(next_pc(pc))
}

/// What holds of the pipeline between any two ticks of a run, beyond
/// [`Pipeline::wf`]: the instructions in the pipeline are those at the
/// program counter and after it, in their order, and fetch goes on after the
/// last of them; fetch has stopped only outside the program; nothing is
/// visible on the bus to write-back or was just written to it; and the
/// branch unit has noted the instruction that the execute unit holds.
pub open spec fn inv(app: &Application, p: Pipeline) -> bool {
    &&& p.wf(app)
    &&& leads(app, p.ctx.pc, stream(p), p.fetch_unit.pc)
    &&& p.fetch_unit.complete ==> !app.holds(p.fetch_unit.pc)
    &&& p.write_bus.queue.len() == 0
    &&& p.write_bus.entry.len() == 0
    &&& p.execute_unit.processing ==> noted(
        app,
        p.branch_unit,
        p.ctx.pc,
        p.execute_unit.runner->Some_0,
    )
}

/// The instructions after the first lead on from the next address.
proof fn lemma_leads_push(app: &Application, pc: i32, s: Seq<usize>, end: i32)
    requires
        leads(app, pc, s, end),
        app.holds(end),
    ensures
        leads(app, pc, s.push((end / 4) as usize), next_pc(end)),
    decreases s.len(),
{
    let longer = s.push((end / 4) as usize);
    if s.len() == 0 {
        assert(longer.skip(1) =~= Seq::<usize>::empty());
        assert(leads(app, next_pc(pc), longer.skip(1), next_pc(end)));
    } else {
        lemma_leads_push(app, next_pc(pc), s.skip(1), end);
        assert(longer.skip(1) =~= s.skip(1).push((end / 4) as usize));
    }
}

/// Writing the oldest result back first and the rest then is writing them
/// all back.
proof fn lemma_settled_front(
    app: &Application,
    registers: Map<RegisterType, i32>,
    tokens: Seq<(usize, i32)>,
)
    requires
        tokens.len() > 0,
    ensures
        settled(app, registers, tokens) == settled(
            app,
            retires(app, registers, tokens[0]),
            tokens.skip(1),
        ),
    decreases tokens.len(),
{
    let first = retires(app, registers, tokens[0]);
    if tokens.len() == 1 {
        assert(tokens.drop_last() =~= Seq::<(usize, i32)>::empty());
        assert(tokens.skip(1) =~= Seq::<(usize, i32)>::empty());
        assert(tokens.last() == tokens[0]);
        assert(settled(app, registers, tokens.drop_last()) == registers);
        assert(settled(app, first, tokens.skip(1)) == first);
    } else {
        lemma_settled_front(app, registers, tokens.drop_last());
        assert(tokens.drop_last()[0] == tokens[0]);
        assert(tokens.drop_last().skip(1) =~= tokens.skip(1).drop_last());
        assert(tokens.skip(1).last() == tokens.last());
        assert(settled(app, first, tokens.skip(1)) == retires(
            app,
            settled(app, first, tokens.skip(1).drop_last()),
            tokens.skip(1).last(),
        ));
    }
}

/// A register that no instruction in flight writes is not changed by what
/// is written back.
proof fn lemma_settled_unwritten(
    app: &Application,
    registers: Map<RegisterType, i32>,
    tokens: Seq<(usize, i32)>,
    r: RegisterType,
)
    requires
        count_of(in_flight(app, tokens), r) == 0,
    ensures
        settled(app, registers, tokens)[r] == registers[r],
    decreases tokens.len(),
{
    if tokens.len() > 0 {
        let writes = app.instructions@[tokens.last().0 as int].writes();
        lemma_count_concat(in_flight(app, tokens.drop_last()), writes, r);
        lemma_settled_unwritten(app, registers, tokens.drop_last(), r);
        if writes.len() > 0 && writes[0] == r {
            lemma_count_first(writes, r);
        }
    }
}

/// A register that occurs first in a sequence occurs in it.
proof fn lemma_count_first(registers: Seq<RegisterType>, r: RegisterType)
    requires
        registers.len() > 0,
        registers[0] == r,
    ensures
        count_of(registers, r) > 0,
    decreases registers.len(),
{
    if registers.len() > 1 {
        lemma_count_first(registers.drop_last(), r);
    }
}

/// The instructions that a bus names after one more token.
proof fn lemma_indices_push(tokens: Seq<(usize, i32)>, token: (usize, i32))
    ensures
        indices(tokens.push(token)) == indices(tokens).push(token.0),
{
    assert(indices(tokens.push(token)) =~= indices(tokens).push(token.0));
}

/// The instructions that a bus names, the oldest token apart.
proof fn lemma_indices_skip(tokens: Seq<(usize, i32)>)
    requires
        tokens.len() > 0,
    ensures
        indices(tokens.skip(1)) == indices(tokens).skip(1),
        indices(tokens)[0] == tokens[0].0,
{
    assert(indices(tokens.skip(1)) =~= indices(tokens).skip(1));
}

/// What holds after the first half of a tick.
pub open spec fn inv_front(app: &Application, p: Pipeline) -> bool {
    &&& p.wf(app)
    &&& leads(app, p.ctx.pc, stream(p), p.fetch_unit.pc)
    &&& p.fetch_unit.complete ==> !app.holds(p.fetch_unit.pc)
    &&& p.write_bus.queue.len() == 0
    &&& p.write_bus.entry.len() == 0
    &&& noted_next(app, p.branch_unit, p.ctx.pc, p.execute_unit, p.execute_bus)
}

/// A cycle of the fetch unit keeps the instructions in the pipeline those at
/// the program counter and after it: with `ahead` the instructions that are
/// further on than the bus from fetch.
proof fn lemma_fetched(app: &Application, unit: FetchUnit, bus: Lanes, pc: i32, ahead: Seq<usize>)
    requires
        leads(app, pc, ahead + indices(bus.items()), unit.pc),
        unit.complete ==> !app.holds(unit.pc),
    ensures
        leads(
            app,
            pc,
            ahead + indices(unit.cycled(app, bus).1.items()),
            unit.cycled(app, bus).0.pc,
        ),
        unit.cycled(app, bus).0.complete ==> !app.holds(unit.cycled(app, bus).0.pc),
{
    let (after, out) = unit.cycled(app, bus);
    if out != bus {
        let token = ((unit.pc / 4) as usize, 0i32);
        assert(out == bus.added(token));
        assert(out.items() =~= bus.items().push(token));
        lemma_indices_push(bus.items(), token);
        lemma_leads_push(app, pc, ahead + indices(bus.items()), unit.pc);
        assert((ahead + indices(bus.items())).push(token.0) =~= ahead + indices(out.items()));
    }
}

/// A cycle of the decode unit keeps the instructions on its two buses and
/// their order.
proof fn lemma_decoded(from: Lanes, to: Lanes)
    ensures
        indices(DecodeUnit::cycled(from, to).1.items()) + indices(
            DecodeUnit::cycled(from, to).0.items(),
        ) == indices(to.items()) + indices(from.items()),
{
    let (from2, to2) = DecodeUnit::cycled(from, to);
    if from.queue.len() != 0 && !to.is_full() {
        let token = from.queue[0];
        assert(from.items()[0] == token);
        assert(from2.items() =~= from.items().skip(1));
        assert(to2.items() =~= to.items().push(token));
        lemma_indices_push(to.items(), token);
        lemma_indices_skip(from.items());
        assert(indices(to2.items()) + indices(from2.items()) =~= indices(to.items()) + indices(
            from.items(),
        ));
    }
}

/// Whether the branch unit has noted the instruction that the execute unit
/// will work on next, if there is one: the one it holds, else the oldest
/// visible one on its bus.
pub open spec fn noted_next(
    app: &Application,
    branch_unit: BranchUnit,
    pc: i32,
    unit: ExecuteUnit,
    bus: Lanes,
) -> bool {
    if unit.processing {
        noted(app, branch_unit, pc, unit.runner->Some_0)
    } else {
        bus.queue.len() > 0 ==> noted(app, branch_unit, pc, bus.queue[0].0)
    }
}

/// When the branch unit has looked at the bus to execute, it has noted the
/// instruction that the execute unit will work on next.
proof fn lemma_predicted(
    app: &Application,
    branch_unit: BranchUnit,
    pc: i32,
    unit: ExecuteUnit,
    bus: Lanes,
)
    requires
        unit.processing ==> noted(app, branch_unit, pc, unit.runner->Some_0),
    ensures
        noted_next(app, branch_unit.predicted(app, pc, bus), pc, unit, bus),
{
}

/// The first half of a tick changes nothing of the architectural state and
/// keeps the instructions in the pipeline in their order.
proof fn lemma_front(app: &Application, p: Pipeline)
    requires
        inv(app, p),
    ensures
        inv_front(app, p.front(app)),
        arch(app, p.front(app)) == arch(app, p),
{
    let n = app.instructions@.len();
    crate::mvm3::lemma_front_wf(app, p);
    let h = held(p.execute_unit);
    let ahead = h + indices(p.execute_bus.items());
    lemma_fetched(app, p.fetch_unit, p.decode_bus, p.ctx.pc, ahead);
    let (fetch_unit, d_bus1) = p.fetch_unit.cycled(app, p.decode_bus);
    lemma_connected_keeps(d_bus1, n);
    let d_bus2 = d_bus1.connected();
    lemma_decoded(d_bus2, p.execute_bus);
    let (d_bus3, e_bus1) = DecodeUnit::cycled(d_bus2, p.execute_bus);
    lemma_connected_keeps(e_bus1, n);
    let e_bus2 = e_bus1.connected();
    let after = p.front(app);
    assert(after.execute_bus == e_bus2);
    assert(after.decode_bus == d_bus3);
    assert(after.fetch_unit == fetch_unit);
    assert(stream(after) =~= h + (indices(e_bus1.items()) + indices(d_bus3.items())));
    assert(ahead + indices(d_bus1.items()) =~= h + (indices(p.execute_bus.items()) + indices(
        d_bus2.items(),
    )));
    lemma_predicted(app, p.branch_unit, p.ctx.pc, p.execute_unit, e_bus2);
}

/// What the execute stage does to the architectural state: nothing, or what
/// the instruction at the program counter does.
proof fn lemma_executed(app: &Application, p: Pipeline)
    requires
        inv_front(app, p),
    ensures
        p.executed(app).result is Err ==> app.holds(p.ctx.pc) && app.step(arch(app, p))
            == Err::<State, Fault>(p.executed(app).result->Err_0) && p.executed(app).out_bus
            == p.write_bus,
        p.executed(app).result is Ok ==> ({
            let after = p.with(p.executed(app));
            &&& after.wf(app)
            &&& after.write_bus.queue.len() == 0
            &&& after.fetch_unit.complete ==> !app.holds(after.fetch_unit.pc)
            &&& if after.write_bus.entry.len() == 0 {
                &&& after.write_bus == p.write_bus
                &&& arch(app, after) == arch(app, p)
                &&& leads(app, after.ctx.pc, stream(after), after.fetch_unit.pc)
                &&& after.execute_unit.processing ==> noted(
                    app,
                    after.branch_unit,
                    after.ctx.pc,
                    after.execute_unit.runner->Some_0,
                )
            } else {
                &&& app.holds(p.ctx.pc)
                &&& app.step(arch(app, p)) == Ok::<State, Fault>(arch(app, after))
                &&& after.write_bus.entry.len() == 1
                &&& !after.execute_unit.processing
                &&& (after.ctx.pc == next_pc(p.ctx.pc) && leads(
                    app,
                    after.ctx.pc,
                    stream(after),
                    after.fetch_unit.pc,
                )) || after.branch_unit.checked(after.ctx.pc, after.write_bus).0
            }
        }),
{
    let n = app.instructions@.len();
    crate::mvm3::lemma_executed_wf(app, p);
    let executed = p.executed(app);
    let after = p.with(executed);
    let (unit, from) = p.execute_unit.begun(app, p.execute_bus);
    // Taking a token from the bus keeps the instructions in their order.
    let began = Pipeline { execute_unit: unit, execute_bus: from, ..p };
    assert(stream(began) == stream(p) && (unit.processing ==> noted(
        app,
        p.branch_unit,
        p.ctx.pc,
        unit.runner->Some_0,
    ))) by {
        if !p.execute_unit.processing && p.execute_bus.queue.len() != 0 {
            let e0 = p.execute_bus.items();
            assert(e0[0] == p.execute_bus.queue[0]);
            assert(from.items() =~= e0.skip(1));
            lemma_indices_skip(e0);
            assert(stream(began) =~= stream(p));
        }
    }
    if executed.out_bus != p.write_bus || executed.result is Err {
        let index = unit.runner->Some_0;
        let instruction = app.instructions@[index as int];
        let s = stream(began);
        assert(s[0] == index);
        assert(app.holds(p.ctx.pc) && index == p.ctx.pc / 4);
        assert(app.at(p.ctx.pc) == instruction);
        // No register that the instruction reads has a write in flight.
        let tokens = p.write_bus.items();
        let before = arch(app, p);
        assert forall|k: int| 0 <= k < instruction.reads().len() implies p.ctx.registers[
            #[trigger] instruction.reads()[k]
        ] == before.registers[instruction.reads()[k]] by {
            let r = instruction.reads()[k];
            assert(p.scoreboard[r] == 0);
            lemma_settled_unwritten(app, p.ctx.registers, tokens, r);
        }
        instruction.lemma_reads(p.ctx, before, app.labels@);
        instruction.lemma_writes(before, app.labels@);
    }
    if executed.out_bus != p.write_bus {
        let index = unit.runner->Some_0;
        let instruction = app.instructions@[index as int];
        let effect = instruction.effect(p.ctx, app.labels@)->Ok_0;
        let s = stream(began);
        let tokens = p.write_bus.items();
        let before = arch(app, p);
        let token = (index, effect.execution.value);
        assert(after.write_bus.items() =~= tokens.push(token));
        assert(after.write_bus.items().drop_last() =~= tokens);
        assert(arch(app, after).registers == before.apply(effect).registers) by {
            if instruction.opcode().is_store() {
                assert(instruction.writes() =~= Seq::<RegisterType>::empty());
            }
        }
        assert(arch(app, after) == before.apply(effect));
        // The instructions behind it go on from the next address.
        assert(stream(after) =~= s.skip(1));
        if effect.execution.pc != next_pc(p.ctx.pc) {
            assert(after.branch_unit.checked(after.ctx.pc, after.write_bus).0);
        }
    } else {
        assert(after.ctx == p.ctx);
        assert(stream(after) == stream(began));
    }
}

/// A step of write-back changes nothing of the architectural state.
proof fn lemma_retired(app: &Application, p: Pipeline)
    requires
        p.wf(app),
        p.write_bus.queue.len() == 0,
    ensures
        arch(app, p.retired(app)) == arch(app, p),
        p.retired(app).write_bus.queue.len() == 0,
        p.retired(app).write_bus.entry.len() == 0,
        p.retired(app).write_bus.buffer == p.write_bus.entry,
        stream(p.retired(app)) == stream(p),
        p.retired(app).wf(app),
{
    let n = app.instructions@.len();
    crate::mvm3::lemma_retired_wf(app, p);
    lemma_connected_keeps(p.write_bus, n);
    let bus = p.write_bus.connected();
    if bus.queue.len() > 0 {
        assert(bus.items()[0] == bus.queue[0]);
        lemma_settled_front(app, p.ctx.registers, bus.items());
        assert(bus.taken().items() =~= bus.items().skip(1));
    }
}

/// A fault of the pipelined machine is the fault of the program: the tick
/// that ends in a fault found the instruction at the program counter at
/// fault in the architectural state.
pub proof fn lemma_fault(app: &Application, p: Pipeline)
    requires
        inv(app, p),
        p.ticked(app).result is Err,
    ensures
        app.holds(arch(app, p).pc),
        app.step(arch(app, p)) == Err::<State, Fault>(p.ticked(app).result->Err_0),
{
    lemma_front(app, p);
    lemma_executed(app, p.front(app));
}

/// A tick keeps what holds between ticks. A tick that executes an
/// instruction takes the architectural state one instruction further; any
/// other tick leaves it as it is.
pub proof fn lemma_tick(app: &Application, p: Pipeline)
    requires
        inv(app, p),
        p.ticked(app).result is Ok,
    ensures
        inv(app, p.ticked(app).pipeline),
        p.executes(app) ==> app.holds(arch(app, p).pc) && app.step(arch(app, p)) == Ok::<
            State,
            Fault,
        >(arch(app, p.ticked(app).pipeline)),
        !p.executes(app) ==> arch(app, p.ticked(app).pipeline) == arch(app, p),
{
    lemma_ticked_wf(app, p);
    lemma_front(app, p);
    let front = p.front(app);
    lemma_executed(app, front);
    let middle = front.with(front.executed(app));
    let (flush, branch_unit) = middle.branch_unit.checked(middle.ctx.pc, middle.write_bus);
    let checked = Pipeline { branch_unit, ..middle };
    assert(arch(app, checked) == arch(app, middle));
    assert(stream(checked) == stream(middle));
    lemma_retired(app, checked);
    let retired = checked.retired(app);
    if flush {
        lemma_retired(app, retired);
        let drained = if retired.write_bus.buffer.len() == 0 {
            retired
        } else {
            retired.retired(app)
        };
        assert(drained.write_bus.items() =~= Seq::<(usize, i32)>::empty());
        let after = drained.flushed();
        assert(after.write_bus.items() =~= Seq::<(usize, i32)>::empty());
        assert(after.execute_bus.items() =~= Seq::<(usize, i32)>::empty());
        assert(after.decode_bus.items() =~= Seq::<(usize, i32)>::empty());
        assert(stream(after) =~= Seq::<usize>::empty());
        assert(arch(app, after) == arch(app, drained));
    }
}

/// A pipeline that is empty after a tick has reached the end of the program.
proof fn lemma_complete(app: &Application, p: Pipeline)
    requires
        inv(app, p),
        p.is_complete(),
    ensures
        arch(app, p) == p.ctx,
        !app.holds(p.ctx.pc),
{
    assert(p.write_bus.items() =~= Seq::<(usize, i32)>::empty());
    assert(p.execute_bus.items() =~= Seq::<(usize, i32)>::empty());
    assert(p.decode_bus.items() =~= Seq::<(usize, i32)>::empty());
    assert(stream(p) =~= Seq::<usize>::empty());
}

/// A run begins with a pipeline of which all holds that holds between ticks.
pub proof fn lemma_restarted(app: &Application, p: Pipeline)
    ensures
        inv(app, p.restarted()),
        arch(app, p.restarted()) == p.ctx,
{
    let after = p.restarted();
    crate::mvm3::lemma_restarted_wf(app, p);
    assert(after.write_bus.items() =~= Seq::<(usize, i32)>::empty());
    assert(after.execute_bus.items() =~= Seq::<(usize, i32)>::empty());
    assert(after.decode_bus.items() =~= Seq::<(usize, i32)>::empty());
    assert(stream(after) =~= Seq::<usize>::empty());
}

/// A run of the pipelined machine gives the outcome of the program: where
/// it returns a cycle count, the registers, memory and program counter that
/// it leaves are the state in which the program halts, and no result is on
/// its way any more; where it returns a fault of an instruction, the
/// program comes to that fault.
pub proof fn lemma_mvm3_outcome(app: &Application, p: Pipeline, cycles: u64)
    requires
        inv(app, p),
    ensures
        crate::laws::outcome(
            app,
            arch(app, p),
            simulate(app, p, cycles).result,
            simulate(app, p, cycles).pipeline.ctx,
        ),
        simulate(app, p, cycles).result is Ok ==> simulate(app, p, cycles).pipeline.is_complete(),
    decreases u64::MAX - cycles,
{
    if cycles <= u64::MAX - 2 {
        let ticked = p.ticked(app);
        let spent: u64 = if ticked.cycles == 2 {
            2
        } else {
            1
        };
        let run = simulate(app, p, cycles);
        if ticked.result is Err {
            lemma_fault(app, p);
            assert(app.after(arch(app, p), 1) == Err::<State, Fault>(ticked.result->Err_0));
        } else {
            lemma_tick(app, p);
            let next = ticked.pipeline;
            if next.is_complete() {
                lemma_complete(app, next);
                assert(app.after(next.ctx, 0) == Ok::<State, Fault>(next.ctx));
                assert(app.computes(arch(app, next), run.pipeline.ctx));
            } else {
                lemma_mvm3_outcome(app, next, (cycles + spent) as u64);
            }
            if p.executes(app) {
                if run.result is Ok {
                    lemma_computes_step(app, arch(app, p), run.pipeline.ctx);
                } else if run.result->Err_0 != Fault::CounterOverflow {
                    lemma_faults_step(app, arch(app, p), run.result->Err_0);
                }
            }
        }
    }
}

/// Where a run of the pipelined machine returns a cycle count, the
/// registers, memory and program counter that it leaves are the state in
/// which the program halts, and no result is on its way any more.
pub proof fn lemma_mvm3_computes(app: &Application, p: Pipeline, cycles: u64)
    requires
        inv(app, p),
        simulate(app, p, cycles).result is Ok,
    ensures
        app.computes(arch(app, p), simulate(app, p, cycles).pipeline.ctx),
        simulate(app, p, cycles).pipeline.is_complete(),
{
    lemma_mvm3_outcome(app, p, cycles);
}

/// The pipelined machine and the reference machine agree: where both run a
/// program from the same registers, memory and program counter to its end,
/// they leave the same registers, memory and program counter, whatever the
/// pipeline held before the run and whatever the reference machine had
/// counted.
pub proof fn lemma_mvm1_mvm3_agree(app: &Application, p: Pipeline, cycles1: u64)
    requires
        mvm1::simulate(app, p.ctx, cycles1).result is Ok,
        simulate(app, p.restarted(), 0).result is Ok,
    ensures
        simulate(app, p.restarted(), 0).pipeline.ctx == mvm1::simulate(app, p.ctx, cycles1).state,
{
    lemma_restarted(app, p);
    lemma_mvm3_computes(app, p.restarted(), 0);
    crate::laws::lemma_mvm1_outcome(app, p.ctx, cycles1);
    lemma_halting_state_unique(
        app,
        p.ctx,
        simulate(app, p.restarted(), 0).pipeline.ctx,
        mvm1::simulate(app, p.ctx, cycles1).state,
    );
}

/// The pipelined machine and the machine with the instruction cache agree:
/// where both run a program from the same registers, memory and program
/// counter to its end, they leave the same registers, memory and program
/// counter.
pub proof fn lemma_mvm2_mvm3_agree(
    app: &Application,
    p: Pipeline,
    line: crate::cache::CacheLine,
    cycles2: u64,
)
    requires
        crate::mvm2::simulate(app, p.ctx, line, cycles2).result is Ok,
        simulate(app, p.restarted(), 0).result is Ok,
    ensures
        simulate(app, p.restarted(), 0).pipeline.ctx == crate::mvm2::simulate(
            app,
            p.ctx,
            line,
            cycles2,
        ).state,
{
    lemma_restarted(app, p);
    lemma_mvm3_computes(app, p.restarted(), 0);
    crate::laws::lemma_mvm2_outcome(app, p.ctx, line, cycles2);
    lemma_halting_state_unique(
        app,
        p.ctx,
        simulate(app, p.restarted(), 0).pipeline.ctx,
        crate::mvm2::simulate(app, p.ctx, line, cycles2).state,
    );
}

} // verus!
