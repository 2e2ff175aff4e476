//! What the machines have in common: each of them computes what the program
//! computes.

use crate::bit::{lane0, lane1, lemma_word_of_its_lanes, word_of_lanes};
use crate::cache::CacheLine;
use crate::context::{Fault, State};
use crate::mvm1;
use crate::mvm2;
use crate::opcodes::{InstructionRunner, Lb, Lh, Lw, Sb, Sh, Sw};
use crate::program::{interpret, Application};
use crate::register::RegisterType;
use vstd::prelude::*;

verus! {

/// No instruction changes what `ZERO` reads as: after a step of the program
/// it reads as it did before.
pub proof fn lemma_step_keeps_zero(app: &Application, s: State)
    requires
        app.step(s) is Ok,
    ensures
        app.step(s)->Ok_0.registers[RegisterType::ZERO] == s.registers[RegisterType::ZERO],
{
}

/// No run of instructions changes what `ZERO` reads as.
pub proof fn lemma_after_keeps_zero(app: &Application, s: State, n: nat)
    requires
        app.after(s, n) is Ok,
    ensures
        app.after(s, n)->Ok_0.registers[RegisterType::ZERO] == s.registers[RegisterType::ZERO],
    decreases n,
{
    if n > 0 && app.holds(s.pc) {
        lemma_step_keeps_zero(app, s);
        lemma_after_keeps_zero(app, app.step(s)->Ok_0, (n - 1) as nat);
    }
}

/// A program halts in at most one state: whatever the number of steps that
/// two halting runs from `s` were given, they end in the same state.
pub proof fn lemma_halting_state_unique(app: &Application, s: State, end1: State, end2: State)
    requires
        app.computes(s, end1),
        app.computes(s, end2),
    ensures
        end1 == end2,
{
    let n1 = choose|n: nat| app.after(s, n) == Ok::<State, Fault>(end1) && !app.holds(end1.pc);
    let n2 = choose|n: nat| app.after(s, n) == Ok::<State, Fault>(end2) && !app.holds(end2.pc);
    lemma_after_agree(app, s, n1, n2, end1, end2);
}

proof fn lemma_after_agree(app: &Application, s: State, n1: nat, n2: nat, end1: State, end2: State)
    requires
        app.after(s, n1) == Ok::<State, Fault>(end1),
        !app.holds(end1.pc),
        app.after(s, n2) == Ok::<State, Fault>(end2),
        !app.holds(end2.pc),
    ensures
        end1 == end2,
    decreases n1,
{
    if n1 == 0 || !app.holds(s.pc) {
        assert(end1 == s);
    } else {
        assert(n2 > 0);
        let next = app.step(s)->Ok_0;
        lemma_after_agree(app, next, (n1 - 1) as nat, (n2 - 1) as nat, end1, end2);
    }
}

/// Running on from the state that a first step leads to is running from the
/// state before it.
pub proof fn lemma_computes_step(app: &Application, s: State, end: State)
    requires
        app.holds(s.pc),
        app.step(s) is Ok,
        app.computes(app.step(s)->Ok_0, end),
    ensures
        app.computes(s, end),
{
    let next = app.step(s)->Ok_0;
    let n = choose|n: nat| app.after(next, n) == Ok::<State, Fault>(end) && !app.holds(end.pc);
    assert(app.after(s, n + 1) == Ok::<State, Fault>(end));
}

/// Whether a run that returned `result` and left the state `end` gave the
/// outcome of the program started in `s`: on success `end` is the state in
/// which the program halts; a fault, unless it is the overflow of the run's
/// own counter, is the fault that the program comes to.
pub open spec fn outcome<T>(app: &Application, s: State, result: Result<T, Fault>, end: State) -> bool {
    match result {
        Ok(_) => app.computes(s, end),
        Err(fault) => fault != Fault::CounterOverflow ==> app.faults(s, fault),
    }
}

/// Running on from the state that a first step leads to is coming to the
/// fault from the state before it.
pub proof fn lemma_faults_step(app: &Application, s: State, fault: Fault)
    requires
        app.holds(s.pc),
        app.step(s) is Ok,
        app.faults(app.step(s)->Ok_0, fault),
    ensures
        app.faults(s, fault),
{
    let next = app.step(s)->Ok_0;
    let n = choose|n: nat| app.after(next, n) == Err::<State, Fault>(fault);
    assert(app.after(s, n + 1) == Err::<State, Fault>(fault));
}

/// The instruction at fault is the fault that the program comes to.
proof fn lemma_faults_now(app: &Application, s: State)
    requires
        app.holds(s.pc),
        app.step(s) is Err,
    ensures
        app.faults(s, app.step(s)->Err_0),
{
    assert(app.after(s, 1) == Err::<State, Fault>(app.step(s)->Err_0));
}

/// The plain interpreter gives the outcome of the program.
pub proof fn lemma_interpret_outcome(app: &Application, s: State, budget: nat)
    ensures
        outcome(app, s, interpret(app, s, budget).0, interpret(app, s, budget).1),
    decreases budget,
{
    if !app.holds(s.pc) {
        assert(app.after(s, 0) == Ok::<State, Fault>(s));
    } else if budget > 0 {
        if app.step(s) is Ok {
            let next = app.step(s)->Ok_0;
            lemma_interpret_outcome(app, next, (budget - 1) as nat);
            let run = interpret(app, s, budget);
            if run.0 is Ok {
                lemma_computes_step(app, s, run.1);
            } else if run.0->Err_0 != Fault::CounterOverflow {
                lemma_faults_step(app, s, run.0->Err_0);
            }
        } else {
            lemma_faults_now(app, s);
        }
    }
}

/// The reference machine gives the outcome of the program.
pub proof fn lemma_mvm1_outcome(app: &Application, s: State, cycles: u64)
    ensures
        outcome(
            app,
            s,
            mvm1::simulate(app, s, cycles).result,
            mvm1::simulate(app, s, cycles).state,
        ),
    decreases u64::MAX - cycles,
{
    if !app.holds(s.pc) {
        assert(app.after(s, 0) == Ok::<State, Fault>(s));
    } else if cycles <= u64::MAX - mvm1::CYCLES_STEP_MAX {
        if app.step(s) is Ok {
            let next = app.step(s)->Ok_0;
            let then = (cycles + mvm1::CYCLES_MEMORY_ACCESS + mvm1::cost_after_fetch(
                app.at(s.pc).opcode(),
            )) as u64;
            lemma_mvm1_outcome(app, next, then);
            let run = mvm1::simulate(app, s, cycles);
            if run.result is Ok {
                lemma_computes_step(app, s, run.state);
            } else if run.result->Err_0 != Fault::CounterOverflow {
                lemma_faults_step(app, s, run.result->Err_0);
            }
        } else {
            lemma_faults_now(app, s);
        }
    }
}

/// The machine with the instruction cache gives the outcome of the program.
pub proof fn lemma_mvm2_outcome(app: &Application, s: State, line: CacheLine, cycles: u64)
    ensures
        outcome(
            app,
            s,
            mvm2::simulate(app, s, line, cycles).result,
            mvm2::simulate(app, s, line, cycles).state,
        ),
    decreases u64::MAX - cycles,
{
    if !app.holds(s.pc) {
        assert(app.after(s, 0) == Ok::<State, Fault>(s));
    } else if cycles <= u64::MAX - mvm1::CYCLES_STEP_MAX {
        if app.step(s) is Ok {
            let next = app.step(s)->Ok_0;
            let then = (cycles + mvm2::fetch_cost(line, s.pc) + mvm1::cost_after_fetch(
                app.at(s.pc).opcode(),
            )) as u64;
            lemma_mvm2_outcome(app, next, mvm2::line_after(line, s.pc), then);
            let run = mvm2::simulate(app, s, line, cycles);
            if run.result is Ok {
                lemma_computes_step(app, s, run.state);
            } else if run.result->Err_0 != Fault::CounterOverflow {
                lemma_faults_step(app, s, run.result->Err_0);
            }
        } else {
            lemma_faults_now(app, s);
        }
    }
}

/// A program has one outcome: it cannot both halt and come to a fault, nor
/// come to two faults.
pub proof fn lemma_outcome_unique(app: &Application, s: State, end: State, fault: Fault, other: Fault)
    ensures
        !(app.computes(s, end) && app.faults(s, fault)),
        app.faults(s, fault) && app.faults(s, other) ==> fault == other,
{
    if app.computes(s, end) && app.faults(s, fault) {
        let n1 = choose|n: nat| app.after(s, n) == Ok::<State, Fault>(end) && !app.holds(end.pc);
        let n2 = choose|n: nat| app.after(s, n) == Err::<State, Fault>(fault);
        lemma_halting_never_faults(app, s, n1, n2, end);
    }
    if app.faults(s, fault) && app.faults(s, other) {
        let n1 = choose|n: nat| app.after(s, n) == Err::<State, Fault>(fault);
        let n2 = choose|n: nat| app.after(s, n) == Err::<State, Fault>(other);
        lemma_faults_agree(app, s, n1, n2, fault, other);
    }
}

/// A program that halts after some number of instructions comes to no fault,
/// whatever number of instructions it is given.
proof fn lemma_halting_never_faults(app: &Application, s: State, n1: nat, n2: nat, end: State)
    requires
        app.after(s, n1) == Ok::<State, Fault>(end),
        !app.holds(end.pc),
    ensures
        app.after(s, n2) is Ok,
    decreases n1,
{
    if n1 > 0 && n2 > 0 && app.holds(s.pc) {
        lemma_halting_never_faults(app, app.step(s)->Ok_0, (n1 - 1) as nat, (n2 - 1) as nat, end);
    }
}

/// A program comes to the same fault, whatever number of instructions it is
/// given to come to one.
proof fn lemma_faults_agree(app: &Application, s: State, n1: nat, n2: nat, fault: Fault, other: Fault)
    requires
        app.after(s, n1) == Err::<State, Fault>(fault),
        app.after(s, n2) == Err::<State, Fault>(other),
    ensures
        fault == other,
    decreases n1,
{
    if app.step(s) is Ok {
        lemma_faults_agree(app, app.step(s)->Ok_0, (n1 - 1) as nat, (n2 - 1) as nat, fault, other);
    }
}

/// The reference machine runs every program to its end that has one: where
/// the program, started in `s`, halts after `n` instructions or fewer
/// without a fault, a run returns a cycle count and leaves the state in which
/// the program halts, provided that the counter can count the cost of `n`
/// instructions and of one more.
pub proof fn lemma_mvm1_halts(app: &Application, s: State, cycles: u64, n: nat)
    requires
        app.after(s, n) is Ok,
        !app.holds(app.after(s, n)->Ok_0.pc),
        cycles + mvm1::CYCLES_STEP_MAX * (n + 1) <= u64::MAX,
    ensures
        mvm1::simulate(app, s, cycles).result is Ok,
        mvm1::simulate(app, s, cycles).result->Ok_0 <= cycles + mvm1::CYCLES_STEP_MAX * n,
        mvm1::simulate(app, s, cycles).state == app.after(s, n)->Ok_0,
    decreases n,
{
    if app.holds(s.pc) {
        assert(n > 0);
        let next = app.step(s)->Ok_0;
        let then = (cycles + mvm1::CYCLES_MEMORY_ACCESS + mvm1::cost_after_fetch(
            app.at(s.pc).opcode(),
        )) as u64;
        assert(mvm1::CYCLES_STEP_MAX * (n + 1) == mvm1::CYCLES_STEP_MAX * n
            + mvm1::CYCLES_STEP_MAX) by (nonlinear_arith);
        assert(mvm1::CYCLES_STEP_MAX * n == mvm1::CYCLES_STEP_MAX * (n - 1)
            + mvm1::CYCLES_STEP_MAX) by (nonlinear_arith);
        lemma_mvm1_halts(app, next, then, (n - 1) as nat);
    } else {
        assert(mvm1::CYCLES_STEP_MAX * n >= 0) by (nonlinear_arith);
    }
}

/// The machine with the instruction cache runs every program to its end
/// that has one: where the program, started in `s`, halts after `n`
/// instructions or fewer without a fault, a run returns a cycle count and
/// leaves the state in which the program halts, provided that the counter
/// can count the cost of `n` instructions and of one more.
pub proof fn lemma_mvm2_halts(app: &Application, s: State, line: CacheLine, cycles: u64, n: nat)
    requires
        app.after(s, n) is Ok,
        !app.holds(app.after(s, n)->Ok_0.pc),
        cycles + mvm1::CYCLES_STEP_MAX * (n + 1) <= u64::MAX,
    ensures
        mvm2::simulate(app, s, line, cycles).result is Ok,
        mvm2::simulate(app, s, line, cycles).result->Ok_0 <= cycles + mvm1::CYCLES_STEP_MAX * n,
        mvm2::simulate(app, s, line, cycles).state == app.after(s, n)->Ok_0,
    decreases n,
{
    if app.holds(s.pc) {
        assert(n > 0);
        let next = app.step(s)->Ok_0;
        let then = (cycles + mvm2::fetch_cost(line, s.pc) + mvm1::cost_after_fetch(
            app.at(s.pc).opcode(),
        )) as u64;
        assert(mvm1::CYCLES_STEP_MAX * (n + 1) == mvm1::CYCLES_STEP_MAX * n
            + mvm1::CYCLES_STEP_MAX) by (nonlinear_arith);
        assert(mvm1::CYCLES_STEP_MAX * n == mvm1::CYCLES_STEP_MAX * (n - 1)
            + mvm1::CYCLES_STEP_MAX) by (nonlinear_arith);
        lemma_mvm2_halts(app, next, mvm2::line_after(line, s.pc), then, (n - 1) as nat);
    } else {
        assert(mvm1::CYCLES_STEP_MAX * n >= 0) by (nonlinear_arith);
    }
}

/// The reference machine and the machine with the instruction cache agree:
/// where both run a program from the same state to its end, they leave the
/// same registers, memory and program counter, whatever their cycle counters
/// and the cache line were.
pub proof fn lemma_mvm1_mvm2_agree(
    app: &Application,
    s: State,
    cycles1: u64,
    line: CacheLine,
    cycles2: u64,
)
    requires
        mvm1::simulate(app, s, cycles1).result is Ok,
        mvm2::simulate(app, s, line, cycles2).result is Ok,
    ensures
        mvm1::simulate(app, s, cycles1).state == mvm2::simulate(app, s, line, cycles2).state,
{
    lemma_mvm1_outcome(app, s, cycles1);
    lemma_mvm2_outcome(app, s, line, cycles2);
    lemma_halting_state_unique(
        app,
        s,
        mvm1::simulate(app, s, cycles1).state,
        mvm2::simulate(app, s, line, cycles2).state,
    );
}

/// A word that is stored and then loaded from the same place comes back as
/// it was: where `sw source, offset, base` succeeds in `s`, `lw target,
/// offset, base` succeeds in the state that it leaves and loads the value
/// that `source` had; where the store faults, the load faults in `s` too.
pub proof fn lemma_store_word_load_word(
    s: State,
    labels: Map<Seq<char>, i32>,
    source: RegisterType,
    base: RegisterType,
    offset: i32,
    target: RegisterType,
)
    ensures
        ({
            let store = Sw { rs2: source, offset, rs1: base };
            let load = Lw { rs2: target, offset, rs1: base };
            match store.effect(s, labels) {
                Ok(stored) => {
                    let loaded = load.effect(s.apply(stored), labels);
                    &&& loaded is Ok
                    &&& loaded->Ok_0.execution.register == target
                    &&& loaded->Ok_0.execution.value == s.registers[source]
                },
                Err(fault) => load.effect(s, labels) == Err::<crate::context::Effect, Fault>(fault),
            }
        }),
{
    lemma_word_of_its_lanes(s.registers[source]);
}

/// A half word that is stored and then loaded from the same place comes back
/// as the low sixteen bits of the value: where `sh source, offset, base`
/// succeeds in `s`, `lh target, offset, base` succeeds in the state that it
/// leaves and loads the value that `source` had, but for its high sixteen
/// bits, which are zero; where the store faults, the load faults in `s` too.
pub proof fn lemma_store_half_load_half(
    s: State,
    labels: Map<Seq<char>, i32>,
    source: RegisterType,
    base: RegisterType,
    offset: i32,
    target: RegisterType,
)
    ensures
        ({
            let store = Sh { rs2: source, offset, rs1: base };
            let load = Lh { rs2: target, offset, rs1: base };
            match store.effect(s, labels) {
                Ok(stored) => {
                    let loaded = load.effect(s.apply(stored), labels);
                    &&& loaded is Ok
                    &&& loaded->Ok_0.execution.register == target
                    &&& loaded->Ok_0.execution.value == s.registers[source] & 0xffff
                },
                Err(fault) => load.effect(s, labels) == Err::<crate::context::Effect, Fault>(fault),
            }
        }),
{
    let n = s.registers[source];
    assert(word_of_lanes(lane0(n), lane1(n), 0, 0) == n & 0xffff) by {
        assert(((((n as i8) as u8 as u32) | ((((n >> 8) as i8) as u8 as u32) << 8) | (((0i8)
            as u8 as u32) << 16) | (((0i8) as u8 as u32) << 24)) as i32) == n & 0xffff)
            by (bit_vector);
    }
}

/// A byte that is stored and then loaded from the same place comes back as
/// the low eight bits of the value, sign-extended: where `sb source, offset,
/// base` succeeds in `s`, `lb target, offset, base` succeeds in the state
/// that it leaves and loads the low byte of the value that `source` had,
/// read as a signed number; where the store faults, the load faults in `s`
/// too.
pub proof fn lemma_store_byte_load_byte(
    s: State,
    labels: Map<Seq<char>, i32>,
    source: RegisterType,
    base: RegisterType,
    offset: i32,
    target: RegisterType,
)
    ensures
        ({
            let store = Sb { rs2: source, offset, rs1: base };
            let load = Lb { rs2: target, offset, rs1: base };
            match store.effect(s, labels) {
                Ok(stored) => {
                    let loaded = load.effect(s.apply(stored), labels);
                    &&& loaded is Ok
                    &&& loaded->Ok_0.execution.register == target
                    &&& loaded->Ok_0.execution.value == (s.registers[source] as i8) as i32
                },
                Err(fault) => load.effect(s, labels) == Err::<crate::context::Effect, Fault>(fault),
            }
        }),
{
}

} // verus!
