//! The architectural state of a machine and what one instruction does to it.

use crate::register::{written, RegisterFile, RegisterType};
use crate::text::{decimal, decimal_of, string_of};
use vstd::prelude::*;
use vstd::string::StringExecFns;

verus! {

/// The architectural state as a mathematical value.
pub struct State {
    /// What each register reads as.
    pub registers: Map<RegisterType, i32>,
    /// The memory cells, by address.
    pub memory: Seq<i8>,
    /// The address of the next instruction.
    pub pc: i32,
}

/// Why an instruction could not be executed, as a mathematical value.
pub enum Fault {
    /// A branch or jump names a label that the program does not define.
    UnknownLabel(Seq<char>),
    /// A division or remainder has a zero divisor.
    DivisionByZero,
    /// A load or store touches a cell outside the memory; the value is the
    /// address of the first cell of the access.
    MemoryOutOfRange(i32),
    /// The counter of cycles, or of executed instructions, cannot count one
    /// more step.
    CounterOverflow,
}

/// Why a run stopped before the program ended.
#[derive(Debug, PartialEq, Eq)]
pub enum ExecError {
    /// A branch or jump names a label that the program does not define.
    UnknownLabel(String),
    /// A division or remainder has a zero divisor.
    DivisionByZero,
    /// A load or store touches a cell outside the memory; the value is the
    /// address of the first cell of the access.
    MemoryOutOfRange(i32),
    /// The counter of cycles, or of executed instructions, cannot count one
    /// more step.
    CounterOverflow,
}

impl View for ExecError {
    type V = Fault;

    open spec fn view(&self) -> Fault {
        match self {
            ExecError::UnknownLabel(name) => Fault::UnknownLabel(name@),
            ExecError::DivisionByZero => Fault::DivisionByZero,
            ExecError::MemoryOutOfRange(address) => Fault::MemoryOutOfRange(*address),
            ExecError::CounterOverflow => Fault::CounterOverflow,
        }
    }
}

impl Fault {
    /// The fault in words.
    pub open spec fn message(self) -> Seq<char> {
        match self {
            Fault::UnknownLabel(name) => "label "@ + name + " does not exist"@,
            Fault::DivisionByZero => "division by zero"@,
            Fault::MemoryOutOfRange(address) => "memory access out of range: "@ + decimal_of(
                address as int,
            ),
            Fault::CounterOverflow => "counter overflow"@,
        }
    }
}

impl ExecError {
    /// The error in words.
    pub fn message(&self) -> (text: String)
        ensures
            text@ == self@.message(),
    {
        match self {
            ExecError::UnknownLabel(name) => {
                let mut text = String::from_str("label ");
                text.append(name.as_str());
                text.append(" does not exist");
                text
            },
            ExecError::DivisionByZero => String::from_str("division by zero"),
            ExecError::MemoryOutOfRange(address) => {
                let mut text = String::from_str("memory access out of range: ");
                text.append(string_of(&decimal(*address as i64)).as_str());
                text
            },
            ExecError::CounterOverflow => String::from_str("counter overflow"),
        }
    }
}

/// What an executed instruction hands to the later stages: the register
/// write that is still to be committed and the address of the instruction to
/// execute next. An instruction without a result names `ZERO`, to which a
/// write changes nothing.
#[derive(Clone, Copy, PartialEq, Eq, Structural, Debug)]
pub struct Execution {
    pub pc: i32,
    pub register: RegisterType,
    pub value: i32,
}

/// The whole of what executing an instruction does: its [`Execution`] and the
/// memory that it leaves.
pub struct Effect {
    pub execution: Execution,
    pub memory: Seq<i8>,
}

impl State {
    /// The state after `effect`, register write and program counter
    /// included.
    pub open spec fn apply(self, effect: Effect) -> State {
        State {
            registers: written(self.registers, effect.execution.register, effect.execution.value),
            memory: effect.memory,
            pc: effect.execution.pc,
        }
    }

    /// The state after the register write of `execution` alone.
    pub open spec fn commit(self, execution: Execution) -> State {
        State { registers: written(self.registers, execution.register, execution.value), ..self }
    }

    /// Whether the `width` cells from `address` on all lie in the memory.
    pub open spec fn in_memory(self, address: i32, width: int) -> bool {
        0 <= address && address + width <= self.memory.len()
    }
}

/// The registers, memory and program counter of a machine.
pub struct Context {
    registers: RegisterFile,
    memory: Vec<i8>,
    pc: i32,
}

impl View for Context {
    type V = State;

    closed spec fn view(&self) -> State {
        State { registers: self.registers@, memory: self.memory@, pc: self.pc }
    }
}

impl Context {
    /// The state of a fresh context with `memory_bytes` cells of memory:
    /// every cell and register zero, the program counter at address `0`.
    pub open spec fn new_state(memory_bytes: usize) -> State {
        State {
            registers: Map::total(|r: RegisterType| 0i32),
            memory: Seq::new(memory_bytes as nat, |i: int| 0i8),
            pc: 0,
        }
    }

    /// A context with `memory_bytes` cells of memory, every cell and register
    /// zero, about to execute the instruction at address `0`.
    pub fn new(memory_bytes: usize) -> (ctx: Context)
        ensures
            ctx@ == Context::new_state(memory_bytes),
    {
        let memory: Vec<i8> = vec![0i8; memory_bytes];
        assert(memory@ =~= Seq::new(memory_bytes as nat, |i: int| 0i8));
        Context { registers: RegisterFile::new(), memory, pc: 0 }
    }

    /// Reads register `r`.
    pub fn register(&self, r: RegisterType) -> (value: i32)
        ensures
            value == self@.registers[r],
            r == RegisterType::ZERO ==> value == 0,
    {
        self.registers.get(r)
    }

    /// Writes `value` to register `r`. A write to `ZERO` is discarded.
    pub fn set_register(&mut self, r: RegisterType, value: i32)
        ensures
            final(self)@ == (State {
                registers: written(old(self)@.registers, r, value),
                ..old(self)@
            }),
    {
        self.registers.set(r, value);
    }

    /// The number of memory cells.
    pub fn memory_len(&self) -> (n: usize)
        ensures
            n == self@.memory.len(),
    {
        self.memory.len()
    }

    /// Reads the memory cell at `address`.
    pub fn load(&self, address: usize) -> (value: i8)
        requires
            address < self@.memory.len(),
        ensures
            value == self@.memory[address as int],
    {
        self.memory[address]
    }

    /// Writes `value` to the memory cell at `address`.
    pub fn store(&mut self, address: usize, value: i8)
        requires
            address < old(self)@.memory.len(),
        ensures
            final(self)@ == (State {
                memory: old(self)@.memory.update(address as int, value),
                ..old(self)@
            }),
    {
        self.memory.set(address, value);
    }

    /// The address of the next instruction.
    pub fn pc(&self) -> (pc: i32)
        ensures
            pc == self@.pc,
    {
        self.pc
    }

    /// Makes `pc` the address of the next instruction.
    pub fn set_pc(&mut self, pc: i32)
        ensures
            final(self)@ == (State { pc, ..old(self)@ }),
    {
        self.pc = pc;
    }

    /// Commits the register write of `execution`.
    pub fn write(&mut self, execution: &Execution)
        ensures
            final(self)@ == old(self)@.commit(*execution),
    {
        self.registers.set(execution.register, execution.value);
    }
}

/// `ZERO` reads as `0` in every context.
pub proof fn lemma_context_zero(ctx: Context)
    ensures
        ctx@.registers[RegisterType::ZERO] == 0,
{
    crate::register::lemma_zero_reads_zero(ctx.registers);
}

} // verus!
