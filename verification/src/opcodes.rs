//! The instruction set: one type per opcode, each with the step that it
//! performs on the architectural state.

use crate::bit::{bytes_from_low_bits, i32_from_bytes, lane0, lane1, lane2, lane3, word_of_lanes};
use crate::context::{Context, Effect, ExecError, Execution, Fault, State};
use crate::labels::Labels;
use crate::register::RegisterType;
use vstd::prelude::*;

verus! {

/// The opcode of an instruction.
#[allow(non_camel_case_types)]
#[derive(Clone, Copy, PartialEq, Eq, Structural, Debug, Hash)]
pub enum InstructionType {
    ADD,
    ADDI,
    AND,
    ANDI,
    AUIPC,
    BEQ,
    BGE,
    BGEU,
    BLT,
    BLTU,
    BNE,
    DIV,
    JAL,
    JALR,
    LUI,
    LB,
    LH,
    LW,
    NOP,
    MUL,
    OR,
    ORI,
    REM,
    SB,
    SH,
    SLL,
    SLLI,
    SLT,
    SLTU,
    SLTI,
    SRA,
    SRAI,
    SRL,
    SRLI,
    SUB,
    SW,
    XOR,
    XORI,
}

impl InstructionType {
    /// Whether the opcode reads memory.
    pub open spec fn is_load(self) -> bool {
        self == InstructionType::LB || self == InstructionType::LH || self == InstructionType::LW
    }

    /// Whether the opcode writes memory.
    pub open spec fn is_store(self) -> bool {
        self == InstructionType::SB || self == InstructionType::SH || self == InstructionType::SW
    }

    /// Whether the opcode always leaves the sequential path.
    pub open spec fn is_jump(self) -> bool {
        self == InstructionType::JAL || self == InstructionType::JALR
    }

    /// Whether the opcode leaves the sequential path on a condition.
    pub open spec fn is_branch(self) -> bool {
        self == InstructionType::BEQ || self == InstructionType::BNE || self
            == InstructionType::BLT || self == InstructionType::BLTU || self
            == InstructionType::BGE || self == InstructionType::BGEU
    }

    /// The cycles that the execute step of the opcode takes: fifty for an
    /// access to memory, one for anything else.
    pub open spec fn execute_cost(self) -> u64 {
        if self.is_load() || self.is_store() {
            50
        } else {
            1
        }
    }
}

/// The cycles that the execute step of an instruction of this opcode takes.
pub fn cycles_per_instruction(instruction_type: InstructionType) -> (cycles: u64)
    ensures
        cycles == instruction_type.execute_cost(),
{
    match instruction_type {
        InstructionType::LB
        | InstructionType::LH
        | InstructionType::LW
        | InstructionType::SB
        | InstructionType::SH
        | InstructionType::SW => 50,
        _ => 1,
    }
}

/// Whether an instruction of this opcode has a write-back step: every opcode
/// but the stores.
pub fn write_back(instruction_type: InstructionType) -> (has: bool)
    ensures
        has == !instruction_type.is_store(),
{
    match instruction_type {
        InstructionType::SB | InstructionType::SW | InstructionType::SH => false,
        _ => true,
    }
}

/// Whether the opcode is an unconditional jump.
pub fn jump(instruction_type: InstructionType) -> (is: bool)
    ensures
        is == instruction_type.is_jump(),
{
    match instruction_type {
        InstructionType::JAL | InstructionType::JALR => true,
        _ => false,
    }
}

/// Whether the opcode is a conditional branch.
pub fn conditional_branching(instruction_type: InstructionType) -> (is: bool)
    ensures
        is == instruction_type.is_branch(),
{
    match instruction_type {
        InstructionType::BEQ
        | InstructionType::BNE
        | InstructionType::BLT
        | InstructionType::BLTU
        | InstructionType::BGE
        | InstructionType::BGEU => true,
        _ => false,
    }
}

/// The address of the instruction that follows the one at `pc`.
pub open spec fn next_pc(pc: i32) -> i32 {
    pc.wrapping_add(4)
}

/// The effect of an instruction that writes `value` to `register` and goes
/// on with the next instruction.
pub open spec fn sequential(s: State, register: RegisterType, value: i32) -> Effect {
    Effect { execution: Execution { pc: next_pc(s.pc), register, value }, memory: s.memory }
}

/// The effect of an instruction that writes no register and goes on at `pc`.
pub open spec fn transfer(s: State, pc: i32) -> Effect {
    Effect { execution: Execution { pc, register: RegisterType::ZERO, value: 0 }, memory: s.memory }
}

/// The effect of a jump to `label` that writes `value` to `register`.
pub open spec fn jump_to(
    s: State,
    labels: Map<Seq<char>, i32>,
    label: Seq<char>,
    register: RegisterType,
    value: i32,
) -> Result<Effect, Fault> {
    if labels.contains_key(label) {
        Ok(Effect { execution: Execution { pc: labels[label], register, value }, memory: s.memory })
    } else {
        Err(Fault::UnknownLabel(label))
    }
}

/// The effect of a branch to `label`: the label is looked up only where the
/// branch is taken.
pub open spec fn branch(s: State, labels: Map<Seq<char>, i32>, taken: bool, label: Seq<char>) -> Result<
    Effect,
    Fault,
> {
    if taken {
        jump_to(s, labels, label, RegisterType::ZERO, 0)
    } else {
        Ok(transfer(s, next_pc(s.pc)))
    }
}

/// `a` shifted left by the low five bits of `b`.
pub open spec fn shifted_left(a: i32, b: i32) -> i32 {
    a.wrapping_shl(b as u32)
}

/// `a` shifted right by the low five bits of `b`; the sign bit fills the
/// vacated places.
pub open spec fn shifted_right(a: i32, b: i32) -> i32 {
    a.wrapping_shr(b as u32)
}

/// `1` where `a` is less than `b` as signed numbers, else `0`.
pub open spec fn less_than(a: i32, b: i32) -> i32 {
    if a < b {
        1
    } else {
        0
    }
}

/// The quotient of `a` by `b`, rounded towards zero; `i32::MIN` by `-1`
/// wraps to `i32::MIN`. Only meant for a divisor other than zero.
pub open spec fn quotient(a: i32, b: i32) -> i32 {
    match a.checked_div(b) {
        Some(q) => q,
        None => i32::MIN,
    }
}

/// The remainder of `a` by `b`, with the sign of `a`; `i32::MIN` by `-1`
/// gives `0`. Only meant for a divisor other than zero.
pub open spec fn remainder(a: i32, b: i32) -> i32 {
    match a.checked_rem(b) {
        Some(r) => r,
        None => 0,
    }
}

/// The effect of computing `a / b` or `a % b` into `register`: a fault where
/// `b` is zero.
pub open spec fn divided(s: State, register: RegisterType, b: i32, value: i32) -> Result<Effect, Fault> {
    if b == 0 {
        Err(Fault::DivisionByZero)
    } else {
        Ok(sequential(s, register, value))
    }
}

/// The address that a load or store touches first.
pub open spec fn address(s: State, base: RegisterType, offset: i32) -> i32 {
    s.registers[base].wrapping_add(offset)
}

/// The effect of loading into `register` the value that `read` finds in the
/// `width` cells from `at` on: a fault where they do not all lie in the
/// memory.
pub open spec fn loaded(s: State, register: RegisterType, at: i32, width: int, value: i32) -> Result<
    Effect,
    Fault,
> {
    if s.in_memory(at, width) {
        Ok(sequential(s, register, value))
    } else {
        Err(Fault::MemoryOutOfRange(at))
    }
}

/// The effect of storing `cells` from `at` on: a fault where they do not all
/// lie in the memory.
pub open spec fn stored(s: State, at: i32, cells: Seq<i8>) -> Result<Effect, Fault> {
    if s.in_memory(at, cells.len() as int) {
        Ok(
            Effect {
                execution: Execution { pc: next_pc(s.pc), register: RegisterType::ZERO, value: 0 },
                memory: Seq::new(
                    s.memory.len(),
                    |i: int|
                        if at <= i < at + cells.len() {
                            cells[i - at]
                        } else {
                            s.memory[i]
                        },
                ),
            },
        )
    } else {
        Err(Fault::MemoryOutOfRange(at))
    }
}

/// Whether a call of `run` that returned `result` and took the state from
/// `before` to `after` did what `expected` says: on success the memory of the
/// effect is in place and the execution is handed back, registers and program
/// counter untouched; on a fault nothing has changed.
pub open spec fn performs(
    expected: Result<Effect, Fault>,
    before: State,
    after: State,
    result: Result<Execution, ExecError>,
) -> bool {
    match expected {
        Ok(effect) => result == Ok::<Execution, ExecError>(effect.execution) && after == (State {
            memory: effect.memory,
            ..before
        }),
        Err(fault) => result is Err && result->Err_0@ == fault && after == before,
    }
}

/// What every instruction offers.
pub trait InstructionRunner {
    /// What the instruction does in state `s` of a program with `labels`.
    spec fn effect(&self, s: State, labels: Map<Seq<char>, i32>) -> Result<Effect, Fault>;

    /// The opcode of the instruction.
    spec fn opcode(&self) -> InstructionType;

    /// The registers whose values the instruction depends on.
    spec fn reads(&self) -> Seq<RegisterType>;

    /// The registers that the instruction writes.
    spec fn writes(&self) -> Seq<RegisterType>;

    /// Executes the instruction: performs its memory writes and hands back
    /// the register write and next address for the caller to commit.
    fn run(&self, ctx: &mut Context, labels: &Labels) -> (result: Result<Execution, ExecError>)
        ensures
            performs(self.effect(old(ctx)@, labels@), old(ctx)@, final(ctx)@, result),
    ;

    /// The opcode of the instruction.
    fn instruction_type(&self) -> (t: InstructionType)
        ensures
            t == self.opcode(),
    ;

    /// The registers whose values the instruction depends on.
    fn read_registers(&self) -> (registers: Vec<RegisterType>)
        ensures
            registers@ == self.reads(),
    ;

    /// The registers that the instruction writes.
    fn write_registers(&self) -> (registers: Vec<RegisterType>)
        ensures
            registers@ == self.writes(),
    ;

    /// The effect depends on the registers only through those that the
    /// instruction is said to read.
    proof fn lemma_reads(&self, s1: State, s2: State, labels: Map<Seq<char>, i32>)
        requires
            s1.memory == s2.memory,
            s1.pc == s2.pc,
            forall|k: int|
                0 <= k < self.reads().len() ==> s1.registers[#[trigger] self.reads()[k]]
                    == s2.registers[self.reads()[k]],
        ensures
            self.effect(s1, labels) == self.effect(s2, labels),
    ;

    /// The instruction writes one register at most, a store none; the
    /// register that its execution names is the one that it writes, or
    /// `ZERO`; and only a jump or a branch goes on elsewhere than at the
    /// next address.
    proof fn lemma_writes(&self, s: State, labels: Map<Seq<char>, i32>)
        ensures
            self.writes().len() <= 1,
            self.opcode().is_store() ==> self.writes().len() == 0,
            self.effect(s, labels) is Ok ==> self.effect(s, labels)->Ok_0.execution.register
                == target(self.writes()),
            self.effect(s, labels) is Ok && !self.opcode().is_jump() && !self.opcode().is_branch()
                ==> self.effect(s, labels)->Ok_0.execution.pc == next_pc(s.pc),
    ;
}

/// The register that an instruction with the write set `writes` commits its
/// value to: the one it writes, or `ZERO`, where a write is void.
pub open spec fn target(writes: Seq<RegisterType>) -> RegisterType {
    if writes.len() > 0 {
        writes[0]
    } else {
        RegisterType::ZERO
    }
}

/// The execution of an instruction that writes `value` to `register` and
/// goes on with the next instruction.
fn advance(ctx: &Context, register: RegisterType, value: i32) -> (execution: Execution)
    ensures
        execution == sequential(ctx@, register, value).execution,
{
    Execution { pc: ctx.pc().wrapping_add(4), register, value }
}

/// Looks `label` up and hands back a jump to it that writes `value` to
/// `register`.
fn resolve(
    ctx: &Context,
    labels: &Labels,
    label: &String,
    register: RegisterType,
    value: i32,
) -> (result: Result<Execution, ExecError>)
    ensures
        performs(jump_to(ctx@, labels@, label@, register, value), ctx@, ctx@, result),
{
    match labels.get(label) {
        Some(pc) => Ok(Execution { pc, register, value }),
        None => Err(ExecError::UnknownLabel(label.clone())),
    }
}

/// Decides a branch to `label`.
fn decide(ctx: &Context, labels: &Labels, taken: bool, label: &String) -> (result: Result<
    Execution,
    ExecError,
>)
    ensures
        performs(branch(ctx@, labels@, taken, label@), ctx@, ctx@, result),
{
    if taken {
        resolve(ctx, labels, label, RegisterType::ZERO, 0)
    } else {
        Ok(Execution { pc: ctx.pc().wrapping_add(4), register: RegisterType::ZERO, value: 0 })
    }
}

/// Computes [`shifted_left`].
fn shift_left(a: i32, b: i32) -> (value: i32)
    ensures
        value == shifted_left(a, b),
{
    a.wrapping_shl(
        #[verifier::truncate]
        (b as u32),
    )
}

/// Computes [`shifted_right`].
fn shift_right(a: i32, b: i32) -> (value: i32)
    ensures
        value == shifted_right(a, b),
{
    a.wrapping_shr(
        #[verifier::truncate]
        (b as u32),
    )
}

/// Computes [`less_than`].
fn set_less_than(a: i32, b: i32) -> (value: i32)
    ensures
        value == less_than(a, b),
{
    if a < b {
        1
    } else {
        0
    }
}

/// The address that a load or store of `width` cells touches first, if the
/// cells all lie in the memory.
fn locate(ctx: &Context, base: RegisterType, offset: i32, width: usize) -> (place: Result<
    usize,
    ExecError,
>)
    requires
        width <= 4,
    ensures
        match place {
            Ok(at) => ctx@.in_memory(address(ctx@, base, offset), width as int) && at == address(
                ctx@,
                base,
                offset,
            ),
            Err(e) => !ctx@.in_memory(address(ctx@, base, offset), width as int) && e@
                == Fault::MemoryOutOfRange(address(ctx@, base, offset)),
        },
{
    let at: i32 = ctx.register(base).wrapping_add(offset);
    if at < 0 {
        return Err(ExecError::MemoryOutOfRange(at));
    }
    let first: usize = at as usize;
    let len: usize = ctx.memory_len();
    if len < width || first > len - width {
        return Err(ExecError::MemoryOutOfRange(at));
    }
    Ok(first)
}

/// `rd ← rs1 + rs2`, wrapping.
#[derive(Clone, Copy, PartialEq, Eq, Debug)]
pub struct Add {
    pub rd: RegisterType,
    pub rs1: RegisterType,
    pub rs2: RegisterType,
}

impl InstructionRunner for Add {
    open spec fn effect(&self, s: State, labels: Map<Seq<char>, i32>) -> Result<Effect, Fault> {
        Ok(sequential(s, self.rd, s.registers[self.rs1].wrapping_add(s.registers[self.rs2])))
    }

    open spec fn opcode(&self) -> InstructionType {
        InstructionType::ADD
    }

    open spec fn reads(&self) -> Seq<RegisterType> {
        seq![self.rs1, self.rs2]
    }

    open spec fn writes(&self) -> Seq<RegisterType> {
        seq![self.rd]
    }

    fn run(&self, ctx: &mut Context, labels: &Labels) -> (result: Result<Execution, ExecError>) {
        let a: i32 = ctx.register(self.rs1);
        let b: i32 = ctx.register(self.rs2);
        Ok(advance(ctx, self.rd, a.wrapping_add(b)))
    }

    fn instruction_type(&self) -> (t: InstructionType) {
        InstructionType::ADD
    }

    fn read_registers(&self) -> (registers: Vec<RegisterType>) {
        vec![self.rs1, self.rs2]
    }

    fn write_registers(&self) -> (registers: Vec<RegisterType>) {
        vec![self.rd]
    }

    proof fn lemma_reads(&self, s1: State, s2: State, labels: Map<Seq<char>, i32>) {
        assert(self.reads()[0] == self.rs1);
        assert(self.reads()[1] == self.rs2);
    }

    proof fn lemma_writes(&self, s: State, labels: Map<Seq<char>, i32>) {
    }
}

/// `rd ← rs + imm`, wrapping.
#[derive(Clone, Copy, PartialEq, Eq, Debug)]
pub struct Addi {
    pub imm: i32,
    pub rd: RegisterType,
    pub rs: RegisterType,
}

impl InstructionRunner for Addi {
    open spec fn effect(&self, s: State, labels: Map<Seq<char>, i32>) -> Result<Effect, Fault> {
        Ok(sequential(s, self.rd, s.registers[self.rs].wrapping_add(self.imm)))
    }

    open spec fn opcode(&self) -> InstructionType {
        InstructionType::ADDI
    }

    open spec fn reads(&self) -> Seq<RegisterType> {
        seq![self.rs]
    }

    open spec fn writes(&self) -> Seq<RegisterType> {
        seq![self.rd]
    }

    fn run(&self, ctx: &mut Context, labels: &Labels) -> (result: Result<Execution, ExecError>) {
        let a: i32 = ctx.register(self.rs);
        Ok(advance(ctx, self.rd, a.wrapping_add(self.imm)))
    }

    fn instruction_type(&self) -> (t: InstructionType) {
        InstructionType::ADDI
    }

    fn read_registers(&self) -> (registers: Vec<RegisterType>) {
        vec![self.rs]
    }

    fn write_registers(&self) -> (registers: Vec<RegisterType>) {
        vec![self.rd]
    }

    proof fn lemma_reads(&self, s1: State, s2: State, labels: Map<Seq<char>, i32>) {
        assert(self.reads()[0] == self.rs);
    }

    proof fn lemma_writes(&self, s: State, labels: Map<Seq<char>, i32>) {
    }
}

/// `rd ← rs1 & rs2`.
#[derive(Clone, Copy, PartialEq, Eq, Debug)]
pub struct And {
    pub rd: RegisterType,
    pub rs1: RegisterType,
    pub rs2: RegisterType,
}

impl InstructionRunner for And {
    open spec fn effect(&self, s: State, labels: Map<Seq<char>, i32>) -> Result<Effect, Fault> {
        Ok(sequential(s, self.rd, s.registers[self.rs1] & s.registers[self.rs2]))
    }

    open spec fn opcode(&self) -> InstructionType {
        InstructionType::AND
    }

    open spec fn reads(&self) -> Seq<RegisterType> {
        seq![self.rs1, self.rs2]
    }

    open spec fn writes(&self) -> Seq<RegisterType> {
        seq![self.rd]
    }

    fn run(&self, ctx: &mut Context, labels: &Labels) -> (result: Result<Execution, ExecError>) {
        let a: i32 = ctx.register(self.rs1);
        let b: i32 = ctx.register(self.rs2);
        Ok(advance(ctx, self.rd, a & b))
    }

    fn instruction_type(&self) -> (t: InstructionType) {
        InstructionType::AND
    }

    fn read_registers(&self) -> (registers: Vec<RegisterType>) {
        vec![self.rs1, self.rs2]
    }

    fn write_registers(&self) -> (registers: Vec<RegisterType>) {
        vec![self.rd]
    }

    proof fn lemma_reads(&self, s1: State, s2: State, labels: Map<Seq<char>, i32>) {
        assert(self.reads()[0] == self.rs1);
        assert(self.reads()[1] == self.rs2);
    }

    proof fn lemma_writes(&self, s: State, labels: Map<Seq<char>, i32>) {
    }
}

/// `rd ← rs & imm`.
#[derive(Clone, Copy, PartialEq, Eq, Debug)]
pub struct Andi {
    pub imm: i32,
    pub rd: RegisterType,
    pub rs: RegisterType,
}

impl InstructionRunner for Andi {
    open spec fn effect(&self, s: State, labels: Map<Seq<char>, i32>) -> Result<Effect, Fault> {
        Ok(sequential(s, self.rd, s.registers[self.rs] & self.imm))
    }

    open spec fn opcode(&self) -> InstructionType {
        InstructionType::ANDI
    }

    open spec fn reads(&self) -> Seq<RegisterType> {
        seq![self.rs]
    }

    open spec fn writes(&self) -> Seq<RegisterType> {
        seq![self.rd]
    }

    fn run(&self, ctx: &mut Context, labels: &Labels) -> (result: Result<Execution, ExecError>) {
        let a: i32 = ctx.register(self.rs);
        Ok(advance(ctx, self.rd, a & self.imm))
    }

    fn instruction_type(&self) -> (t: InstructionType) {
        InstructionType::ANDI
    }

    fn read_registers(&self) -> (registers: Vec<RegisterType>) {
        vec![self.rs]
    }

    fn write_registers(&self) -> (registers: Vec<RegisterType>) {
        vec![self.rd]
    }

    proof fn lemma_reads(&self, s1: State, s2: State, labels: Map<Seq<char>, i32>) {
        assert(self.reads()[0] == self.rs);
    }

    proof fn lemma_writes(&self, s: State, labels: Map<Seq<char>, i32>) {
    }
}

/// `rd ← pc + (imm << 12)`, wrapping.
#[derive(Clone, Copy, PartialEq, Eq, Debug)]
pub struct Auipc {
    pub rd: RegisterType,
    pub imm: i32,
}

impl InstructionRunner for Auipc {
    open spec fn effect(&self, s: State, labels: Map<Seq<char>, i32>) -> Result<Effect, Fault> {
        Ok(sequential(s, self.rd, s.pc.wrapping_add(self.imm.wrapping_shl(12))))
    }

    open spec fn opcode(&self) -> InstructionType {
        InstructionType::AUIPC
    }

    open spec fn reads(&self) -> Seq<RegisterType> {
        seq![]
    }

    open spec fn writes(&self) -> Seq<RegisterType> {
        seq![self.rd]
    }

    fn run(&self, ctx: &mut Context, labels: &Labels) -> (result: Result<Execution, ExecError>) {
        Ok(advance(ctx, self.rd, ctx.pc().wrapping_add(self.imm.wrapping_shl(12))))
    }

    fn instruction_type(&self) -> (t: InstructionType) {
        InstructionType::AUIPC
    }

    fn read_registers(&self) -> (registers: Vec<RegisterType>) {
        Vec::new()
    }

    fn write_registers(&self) -> (registers: Vec<RegisterType>) {
        vec![self.rd]
    }

    proof fn lemma_reads(&self, s1: State, s2: State, labels: Map<Seq<char>, i32>) {
    }

    proof fn lemma_writes(&self, s: State, labels: Map<Seq<char>, i32>) {
    }
}

/// Branches to `label` where `rs1 == rs2`.
#[derive(PartialEq, Eq, Debug)]
pub struct Beq {
    pub rs1: RegisterType,
    pub rs2: RegisterType,
    pub label: String,
}

impl InstructionRunner for Beq {
    open spec fn effect(&self, s: State, labels: Map<Seq<char>, i32>) -> Result<Effect, Fault> {
        branch(s, labels, s.registers[self.rs1] == s.registers[self.rs2], self.label@)
    }

    open spec fn opcode(&self) -> InstructionType {
        InstructionType::BEQ
    }

    open spec fn reads(&self) -> Seq<RegisterType> {
        seq![self.rs1, self.rs2]
    }

    open spec fn writes(&self) -> Seq<RegisterType> {
        seq![]
    }

    fn run(&self, ctx: &mut Context, labels: &Labels) -> (result: Result<Execution, ExecError>) {
        let a: i32 = ctx.register(self.rs1);
        let b: i32 = ctx.register(self.rs2);
        decide(ctx, labels, a == b, &self.label)
    }

    fn instruction_type(&self) -> (t: InstructionType) {
        InstructionType::BEQ
    }

    fn read_registers(&self) -> (registers: Vec<RegisterType>) {
        vec![self.rs1, self.rs2]
    }

    fn write_registers(&self) -> (registers: Vec<RegisterType>) {
        Vec::new()
    }

    proof fn lemma_reads(&self, s1: State, s2: State, labels: Map<Seq<char>, i32>) {
        assert(self.reads()[0] == self.rs1);
        assert(self.reads()[1] == self.rs2);
    }

    proof fn lemma_writes(&self, s: State, labels: Map<Seq<char>, i32>) {
    }
}

/// Branches to `label` where `rs1 >= rs2` as signed numbers.
#[derive(PartialEq, Eq, Debug)]
pub struct Bge {
    pub rs1: RegisterType,
    pub rs2: RegisterType,
    pub label: String,
}

impl InstructionRunner for Bge {
    open spec fn effect(&self, s: State, labels: Map<Seq<char>, i32>) -> Result<Effect, Fault> {
        branch(s, labels, s.registers[self.rs1] >= s.registers[self.rs2], self.label@)
    }

    open spec fn opcode(&self) -> InstructionType {
        InstructionType::BGE
    }

    open spec fn reads(&self) -> Seq<RegisterType> {
        seq![self.rs1, self.rs2]
    }

    open spec fn writes(&self) -> Seq<RegisterType> {
        seq![]
    }

    fn run(&self, ctx: &mut Context, labels: &Labels) -> (result: Result<Execution, ExecError>) {
        let a: i32 = ctx.register(self.rs1);
        let b: i32 = ctx.register(self.rs2);
        decide(ctx, labels, a >= b, &self.label)
    }

    fn instruction_type(&self) -> (t: InstructionType) {
        InstructionType::BGE
    }

    fn read_registers(&self) -> (registers: Vec<RegisterType>) {
        vec![self.rs1, self.rs2]
    }

    fn write_registers(&self) -> (registers: Vec<RegisterType>) {
        Vec::new()
    }

    proof fn lemma_reads(&self, s1: State, s2: State, labels: Map<Seq<char>, i32>) {
        assert(self.reads()[0] == self.rs1);
        assert(self.reads()[1] == self.rs2);
    }

    proof fn lemma_writes(&self, s: State, labels: Map<Seq<char>, i32>) {
    }
}

/// Branches to `label` where `rs1 >= rs2`. The comparison is the signed one
/// of [`Bge`].
#[derive(PartialEq, Eq, Debug)]
pub struct Bgeu {
    pub rs1: RegisterType,
    pub rs2: RegisterType,
    pub label: String,
}

impl InstructionRunner for Bgeu {
    open spec fn effect(&self, s: State, labels: Map<Seq<char>, i32>) -> Result<Effect, Fault> {
        branch(s, labels, s.registers[self.rs1] >= s.registers[self.rs2], self.label@)
    }

    open spec fn opcode(&self) -> InstructionType {
        InstructionType::BGEU
    }

    open spec fn reads(&self) -> Seq<RegisterType> {
        seq![self.rs1, self.rs2]
    }

    open spec fn writes(&self) -> Seq<RegisterType> {
        seq![]
    }

    fn run(&self, ctx: &mut Context, labels: &Labels) -> (result: Result<Execution, ExecError>) {
        let a: i32 = ctx.register(self.rs1);
        let b: i32 = ctx.register(self.rs2);
        decide(ctx, labels, a >= b, &self.label)
    }

    fn instruction_type(&self) -> (t: InstructionType) {
        InstructionType::BGEU
    }

    fn read_registers(&self) -> (registers: Vec<RegisterType>) {
        vec![self.rs1, self.rs2]
    }

    fn write_registers(&self) -> (registers: Vec<RegisterType>) {
        Vec::new()
    }

    proof fn lemma_reads(&self, s1: State, s2: State, labels: Map<Seq<char>, i32>) {
        assert(self.reads()[0] == self.rs1);
        assert(self.reads()[1] == self.rs2);
    }

    proof fn lemma_writes(&self, s: State, labels: Map<Seq<char>, i32>) {
    }
}

/// Branches to `label` where `rs1 < rs2` as signed numbers.
#[derive(PartialEq, Eq, Debug)]
pub struct Blt {
    pub rs1: RegisterType,
    pub rs2: RegisterType,
    pub label: String,
}

impl InstructionRunner for Blt {
    open spec fn effect(&self, s: State, labels: Map<Seq<char>, i32>) -> Result<Effect, Fault> {
        branch(s, labels, s.registers[self.rs1] < s.registers[self.rs2], self.label@)
    }

    open spec fn opcode(&self) -> InstructionType {
        InstructionType::BLT
    }

    open spec fn reads(&self) -> Seq<RegisterType> {
        seq![self.rs1, self.rs2]
    }

    open spec fn writes(&self) -> Seq<RegisterType> {
        seq![]
    }

    fn run(&self, ctx: &mut Context, labels: &Labels) -> (result: Result<Execution, ExecError>) {
        let a: i32 = ctx.register(self.rs1);
        let b: i32 = ctx.register(self.rs2);
        decide(ctx, labels, a < b, &self.label)
    }

    fn instruction_type(&self) -> (t: InstructionType) {
        InstructionType::BLT
    }

    fn read_registers(&self) -> (registers: Vec<RegisterType>) {
        vec![self.rs1, self.rs2]
    }

    fn write_registers(&self) -> (registers: Vec<RegisterType>) {
        Vec::new()
    }

    proof fn lemma_reads(&self, s1: State, s2: State, labels: Map<Seq<char>, i32>) {
        assert(self.reads()[0] == self.rs1);
        assert(self.reads()[1] == self.rs2);
    }

    proof fn lemma_writes(&self, s: State, labels: Map<Seq<char>, i32>) {
    }
}

/// Branches to `label` where `rs1 < rs2`. The comparison is the signed one of
/// [`Blt`].
#[derive(PartialEq, Eq, Debug)]
pub struct Bltu {
    pub rs1: RegisterType,
    pub rs2: RegisterType,
    pub label: String,
}

impl InstructionRunner for Bltu {
    open spec fn effect(&self, s: State, labels: Map<Seq<char>, i32>) -> Result<Effect, Fault> {
        branch(s, labels, s.registers[self.rs1] < s.registers[self.rs2], self.label@)
    }

    open spec fn opcode(&self) -> InstructionType {
        InstructionType::BLTU
    }

    open spec fn reads(&self) -> Seq<RegisterType> {
        seq![self.rs1, self.rs2]
    }

    open spec fn writes(&self) -> Seq<RegisterType> {
        seq![]
    }

    fn run(&self, ctx: &mut Context, labels: &Labels) -> (result: Result<Execution, ExecError>) {
        let a: i32 = ctx.register(self.rs1);
        let b: i32 = ctx.register(self.rs2);
        decide(ctx, labels, a < b, &self.label)
    }

    fn instruction_type(&self) -> (t: InstructionType) {
        InstructionType::BLTU
    }

    fn read_registers(&self) -> (registers: Vec<RegisterType>) {
        vec![self.rs1, self.rs2]
    }

    fn write_registers(&self) -> (registers: Vec<RegisterType>) {
        Vec::new()
    }

    proof fn lemma_reads(&self, s1: State, s2: State, labels: Map<Seq<char>, i32>) {
        assert(self.reads()[0] == self.rs1);
        assert(self.reads()[1] == self.rs2);
    }

    proof fn lemma_writes(&self, s: State, labels: Map<Seq<char>, i32>) {
    }
}

/// Branches to `label` where `rs1 != rs2`.
#[derive(PartialEq, Eq, Debug)]
pub struct Bne {
    pub rs1: RegisterType,
    pub rs2: RegisterType,
    pub label: String,
}

impl InstructionRunner for Bne {
    open spec fn effect(&self, s: State, labels: Map<Seq<char>, i32>) -> Result<Effect, Fault> {
        branch(s, labels, s.registers[self.rs1] != s.registers[self.rs2], self.label@)
    }

    open spec fn opcode(&self) -> InstructionType {
        InstructionType::BNE
    }

    open spec fn reads(&self) -> Seq<RegisterType> {
        seq![self.rs1, self.rs2]
    }

    open spec fn writes(&self) -> Seq<RegisterType> {
        seq![]
    }

    fn run(&self, ctx: &mut Context, labels: &Labels) -> (result: Result<Execution, ExecError>) {
        let a: i32 = ctx.register(self.rs1);
        let b: i32 = ctx.register(self.rs2);
        decide(ctx, labels, a != b, &self.label)
    }

    fn instruction_type(&self) -> (t: InstructionType) {
        InstructionType::BNE
    }

    fn read_registers(&self) -> (registers: Vec<RegisterType>) {
        vec![self.rs1, self.rs2]
    }

    fn write_registers(&self) -> (registers: Vec<RegisterType>) {
        Vec::new()
    }

    proof fn lemma_reads(&self, s1: State, s2: State, labels: Map<Seq<char>, i32>) {
        assert(self.reads()[0] == self.rs1);
        assert(self.reads()[1] == self.rs2);
    }

    proof fn lemma_writes(&self, s: State, labels: Map<Seq<char>, i32>) {
    }
}

/// `rd ← rs1 / rs2`, rounded towards zero. A zero divisor is a fault.
#[derive(Clone, Copy, PartialEq, Eq, Debug)]
pub struct Div {
    pub rd: RegisterType,
    pub rs1: RegisterType,
    pub rs2: RegisterType,
}

impl InstructionRunner for Div {
    open spec fn effect(&self, s: State, labels: Map<Seq<char>, i32>) -> Result<Effect, Fault> {
        divided(
            s,
            self.rd,
            s.registers[self.rs2],
            quotient(s.registers[self.rs1], s.registers[self.rs2]),
        )
    }

    open spec fn opcode(&self) -> InstructionType {
        InstructionType::DIV
    }

    open spec fn reads(&self) -> Seq<RegisterType> {
        seq![self.rs1, self.rs2]
    }

    open spec fn writes(&self) -> Seq<RegisterType> {
        seq![self.rd]
    }

    fn run(&self, ctx: &mut Context, labels: &Labels) -> (result: Result<Execution, ExecError>) {
        let a: i32 = ctx.register(self.rs1);
        let b: i32 = ctx.register(self.rs2);
        if b == 0 {
            return Err(ExecError::DivisionByZero);
        }
        let value: i32 = match a.checked_div(b) {
            Some(v) => v,
            None => i32::MIN,
        };
        Ok(advance(ctx, self.rd, value))
    }

    fn instruction_type(&self) -> (t: InstructionType) {
        InstructionType::DIV
    }

    fn read_registers(&self) -> (registers: Vec<RegisterType>) {
        vec![self.rs1, self.rs2]
    }

    fn write_registers(&self) -> (registers: Vec<RegisterType>) {
        vec![self.rd]
    }

    proof fn lemma_reads(&self, s1: State, s2: State, labels: Map<Seq<char>, i32>) {
        assert(self.reads()[0] == self.rs1);
        assert(self.reads()[1] == self.rs2);
    }

    proof fn lemma_writes(&self, s: State, labels: Map<Seq<char>, i32>) {
    }
}

/// `rd ← pc + 4`, then jumps to `label`.
#[derive(PartialEq, Eq, Debug)]
pub struct Jal {
    pub label: String,
    pub rd: RegisterType,
}

impl InstructionRunner for Jal {
    open spec fn effect(&self, s: State, labels: Map<Seq<char>, i32>) -> Result<Effect, Fault> {
        jump_to(s, labels, self.label@, self.rd, next_pc(s.pc))
    }

    open spec fn opcode(&self) -> InstructionType {
        InstructionType::JAL
    }

    open spec fn reads(&self) -> Seq<RegisterType> {
        seq![]
    }

    open spec fn writes(&self) -> Seq<RegisterType> {
        seq![self.rd]
    }

    fn run(&self, ctx: &mut Context, labels: &Labels) -> (result: Result<Execution, ExecError>) {
        resolve(ctx, labels, &self.label, self.rd, ctx.pc().wrapping_add(4))
    }

    fn instruction_type(&self) -> (t: InstructionType) {
        InstructionType::JAL
    }

    fn read_registers(&self) -> (registers: Vec<RegisterType>) {
        Vec::new()
    }

    fn write_registers(&self) -> (registers: Vec<RegisterType>) {
        vec![self.rd]
    }

    proof fn lemma_reads(&self, s1: State, s2: State, labels: Map<Seq<char>, i32>) {
    }

    proof fn lemma_writes(&self, s: State, labels: Map<Seq<char>, i32>) {
    }
}

/// `rd ← pc + 4`, then jumps to the address `rs + imm`, wrapping, with `rs`
/// as it was before the instruction.
#[derive(Clone, Copy, PartialEq, Eq, Debug)]
pub struct Jalr {
    pub rd: RegisterType,
    pub rs: RegisterType,
    pub imm: i32,
}

impl InstructionRunner for Jalr {
    open spec fn effect(&self, s: State, labels: Map<Seq<char>, i32>) -> Result<Effect, Fault> {
        Ok(
            Effect {
                execution: Execution {
                    pc: s.registers[self.rs].wrapping_add(self.imm),
                    register: self.rd,
                    value: next_pc(s.pc),
                },
                memory: s.memory,
            },
        )
    }

    open spec fn opcode(&self) -> InstructionType {
        InstructionType::JALR
    }

    open spec fn reads(&self) -> Seq<RegisterType> {
        seq![self.rs]
    }

    open spec fn writes(&self) -> Seq<RegisterType> {
        seq![self.rd]
    }

    fn run(&self, ctx: &mut Context, labels: &Labels) -> (result: Result<Execution, ExecError>) {
        Ok(
            Execution {
                pc: ctx.register(self.rs).wrapping_add(self.imm),
                register: self.rd,
                value: ctx.pc().wrapping_add(4),
            },
        )
    }

    fn instruction_type(&self) -> (t: InstructionType) {
        InstructionType::JALR
    }

    fn read_registers(&self) -> (registers: Vec<RegisterType>) {
        vec![self.rs]
    }

    fn write_registers(&self) -> (registers: Vec<RegisterType>) {
        vec![self.rd]
    }

    proof fn lemma_reads(&self, s1: State, s2: State, labels: Map<Seq<char>, i32>) {
        assert(self.reads()[0] == self.rs);
    }

    proof fn lemma_writes(&self, s: State, labels: Map<Seq<char>, i32>) {
    }
}

/// `rd ← imm << 12`.
#[derive(Clone, Copy, PartialEq, Eq, Debug)]
pub struct Lui {
    pub rd: RegisterType,
    pub imm: i32,
}

impl InstructionRunner for Lui {
    open spec fn effect(&self, s: State, labels: Map<Seq<char>, i32>) -> Result<Effect, Fault> {
        Ok(sequential(s, self.rd, self.imm.wrapping_shl(12)))
    }

    open spec fn opcode(&self) -> InstructionType {
        InstructionType::LUI
    }

    open spec fn reads(&self) -> Seq<RegisterType> {
        seq![]
    }

    open spec fn writes(&self) -> Seq<RegisterType> {
        seq![self.rd]
    }

    fn run(&self, ctx: &mut Context, labels: &Labels) -> (result: Result<Execution, ExecError>) {
        Ok(advance(ctx, self.rd, self.imm.wrapping_shl(12)))
    }

    fn instruction_type(&self) -> (t: InstructionType) {
        InstructionType::LUI
    }

    fn read_registers(&self) -> (registers: Vec<RegisterType>) {
        Vec::new()
    }

    fn write_registers(&self) -> (registers: Vec<RegisterType>) {
        vec![self.rd]
    }

    proof fn lemma_reads(&self, s1: State, s2: State, labels: Map<Seq<char>, i32>) {
    }

    proof fn lemma_writes(&self, s: State, labels: Map<Seq<char>, i32>) {
    }
}

/// `rs2 ← memory[rs1 + offset]`, one cell, sign-extended.
#[derive(Clone, Copy, PartialEq, Eq, Debug)]
pub struct Lb {
    pub rs2: RegisterType,
    pub offset: i32,
    pub rs1: RegisterType,
}

impl InstructionRunner for Lb {
    open spec fn effect(&self, s: State, labels: Map<Seq<char>, i32>) -> Result<Effect, Fault> {
        let at = address(s, self.rs1, self.offset);
        let value = s.memory[at as int] as i32;
        loaded(s, self.rs2, at, 1, value)
    }

    open spec fn opcode(&self) -> InstructionType {
        InstructionType::LB
    }

    open spec fn reads(&self) -> Seq<RegisterType> {
        seq![self.rs1]
    }

    open spec fn writes(&self) -> Seq<RegisterType> {
        seq![self.rs2]
    }

    fn run(&self, ctx: &mut Context, labels: &Labels) -> (result: Result<Execution, ExecError>) {
        let at: usize = match locate(ctx, self.rs1, self.offset, 1) {
            Ok(at) => at,
            Err(e) => {
                return Err(e);
            },
        };
        let value: i32 = ctx.load(at) as i32;
        Ok(advance(ctx, self.rs2, value))
    }

    fn instruction_type(&self) -> (t: InstructionType) {
        InstructionType::LB
    }

    fn read_registers(&self) -> (registers: Vec<RegisterType>) {
        vec![self.rs1]
    }

    fn write_registers(&self) -> (registers: Vec<RegisterType>) {
        vec![self.rs2]
    }

    proof fn lemma_reads(&self, s1: State, s2: State, labels: Map<Seq<char>, i32>) {
        assert(self.reads()[0] == self.rs1);
    }

    proof fn lemma_writes(&self, s: State, labels: Map<Seq<char>, i32>) {
    }
}

/// `rs2 ←` the two cells from `rs1 + offset` on as the low lanes of a word
/// whose high lanes are zero.
#[derive(Clone, Copy, PartialEq, Eq, Debug)]
pub struct Lh {
    pub rs2: RegisterType,
    pub offset: i32,
    pub rs1: RegisterType,
}

impl InstructionRunner for Lh {
    open spec fn effect(&self, s: State, labels: Map<Seq<char>, i32>) -> Result<Effect, Fault> {
        let at = address(s, self.rs1, self.offset);
        let value = word_of_lanes(s.memory[at as int], s.memory[at + 1], 0, 0);
        loaded(s, self.rs2, at, 2, value)
    }

    open spec fn opcode(&self) -> InstructionType {
        InstructionType::LH
    }

    open spec fn reads(&self) -> Seq<RegisterType> {
        seq![self.rs1]
    }

    open spec fn writes(&self) -> Seq<RegisterType> {
        seq![self.rs2]
    }

    fn run(&self, ctx: &mut Context, labels: &Labels) -> (result: Result<Execution, ExecError>) {
        let at: usize = match locate(ctx, self.rs1, self.offset, 2) {
            Ok(at) => at,
            Err(e) => {
                return Err(e);
            },
        };
        let value: i32 = i32_from_bytes(ctx.load(at), ctx.load(at + 1), 0, 0);
        Ok(advance(ctx, self.rs2, value))
    }

    fn instruction_type(&self) -> (t: InstructionType) {
        InstructionType::LH
    }

    fn read_registers(&self) -> (registers: Vec<RegisterType>) {
        vec![self.rs1]
    }

    fn write_registers(&self) -> (registers: Vec<RegisterType>) {
        vec![self.rs2]
    }

    proof fn lemma_reads(&self, s1: State, s2: State, labels: Map<Seq<char>, i32>) {
        assert(self.reads()[0] == self.rs1);
    }

    proof fn lemma_writes(&self, s: State, labels: Map<Seq<char>, i32>) {
    }
}

/// `rs2 ←` the four cells from `rs1 + offset` on as the lanes of a word.
#[derive(Clone, Copy, PartialEq, Eq, Debug)]
pub struct Lw {
    pub rs2: RegisterType,
    pub offset: i32,
    pub rs1: RegisterType,
}

impl InstructionRunner for Lw {
    open spec fn effect(&self, s: State, labels: Map<Seq<char>, i32>) -> Result<Effect, Fault> {
        let at = address(s, self.rs1, self.offset);
        let value = word_of_lanes(
            s.memory[at as int],
            s.memory[at + 1],
            s.memory[at + 2],
            s.memory[at + 3],
        );
        loaded(s, self.rs2, at, 4, value)
    }

    open spec fn opcode(&self) -> InstructionType {
        InstructionType::LW
    }

    open spec fn reads(&self) -> Seq<RegisterType> {
        seq![self.rs1]
    }

    open spec fn writes(&self) -> Seq<RegisterType> {
        seq![self.rs2]
    }

    fn run(&self, ctx: &mut Context, labels: &Labels) -> (result: Result<Execution, ExecError>) {
        let at: usize = match locate(ctx, self.rs1, self.offset, 4) {
            Ok(at) => at,
            Err(e) => {
                return Err(e);
            },
        };
        let value: i32 = i32_from_bytes(
            ctx.load(at),
            ctx.load(at + 1),
            ctx.load(at + 2),
            ctx.load(at + 3),
        );
        Ok(advance(ctx, self.rs2, value))
    }

    fn instruction_type(&self) -> (t: InstructionType) {
        InstructionType::LW
    }

    fn read_registers(&self) -> (registers: Vec<RegisterType>) {
        vec![self.rs1]
    }

    fn write_registers(&self) -> (registers: Vec<RegisterType>) {
        vec![self.rs2]
    }

    proof fn lemma_reads(&self, s1: State, s2: State, labels: Map<Seq<char>, i32>) {
        assert(self.reads()[0] == self.rs1);
    }

    proof fn lemma_writes(&self, s: State, labels: Map<Seq<char>, i32>) {
    }
}

/// Does nothing but go on with the next instruction.
#[derive(Clone, Copy, PartialEq, Eq, Debug)]
pub struct Nop {}

impl InstructionRunner for Nop {
    open spec fn effect(&self, s: State, labels: Map<Seq<char>, i32>) -> Result<Effect, Fault> {
        Ok(transfer(s, next_pc(s.pc)))
    }

    open spec fn opcode(&self) -> InstructionType {
        InstructionType::NOP
    }

    open spec fn reads(&self) -> Seq<RegisterType> {
        seq![]
    }

    open spec fn writes(&self) -> Seq<RegisterType> {
        seq![]
    }

    fn run(&self, ctx: &mut Context, labels: &Labels) -> (result: Result<Execution, ExecError>) {
        Ok(advance(ctx, RegisterType::ZERO, 0))
    }

    fn instruction_type(&self) -> (t: InstructionType) {
        InstructionType::NOP
    }

    fn read_registers(&self) -> (registers: Vec<RegisterType>) {
        Vec::new()
    }

    fn write_registers(&self) -> (registers: Vec<RegisterType>) {
        Vec::new()
    }

    proof fn lemma_reads(&self, s1: State, s2: State, labels: Map<Seq<char>, i32>) {
    }

    proof fn lemma_writes(&self, s: State, labels: Map<Seq<char>, i32>) {
    }
}

/// `rd ← rs1 * rs2`, wrapping.
#[derive(Clone, Copy, PartialEq, Eq, Debug)]
pub struct Mul {
    pub rd: RegisterType,
    pub rs1: RegisterType,
    pub rs2: RegisterType,
}

impl InstructionRunner for Mul {
    open spec fn effect(&self, s: State, labels: Map<Seq<char>, i32>) -> Result<Effect, Fault> {
        Ok(sequential(s, self.rd, s.registers[self.rs1].wrapping_mul(s.registers[self.rs2])))
    }

    open spec fn opcode(&self) -> InstructionType {
        InstructionType::MUL
    }

    open spec fn reads(&self) -> Seq<RegisterType> {
        seq![self.rs1, self.rs2]
    }

    open spec fn writes(&self) -> Seq<RegisterType> {
        seq![self.rd]
    }

    fn run(&self, ctx: &mut Context, labels: &Labels) -> (result: Result<Execution, ExecError>) {
        let a: i32 = ctx.register(self.rs1);
        let b: i32 = ctx.register(self.rs2);
        Ok(advance(ctx, self.rd, a.wrapping_mul(b)))
    }

    fn instruction_type(&self) -> (t: InstructionType) {
        InstructionType::MUL
    }

    fn read_registers(&self) -> (registers: Vec<RegisterType>) {
        vec![self.rs1, self.rs2]
    }

    fn write_registers(&self) -> (registers: Vec<RegisterType>) {
        vec![self.rd]
    }

    proof fn lemma_reads(&self, s1: State, s2: State, labels: Map<Seq<char>, i32>) {
        assert(self.reads()[0] == self.rs1);
        assert(self.reads()[1] == self.rs2);
    }

    proof fn lemma_writes(&self, s: State, labels: Map<Seq<char>, i32>) {
    }
}

/// `rd ← rs1 | rs2`.
#[derive(Clone, Copy, PartialEq, Eq, Debug)]
pub struct Or {
    pub rd: RegisterType,
    pub rs1: RegisterType,
    pub rs2: RegisterType,
}

impl InstructionRunner for Or {
    open spec fn effect(&self, s: State, labels: Map<Seq<char>, i32>) -> Result<Effect, Fault> {
        Ok(sequential(s, self.rd, s.registers[self.rs1] | s.registers[self.rs2]))
    }

    open spec fn opcode(&self) -> InstructionType {
        InstructionType::OR
    }

    open spec fn reads(&self) -> Seq<RegisterType> {
        seq![self.rs1, self.rs2]
    }

    open spec fn writes(&self) -> Seq<RegisterType> {
        seq![self.rd]
    }

    fn run(&self, ctx: &mut Context, labels: &Labels) -> (result: Result<Execution, ExecError>) {
        let a: i32 = ctx.register(self.rs1);
        let b: i32 = ctx.register(self.rs2);
        Ok(advance(ctx, self.rd, a | b))
    }

    fn instruction_type(&self) -> (t: InstructionType) {
        InstructionType::OR
    }

    fn read_registers(&self) -> (registers: Vec<RegisterType>) {
        vec![self.rs1, self.rs2]
    }

    fn write_registers(&self) -> (registers: Vec<RegisterType>) {
        vec![self.rd]
    }

    proof fn lemma_reads(&self, s1: State, s2: State, labels: Map<Seq<char>, i32>) {
        assert(self.reads()[0] == self.rs1);
        assert(self.reads()[1] == self.rs2);
    }

    proof fn lemma_writes(&self, s: State, labels: Map<Seq<char>, i32>) {
    }
}

/// `rd ← rs | imm`.
#[derive(Clone, Copy, PartialEq, Eq, Debug)]
pub struct Ori {
    pub imm: i32,
    pub rd: RegisterType,
    pub rs: RegisterType,
}

impl InstructionRunner for Ori {
    open spec fn effect(&self, s: State, labels: Map<Seq<char>, i32>) -> Result<Effect, Fault> {
        Ok(sequential(s, self.rd, s.registers[self.rs] | self.imm))
    }

    open spec fn opcode(&self) -> InstructionType {
        InstructionType::ORI
    }

    open spec fn reads(&self) -> Seq<RegisterType> {
        seq![self.rs]
    }

    open spec fn writes(&self) -> Seq<RegisterType> {
        seq![self.rd]
    }

    fn run(&self, ctx: &mut Context, labels: &Labels) -> (result: Result<Execution, ExecError>) {
        let a: i32 = ctx.register(self.rs);
        Ok(advance(ctx, self.rd, a | self.imm))
    }

    fn instruction_type(&self) -> (t: InstructionType) {
        InstructionType::ORI
    }

    fn read_registers(&self) -> (registers: Vec<RegisterType>) {
        vec![self.rs]
    }

    fn write_registers(&self) -> (registers: Vec<RegisterType>) {
        vec![self.rd]
    }

    proof fn lemma_reads(&self, s1: State, s2: State, labels: Map<Seq<char>, i32>) {
        assert(self.reads()[0] == self.rs);
    }

    proof fn lemma_writes(&self, s: State, labels: Map<Seq<char>, i32>) {
    }
}

/// `rd ← rs1 % rs2`, with the sign of `rs1`. A zero divisor is a fault.
#[derive(Clone, Copy, PartialEq, Eq, Debug)]
pub struct Rem {
    pub rd: RegisterType,
    pub rs1: RegisterType,
    pub rs2: RegisterType,
}

impl InstructionRunner for Rem {
    open spec fn effect(&self, s: State, labels: Map<Seq<char>, i32>) -> Result<Effect, Fault> {
        divided(
            s,
            self.rd,
            s.registers[self.rs2],
            remainder(s.registers[self.rs1], s.registers[self.rs2]),
        )
    }

    open spec fn opcode(&self) -> InstructionType {
        InstructionType::REM
    }

    open spec fn reads(&self) -> Seq<RegisterType> {
        seq![self.rs1, self.rs2]
    }

    open spec fn writes(&self) -> Seq<RegisterType> {
        seq![self.rd]
    }

    fn run(&self, ctx: &mut Context, labels: &Labels) -> (result: Result<Execution, ExecError>) {
        let a: i32 = ctx.register(self.rs1);
        let b: i32 = ctx.register(self.rs2);
        if b == 0 {
            return Err(ExecError::DivisionByZero);
        }
        let value: i32 = match a.checked_rem(b) {
            Some(v) => v,
            None => 0,
        };
        Ok(advance(ctx, self.rd, value))
    }

    fn instruction_type(&self) -> (t: InstructionType) {
        InstructionType::REM
    }

    fn read_registers(&self) -> (registers: Vec<RegisterType>) {
        vec![self.rs1, self.rs2]
    }

    fn write_registers(&self) -> (registers: Vec<RegisterType>) {
        vec![self.rd]
    }

    proof fn lemma_reads(&self, s1: State, s2: State, labels: Map<Seq<char>, i32>) {
        assert(self.reads()[0] == self.rs1);
        assert(self.reads()[1] == self.rs2);
    }

    proof fn lemma_writes(&self, s: State, labels: Map<Seq<char>, i32>) {
    }
}

/// `memory[rs1 + offset] ←` the low lane of `rs2`.
#[derive(Clone, Copy, PartialEq, Eq, Debug)]
pub struct Sb {
    pub rs2: RegisterType,
    pub offset: i32,
    pub rs1: RegisterType,
}

impl InstructionRunner for Sb {
    open spec fn effect(&self, s: State, labels: Map<Seq<char>, i32>) -> Result<Effect, Fault> {
        let n = s.registers[self.rs2];
        stored(s, address(s, self.rs1, self.offset), seq![lane0(n)])
    }

    open spec fn opcode(&self) -> InstructionType {
        InstructionType::SB
    }

    open spec fn reads(&self) -> Seq<RegisterType> {
        seq![self.rs1, self.rs2]
    }

    open spec fn writes(&self) -> Seq<RegisterType> {
        seq![]
    }

    fn run(&self, ctx: &mut Context, labels: &Labels) -> (result: Result<Execution, ExecError>) {
        let at: usize = match locate(ctx, self.rs1, self.offset, 1) {
            Ok(at) => at,
            Err(e) => {
                return Err(e);
            },
        };
        let n: i32 = ctx.register(self.rs2);
        let execution = advance(ctx, RegisterType::ZERO, 0);
        let lanes = bytes_from_low_bits(n);
        ctx.store(at, lanes.0);
        proof {
            let expected = self.effect(old(ctx)@, labels@);
            assert(ctx@.memory =~= expected->Ok_0.memory);
        }
        Ok(execution)
    }

    fn instruction_type(&self) -> (t: InstructionType) {
        InstructionType::SB
    }

    fn read_registers(&self) -> (registers: Vec<RegisterType>) {
        vec![self.rs1, self.rs2]
    }

    fn write_registers(&self) -> (registers: Vec<RegisterType>) {
        Vec::new()
    }

    proof fn lemma_reads(&self, s1: State, s2: State, labels: Map<Seq<char>, i32>) {
        assert(self.reads()[0] == self.rs1);
        assert(self.reads()[1] == self.rs2);
    }

    proof fn lemma_writes(&self, s: State, labels: Map<Seq<char>, i32>) {
    }
}

/// Stores the two low lanes of `rs2` in the two cells from `rs1 + offset` on.
#[derive(Clone, Copy, PartialEq, Eq, Debug)]
pub struct Sh {
    pub rs2: RegisterType,
    pub offset: i32,
    pub rs1: RegisterType,
}

impl InstructionRunner for Sh {
    open spec fn effect(&self, s: State, labels: Map<Seq<char>, i32>) -> Result<Effect, Fault> {
        let n = s.registers[self.rs2];
        stored(s, address(s, self.rs1, self.offset), seq![lane0(n), lane1(n)])
    }

    open spec fn opcode(&self) -> InstructionType {
        InstructionType::SH
    }

    open spec fn reads(&self) -> Seq<RegisterType> {
        seq![self.rs1, self.rs2]
    }

    open spec fn writes(&self) -> Seq<RegisterType> {
        seq![]
    }

    fn run(&self, ctx: &mut Context, labels: &Labels) -> (result: Result<Execution, ExecError>) {
        let at: usize = match locate(ctx, self.rs1, self.offset, 2) {
            Ok(at) => at,
            Err(e) => {
                return Err(e);
            },
        };
        let n: i32 = ctx.register(self.rs2);
        let execution = advance(ctx, RegisterType::ZERO, 0);
        let lanes = bytes_from_low_bits(n);
        ctx.store(at, lanes.0);
        ctx.store(at + 1, lanes.1);
        proof {
            let expected = self.effect(old(ctx)@, labels@);
            assert(ctx@.memory =~= expected->Ok_0.memory);
        }
        Ok(execution)
    }

    fn instruction_type(&self) -> (t: InstructionType) {
        InstructionType::SH
    }

    fn read_registers(&self) -> (registers: Vec<RegisterType>) {
        vec![self.rs1, self.rs2]
    }

    fn write_registers(&self) -> (registers: Vec<RegisterType>) {
        Vec::new()
    }

    proof fn lemma_reads(&self, s1: State, s2: State, labels: Map<Seq<char>, i32>) {
        assert(self.reads()[0] == self.rs1);
        assert(self.reads()[1] == self.rs2);
    }

    proof fn lemma_writes(&self, s: State, labels: Map<Seq<char>, i32>) {
    }
}

/// `rd ← rs1 << rs2`, by the low five bits of `rs2`.
#[derive(Clone, Copy, PartialEq, Eq, Debug)]
pub struct Sll {
    pub rd: RegisterType,
    pub rs1: RegisterType,
    pub rs2: RegisterType,
}

impl InstructionRunner for Sll {
    open spec fn effect(&self, s: State, labels: Map<Seq<char>, i32>) -> Result<Effect, Fault> {
        Ok(sequential(s, self.rd, shifted_left(s.registers[self.rs1], s.registers[self.rs2])))
    }

    open spec fn opcode(&self) -> InstructionType {
        InstructionType::SLL
    }

    open spec fn reads(&self) -> Seq<RegisterType> {
        seq![self.rs1, self.rs2]
    }

    open spec fn writes(&self) -> Seq<RegisterType> {
        seq![self.rd]
    }

    fn run(&self, ctx: &mut Context, labels: &Labels) -> (result: Result<Execution, ExecError>) {
        let a: i32 = ctx.register(self.rs1);
        let b: i32 = ctx.register(self.rs2);
        Ok(advance(ctx, self.rd, shift_left(a, b)))
    }

    fn instruction_type(&self) -> (t: InstructionType) {
        InstructionType::SLL
    }

    fn read_registers(&self) -> (registers: Vec<RegisterType>) {
        vec![self.rs1, self.rs2]
    }

    fn write_registers(&self) -> (registers: Vec<RegisterType>) {
        vec![self.rd]
    }

    proof fn lemma_reads(&self, s1: State, s2: State, labels: Map<Seq<char>, i32>) {
        assert(self.reads()[0] == self.rs1);
        assert(self.reads()[1] == self.rs2);
    }

    proof fn lemma_writes(&self, s: State, labels: Map<Seq<char>, i32>) {
    }
}

/// `rd ← rs << imm`, by the low five bits of `imm`.
#[derive(Clone, Copy, PartialEq, Eq, Debug)]
pub struct Slli {
    pub rd: RegisterType,
    pub rs: RegisterType,
    pub imm: i32,
}

impl InstructionRunner for Slli {
    open spec fn effect(&self, s: State, labels: Map<Seq<char>, i32>) -> Result<Effect, Fault> {
        Ok(sequential(s, self.rd, shifted_left(s.registers[self.rs], self.imm)))
    }

    open spec fn opcode(&self) -> InstructionType {
        InstructionType::SLLI
    }

    open spec fn reads(&self) -> Seq<RegisterType> {
        seq![self.rs]
    }

    open spec fn writes(&self) -> Seq<RegisterType> {
        seq![self.rd]
    }

    fn run(&self, ctx: &mut Context, labels: &Labels) -> (result: Result<Execution, ExecError>) {
        let a: i32 = ctx.register(self.rs);
        Ok(advance(ctx, self.rd, shift_left(a, self.imm)))
    }

    fn instruction_type(&self) -> (t: InstructionType) {
        InstructionType::SLLI
    }

    fn read_registers(&self) -> (registers: Vec<RegisterType>) {
        vec![self.rs]
    }

    fn write_registers(&self) -> (registers: Vec<RegisterType>) {
        vec![self.rd]
    }

    proof fn lemma_reads(&self, s1: State, s2: State, labels: Map<Seq<char>, i32>) {
        assert(self.reads()[0] == self.rs);
    }

    proof fn lemma_writes(&self, s: State, labels: Map<Seq<char>, i32>) {
    }
}

/// `rd ← 1` where `rs1 < rs2` as signed numbers, else `rd ← 0`.
#[derive(Clone, Copy, PartialEq, Eq, Debug)]
pub struct Slt {
    pub rd: RegisterType,
    pub rs1: RegisterType,
    pub rs2: RegisterType,
}

impl InstructionRunner for Slt {
    open spec fn effect(&self, s: State, labels: Map<Seq<char>, i32>) -> Result<Effect, Fault> {
        Ok(sequential(s, self.rd, less_than(s.registers[self.rs1], s.registers[self.rs2])))
    }

    open spec fn opcode(&self) -> InstructionType {
        InstructionType::SLT
    }

    open spec fn reads(&self) -> Seq<RegisterType> {
        seq![self.rs1, self.rs2]
    }

    open spec fn writes(&self) -> Seq<RegisterType> {
        seq![self.rd]
    }

    fn run(&self, ctx: &mut Context, labels: &Labels) -> (result: Result<Execution, ExecError>) {
        let a: i32 = ctx.register(self.rs1);
        let b: i32 = ctx.register(self.rs2);
        Ok(advance(ctx, self.rd, set_less_than(a, b)))
    }

    fn instruction_type(&self) -> (t: InstructionType) {
        InstructionType::SLT
    }

    fn read_registers(&self) -> (registers: Vec<RegisterType>) {
        vec![self.rs1, self.rs2]
    }

    fn write_registers(&self) -> (registers: Vec<RegisterType>) {
        vec![self.rd]
    }

    proof fn lemma_reads(&self, s1: State, s2: State, labels: Map<Seq<char>, i32>) {
        assert(self.reads()[0] == self.rs1);
        assert(self.reads()[1] == self.rs2);
    }

    proof fn lemma_writes(&self, s: State, labels: Map<Seq<char>, i32>) {
    }
}

/// `rd ← 1` where `rs1 < rs2`, else `rd ← 0`. The comparison is the signed
/// one of [`Slt`].
#[derive(Clone, Copy, PartialEq, Eq, Debug)]
pub struct Sltu {
    pub rd: RegisterType,
    pub rs1: RegisterType,
    pub rs2: RegisterType,
}

impl InstructionRunner for Sltu {
    open spec fn effect(&self, s: State, labels: Map<Seq<char>, i32>) -> Result<Effect, Fault> {
        Ok(sequential(s, self.rd, less_than(s.registers[self.rs1], s.registers[self.rs2])))
    }

    open spec fn opcode(&self) -> InstructionType {
        InstructionType::SLTU
    }

    open spec fn reads(&self) -> Seq<RegisterType> {
        seq![self.rs1, self.rs2]
    }

    open spec fn writes(&self) -> Seq<RegisterType> {
        seq![self.rd]
    }

    fn run(&self, ctx: &mut Context, labels: &Labels) -> (result: Result<Execution, ExecError>) {
        let a: i32 = ctx.register(self.rs1);
        let b: i32 = ctx.register(self.rs2);
        Ok(advance(ctx, self.rd, set_less_than(a, b)))
    }

    fn instruction_type(&self) -> (t: InstructionType) {
        InstructionType::SLTU
    }

    fn read_registers(&self) -> (registers: Vec<RegisterType>) {
        vec![self.rs1, self.rs2]
    }

    fn write_registers(&self) -> (registers: Vec<RegisterType>) {
        vec![self.rd]
    }

    proof fn lemma_reads(&self, s1: State, s2: State, labels: Map<Seq<char>, i32>) {
        assert(self.reads()[0] == self.rs1);
        assert(self.reads()[1] == self.rs2);
    }

    proof fn lemma_writes(&self, s: State, labels: Map<Seq<char>, i32>) {
    }
}

/// `rd ← 1` where `rs < imm` as signed numbers, else `rd ← 0`.
#[derive(Clone, Copy, PartialEq, Eq, Debug)]
pub struct Slti {
    pub rd: RegisterType,
    pub rs: RegisterType,
    pub imm: i32,
}

impl InstructionRunner for Slti {
    open spec fn effect(&self, s: State, labels: Map<Seq<char>, i32>) -> Result<Effect, Fault> {
        Ok(sequential(s, self.rd, less_than(s.registers[self.rs], self.imm)))
    }

    open spec fn opcode(&self) -> InstructionType {
        InstructionType::SLTI
    }

    open spec fn reads(&self) -> Seq<RegisterType> {
        seq![self.rs]
    }

    open spec fn writes(&self) -> Seq<RegisterType> {
        seq![self.rd]
    }

    fn run(&self, ctx: &mut Context, labels: &Labels) -> (result: Result<Execution, ExecError>) {
        let a: i32 = ctx.register(self.rs);
        Ok(advance(ctx, self.rd, set_less_than(a, self.imm)))
    }

    fn instruction_type(&self) -> (t: InstructionType) {
        InstructionType::SLTI
    }

    fn read_registers(&self) -> (registers: Vec<RegisterType>) {
        vec![self.rs]
    }

    fn write_registers(&self) -> (registers: Vec<RegisterType>) {
        vec![self.rd]
    }

    proof fn lemma_reads(&self, s1: State, s2: State, labels: Map<Seq<char>, i32>) {
        assert(self.reads()[0] == self.rs);
    }

    proof fn lemma_writes(&self, s: State, labels: Map<Seq<char>, i32>) {
    }
}

/// `rd ← rs1 >> rs2`, by the low five bits of `rs2`, keeping the sign.
#[derive(Clone, Copy, PartialEq, Eq, Debug)]
pub struct Sra {
    pub rd: RegisterType,
    pub rs1: RegisterType,
    pub rs2: RegisterType,
}

impl InstructionRunner for Sra {
    open spec fn effect(&self, s: State, labels: Map<Seq<char>, i32>) -> Result<Effect, Fault> {
        Ok(sequential(s, self.rd, shifted_right(s.registers[self.rs1], s.registers[self.rs2])))
    }

    open spec fn opcode(&self) -> InstructionType {
        InstructionType::SRA
    }

    open spec fn reads(&self) -> Seq<RegisterType> {
        seq![self.rs1, self.rs2]
    }

    open spec fn writes(&self) -> Seq<RegisterType> {
        seq![self.rd]
    }

    fn run(&self, ctx: &mut Context, labels: &Labels) -> (result: Result<Execution, ExecError>) {
        let a: i32 = ctx.register(self.rs1);
        let b: i32 = ctx.register(self.rs2);
        Ok(advance(ctx, self.rd, shift_right(a, b)))
    }

    fn instruction_type(&self) -> (t: InstructionType) {
        InstructionType::SRA
    }

    fn read_registers(&self) -> (registers: Vec<RegisterType>) {
        vec![self.rs1, self.rs2]
    }

    fn write_registers(&self) -> (registers: Vec<RegisterType>) {
        vec![self.rd]
    }

    proof fn lemma_reads(&self, s1: State, s2: State, labels: Map<Seq<char>, i32>) {
        assert(self.reads()[0] == self.rs1);
        assert(self.reads()[1] == self.rs2);
    }

    proof fn lemma_writes(&self, s: State, labels: Map<Seq<char>, i32>) {
    }
}

/// `rd ← rs >> imm`, by the low five bits of `imm`, keeping the sign.
#[derive(Clone, Copy, PartialEq, Eq, Debug)]
pub struct Srai {
    pub rd: RegisterType,
    pub rs: RegisterType,
    pub imm: i32,
}

impl InstructionRunner for Srai {
    open spec fn effect(&self, s: State, labels: Map<Seq<char>, i32>) -> Result<Effect, Fault> {
        Ok(sequential(s, self.rd, shifted_right(s.registers[self.rs], self.imm)))
    }

    open spec fn opcode(&self) -> InstructionType {
        InstructionType::SRAI
    }

    open spec fn reads(&self) -> Seq<RegisterType> {
        seq![self.rs]
    }

    open spec fn writes(&self) -> Seq<RegisterType> {
        seq![self.rd]
    }

    fn run(&self, ctx: &mut Context, labels: &Labels) -> (result: Result<Execution, ExecError>) {
        let a: i32 = ctx.register(self.rs);
        Ok(advance(ctx, self.rd, shift_right(a, self.imm)))
    }

    fn instruction_type(&self) -> (t: InstructionType) {
        InstructionType::SRAI
    }

    fn read_registers(&self) -> (registers: Vec<RegisterType>) {
        vec![self.rs]
    }

    fn write_registers(&self) -> (registers: Vec<RegisterType>) {
        vec![self.rd]
    }

    proof fn lemma_reads(&self, s1: State, s2: State, labels: Map<Seq<char>, i32>) {
        assert(self.reads()[0] == self.rs);
    }

    proof fn lemma_writes(&self, s: State, labels: Map<Seq<char>, i32>) {
    }
}

/// `rd ← rs1 >> rs2`. The shift is the sign-keeping one of [`Sra`].
#[derive(Clone, Copy, PartialEq, Eq, Debug)]
pub struct Srl {
    pub rd: RegisterType,
    pub rs1: RegisterType,
    pub rs2: RegisterType,
}

impl InstructionRunner for Srl {
    open spec fn effect(&self, s: State, labels: Map<Seq<char>, i32>) -> Result<Effect, Fault> {
        Ok(sequential(s, self.rd, shifted_right(s.registers[self.rs1], s.registers[self.rs2])))
    }

    open spec fn opcode(&self) -> InstructionType {
        InstructionType::SRL
    }

    open spec fn reads(&self) -> Seq<RegisterType> {
        seq![self.rs1, self.rs2]
    }

    open spec fn writes(&self) -> Seq<RegisterType> {
        seq![self.rd]
    }

    fn run(&self, ctx: &mut Context, labels: &Labels) -> (result: Result<Execution, ExecError>) {
        let a: i32 = ctx.register(self.rs1);
        let b: i32 = ctx.register(self.rs2);
        Ok(advance(ctx, self.rd, shift_right(a, b)))
    }

    fn instruction_type(&self) -> (t: InstructionType) {
        InstructionType::SRL
    }

    fn read_registers(&self) -> (registers: Vec<RegisterType>) {
        vec![self.rs1, self.rs2]
    }

    fn write_registers(&self) -> (registers: Vec<RegisterType>) {
        vec![self.rd]
    }

    proof fn lemma_reads(&self, s1: State, s2: State, labels: Map<Seq<char>, i32>) {
        assert(self.reads()[0] == self.rs1);
        assert(self.reads()[1] == self.rs2);
    }

    proof fn lemma_writes(&self, s: State, labels: Map<Seq<char>, i32>) {
    }
}

/// `rd ← rs >> imm`. The shift is the sign-keeping one of [`Srai`].
#[derive(Clone, Copy, PartialEq, Eq, Debug)]
pub struct Srli {
    pub rd: RegisterType,
    pub rs: RegisterType,
    pub imm: i32,
}

impl InstructionRunner for Srli {
    open spec fn effect(&self, s: State, labels: Map<Seq<char>, i32>) -> Result<Effect, Fault> {
        Ok(sequential(s, self.rd, shifted_right(s.registers[self.rs], self.imm)))
    }

    open spec fn opcode(&self) -> InstructionType {
        InstructionType::SRLI
    }

    open spec fn reads(&self) -> Seq<RegisterType> {
        seq![self.rs]
    }

    open spec fn writes(&self) -> Seq<RegisterType> {
        seq![self.rd]
    }

    fn run(&self, ctx: &mut Context, labels: &Labels) -> (result: Result<Execution, ExecError>) {
        let a: i32 = ctx.register(self.rs);
        Ok(advance(ctx, self.rd, shift_right(a, self.imm)))
    }

    fn instruction_type(&self) -> (t: InstructionType) {
        InstructionType::SRLI
    }

    fn read_registers(&self) -> (registers: Vec<RegisterType>) {
        vec![self.rs]
    }

    fn write_registers(&self) -> (registers: Vec<RegisterType>) {
        vec![self.rd]
    }

    proof fn lemma_reads(&self, s1: State, s2: State, labels: Map<Seq<char>, i32>) {
        assert(self.reads()[0] == self.rs);
    }

    proof fn lemma_writes(&self, s: State, labels: Map<Seq<char>, i32>) {
    }
}

/// `rd ← rs1 - rs2`, wrapping.
#[derive(Clone, Copy, PartialEq, Eq, Debug)]
pub struct Sub {
    pub rd: RegisterType,
    pub rs1: RegisterType,
    pub rs2: RegisterType,
}

impl InstructionRunner for Sub {
    open spec fn effect(&self, s: State, labels: Map<Seq<char>, i32>) -> Result<Effect, Fault> {
        Ok(sequential(s, self.rd, s.registers[self.rs1].wrapping_sub(s.registers[self.rs2])))
    }

    open spec fn opcode(&self) -> InstructionType {
        InstructionType::SUB
    }

    open spec fn reads(&self) -> Seq<RegisterType> {
        seq![self.rs1, self.rs2]
    }

    open spec fn writes(&self) -> Seq<RegisterType> {
        seq![self.rd]
    }

    fn run(&self, ctx: &mut Context, labels: &Labels) -> (result: Result<Execution, ExecError>) {
        let a: i32 = ctx.register(self.rs1);
        let b: i32 = ctx.register(self.rs2);
        Ok(advance(ctx, self.rd, a.wrapping_sub(b)))
    }

    fn instruction_type(&self) -> (t: InstructionType) {
        InstructionType::SUB
    }

    fn read_registers(&self) -> (registers: Vec<RegisterType>) {
        vec![self.rs1, self.rs2]
    }

    fn write_registers(&self) -> (registers: Vec<RegisterType>) {
        vec![self.rd]
    }

    proof fn lemma_reads(&self, s1: State, s2: State, labels: Map<Seq<char>, i32>) {
        assert(self.reads()[0] == self.rs1);
        assert(self.reads()[1] == self.rs2);
    }

    proof fn lemma_writes(&self, s: State, labels: Map<Seq<char>, i32>) {
    }
}

/// Stores the four lanes of `rs2` in the four cells from `rs1 + offset` on.
#[derive(Clone, Copy, PartialEq, Eq, Debug)]
pub struct Sw {
    pub rs2: RegisterType,
    pub offset: i32,
    pub rs1: RegisterType,
}

impl InstructionRunner for Sw {
    open spec fn effect(&self, s: State, labels: Map<Seq<char>, i32>) -> Result<Effect, Fault> {
        let n = s.registers[self.rs2];
        stored(s, address(s, self.rs1, self.offset), seq![lane0(n), lane1(n), lane2(n), lane3(n)])
    }

    open spec fn opcode(&self) -> InstructionType {
        InstructionType::SW
    }

    open spec fn reads(&self) -> Seq<RegisterType> {
        seq![self.rs1, self.rs2]
    }

    open spec fn writes(&self) -> Seq<RegisterType> {
        seq![]
    }

    fn run(&self, ctx: &mut Context, labels: &Labels) -> (result: Result<Execution, ExecError>) {
        let at: usize = match locate(ctx, self.rs1, self.offset, 4) {
            Ok(at) => at,
            Err(e) => {
                return Err(e);
            },
        };
        let n: i32 = ctx.register(self.rs2);
        let execution = advance(ctx, RegisterType::ZERO, 0);
        let lanes = bytes_from_low_bits(n);
        ctx.store(at, lanes.0);
        ctx.store(at + 1, lanes.1);
        ctx.store(at + 2, lanes.2);
        ctx.store(at + 3, lanes.3);
        proof {
            let expected = self.effect(old(ctx)@, labels@);
            assert(ctx@.memory =~= expected->Ok_0.memory);
        }
        Ok(execution)
    }

    fn instruction_type(&self) -> (t: InstructionType) {
        InstructionType::SW
    }

    fn read_registers(&self) -> (registers: Vec<RegisterType>) {
        vec![self.rs1, self.rs2]
    }

    fn write_registers(&self) -> (registers: Vec<RegisterType>) {
        Vec::new()
    }

    proof fn lemma_reads(&self, s1: State, s2: State, labels: Map<Seq<char>, i32>) {
        assert(self.reads()[0] == self.rs1);
        assert(self.reads()[1] == self.rs2);
    }

    proof fn lemma_writes(&self, s: State, labels: Map<Seq<char>, i32>) {
    }
}

/// `rd ← rs1 ^ rs2`.
#[derive(Clone, Copy, PartialEq, Eq, Debug)]
pub struct Xor {
    pub rd: RegisterType,
    pub rs1: RegisterType,
    pub rs2: RegisterType,
}

impl InstructionRunner for Xor {
    open spec fn effect(&self, s: State, labels: Map<Seq<char>, i32>) -> Result<Effect, Fault> {
        Ok(sequential(s, self.rd, s.registers[self.rs1] ^ s.registers[self.rs2]))
    }

    open spec fn opcode(&self) -> InstructionType {
        InstructionType::XOR
    }

    open spec fn reads(&self) -> Seq<RegisterType> {
        seq![self.rs1, self.rs2]
    }

    open spec fn writes(&self) -> Seq<RegisterType> {
        seq![self.rd]
    }

    fn run(&self, ctx: &mut Context, labels: &Labels) -> (result: Result<Execution, ExecError>) {
        let a: i32 = ctx.register(self.rs1);
        let b: i32 = ctx.register(self.rs2);
        Ok(advance(ctx, self.rd, a ^ b))
    }

    fn instruction_type(&self) -> (t: InstructionType) {
        InstructionType::XOR
    }

    fn read_registers(&self) -> (registers: Vec<RegisterType>) {
        vec![self.rs1, self.rs2]
    }

    fn write_registers(&self) -> (registers: Vec<RegisterType>) {
        vec![self.rd]
    }

    proof fn lemma_reads(&self, s1: State, s2: State, labels: Map<Seq<char>, i32>) {
        assert(self.reads()[0] == self.rs1);
        assert(self.reads()[1] == self.rs2);
    }

    proof fn lemma_writes(&self, s: State, labels: Map<Seq<char>, i32>) {
    }
}

/// `rd ← rs ^ imm`.
#[derive(Clone, Copy, PartialEq, Eq, Debug)]
pub struct Xori {
    pub imm: i32,
    pub rd: RegisterType,
    pub rs: RegisterType,
}

impl InstructionRunner for Xori {
    open spec fn effect(&self, s: State, labels: Map<Seq<char>, i32>) -> Result<Effect, Fault> {
        Ok(sequential(s, self.rd, s.registers[self.rs] ^ self.imm))
    }

    open spec fn opcode(&self) -> InstructionType {
        InstructionType::XORI
    }

    open spec fn reads(&self) -> Seq<RegisterType> {
        seq![self.rs]
    }

    open spec fn writes(&self) -> Seq<RegisterType> {
        seq![self.rd]
    }

    fn run(&self, ctx: &mut Context, labels: &Labels) -> (result: Result<Execution, ExecError>) {
        let a: i32 = ctx.register(self.rs);
        Ok(advance(ctx, self.rd, a ^ self.imm))
    }

    fn instruction_type(&self) -> (t: InstructionType) {
        InstructionType::XORI
    }

    fn read_registers(&self) -> (registers: Vec<RegisterType>) {
        vec![self.rs]
    }

    fn write_registers(&self) -> (registers: Vec<RegisterType>) {
        vec![self.rd]
    }

    proof fn lemma_reads(&self, s1: State, s2: State, labels: Map<Seq<char>, i32>) {
        assert(self.reads()[0] == self.rs);
    }

    proof fn lemma_writes(&self, s: State, labels: Map<Seq<char>, i32>) {
    }
}

} // verus!
