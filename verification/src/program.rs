//! Programs: the closed set of instructions, the assembled application, and
//! the plain interpreter that defines what a program computes.

use crate::context::{Context, Effect, ExecError, Execution, Fault, State};
use crate::labels::Labels;
use crate::opcodes::{
    Add, Addi, And, Andi, Auipc, Beq, Bge, Bgeu, Blt, Bltu, Bne, Div, InstructionRunner,
    InstructionType, Jal, Jalr, Lb, Lh, Lui, Lw, Mul, Nop, Or, Ori, Rem, Sb, Sh, Sll, Slli, Slt,
    Slti, Sltu, Sra, Srai, Srl, Srli, Sub, Sw, Xor, Xori,
};
use crate::register::RegisterType;
use vstd::prelude::*;

verus! {

/// Any one instruction of the set.
#[derive(PartialEq, Eq, Debug)]
pub enum Instruction {
    Add(Add),
    Addi(Addi),
    And(And),
    Andi(Andi),
    Auipc(Auipc),
    Beq(Beq),
    Bge(Bge),
    Bgeu(Bgeu),
    Blt(Blt),
    Bltu(Bltu),
    Bne(Bne),
    Div(Div),
    Jal(Jal),
    Jalr(Jalr),
    Lui(Lui),
    Lb(Lb),
    Lh(Lh),
    Lw(Lw),
    Nop(Nop),
    Mul(Mul),
    Or(Or),
    Ori(Ori),
    Rem(Rem),
    Sb(Sb),
    Sh(Sh),
    Sll(Sll),
    Slli(Slli),
    Slt(Slt),
    Sltu(Sltu),
    Slti(Slti),
    Sra(Sra),
    Srai(Srai),
    Srl(Srl),
    Srli(Srli),
    Sub(Sub),
    Sw(Sw),
    Xor(Xor),
    Xori(Xori),
}

impl InstructionRunner for Instruction {
    open spec fn effect(&self, s: State, labels: Map<Seq<char>, i32>) -> Result<Effect, Fault> {
        match self {
            Instruction::Add(i) => i.effect(s, labels),
            Instruction::Addi(i) => i.effect(s, labels),
            Instruction::And(i) => i.effect(s, labels),
            Instruction::Andi(i) => i.effect(s, labels),
            Instruction::Auipc(i) => i.effect(s, labels),
            Instruction::Beq(i) => i.effect(s, labels),
            Instruction::Bge(i) => i.effect(s, labels),
            Instruction::Bgeu(i) => i.effect(s, labels),
            Instruction::Blt(i) => i.effect(s, labels),
            Instruction::Bltu(i) => i.effect(s, labels),
            Instruction::Bne(i) => i.effect(s, labels),
            Instruction::Div(i) => i.effect(s, labels),
            Instruction::Jal(i) => i.effect(s, labels),
            Instruction::Jalr(i) => i.effect(s, labels),
            Instruction::Lui(i) => i.effect(s, labels),
            Instruction::Lb(i) => i.effect(s, labels),
            Instruction::Lh(i) => i.effect(s, labels),
            Instruction::Lw(i) => i.effect(s, labels),
            Instruction::Nop(i) => i.effect(s, labels),
            Instruction::Mul(i) => i.effect(s, labels),
            Instruction::Or(i) => i.effect(s, labels),
            Instruction::Ori(i) => i.effect(s, labels),
            Instruction::Rem(i) => i.effect(s, labels),
            Instruction::Sb(i) => i.effect(s, labels),
            Instruction::Sh(i) => i.effect(s, labels),
            Instruction::Sll(i) => i.effect(s, labels),
            Instruction::Slli(i) => i.effect(s, labels),
            Instruction::Slt(i) => i.effect(s, labels),
            Instruction::Sltu(i) => i.effect(s, labels),
            Instruction::Slti(i) => i.effect(s, labels),
            Instruction::Sra(i) => i.effect(s, labels),
            Instruction::Srai(i) => i.effect(s, labels),
            Instruction::Srl(i) => i.effect(s, labels),
            Instruction::Srli(i) => i.effect(s, labels),
            Instruction::Sub(i) => i.effect(s, labels),
            Instruction::Sw(i) => i.effect(s, labels),
            Instruction::Xor(i) => i.effect(s, labels),
            Instruction::Xori(i) => i.effect(s, labels),
        }
    }

    open spec fn opcode(&self) -> InstructionType {
        match self {
            Instruction::Add(i) => i.opcode(),
            Instruction::Addi(i) => i.opcode(),
            Instruction::And(i) => i.opcode(),
            Instruction::Andi(i) => i.opcode(),
            Instruction::Auipc(i) => i.opcode(),
            Instruction::Beq(i) => i.opcode(),
            Instruction::Bge(i) => i.opcode(),
            Instruction::Bgeu(i) => i.opcode(),
            Instruction::Blt(i) => i.opcode(),
            Instruction::Bltu(i) => i.opcode(),
            Instruction::Bne(i) => i.opcode(),
            Instruction::Div(i) => i.opcode(),
            Instruction::Jal(i) => i.opcode(),
            Instruction::Jalr(i) => i.opcode(),
            Instruction::Lui(i) => i.opcode(),
            Instruction::Lb(i) => i.opcode(),
            Instruction::Lh(i) => i.opcode(),
            Instruction::Lw(i) => i.opcode(),
            Instruction::Nop(i) => i.opcode(),
            Instruction::Mul(i) => i.opcode(),
            Instruction::Or(i) => i.opcode(),
            Instruction::Ori(i) => i.opcode(),
            Instruction::Rem(i) => i.opcode(),
            Instruction::Sb(i) => i.opcode(),
            Instruction::Sh(i) => i.opcode(),
            Instruction::Sll(i) => i.opcode(),
            Instruction::Slli(i) => i.opcode(),
            Instruction::Slt(i) => i.opcode(),
            Instruction::Sltu(i) => i.opcode(),
            Instruction::Slti(i) => i.opcode(),
            Instruction::Sra(i) => i.opcode(),
            Instruction::Srai(i) => i.opcode(),
            Instruction::Srl(i) => i.opcode(),
            Instruction::Srli(i) => i.opcode(),
            Instruction::Sub(i) => i.opcode(),
            Instruction::Sw(i) => i.opcode(),
            Instruction::Xor(i) => i.opcode(),
            Instruction::Xori(i) => i.opcode(),
        }
    }

    open spec fn reads(&self) -> Seq<RegisterType> {
        match self {
            Instruction::Add(i) => i.reads(),
            Instruction::Addi(i) => i.reads(),
            Instruction::And(i) => i.reads(),
            Instruction::Andi(i) => i.reads(),
            Instruction::Auipc(i) => i.reads(),
            Instruction::Beq(i) => i.reads(),
            Instruction::Bge(i) => i.reads(),
            Instruction::Bgeu(i) => i.reads(),
            Instruction::Blt(i) => i.reads(),
            Instruction::Bltu(i) => i.reads(),
            Instruction::Bne(i) => i.reads(),
            Instruction::Div(i) => i.reads(),
            Instruction::Jal(i) => i.reads(),
            Instruction::Jalr(i) => i.reads(),
            Instruction::Lui(i) => i.reads(),
            Instruction::Lb(i) => i.reads(),
            Instruction::Lh(i) => i.reads(),
            Instruction::Lw(i) => i.reads(),
            Instruction::Nop(i) => i.reads(),
            Instruction::Mul(i) => i.reads(),
            Instruction::Or(i) => i.reads(),
            Instruction::Ori(i) => i.reads(),
            Instruction::Rem(i) => i.reads(),
            Instruction::Sb(i) => i.reads(),
            Instruction::Sh(i) => i.reads(),
            Instruction::Sll(i) => i.reads(),
            Instruction::Slli(i) => i.reads(),
            Instruction::Slt(i) => i.reads(),
            Instruction::Sltu(i) => i.reads(),
            Instruction::Slti(i) => i.reads(),
            Instruction::Sra(i) => i.reads(),
            Instruction::Srai(i) => i.reads(),
            Instruction::Srl(i) => i.reads(),
            Instruction::Srli(i) => i.reads(),
            Instruction::Sub(i) => i.reads(),
            Instruction::Sw(i) => i.reads(),
            Instruction::Xor(i) => i.reads(),
            Instruction::Xori(i) => i.reads(),
        }
    }

    open spec fn writes(&self) -> Seq<RegisterType> {
        match self {
            Instruction::Add(i) => i.writes(),
            Instruction::Addi(i) => i.writes(),
            Instruction::And(i) => i.writes(),
            Instruction::Andi(i) => i.writes(),
            Instruction::Auipc(i) => i.writes(),
            Instruction::Beq(i) => i.writes(),
            Instruction::Bge(i) => i.writes(),
            Instruction::Bgeu(i) => i.writes(),
            Instruction::Blt(i) => i.writes(),
            Instruction::Bltu(i) => i.writes(),
            Instruction::Bne(i) => i.writes(),
            Instruction::Div(i) => i.writes(),
            Instruction::Jal(i) => i.writes(),
            Instruction::Jalr(i) => i.writes(),
            Instruction::Lui(i) => i.writes(),
            Instruction::Lb(i) => i.writes(),
            Instruction::Lh(i) => i.writes(),
            Instruction::Lw(i) => i.writes(),
            Instruction::Nop(i) => i.writes(),
            Instruction::Mul(i) => i.writes(),
            Instruction::Or(i) => i.writes(),
            Instruction::Ori(i) => i.writes(),
            Instruction::Rem(i) => i.writes(),
            Instruction::Sb(i) => i.writes(),
            Instruction::Sh(i) => i.writes(),
            Instruction::Sll(i) => i.writes(),
            Instruction::Slli(i) => i.writes(),
            Instruction::Slt(i) => i.writes(),
            Instruction::Sltu(i) => i.writes(),
            Instruction::Slti(i) => i.writes(),
            Instruction::Sra(i) => i.writes(),
            Instruction::Srai(i) => i.writes(),
            Instruction::Srl(i) => i.writes(),
            Instruction::Srli(i) => i.writes(),
            Instruction::Sub(i) => i.writes(),
            Instruction::Sw(i) => i.writes(),
            Instruction::Xor(i) => i.writes(),
            Instruction::Xori(i) => i.writes(),
        }
    }

    fn run(&self, ctx: &mut Context, labels: &Labels) -> (result: Result<Execution, ExecError>) {
        match self {
            Instruction::Add(i) => i.run(ctx, labels),
            Instruction::Addi(i) => i.run(ctx, labels),
            Instruction::And(i) => i.run(ctx, labels),
            Instruction::Andi(i) => i.run(ctx, labels),
            Instruction::Auipc(i) => i.run(ctx, labels),
            Instruction::Beq(i) => i.run(ctx, labels),
            Instruction::Bge(i) => i.run(ctx, labels),
            Instruction::Bgeu(i) => i.run(ctx, labels),
            Instruction::Blt(i) => i.run(ctx, labels),
            Instruction::Bltu(i) => i.run(ctx, labels),
            Instruction::Bne(i) => i.run(ctx, labels),
            Instruction::Div(i) => i.run(ctx, labels),
            Instruction::Jal(i) => i.run(ctx, labels),
            Instruction::Jalr(i) => i.run(ctx, labels),
            Instruction::Lui(i) => i.run(ctx, labels),
            Instruction::Lb(i) => i.run(ctx, labels),
            Instruction::Lh(i) => i.run(ctx, labels),
            Instruction::Lw(i) => i.run(ctx, labels),
            Instruction::Nop(i) => i.run(ctx, labels),
            Instruction::Mul(i) => i.run(ctx, labels),
            Instruction::Or(i) => i.run(ctx, labels),
            Instruction::Ori(i) => i.run(ctx, labels),
            Instruction::Rem(i) => i.run(ctx, labels),
            Instruction::Sb(i) => i.run(ctx, labels),
            Instruction::Sh(i) => i.run(ctx, labels),
            Instruction::Sll(i) => i.run(ctx, labels),
            Instruction::Slli(i) => i.run(ctx, labels),
            Instruction::Slt(i) => i.run(ctx, labels),
            Instruction::Sltu(i) => i.run(ctx, labels),
            Instruction::Slti(i) => i.run(ctx, labels),
            Instruction::Sra(i) => i.run(ctx, labels),
            Instruction::Srai(i) => i.run(ctx, labels),
            Instruction::Srl(i) => i.run(ctx, labels),
            Instruction::Srli(i) => i.run(ctx, labels),
            Instruction::Sub(i) => i.run(ctx, labels),
            Instruction::Sw(i) => i.run(ctx, labels),
            Instruction::Xor(i) => i.run(ctx, labels),
            Instruction::Xori(i) => i.run(ctx, labels),
        }
    }

    fn instruction_type(&self) -> (t: InstructionType) {
        match self {
            Instruction::Add(i) => i.instruction_type(),
            Instruction::Addi(i) => i.instruction_type(),
            Instruction::And(i) => i.instruction_type(),
            Instruction::Andi(i) => i.instruction_type(),
            Instruction::Auipc(i) => i.instruction_type(),
            Instruction::Beq(i) => i.instruction_type(),
            Instruction::Bge(i) => i.instruction_type(),
            Instruction::Bgeu(i) => i.instruction_type(),
            Instruction::Blt(i) => i.instruction_type(),
            Instruction::Bltu(i) => i.instruction_type(),
            Instruction::Bne(i) => i.instruction_type(),
            Instruction::Div(i) => i.instruction_type(),
            Instruction::Jal(i) => i.instruction_type(),
            Instruction::Jalr(i) => i.instruction_type(),
            Instruction::Lui(i) => i.instruction_type(),
            Instruction::Lb(i) => i.instruction_type(),
            Instruction::Lh(i) => i.instruction_type(),
            Instruction::Lw(i) => i.instruction_type(),
            Instruction::Nop(i) => i.instruction_type(),
            Instruction::Mul(i) => i.instruction_type(),
            Instruction::Or(i) => i.instruction_type(),
            Instruction::Ori(i) => i.instruction_type(),
            Instruction::Rem(i) => i.instruction_type(),
            Instruction::Sb(i) => i.instruction_type(),
            Instruction::Sh(i) => i.instruction_type(),
            Instruction::Sll(i) => i.instruction_type(),
            Instruction::Slli(i) => i.instruction_type(),
            Instruction::Slt(i) => i.instruction_type(),
            Instruction::Sltu(i) => i.instruction_type(),
            Instruction::Slti(i) => i.instruction_type(),
            Instruction::Sra(i) => i.instruction_type(),
            Instruction::Srai(i) => i.instruction_type(),
            Instruction::Srl(i) => i.instruction_type(),
            Instruction::Srli(i) => i.instruction_type(),
            Instruction::Sub(i) => i.instruction_type(),
            Instruction::Sw(i) => i.instruction_type(),
            Instruction::Xor(i) => i.instruction_type(),
            Instruction::Xori(i) => i.instruction_type(),
        }
    }

    fn read_registers(&self) -> (registers: Vec<RegisterType>) {
        match self {
            Instruction::Add(i) => i.read_registers(),
            Instruction::Addi(i) => i.read_registers(),
            Instruction::And(i) => i.read_registers(),
            Instruction::Andi(i) => i.read_registers(),
            Instruction::Auipc(i) => i.read_registers(),
            Instruction::Beq(i) => i.read_registers(),
            Instruction::Bge(i) => i.read_registers(),
            Instruction::Bgeu(i) => i.read_registers(),
            Instruction::Blt(i) => i.read_registers(),
            Instruction::Bltu(i) => i.read_registers(),
            Instruction::Bne(i) => i.read_registers(),
            Instruction::Div(i) => i.read_registers(),
            Instruction::Jal(i) => i.read_registers(),
            Instruction::Jalr(i) => i.read_registers(),
            Instruction::Lui(i) => i.read_registers(),
            Instruction::Lb(i) => i.read_registers(),
            Instruction::Lh(i) => i.read_registers(),
            Instruction::Lw(i) => i.read_registers(),
            Instruction::Nop(i) => i.read_registers(),
            Instruction::Mul(i) => i.read_registers(),
            Instruction::Or(i) => i.read_registers(),
            Instruction::Ori(i) => i.read_registers(),
            Instruction::Rem(i) => i.read_registers(),
            Instruction::Sb(i) => i.read_registers(),
            Instruction::Sh(i) => i.read_registers(),
            Instruction::Sll(i) => i.read_registers(),
            Instruction::Slli(i) => i.read_registers(),
            Instruction::Slt(i) => i.read_registers(),
            Instruction::Sltu(i) => i.read_registers(),
            Instruction::Slti(i) => i.read_registers(),
            Instruction::Sra(i) => i.read_registers(),
            Instruction::Srai(i) => i.read_registers(),
            Instruction::Srl(i) => i.read_registers(),
            Instruction::Srli(i) => i.read_registers(),
            Instruction::Sub(i) => i.read_registers(),
            Instruction::Sw(i) => i.read_registers(),
            Instruction::Xor(i) => i.read_registers(),
            Instruction::Xori(i) => i.read_registers(),
        }
    }

    fn write_registers(&self) -> (registers: Vec<RegisterType>) {
        match self {
            Instruction::Add(i) => i.write_registers(),
            Instruction::Addi(i) => i.write_registers(),
            Instruction::And(i) => i.write_registers(),
            Instruction::Andi(i) => i.write_registers(),
            Instruction::Auipc(i) => i.write_registers(),
            Instruction::Beq(i) => i.write_registers(),
            Instruction::Bge(i) => i.write_registers(),
            Instruction::Bgeu(i) => i.write_registers(),
            Instruction::Blt(i) => i.write_registers(),
            Instruction::Bltu(i) => i.write_registers(),
            Instruction::Bne(i) => i.write_registers(),
            Instruction::Div(i) => i.write_registers(),
            Instruction::Jal(i) => i.write_registers(),
            Instruction::Jalr(i) => i.write_registers(),
            Instruction::Lui(i) => i.write_registers(),
            Instruction::Lb(i) => i.write_registers(),
            Instruction::Lh(i) => i.write_registers(),
            Instruction::Lw(i) => i.write_registers(),
            Instruction::Nop(i) => i.write_registers(),
            Instruction::Mul(i) => i.write_registers(),
            Instruction::Or(i) => i.write_registers(),
            Instruction::Ori(i) => i.write_registers(),
            Instruction::Rem(i) => i.write_registers(),
            Instruction::Sb(i) => i.write_registers(),
            Instruction::Sh(i) => i.write_registers(),
            Instruction::Sll(i) => i.write_registers(),
            Instruction::Slli(i) => i.write_registers(),
            Instruction::Slt(i) => i.write_registers(),
            Instruction::Sltu(i) => i.write_registers(),
            Instruction::Slti(i) => i.write_registers(),
            Instruction::Sra(i) => i.write_registers(),
            Instruction::Srai(i) => i.write_registers(),
            Instruction::Srl(i) => i.write_registers(),
            Instruction::Srli(i) => i.write_registers(),
            Instruction::Sub(i) => i.write_registers(),
            Instruction::Sw(i) => i.write_registers(),
            Instruction::Xor(i) => i.write_registers(),
            Instruction::Xori(i) => i.write_registers(),
        }
    }

    proof fn lemma_reads(&self, s1: State, s2: State, labels: Map<Seq<char>, i32>) {
        match self {
            Instruction::Add(i) => {{
                assert(self.reads() == i.reads());
                i.lemma_reads(s1, s2, labels);
            }},
            Instruction::Addi(i) => {{
                assert(self.reads() == i.reads());
                i.lemma_reads(s1, s2, labels);
            }},
            Instruction::And(i) => {{
                assert(self.reads() == i.reads());
                i.lemma_reads(s1, s2, labels);
            }},
            Instruction::Andi(i) => {{
                assert(self.reads() == i.reads());
                i.lemma_reads(s1, s2, labels);
            }},
            Instruction::Auipc(i) => {{
                assert(self.reads() == i.reads());
                i.lemma_reads(s1, s2, labels);
            }},
            Instruction::Beq(i) => {{
                assert(self.reads() == i.reads());
                i.lemma_reads(s1, s2, labels);
            }},
            Instruction::Bge(i) => {{
                assert(self.reads() == i.reads());
                i.lemma_reads(s1, s2, labels);
            }},
            Instruction::Bgeu(i) => {{
                assert(self.reads() == i.reads());
                i.lemma_reads(s1, s2, labels);
            }},
            Instruction::Blt(i) => {{
                assert(self.reads() == i.reads());
                i.lemma_reads(s1, s2, labels);
            }},
            Instruction::Bltu(i) => {{
                assert(self.reads() == i.reads());
                i.lemma_reads(s1, s2, labels);
            }},
            Instruction::Bne(i) => {{
                assert(self.reads() == i.reads());
                i.lemma_reads(s1, s2, labels);
            }},
            Instruction::Div(i) => {{
                assert(self.reads() == i.reads());
                i.lemma_reads(s1, s2, labels);
            }},
            Instruction::Jal(i) => {{
                assert(self.reads() == i.reads());
                i.lemma_reads(s1, s2, labels);
            }},
            Instruction::Jalr(i) => {{
                assert(self.reads() == i.reads());
                i.lemma_reads(s1, s2, labels);
            }},
            Instruction::Lui(i) => {{
                assert(self.reads() == i.reads());
                i.lemma_reads(s1, s2, labels);
            }},
            Instruction::Lb(i) => {{
                assert(self.reads() == i.reads());
                i.lemma_reads(s1, s2, labels);
            }},
            Instruction::Lh(i) => {{
                assert(self.reads() == i.reads());
                i.lemma_reads(s1, s2, labels);
            }},
            Instruction::Lw(i) => {{
                assert(self.reads() == i.reads());
                i.lemma_reads(s1, s2, labels);
            }},
            Instruction::Nop(i) => {{
                assert(self.reads() == i.reads());
                i.lemma_reads(s1, s2, labels);
            }},
            Instruction::Mul(i) => {{
                assert(self.reads() == i.reads());
                i.lemma_reads(s1, s2, labels);
            }},
            Instruction::Or(i) => {{
                assert(self.reads() == i.reads());
                i.lemma_reads(s1, s2, labels);
            }},
            Instruction::Ori(i) => {{
                assert(self.reads() == i.reads());
                i.lemma_reads(s1, s2, labels);
            }},
            Instruction::Rem(i) => {{
                assert(self.reads() == i.reads());
                i.lemma_reads(s1, s2, labels);
            }},
            Instruction::Sb(i) => {{
                assert(self.reads() == i.reads());
                i.lemma_reads(s1, s2, labels);
            }},
            Instruction::Sh(i) => {{
                assert(self.reads() == i.reads());
                i.lemma_reads(s1, s2, labels);
            }},
            Instruction::Sll(i) => {{
                assert(self.reads() == i.reads());
                i.lemma_reads(s1, s2, labels);
            }},
            Instruction::Slli(i) => {{
                assert(self.reads() == i.reads());
                i.lemma_reads(s1, s2, labels);
            }},
            Instruction::Slt(i) => {{
                assert(self.reads() == i.reads());
                i.lemma_reads(s1, s2, labels);
            }},
            Instruction::Sltu(i) => {{
                assert(self.reads() == i.reads());
                i.lemma_reads(s1, s2, labels);
            }},
            Instruction::Slti(i) => {{
                assert(self.reads() == i.reads());
                i.lemma_reads(s1, s2, labels);
            }},
            Instruction::Sra(i) => {{
                assert(self.reads() == i.reads());
                i.lemma_reads(s1, s2, labels);
            }},
            Instruction::Srai(i) => {{
                assert(self.reads() == i.reads());
                i.lemma_reads(s1, s2, labels);
            }},
            Instruction::Srl(i) => {{
                assert(self.reads() == i.reads());
                i.lemma_reads(s1, s2, labels);
            }},
            Instruction::Srli(i) => {{
                assert(self.reads() == i.reads());
                i.lemma_reads(s1, s2, labels);
            }},
            Instruction::Sub(i) => {{
                assert(self.reads() == i.reads());
                i.lemma_reads(s1, s2, labels);
            }},
            Instruction::Sw(i) => {{
                assert(self.reads() == i.reads());
                i.lemma_reads(s1, s2, labels);
            }},
            Instruction::Xor(i) => {{
                assert(self.reads() == i.reads());
                i.lemma_reads(s1, s2, labels);
            }},
            Instruction::Xori(i) => {{
                assert(self.reads() == i.reads());
                i.lemma_reads(s1, s2, labels);
            }},
        }
    }

    proof fn lemma_writes(&self, s: State, labels: Map<Seq<char>, i32>) {
        match self {
            Instruction::Add(i) => {{
                assert(self.writes() == i.writes());
                i.lemma_writes(s, labels);
            }},
            Instruction::Addi(i) => {{
                assert(self.writes() == i.writes());
                i.lemma_writes(s, labels);
            }},
            Instruction::And(i) => {{
                assert(self.writes() == i.writes());
                i.lemma_writes(s, labels);
            }},
            Instruction::Andi(i) => {{
                assert(self.writes() == i.writes());
                i.lemma_writes(s, labels);
            }},
            Instruction::Auipc(i) => {{
                assert(self.writes() == i.writes());
                i.lemma_writes(s, labels);
            }},
            Instruction::Beq(i) => {{
                assert(self.writes() == i.writes());
                i.lemma_writes(s, labels);
            }},
            Instruction::Bge(i) => {{
                assert(self.writes() == i.writes());
                i.lemma_writes(s, labels);
            }},
            Instruction::Bgeu(i) => {{
                assert(self.writes() == i.writes());
                i.lemma_writes(s, labels);
            }},
            Instruction::Blt(i) => {{
                assert(self.writes() == i.writes());
                i.lemma_writes(s, labels);
            }},
            Instruction::Bltu(i) => {{
                assert(self.writes() == i.writes());
                i.lemma_writes(s, labels);
            }},
            Instruction::Bne(i) => {{
                assert(self.writes() == i.writes());
                i.lemma_writes(s, labels);
            }},
            Instruction::Div(i) => {{
                assert(self.writes() == i.writes());
                i.lemma_writes(s, labels);
            }},
            Instruction::Jal(i) => {{
                assert(self.writes() == i.writes());
                i.lemma_writes(s, labels);
            }},
            Instruction::Jalr(i) => {{
                assert(self.writes() == i.writes());
                i.lemma_writes(s, labels);
            }},
            Instruction::Lui(i) => {{
                assert(self.writes() == i.writes());
                i.lemma_writes(s, labels);
            }},
            Instruction::Lb(i) => {{
                assert(self.writes() == i.writes());
                i.lemma_writes(s, labels);
            }},
            Instruction::Lh(i) => {{
                assert(self.writes() == i.writes());
                i.lemma_writes(s, labels);
            }},
            Instruction::Lw(i) => {{
                assert(self.writes() == i.writes());
                i.lemma_writes(s, labels);
            }},
            Instruction::Nop(i) => {{
                assert(self.writes() == i.writes());
                i.lemma_writes(s, labels);
            }},
            Instruction::Mul(i) => {{
                assert(self.writes() == i.writes());
                i.lemma_writes(s, labels);
            }},
            Instruction::Or(i) => {{
                assert(self.writes() == i.writes());
                i.lemma_writes(s, labels);
            }},
            Instruction::Ori(i) => {{
                assert(self.writes() == i.writes());
                i.lemma_writes(s, labels);
            }},
            Instruction::Rem(i) => {{
                assert(self.writes() == i.writes());
                i.lemma_writes(s, labels);
            }},
            Instruction::Sb(i) => {{
                assert(self.writes() == i.writes());
                i.lemma_writes(s, labels);
            }},
            Instruction::Sh(i) => {{
                assert(self.writes() == i.writes());
                i.lemma_writes(s, labels);
            }},
            Instruction::Sll(i) => {{
                assert(self.writes() == i.writes());
                i.lemma_writes(s, labels);
            }},
            Instruction::Slli(i) => {{
                assert(self.writes() == i.writes());
                i.lemma_writes(s, labels);
            }},
            Instruction::Slt(i) => {{
                assert(self.writes() == i.writes());
                i.lemma_writes(s, labels);
            }},
            Instruction::Sltu(i) => {{
                assert(self.writes() == i.writes());
                i.lemma_writes(s, labels);
            }},
            Instruction::Slti(i) => {{
                assert(self.writes() == i.writes());
                i.lemma_writes(s, labels);
            }},
            Instruction::Sra(i) => {{
                assert(self.writes() == i.writes());
                i.lemma_writes(s, labels);
            }},
            Instruction::Srai(i) => {{
                assert(self.writes() == i.writes());
                i.lemma_writes(s, labels);
            }},
            Instruction::Srl(i) => {{
                assert(self.writes() == i.writes());
                i.lemma_writes(s, labels);
            }},
            Instruction::Srli(i) => {{
                assert(self.writes() == i.writes());
                i.lemma_writes(s, labels);
            }},
            Instruction::Sub(i) => {{
                assert(self.writes() == i.writes());
                i.lemma_writes(s, labels);
            }},
            Instruction::Sw(i) => {{
                assert(self.writes() == i.writes());
                i.lemma_writes(s, labels);
            }},
            Instruction::Xor(i) => {{
                assert(self.writes() == i.writes());
                i.lemma_writes(s, labels);
            }},
            Instruction::Xori(i) => {{
                assert(self.writes() == i.writes());
                i.lemma_writes(s, labels);
            }},
        }
    }
}

/// An assembled program: its instructions, the one at index `i` at byte
/// address `4 * i`, and its labels.
pub struct Application {
    pub instructions: Vec<Instruction>,
    pub labels: Labels,
}

impl Application {
    /// Whether `pc` addresses an instruction of the program. Execution halts
    /// at any other address.
    pub open spec fn holds(&self, pc: i32) -> bool {
        0 <= pc && pc / 4 < self.instructions@.len()
    }

    /// The instruction that `pc` addresses.
    pub open spec fn at(&self, pc: i32) -> Instruction {
        self.instructions@[pc as int / 4]
    }

    /// The state after the instruction that `s.pc` addresses, or its fault.
    pub open spec fn step(&self, s: State) -> Result<State, Fault> {
        match self.at(s.pc).effect(s, self.labels@) {
            Ok(effect) => Ok(s.apply(effect)),
            Err(fault) => Err(fault),
        }
    }

    /// The state after `n` instructions from `s` on, or after fewer where the
    /// program halts earlier, or the first fault on the way.
    pub open spec fn after(&self, s: State, n: nat) -> Result<State, Fault>
        decreases n,
    {
        if n == 0 || !self.holds(s.pc) {
            Ok(s)
        } else {
            match self.step(s) {
                Ok(next) => self.after(next, (n - 1) as nat),
                Err(fault) => Err(fault),
            }
        }
    }

    /// Whether the program, started in `s`, halts in `end` without a fault.
    pub open spec fn computes(&self, s: State, end: State) -> bool {
        exists|n: nat| self.after(s, n) == Ok::<State, Fault>(end) && !self.holds(end.pc)
    }

    /// Whether the program, started in `s`, comes to the fault `fault`.
    pub open spec fn faults(&self, s: State, fault: Fault) -> bool {
        exists|n: nat| self.after(s, n) == Err::<State, Fault>(fault)
    }

    /// The index of the instruction that `pc` addresses, if it addresses one.
    pub fn fetch(&self, pc: i32) -> (index: Option<usize>)
        ensures
            index == (if self.holds(pc) {
                Some((pc / 4) as usize)
            } else {
                None
            }),
    {
        if pc < 0 {
            return None;
        }
        let index: usize = (pc / 4) as usize;
        if index < self.instructions.len() {
            Some(index)
        } else {
            None
        }
    }

    /// Executes the instruction that `ctx` is at and commits what it hands
    /// back: the register write and the next address.
    pub fn advance(&self, ctx: &mut Context) -> (result: Result<InstructionType, ExecError>)
        requires
            self.holds(old(ctx)@.pc),
        ensures
            match self.step(old(ctx)@) {
                Ok(next) => result == Ok::<InstructionType, ExecError>(
                    self.at(old(ctx)@.pc).opcode(),
                ) && final(ctx)@ == next,
                Err(fault) => result is Err && result->Err_0@ == fault && final(ctx)@ == old(ctx)@,
            },
    {
        let index: usize = (ctx.pc() / 4) as usize;
        let instruction = &self.instructions[index];
        match instruction.run(ctx, &self.labels) {
            Ok(execution) => {
                ctx.write(&execution);
                ctx.set_pc(execution.pc);
                Ok(instruction.instruction_type())
            },
            Err(e) => Err(e),
        }
    }
}

/// What [`Runner::run`] returns and the state it leaves, for a program
/// started in `s` that may execute `budget` more instructions: the program
/// runs until it halts, faults, or is out of budget.
pub open spec fn interpret(app: &Application, s: State, budget: nat) -> (Result<(), Fault>, State)
    decreases budget,
{
    if !app.holds(s.pc) {
        (Ok(()), s)
    } else if budget == 0 {
        (Err(Fault::CounterOverflow), s)
    } else {
        match app.step(s) {
            Ok(next) => interpret(app, next, (budget - 1) as nat),
            Err(fault) => (Err(fault), s),
        }
    }
}

/// The plain interpreter: it executes a program instruction by instruction
/// and accounts for no time.
pub struct Runner {
    ctx: Context,
    application: Application,
    executed: u64,
}

impl Runner {
    /// An interpreter for `application` with `memory_bytes` cells of memory.
    pub fn new(application: Application, memory_bytes: usize) -> (runner: Runner)
        ensures
            runner.state() == Context::new_state(memory_bytes),
            runner.executed_count() == 0,
            runner.program() == application,
    {
        Runner { ctx: Context::new(memory_bytes), application, executed: 0 }
    }

    /// The architectural state.
    pub closed spec fn state(&self) -> State {
        self.ctx@
    }

    /// The number of instructions executed so far.
    pub closed spec fn executed_count(&self) -> u64 {
        self.executed
    }

    /// The program.
    pub closed spec fn program(&self) -> Application {
        self.application
    }

    /// The registers, memory and program counter.
    pub fn context(&self) -> (ctx: &Context)
        ensures
            ctx@ == self.state(),
    {
        &self.ctx
    }

    /// The number of instructions executed so far.
    pub fn executed(&self) -> (n: u64)
        ensures
            n == self.executed_count(),
    {
        self.executed
    }

    /// Writes `value` to register `r`. A write to `ZERO` is discarded.
    pub fn set_register(&mut self, r: RegisterType, value: i32)
        ensures
            final(self).state() == old(self).state().commit(Execution { pc: 0, register: r, value }),
            final(self).executed_count() == old(self).executed_count(),
            final(self).program() == old(self).program(),
    {
        self.ctx.set_register(r, value);
    }

    /// Writes `value` to the memory cell at `address`; `false`, and nothing
    /// written, where the memory has no such cell.
    pub fn set_memory(&mut self, address: usize, value: i8) -> (done: bool)
        ensures
            done == (address < old(self).state().memory.len()),
            final(self).state() == (if done {
                State {
                    memory: old(self).state().memory.update(address as int, value),
                    ..old(self).state()
                }
            } else {
                old(self).state()
            }),
            final(self).executed_count() == old(self).executed_count(),
            final(self).program() == old(self).program(),
    {
        if address < self.ctx.memory_len() {
            self.ctx.store(address, value);
            true
        } else {
            false
        }
    }

    /// Runs the program from the current state until it halts or faults.
    pub fn run(&mut self) -> (result: Result<(), ExecError>)
        ensures
            final(self).program() == old(self).program(),
            final(self).state() == interpret(
                &old(self).program(),
                old(self).state(),
                (u64::MAX - old(self).executed_count()) as nat,
            ).1,
            match interpret(
                &old(self).program(),
                old(self).state(),
                (u64::MAX - old(self).executed_count()) as nat,
            ).0 {
                Ok(()) => result is Ok,
                Err(fault) => result is Err && result->Err_0@ == fault,
            },
            result is Ok ==> old(self).program().computes(old(self).state(), final(self).state()),
            result is Err && result->Err_0@ != Fault::CounterOverflow ==> old(
                self,
            ).program().faults(old(self).state(), result->Err_0@),
    {
        proof {
            crate::laws::lemma_interpret_outcome(
                &old(self).application,
                old(self).ctx@,
                (u64::MAX - old(self).executed) as nat,
            );
        }
        loop
            invariant
                self.application == old(self).application,
                crate::laws::outcome(
                    &old(self).application,
                    old(self).ctx@,
                    interpret(
                        &old(self).application,
                        old(self).ctx@,
                        (u64::MAX - old(self).executed) as nat,
                    ).0,
                    interpret(
                        &old(self).application,
                        old(self).ctx@,
                        (u64::MAX - old(self).executed) as nat,
                    ).1,
                ),
                interpret(
                    &self.application,
                    self.ctx@,
                    (u64::MAX - self.executed) as nat,
                ) == interpret(
                    &old(self).application,
                    old(self).ctx@,
                    (u64::MAX - old(self).executed) as nat,
                ),
            decreases u64::MAX - self.executed,
        {
            if self.application.fetch(self.ctx.pc()).is_none() {
                return Ok(());
            }
            if self.executed == u64::MAX {
                return Err(ExecError::CounterOverflow);
            }
            match self.application.advance(&mut self.ctx) {
                Ok(_) => {
                    self.executed = self.executed + 1;
                },
                Err(e) => {
                    return Err(e);
                },
            }
        }
    }
}

} // verus!
