//! The written form of an instruction: its opcode and its operands in the
//! order in which assembly text gives them.

use crate::opcodes::{
    Add, Addi, And, Andi, Auipc, Beq, Bge, Bgeu, Blt, Bltu, Bne, Div, InstructionRunner,
    InstructionType, Jal, Jalr, Lb, Lh, Lui, Lw, Mul, Nop, Or, Ori, Rem, Sb, Sh, Sll, Slli, Slt,
    Slti, Sltu, Sra, Srai, Srl, Srli, Sub, Sw, Xor, Xori,
};
use crate::program::Instruction;
use crate::register::RegisterType;
use vstd::prelude::*;

verus! {

/// What an operand can be.
#[derive(Clone, Copy, PartialEq, Eq, Structural, Debug)]
pub enum Kind {
    Register,
    Immediate,
    Label,
}

/// An operand as a mathematical value.
pub enum Written {
    Register(RegisterType),
    Immediate(i32),
    Label(Seq<char>),
}

/// An operand.
#[derive(PartialEq, Eq, Debug)]
pub enum Operand {
    Register(RegisterType),
    Immediate(i32),
    Label(String),
}

impl View for Operand {
    type V = Written;

    open spec fn view(&self) -> Written {
        match self {
            Operand::Register(r) => Written::Register(*r),
            Operand::Immediate(n) => Written::Immediate(*n),
            Operand::Label(name) => Written::Label(name@),
        }
    }
}

impl Written {
    /// What kind of operand this is.
    pub open spec fn kind(self) -> Kind {
        match self {
            Written::Register(_) => Kind::Register,
            Written::Immediate(_) => Kind::Immediate,
            Written::Label(_) => Kind::Label,
        }
    }
}

/// The operands that the elements of `operands` stand for.
pub open spec fn written(operands: Seq<Operand>) -> Seq<Written> {
    Seq::new(operands.len(), |i: int| operands[i]@)
}

/// The kinds of `operands`, one by one.
pub open spec fn kinds(operands: Seq<Written>) -> Seq<Kind> {
    Seq::new(operands.len(), |i: int| operands[i].kind())
}

/// The kinds of the operands that an instruction of opcode `t` is written
/// with, in their order: destination first for arithmetic; register, offset
/// and base register for loads and stores; the two registers and the label
/// for branches.
pub open spec fn signature(t: InstructionType) -> Seq<Kind> {
    match t {
        InstructionType::ADD
        | InstructionType::AND
        | InstructionType::DIV
        | InstructionType::MUL
        | InstructionType::OR
        | InstructionType::REM
        | InstructionType::SLL
        | InstructionType::SLT
        | InstructionType::SLTU
        | InstructionType::SRA
        | InstructionType::SRL
        | InstructionType::SUB
        | InstructionType::XOR => seq![Kind::Register, Kind::Register, Kind::Register],
        InstructionType::ADDI
        | InstructionType::ANDI
        | InstructionType::JALR
        | InstructionType::ORI
        | InstructionType::SLLI
        | InstructionType::SLTI
        | InstructionType::SRAI
        | InstructionType::SRLI
        | InstructionType::XORI => seq![Kind::Register, Kind::Register, Kind::Immediate],
        InstructionType::AUIPC
        | InstructionType::LUI => seq![Kind::Register, Kind::Immediate],
        InstructionType::BEQ
        | InstructionType::BGE
        | InstructionType::BGEU
        | InstructionType::BLT
        | InstructionType::BLTU
        | InstructionType::BNE => seq![Kind::Register, Kind::Register, Kind::Label],
        InstructionType::JAL => seq![Kind::Register, Kind::Label],
        InstructionType::LB
        | InstructionType::LH
        | InstructionType::LW
        | InstructionType::SB
        | InstructionType::SH
        | InstructionType::SW => seq![Kind::Register, Kind::Immediate, Kind::Register],
        InstructionType::NOP => seq![],
    }
}

impl Instruction {
    /// The operands of the instruction in the order in which they are
    /// written.
    pub open spec fn operands(&self) -> Seq<Written> {
        match self {
            Instruction::Add(i) => seq![
                Written::Register(i.rd),
                Written::Register(i.rs1),
                Written::Register(i.rs2),
            ],
            Instruction::Addi(i) => seq![
                Written::Register(i.rd),
                Written::Register(i.rs),
                Written::Immediate(i.imm),
            ],
            Instruction::And(i) => seq![
                Written::Register(i.rd),
                Written::Register(i.rs1),
                Written::Register(i.rs2),
            ],
            Instruction::Andi(i) => seq![
                Written::Register(i.rd),
                Written::Register(i.rs),
                Written::Immediate(i.imm),
            ],
            Instruction::Auipc(i) => seq![Written::Register(i.rd), Written::Immediate(i.imm)],
            Instruction::Beq(i) => seq![
                Written::Register(i.rs1),
                Written::Register(i.rs2),
                Written::Label(i.label@),
            ],
            Instruction::Bge(i) => seq![
                Written::Register(i.rs1),
                Written::Register(i.rs2),
                Written::Label(i.label@),
            ],
            Instruction::Bgeu(i) => seq![
                Written::Register(i.rs1),
                Written::Register(i.rs2),
                Written::Label(i.label@),
            ],
            Instruction::Blt(i) => seq![
                Written::Register(i.rs1),
                Written::Register(i.rs2),
                Written::Label(i.label@),
            ],
            Instruction::Bltu(i) => seq![
                Written::Register(i.rs1),
                Written::Register(i.rs2),
                Written::Label(i.label@),
            ],
            Instruction::Bne(i) => seq![
                Written::Register(i.rs1),
                Written::Register(i.rs2),
                Written::Label(i.label@),
            ],
            Instruction::Div(i) => seq![
                Written::Register(i.rd),
                Written::Register(i.rs1),
                Written::Register(i.rs2),
            ],
            Instruction::Jal(i) => seq![Written::Register(i.rd), Written::Label(i.label@)],
            Instruction::Jalr(i) => seq![
                Written::Register(i.rd),
                Written::Register(i.rs),
                Written::Immediate(i.imm),
            ],
            Instruction::Lui(i) => seq![Written::Register(i.rd), Written::Immediate(i.imm)],
            Instruction::Lb(i) => seq![
                Written::Register(i.rs2),
                Written::Immediate(i.offset),
                Written::Register(i.rs1),
            ],
            Instruction::Lh(i) => seq![
                Written::Register(i.rs2),
                Written::Immediate(i.offset),
                Written::Register(i.rs1),
            ],
            Instruction::Lw(i) => seq![
                Written::Register(i.rs2),
                Written::Immediate(i.offset),
                Written::Register(i.rs1),
            ],
            Instruction::Nop(i) => seq![],
            Instruction::Mul(i) => seq![
                Written::Register(i.rd),
                Written::Register(i.rs1),
                Written::Register(i.rs2),
            ],
            Instruction::Or(i) => seq![
                Written::Register(i.rd),
                Written::Register(i.rs1),
                Written::Register(i.rs2),
            ],
            Instruction::Ori(i) => seq![
                Written::Register(i.rd),
                Written::Register(i.rs),
                Written::Immediate(i.imm),
            ],
            Instruction::Rem(i) => seq![
                Written::Register(i.rd),
                Written::Register(i.rs1),
                Written::Register(i.rs2),
            ],
            Instruction::Sb(i) => seq![
                Written::Register(i.rs2),
                Written::Immediate(i.offset),
                Written::Register(i.rs1),
            ],
            Instruction::Sh(i) => seq![
                Written::Register(i.rs2),
                Written::Immediate(i.offset),
                Written::Register(i.rs1),
            ],
            Instruction::Sll(i) => seq![
                Written::Register(i.rd),
                Written::Register(i.rs1),
                Written::Register(i.rs2),
            ],
            Instruction::Slli(i) => seq![
                Written::Register(i.rd),
                Written::Register(i.rs),
                Written::Immediate(i.imm),
            ],
            Instruction::Slt(i) => seq![
                Written::Register(i.rd),
                Written::Register(i.rs1),
                Written::Register(i.rs2),
            ],
            Instruction::Sltu(i) => seq![
                Written::Register(i.rd),
                Written::Register(i.rs1),
                Written::Register(i.rs2),
            ],
            Instruction::Slti(i) => seq![
                Written::Register(i.rd),
                Written::Register(i.rs),
                Written::Immediate(i.imm),
            ],
            Instruction::Sra(i) => seq![
                Written::Register(i.rd),
                Written::Register(i.rs1),
                Written::Register(i.rs2),
            ],
            Instruction::Srai(i) => seq![
                Written::Register(i.rd),
                Written::Register(i.rs),
                Written::Immediate(i.imm),
            ],
            Instruction::Srl(i) => seq![
                Written::Register(i.rd),
                Written::Register(i.rs1),
                Written::Register(i.rs2),
            ],
            Instruction::Srli(i) => seq![
                Written::Register(i.rd),
                Written::Register(i.rs),
                Written::Immediate(i.imm),
            ],
            Instruction::Sub(i) => seq![
                Written::Register(i.rd),
                Written::Register(i.rs1),
                Written::Register(i.rs2),
            ],
            Instruction::Sw(i) => seq![
                Written::Register(i.rs2),
                Written::Immediate(i.offset),
                Written::Register(i.rs1),
            ],
            Instruction::Xor(i) => seq![
                Written::Register(i.rd),
                Written::Register(i.rs1),
                Written::Register(i.rs2),
            ],
            Instruction::Xori(i) => seq![
                Written::Register(i.rd),
                Written::Register(i.rs),
                Written::Immediate(i.imm),
            ],
        }
    }

    /// The instruction of opcode `t` with the given operands.
    pub fn assemble(t: InstructionType, operands: &Vec<Operand>) -> (instruction: Instruction)
        requires
            kinds(written(operands@)) == signature(t),
        ensures
            instruction.opcode() == t,
            instruction.operands() == written(operands@),
    {
        match t {
            InstructionType::ADD => {
                let (rd, rs1, rs2) = three_registers(operands);
                Instruction::Add(Add { rd, rs1, rs2 })
            },
            InstructionType::ADDI => {
                let (rd, rs, imm) = two_registers_immediate(operands);
                Instruction::Addi(Addi { rd, rs, imm })
            },
            InstructionType::AND => {
                let (rd, rs1, rs2) = three_registers(operands);
                Instruction::And(And { rd, rs1, rs2 })
            },
            InstructionType::ANDI => {
                let (rd, rs, imm) = two_registers_immediate(operands);
                Instruction::Andi(Andi { rd, rs, imm })
            },
            InstructionType::AUIPC => {
                let (rd, imm) = register_immediate(operands);
                Instruction::Auipc(Auipc { rd, imm })
            },
            InstructionType::BEQ => {
                let (rs1, rs2, label) = two_registers_label(operands);
                Instruction::Beq(Beq { rs1, rs2, label })
            },
            InstructionType::BGE => {
                let (rs1, rs2, label) = two_registers_label(operands);
                Instruction::Bge(Bge { rs1, rs2, label })
            },
            InstructionType::BGEU => {
                let (rs1, rs2, label) = two_registers_label(operands);
                Instruction::Bgeu(Bgeu { rs1, rs2, label })
            },
            InstructionType::BLT => {
                let (rs1, rs2, label) = two_registers_label(operands);
                Instruction::Blt(Blt { rs1, rs2, label })
            },
            InstructionType::BLTU => {
                let (rs1, rs2, label) = two_registers_label(operands);
                Instruction::Bltu(Bltu { rs1, rs2, label })
            },
            InstructionType::BNE => {
                let (rs1, rs2, label) = two_registers_label(operands);
                Instruction::Bne(Bne { rs1, rs2, label })
            },
            InstructionType::DIV => {
                let (rd, rs1, rs2) = three_registers(operands);
                Instruction::Div(Div { rd, rs1, rs2 })
            },
            InstructionType::JAL => {
                let (rd, label) = register_label(operands);
                Instruction::Jal(Jal { rd, label })
            },
            InstructionType::JALR => {
                let (rd, rs, imm) = two_registers_immediate(operands);
                Instruction::Jalr(Jalr { rd, rs, imm })
            },
            InstructionType::LUI => {
                let (rd, imm) = register_immediate(operands);
                Instruction::Lui(Lui { rd, imm })
            },
            InstructionType::LB => {
                let (rs2, offset, rs1) = register_immediate_register(operands);
                Instruction::Lb(Lb { rs2, offset, rs1 })
            },
            InstructionType::LH => {
                let (rs2, offset, rs1) = register_immediate_register(operands);
                Instruction::Lh(Lh { rs2, offset, rs1 })
            },
            InstructionType::LW => {
                let (rs2, offset, rs1) = register_immediate_register(operands);
                Instruction::Lw(Lw { rs2, offset, rs1 })
            },
            InstructionType::NOP => {
                assert(written(operands@) =~= Seq::<Written>::empty()) by {
                    assert(kinds(written(operands@)).len() == 0);
                }
                Instruction::Nop(Nop {})
            },
            InstructionType::MUL => {
                let (rd, rs1, rs2) = three_registers(operands);
                Instruction::Mul(Mul { rd, rs1, rs2 })
            },
            InstructionType::OR => {
                let (rd, rs1, rs2) = three_registers(operands);
                Instruction::Or(Or { rd, rs1, rs2 })
            },
            InstructionType::ORI => {
                let (rd, rs, imm) = two_registers_immediate(operands);
                Instruction::Ori(Ori { rd, rs, imm })
            },
            InstructionType::REM => {
                let (rd, rs1, rs2) = three_registers(operands);
                Instruction::Rem(Rem { rd, rs1, rs2 })
            },
            InstructionType::SB => {
                let (rs2, offset, rs1) = register_immediate_register(operands);
                Instruction::Sb(Sb { rs2, offset, rs1 })
            },
            InstructionType::SH => {
                let (rs2, offset, rs1) = register_immediate_register(operands);
                Instruction::Sh(Sh { rs2, offset, rs1 })
            },
            InstructionType::SLL => {
                let (rd, rs1, rs2) = three_registers(operands);
                Instruction::Sll(Sll { rd, rs1, rs2 })
            },
            InstructionType::SLLI => {
                let (rd, rs, imm) = two_registers_immediate(operands);
                Instruction::Slli(Slli { rd, rs, imm })
            },
            InstructionType::SLT => {
                let (rd, rs1, rs2) = three_registers(operands);
                Instruction::Slt(Slt { rd, rs1, rs2 })
            },
            InstructionType::SLTU => {
                let (rd, rs1, rs2) = three_registers(operands);
                Instruction::Sltu(Sltu { rd, rs1, rs2 })
            },
            InstructionType::SLTI => {
                let (rd, rs, imm) = two_registers_immediate(operands);
                Instruction::Slti(Slti { rd, rs, imm })
            },
            InstructionType::SRA => {
                let (rd, rs1, rs2) = three_registers(operands);
                Instruction::Sra(Sra { rd, rs1, rs2 })
            },
            InstructionType::SRAI => {
                let (rd, rs, imm) = two_registers_immediate(operands);
                Instruction::Srai(Srai { rd, rs, imm })
            },
            InstructionType::SRL => {
                let (rd, rs1, rs2) = three_registers(operands);
                Instruction::Srl(Srl { rd, rs1, rs2 })
            },
            InstructionType::SRLI => {
                let (rd, rs, imm) = two_registers_immediate(operands);
                Instruction::Srli(Srli { rd, rs, imm })
            },
            InstructionType::SUB => {
                let (rd, rs1, rs2) = three_registers(operands);
                Instruction::Sub(Sub { rd, rs1, rs2 })
            },
            InstructionType::SW => {
                let (rs2, offset, rs1) = register_immediate_register(operands);
                Instruction::Sw(Sw { rs2, offset, rs1 })
            },
            InstructionType::XOR => {
                let (rd, rs1, rs2) = three_registers(operands);
                Instruction::Xor(Xor { rd, rs1, rs2 })
            },
            InstructionType::XORI => {
                let (rd, rs, imm) = two_registers_immediate(operands);
                Instruction::Xori(Xori { rd, rs, imm })
            },
        }
    }
}

/// The kind of operand `i` of `operands`, read off the kinds of them all.
proof fn lemma_kind_at(operands: Seq<Operand>, i: int)
    requires
        0 <= i < operands.len(),
    ensures
        kinds(written(operands)).len() == operands.len(),
        operands[i]@.kind() == kinds(written(operands))[i],
{
    assert(written(operands)[i] == operands[i]@);
}

/// The operands of an instruction written with three registers.
fn three_registers(operands: &Vec<Operand>) -> (r: (RegisterType, RegisterType, RegisterType))
    requires
        kinds(written(operands@)) == seq![Kind::Register, Kind::Register, Kind::Register],
    ensures
        written(operands@) == seq![
            Written::Register(r.0),
            Written::Register(r.1),
            Written::Register(r.2),
        ],
{
    proof {
        lemma_kind_at(operands@, 0);
        lemma_kind_at(operands@, 1);
        lemma_kind_at(operands@, 2);
    }
    let r = (register_at(operands, 0), register_at(operands, 1), register_at(operands, 2));
    assert(written(operands@) =~= seq![
        Written::Register(r.0),
        Written::Register(r.1),
        Written::Register(r.2),
    ]);
    r
}

/// The operands of an instruction written with two registers and a number.
fn two_registers_immediate(operands: &Vec<Operand>) -> (r: (RegisterType, RegisterType, i32))
    requires
        kinds(written(operands@)) == seq![Kind::Register, Kind::Register, Kind::Immediate],
    ensures
        written(operands@) == seq![
            Written::Register(r.0),
            Written::Register(r.1),
            Written::Immediate(r.2),
        ],
{
    proof {
        lemma_kind_at(operands@, 0);
        lemma_kind_at(operands@, 1);
        lemma_kind_at(operands@, 2);
    }
    let r = (register_at(operands, 0), register_at(operands, 1), immediate_at(operands, 2));
    assert(written(operands@) =~= seq![
        Written::Register(r.0),
        Written::Register(r.1),
        Written::Immediate(r.2),
    ]);
    r
}

/// The operands of an instruction written with two registers and a label.
fn two_registers_label(operands: &Vec<Operand>) -> (r: (RegisterType, RegisterType, String))
    requires
        kinds(written(operands@)) == seq![Kind::Register, Kind::Register, Kind::Label],
    ensures
        written(operands@) == seq![
            Written::Register(r.0),
            Written::Register(r.1),
            Written::Label(r.2@),
        ],
{
    proof {
        lemma_kind_at(operands@, 0);
        lemma_kind_at(operands@, 1);
        lemma_kind_at(operands@, 2);
    }
    let r = (register_at(operands, 0), register_at(operands, 1), label_at(operands, 2));
    assert(written(operands@) =~= seq![
        Written::Register(r.0),
        Written::Register(r.1),
        Written::Label(r.2@),
    ]);
    r
}

/// The operands of an instruction written with a register, a number and a
/// register.
fn register_immediate_register(operands: &Vec<Operand>) -> (r: (RegisterType, i32, RegisterType))
    requires
        kinds(written(operands@)) == seq![Kind::Register, Kind::Immediate, Kind::Register],
    ensures
        written(operands@) == seq![
            Written::Register(r.0),
            Written::Immediate(r.1),
            Written::Register(r.2),
        ],
{
    proof {
        lemma_kind_at(operands@, 0);
        lemma_kind_at(operands@, 1);
        lemma_kind_at(operands@, 2);
    }
    let r = (register_at(operands, 0), immediate_at(operands, 1), register_at(operands, 2));
    assert(written(operands@) =~= seq![
        Written::Register(r.0),
        Written::Immediate(r.1),
        Written::Register(r.2),
    ]);
    r
}

/// The operands of an instruction written with a register and a number.
fn register_immediate(operands: &Vec<Operand>) -> (r: (RegisterType, i32))
    requires
        kinds(written(operands@)) == seq![Kind::Register, Kind::Immediate],
    ensures
        written(operands@) == seq![Written::Register(r.0), Written::Immediate(r.1)],
{
    proof {
        lemma_kind_at(operands@, 0);
        lemma_kind_at(operands@, 1);
    }
    let r = (register_at(operands, 0), immediate_at(operands, 1));
    assert(written(operands@) =~= seq![Written::Register(r.0), Written::Immediate(r.1)]);
    r
}

/// The operands of an instruction written with a register and a label.
fn register_label(operands: &Vec<Operand>) -> (r: (RegisterType, String))
    requires
        kinds(written(operands@)) == seq![Kind::Register, Kind::Label],
    ensures
        written(operands@) == seq![Written::Register(r.0), Written::Label(r.1@)],
{
    proof {
        lemma_kind_at(operands@, 0);
        lemma_kind_at(operands@, 1);
    }
    let r = (register_at(operands, 0), label_at(operands, 1));
    assert(written(operands@) =~= seq![Written::Register(r.0), Written::Label(r.1@)]);
    r
}

/// The register that operand `i` is.
fn register_at(operands: &Vec<Operand>, i: usize) -> (r: RegisterType)
    requires
        i < operands.len(),
        operands[i as int]@.kind() == Kind::Register,
    ensures
        operands[i as int]@ == Written::Register(r),
{
    match &operands[i] {
        Operand::Register(r) => *r,
        _ => RegisterType::ZERO,
    }
}

/// The number that operand `i` is.
fn immediate_at(operands: &Vec<Operand>, i: usize) -> (n: i32)
    requires
        i < operands.len(),
        operands[i as int]@.kind() == Kind::Immediate,
    ensures
        operands[i as int]@ == Written::Immediate(n),
{
    match &operands[i] {
        Operand::Immediate(n) => *n,
        _ => 0,
    }
}

/// The label that operand `i` is.
fn label_at(operands: &Vec<Operand>, i: usize) -> (name: String)
    requires
        i < operands.len(),
        operands[i as int]@.kind() == Kind::Label,
    ensures
        operands[i as int]@ == Written::Label(name@),
{
    match &operands[i] {
        Operand::Label(name) => name.clone(),
        _ => String::new(),
    }
}

} // verus!
