//! Reading assembly text into a program.
//!
//! The text is read line by line. A line that is empty but for white space,
//! or that begins with `#`, says nothing. A line without white space in it
//! that ends in `:` defines a label at the address of the next instruction.
//! Any other line is an instruction: the opcode, in either case, then white
//! space, then the operands with commas between them, then perhaps a comment
//! from a `#` on.

use crate::assembly::{kinds, signature, written, Kind, Operand, Written};
use crate::labels::Labels;
use crate::opcodes::{InstructionRunner, InstructionType};
use crate::program::{Application, Instruction};
use crate::register::RegisterType;
use crate::text::{
    being_space, chars_of, decimal_of, digits, find, find_space, first, integer, is_word,
    lowercase, lowered, parse_integer, position, slice, split, split_at, string_of, texts, trim,
    trimmed,
};
use vstd::prelude::*;
use vstd::string::StringExecFns;

verus! {

/// The most instructions that a program can have: the address of each, four
/// times its index, and the address after the last must fit in 32 bits.
pub const MAX_INSTRUCTIONS: usize = 0x1fff_ffff;

/// Why a text is not a program, as a mathematical value.
pub enum ParseFault {
    /// A line has no white space in it, defines no label and is not an
    /// instruction without operands; with the line.
    InvalidLine(Seq<char>),
    /// The first word of a line is no opcode; with the line.
    UnknownInstruction(Seq<char>),
    /// An instruction has `got` operands where `min` to `max` are expected;
    /// with the text of the operands.
    ArgumentCount { min: usize, max: usize, got: usize, text: Seq<char> },
    /// An operand is no register name; with the operand.
    UnknownRegister(Seq<char>),
    /// An operand is no 32-bit number in base ten; with the operand.
    InvalidImmediate(Seq<char>),
    /// An operand is not of the form `offset(register)`; with the operand.
    InvalidOffsetRegister(Seq<char>),
    /// The text holds more than [`MAX_INSTRUCTIONS`] instructions.
    TooManyInstructions,
}

/// Why a text is not a program.
#[derive(Debug, PartialEq, Eq)]
pub enum ParseError {
    /// A line has no white space in it, defines no label and is not an
    /// instruction without operands; with the line.
    InvalidLine(String),
    /// The first word of a line is no opcode; with the line.
    UnknownInstruction(String),
    /// An instruction has `got` operands where `min` to `max` are expected;
    /// with the text of the operands.
    ArgumentCount { min: usize, max: usize, got: usize, text: String },
    /// An operand is no register name; with the operand.
    UnknownRegister(String),
    /// An operand is no 32-bit number in base ten; with the operand.
    InvalidImmediate(String),
    /// An operand is not of the form `offset(register)`; with the operand.
    InvalidOffsetRegister(String),
    /// The text holds more than [`MAX_INSTRUCTIONS`] instructions.
    TooManyInstructions,
}

impl View for ParseError {
    type V = ParseFault;

    open spec fn view(&self) -> ParseFault {
        match self {
            ParseError::InvalidLine(line) => ParseFault::InvalidLine(line@),
            ParseError::UnknownInstruction(line) => ParseFault::UnknownInstruction(line@),
            ParseError::ArgumentCount { min, max, got, text } => ParseFault::ArgumentCount {
                min: *min,
                max: *max,
                got: *got,
                text: text@,
            },
            ParseError::UnknownRegister(text) => ParseFault::UnknownRegister(text@),
            ParseError::InvalidImmediate(text) => ParseFault::InvalidImmediate(text@),
            ParseError::InvalidOffsetRegister(text) => ParseFault::InvalidOffsetRegister(text@),
            ParseError::TooManyInstructions => ParseFault::TooManyInstructions,
        }
    }
}

impl ParseFault {
    /// The fault in words.
    pub open spec fn message(self) -> Seq<char> {
        match self {
            ParseFault::InvalidLine(line) => "invalid line: "@ + line,
            ParseFault::UnknownInstruction(line) => "invalid instruction type: "@ + line,
            ParseFault::ArgumentCount { min, max, got, text } => if min == max {
                "invalid line expected "@ + decimal_of(min as int) + " arguments, got "@
                    + decimal_of(got as int) + ": "@ + text
            } else {
                "invalid line expected between "@ + decimal_of(min as int) + " and "@
                    + decimal_of(max as int) + " arguments, got "@ + decimal_of(got as int)
                    + ": "@ + text
            },
            ParseFault::UnknownRegister(text) => "unknown register: "@ + text,
            ParseFault::InvalidImmediate(text) => "invalid immediate: "@ + text,
            ParseFault::InvalidOffsetRegister(text) => "invalid offset register: "@ + text,
            ParseFault::TooManyInstructions => "too many instructions"@,
        }
    }
}

/// `n` in base ten.
fn count(n: usize) -> (text: String)
    ensures
        text@ == decimal_of(n as int),
{
    string_of(&digits(n as u64))
}

impl ParseError {
    /// The error in words.
    pub fn message(&self) -> (text: String)
        ensures
            text@ == self@.message(),
    {
        match self {
            ParseError::InvalidLine(line) => {
                let mut text = String::from_str("invalid line: ");
                text.append(line.as_str());
                text
            },
            ParseError::UnknownInstruction(line) => {
                let mut text = String::from_str("invalid instruction type: ");
                text.append(line.as_str());
                text
            },
            ParseError::ArgumentCount { min, max, got, text } => {
                let mut message = if *min == *max {
                    let mut message = String::from_str("invalid line expected ");
                    message.append(count(*min).as_str());
                    message
                } else {
                    let mut message = String::from_str("invalid line expected between ");
                    message.append(count(*min).as_str());
                    message.append(" and ");
                    message.append(count(*max).as_str());
                    message
                };
                message.append(" arguments, got ");
                message.append(count(*got).as_str());
                message.append(": ");
                message.append(text.as_str());
                message
            },
            ParseError::UnknownRegister(operand) => {
                let mut text = String::from_str("unknown register: ");
                text.append(operand.as_str());
                text
            },
            ParseError::InvalidImmediate(operand) => {
                let mut text = String::from_str("invalid immediate: ");
                text.append(operand.as_str());
                text
            },
            ParseError::InvalidOffsetRegister(operand) => {
                let mut text = String::from_str("invalid offset register: ");
                text.append(operand.as_str());
                text
            },
            ParseError::TooManyInstructions => String::from_str("too many instructions"),
        }
    }
}

/// What a line says.
pub enum Item {
    /// Nothing: the line is blank or a comment.
    Nothing,
    /// The definition of a label.
    Label(Seq<char>),
    /// An instruction, as its opcode and operands.
    Operation(InstructionType, Seq<Written>),
}

/// What a text says: the instructions in their order, each as its opcode and
/// operands, and the address of every label.
pub struct Listing {
    pub operations: Seq<(InstructionType, Seq<Written>)>,
    pub labels: Map<Seq<char>, i32>,
}

/// The opcode that `word` names. Opcodes are named in lower case.
pub open spec fn opcode_named(word: Seq<char>) -> Option<InstructionType> {
    if word == "add"@ {
        Some(InstructionType::ADD)
    } else if word == "addi"@ {
        Some(InstructionType::ADDI)
    } else if word == "and"@ {
        Some(InstructionType::AND)
    } else if word == "andi"@ {
        Some(InstructionType::ANDI)
    } else if word == "auipc"@ {
        Some(InstructionType::AUIPC)
    } else if word == "beq"@ {
        Some(InstructionType::BEQ)
    } else if word == "bge"@ {
        Some(InstructionType::BGE)
    } else if word == "bgeu"@ {
        Some(InstructionType::BGEU)
    } else if word == "blt"@ {
        Some(InstructionType::BLT)
    } else if word == "bltu"@ {
        Some(InstructionType::BLTU)
    } else if word == "bne"@ {
        Some(InstructionType::BNE)
    } else if word == "div"@ {
        Some(InstructionType::DIV)
    } else if word == "jal"@ {
        Some(InstructionType::JAL)
    } else if word == "jalr"@ {
        Some(InstructionType::JALR)
    } else if word == "lui"@ {
        Some(InstructionType::LUI)
    } else if word == "lb"@ {
        Some(InstructionType::LB)
    } else if word == "lh"@ {
        Some(InstructionType::LH)
    } else if word == "lw"@ {
        Some(InstructionType::LW)
    } else if word == "nop"@ {
        Some(InstructionType::NOP)
    } else if word == "mul"@ {
        Some(InstructionType::MUL)
    } else if word == "or"@ {
        Some(InstructionType::OR)
    } else if word == "ori"@ {
        Some(InstructionType::ORI)
    } else if word == "rem"@ {
        Some(InstructionType::REM)
    } else if word == "sb"@ {
        Some(InstructionType::SB)
    } else if word == "sh"@ {
        Some(InstructionType::SH)
    } else if word == "sll"@ {
        Some(InstructionType::SLL)
    } else if word == "slli"@ {
        Some(InstructionType::SLLI)
    } else if word == "slt"@ {
        Some(InstructionType::SLT)
    } else if word == "sltu"@ {
        Some(InstructionType::SLTU)
    } else if word == "slti"@ {
        Some(InstructionType::SLTI)
    } else if word == "sra"@ {
        Some(InstructionType::SRA)
    } else if word == "srai"@ {
        Some(InstructionType::SRAI)
    } else if word == "srl"@ {
        Some(InstructionType::SRL)
    } else if word == "srli"@ {
        Some(InstructionType::SRLI)
    } else if word == "sub"@ {
        Some(InstructionType::SUB)
    } else if word == "sw"@ {
        Some(InstructionType::SW)
    } else if word == "xor"@ {
        Some(InstructionType::XOR)
    } else if word == "xori"@ {
        Some(InstructionType::XORI)
    } else {
        None
    }
}

/// The register that `text` names: one of `zero`, `ra`, `sp`, `gp`, `tp`,
/// `t0` to `t6`, `s0` to `s11` and `a0` to `a7`, with a `$` before it or
/// without.
pub open spec fn register_named(text: Seq<char>) -> Option<RegisterType> {
    let name = if text.len() > 0 && text[0] == '$' {
        text.skip(1)
    } else {
        text
    };
    if name == "zero"@ {
        Some(RegisterType::ZERO)
    } else if name == "ra"@ {
        Some(RegisterType::RA)
    } else if name == "sp"@ {
        Some(RegisterType::SP)
    } else if name == "gp"@ {
        Some(RegisterType::GP)
    } else if name == "tp"@ {
        Some(RegisterType::TP)
    } else if name == "t0"@ {
        Some(RegisterType::T0)
    } else if name == "t1"@ {
        Some(RegisterType::T1)
    } else if name == "t2"@ {
        Some(RegisterType::T2)
    } else if name == "s0"@ {
        Some(RegisterType::S0)
    } else if name == "s1"@ {
        Some(RegisterType::S1)
    } else if name == "a0"@ {
        Some(RegisterType::A0)
    } else if name == "a1"@ {
        Some(RegisterType::A1)
    } else if name == "a2"@ {
        Some(RegisterType::A2)
    } else if name == "a3"@ {
        Some(RegisterType::A3)
    } else if name == "a4"@ {
        Some(RegisterType::A4)
    } else if name == "a5"@ {
        Some(RegisterType::A5)
    } else if name == "a6"@ {
        Some(RegisterType::A6)
    } else if name == "a7"@ {
        Some(RegisterType::A7)
    } else if name == "s2"@ {
        Some(RegisterType::S2)
    } else if name == "s3"@ {
        Some(RegisterType::S3)
    } else if name == "s4"@ {
        Some(RegisterType::S4)
    } else if name == "s5"@ {
        Some(RegisterType::S5)
    } else if name == "s6"@ {
        Some(RegisterType::S6)
    } else if name == "s7"@ {
        Some(RegisterType::S7)
    } else if name == "s8"@ {
        Some(RegisterType::S8)
    } else if name == "s9"@ {
        Some(RegisterType::S9)
    } else if name == "s10"@ {
        Some(RegisterType::S10)
    } else if name == "s11"@ {
        Some(RegisterType::S11)
    } else if name == "t3"@ {
        Some(RegisterType::T3)
    } else if name == "t4"@ {
        Some(RegisterType::T4)
    } else if name == "t5"@ {
        Some(RegisterType::T5)
    } else if name == "t6"@ {
        Some(RegisterType::T6)
    } else {
        None
    }
}

/// The operand of kind `kind` that `text` writes, white space around it
/// aside. Any text is a label.
pub open spec fn operand(kind: Kind, text: Seq<char>) -> Result<Written, ParseFault> {
    let t = trim(text);
    match kind {
        Kind::Register => match register_named(t) {
            Some(r) => Ok(Written::Register(r)),
            None => Err(ParseFault::UnknownRegister(t)),
        },
        Kind::Immediate => match integer(t) {
            Some(n) => Ok(Written::Immediate(n)),
            None => Err(ParseFault::InvalidImmediate(t)),
        },
        Kind::Label => Ok(Written::Label(t)),
    }
}

/// The operands that `pieces` write, one of each of `kinds`; where several
/// are at fault, the fault of the first.
pub open spec fn operands(kinds: Seq<Kind>, pieces: Seq<Seq<char>>) -> Result<Seq<Written>, ParseFault>
    decreases kinds.len(),
{
    if kinds.len() == 0 {
        Ok(Seq::empty())
    } else {
        match operands(kinds.drop_last(), pieces.drop_last()) {
            Ok(before) => match operand(kinds.last(), pieces.last()) {
                Ok(last) => Ok(before.push(last)),
                Err(fault) => Err(fault),
            },
            Err(fault) => Err(fault),
        }
    }
}

/// The offset and base register that `text` writes in the form
/// `offset(register)`.
pub open spec fn offset_register(text: Seq<char>) -> Result<(i32, RegisterType), ParseFault> {
    let t = trim(text);
    let open = position(t, '(');
    if open >= t.len() || t.last() != ')' {
        Err(ParseFault::InvalidOffsetRegister(t))
    } else {
        let offset = trim(t.take(open));
        let register = trim(t.subrange(open + 1, t.len() - 1));
        match integer(offset) {
            None => Err(ParseFault::InvalidImmediate(offset)),
            Some(n) => match register_named(register) {
                None => Err(ParseFault::UnknownRegister(register)),
                Some(r) => Ok((n, r)),
            },
        }
    }
}

/// The operands of a store written in the short form, `rs2, offset(rs1)`.
pub open spec fn short_store(pieces: Seq<Seq<char>>) -> Result<Seq<Written>, ParseFault> {
    match operand(Kind::Register, pieces[0]) {
        Err(fault) => Err(fault),
        Ok(source) => match offset_register(pieces[1]) {
            Err(fault) => Err(fault),
            Ok((offset, base)) => Ok(
                seq![source, Written::Immediate(offset), Written::Register(base)],
            ),
        },
    }
}

/// The operands of an instruction of opcode `t` whose operand text `text`
/// falls into `pieces` at its commas. `nop` takes none and ignores any;
/// `sb` has a short form with two; every other count than the opcode's own
/// is a fault.
pub open spec fn arguments(t: InstructionType, pieces: Seq<Seq<char>>, text: Seq<char>) -> Result<
    Seq<Written>,
    ParseFault,
> {
    let n = signature(t).len();
    if t == InstructionType::NOP {
        Ok(Seq::empty())
    } else if t == InstructionType::SB && pieces.len() == 2 {
        short_store(pieces)
    } else if pieces.len() != n {
        Err(
            ParseFault::ArgumentCount {
                min: if t == InstructionType::SB {
                    2
                } else {
                    n as usize
                },
                max: n as usize,
                got: pieces.len() as usize,
                text,
            },
        )
    } else {
        operands(signature(t), pieces)
    }
}

/// `s` up to its first `#`.
pub open spec fn without_comment(s: Seq<char>) -> Seq<char> {
    s.take(position(s, '#'))
}

/// What `line` says.
pub open spec fn item(line: Seq<char>) -> Result<Item, ParseFault> {
    let t = trim(line);
    if t.len() == 0 || t[0] == '#' {
        Ok(Item::Nothing)
    } else {
        let end = first(t, being_space());
        if end >= t.len() {
            if t.last() == ':' {
                Ok(Item::Label(t.drop_last()))
            } else if opcode_named(lowercase(t)) == Some(InstructionType::NOP) {
                Ok(Item::Operation(InstructionType::NOP, Seq::empty()))
            } else {
                Err(ParseFault::InvalidLine(t))
            }
        } else {
            let text = trim(without_comment(t.skip(end + 1)));
            match opcode_named(lowercase(t.take(end))) {
                None => Err(ParseFault::UnknownInstruction(t)),
                Some(opcode) => match arguments(opcode, split(text, ','), text) {
                    Ok(operands) => Ok(Item::Operation(opcode, operands)),
                    Err(fault) => Err(fault),
                },
            }
        }
    }
}

/// What the text with the lines `lines` says; where several lines are at
/// fault, the fault of the first. A label stands for the address of the
/// instruction that follows it: four times the number of instructions before
/// it.
pub open spec fn assembled(lines: Seq<Seq<char>>) -> Result<Listing, ParseFault>
    decreases lines.len(),
{
    if lines.len() == 0 {
        Ok(Listing { operations: Seq::empty(), labels: Map::empty() })
    } else {
        match assembled(lines.drop_last()) {
            Err(fault) => Err(fault),
            Ok(before) => match item(lines.last()) {
                Err(fault) => Err(fault),
                Ok(Item::Nothing) => Ok(before),
                Ok(Item::Label(name)) => Ok(
                    Listing {
                        labels: before.labels.insert(name, (4 * before.operations.len()) as i32),
                        ..before
                    },
                ),
                Ok(Item::Operation(opcode, operands)) => if before.operations.len()
                    >= MAX_INSTRUCTIONS {
                    Err(ParseFault::TooManyInstructions)
                } else {
                    Ok(Listing { operations: before.operations.push((opcode, operands)), ..before })
                },
            },
        }
    }
}

/// The opcode and operands of each of `instructions`.
pub open spec fn operations(instructions: Seq<Instruction>) -> Seq<(InstructionType, Seq<Written>)> {
    Seq::new(instructions.len(), |i: int| (instructions[i].opcode(), instructions[i].operands()))
}

/// Operands that were read against `kinds` are of these kinds.
proof fn lemma_operands_kinds(sig: Seq<Kind>, pieces: Seq<Seq<char>>)
    requires
        operands(sig, pieces) is Ok,
    ensures
        kinds(operands(sig, pieces)->Ok_0) == sig,
    decreases sig.len(),
{
    if sig.len() == 0 {
        assert(kinds(operands(sig, pieces)->Ok_0) =~= sig);
    } else {
        lemma_operands_kinds(sig.drop_last(), pieces.drop_last());
        let before = operands(sig.drop_last(), pieces.drop_last())->Ok_0;
        let last = operand(sig.last(), pieces.last())->Ok_0;
        assert(kinds(before.push(last)) =~= kinds(before).push(last.kind()));
        assert(sig.drop_last().push(sig.last()) =~= sig);
    }
}

/// The opcode that `word` names.
fn parse_opcode(word: &Vec<char>) -> (t: Option<InstructionType>)
    ensures
        t == opcode_named(word@),
{
    if is_word(word, "add") {
        Some(InstructionType::ADD)
    } else if is_word(word, "addi") {
        Some(InstructionType::ADDI)
    } else if is_word(word, "and") {
        Some(InstructionType::AND)
    } else if is_word(word, "andi") {
        Some(InstructionType::ANDI)
    } else if is_word(word, "auipc") {
        Some(InstructionType::AUIPC)
    } else if is_word(word, "beq") {
        Some(InstructionType::BEQ)
    } else if is_word(word, "bge") {
        Some(InstructionType::BGE)
    } else if is_word(word, "bgeu") {
        Some(InstructionType::BGEU)
    } else if is_word(word, "blt") {
        Some(InstructionType::BLT)
    } else if is_word(word, "bltu") {
        Some(InstructionType::BLTU)
    } else if is_word(word, "bne") {
        Some(InstructionType::BNE)
    } else if is_word(word, "div") {
        Some(InstructionType::DIV)
    } else if is_word(word, "jal") {
        Some(InstructionType::JAL)
    } else if is_word(word, "jalr") {
        Some(InstructionType::JALR)
    } else if is_word(word, "lui") {
        Some(InstructionType::LUI)
    } else if is_word(word, "lb") {
        Some(InstructionType::LB)
    } else if is_word(word, "lh") {
        Some(InstructionType::LH)
    } else if is_word(word, "lw") {
        Some(InstructionType::LW)
    } else if is_word(word, "nop") {
        Some(InstructionType::NOP)
    } else if is_word(word, "mul") {
        Some(InstructionType::MUL)
    } else if is_word(word, "or") {
        Some(InstructionType::OR)
    } else if is_word(word, "ori") {
        Some(InstructionType::ORI)
    } else if is_word(word, "rem") {
        Some(InstructionType::REM)
    } else if is_word(word, "sb") {
        Some(InstructionType::SB)
    } else if is_word(word, "sh") {
        Some(InstructionType::SH)
    } else if is_word(word, "sll") {
        Some(InstructionType::SLL)
    } else if is_word(word, "slli") {
        Some(InstructionType::SLLI)
    } else if is_word(word, "slt") {
        Some(InstructionType::SLT)
    } else if is_word(word, "sltu") {
        Some(InstructionType::SLTU)
    } else if is_word(word, "slti") {
        Some(InstructionType::SLTI)
    } else if is_word(word, "sra") {
        Some(InstructionType::SRA)
    } else if is_word(word, "srai") {
        Some(InstructionType::SRAI)
    } else if is_word(word, "srl") {
        Some(InstructionType::SRL)
    } else if is_word(word, "srli") {
        Some(InstructionType::SRLI)
    } else if is_word(word, "sub") {
        Some(InstructionType::SUB)
    } else if is_word(word, "sw") {
        Some(InstructionType::SW)
    } else if is_word(word, "xor") {
        Some(InstructionType::XOR)
    } else if is_word(word, "xori") {
        Some(InstructionType::XORI)
    } else {
        None
    }
}

/// The register that `text` names.
fn parse_register(text: &Vec<char>) -> (r: Result<RegisterType, ParseError>)
    ensures
        match register_named(text@) {
            Some(register) => r == Ok::<RegisterType, ParseError>(register),
            None => r is Err && r->Err_0@ == ParseFault::UnknownRegister(text@),
        },
{
    let from: usize = if text.len() > 0 && text[0] == '$' {
        1
    } else {
        0
    };
    let name: Vec<char> = slice(text, from, text.len());
    assert(name@ =~= (if text.len() > 0 && text[0] == '$' {
        text@.skip(1)
    } else {
        text@
    }));
    let name = &name;
    let found: Option<RegisterType> =
        if is_word(name, "zero") {
            Some(RegisterType::ZERO)
        } else if is_word(name, "ra") {
            Some(RegisterType::RA)
        } else if is_word(name, "sp") {
            Some(RegisterType::SP)
        } else if is_word(name, "gp") {
            Some(RegisterType::GP)
        } else if is_word(name, "tp") {
            Some(RegisterType::TP)
        } else if is_word(name, "t0") {
            Some(RegisterType::T0)
        } else if is_word(name, "t1") {
            Some(RegisterType::T1)
        } else if is_word(name, "t2") {
            Some(RegisterType::T2)
        } else if is_word(name, "s0") {
            Some(RegisterType::S0)
        } else if is_word(name, "s1") {
            Some(RegisterType::S1)
        } else if is_word(name, "a0") {
            Some(RegisterType::A0)
        } else if is_word(name, "a1") {
            Some(RegisterType::A1)
        } else if is_word(name, "a2") {
            Some(RegisterType::A2)
        } else if is_word(name, "a3") {
            Some(RegisterType::A3)
        } else if is_word(name, "a4") {
            Some(RegisterType::A4)
        } else if is_word(name, "a5") {
            Some(RegisterType::A5)
        } else if is_word(name, "a6") {
            Some(RegisterType::A6)
        } else if is_word(name, "a7") {
            Some(RegisterType::A7)
        } else if is_word(name, "s2") {
            Some(RegisterType::S2)
        } else if is_word(name, "s3") {
            Some(RegisterType::S3)
        } else if is_word(name, "s4") {
            Some(RegisterType::S4)
        } else if is_word(name, "s5") {
            Some(RegisterType::S5)
        } else if is_word(name, "s6") {
            Some(RegisterType::S6)
        } else if is_word(name, "s7") {
            Some(RegisterType::S7)
        } else if is_word(name, "s8") {
            Some(RegisterType::S8)
        } else if is_word(name, "s9") {
            Some(RegisterType::S9)
        } else if is_word(name, "s10") {
            Some(RegisterType::S10)
        } else if is_word(name, "s11") {
            Some(RegisterType::S11)
        } else if is_word(name, "t3") {
            Some(RegisterType::T3)
        } else if is_word(name, "t4") {
            Some(RegisterType::T4)
        } else if is_word(name, "t5") {
            Some(RegisterType::T5)
        } else if is_word(name, "t6") {
            Some(RegisterType::T6)
        } else {
            None
        };
    match found {
        Some(register) => Ok(register),
        None => Err(ParseError::UnknownRegister(string_of(text))),
    }
}

/// The number that `text` writes.
fn immediate(text: &Vec<char>) -> (r: Result<i32, ParseError>)
    ensures
        match integer(text@) {
            Some(n) => r == Ok::<i32, ParseError>(n),
            None => r is Err && r->Err_0@ == ParseFault::InvalidImmediate(text@),
        },
{
    match parse_integer(text) {
        Some(n) => Ok(n),
        None => Err(ParseError::InvalidImmediate(string_of(text))),
    }
}

/// Whether `result` is the executable form of `expected`.
pub open spec fn gives<T: View, E: View>(result: Result<T, E>, expected: Result<T::V, E::V>) -> bool {
    match expected {
        Ok(value) => result is Ok && result->Ok_0@ == value,
        Err(fault) => result is Err && result->Err_0@ == fault,
    }
}

/// The operand of kind `kind` that `text` writes.
fn parse_operand(kind: Kind, text: &Vec<char>) -> (r: Result<Operand, ParseError>)
    ensures
        gives(r, operand(kind, text@)),
{
    let t: Vec<char> = trimmed(text);
    match kind {
        Kind::Register => match parse_register(&t) {
            Ok(register) => Ok(Operand::Register(register)),
            Err(e) => Err(e),
        },
        Kind::Immediate => match immediate(&t) {
            Ok(n) => Ok(Operand::Immediate(n)),
            Err(e) => Err(e),
        },
        Kind::Label => Ok(Operand::Label(string_of(&t))),
    }
}

/// The offset and base register that `text` writes in the form
/// `offset(register)`.
fn parse_offset_reg(text: &Vec<char>) -> (r: Result<(i32, RegisterType), ParseError>)
    ensures
        match offset_register(text@) {
            Ok(pair) => r == Ok::<(i32, RegisterType), ParseError>(pair),
            Err(fault) => r is Err && r->Err_0@ == fault,
        },
{
    let t: Vec<char> = trimmed(text);
    let open: usize = find(&t, '(');
    if open >= t.len() || t[t.len() - 1] != ')' {
        return Err(ParseError::InvalidOffsetRegister(string_of(&t)));
    }
    let before: Vec<char> = slice(&t, 0, open);
    assert(before@ =~= t@.take(open as int));
    let offset: i32 = match immediate(&trimmed(&before)) {
        Ok(n) => n,
        Err(e) => {
            return Err(e);
        },
    };
    let inside: Vec<char> = slice(&t, open + 1, t.len() - 1);
    match parse_register(&trimmed(&inside)) {
        Ok(register) => Ok((offset, register)),
        Err(e) => Err(e),
    }
}

/// The kinds of the operands of an instruction of opcode `t`.
fn kinds_of(t: InstructionType) -> (sig: Vec<Kind>)
    ensures
        sig@ == signature(t),
{
    let sig: Vec<Kind> = match t {
        InstructionType::ADD
        | InstructionType::AND
        | InstructionType::DIV
        | InstructionType::MUL
        | InstructionType::OR
        | InstructionType::REM
        | InstructionType::SLL
        | InstructionType::SLT
        | InstructionType::SLTU
        | InstructionType::SRA
        | InstructionType::SRL
        | InstructionType::SUB
        | InstructionType::XOR => vec![Kind::Register, Kind::Register, Kind::Register],
        InstructionType::ADDI
        | InstructionType::ANDI
        | InstructionType::JALR
        | InstructionType::ORI
        | InstructionType::SLLI
        | InstructionType::SLTI
        | InstructionType::SRAI
        | InstructionType::SRLI
        | InstructionType::XORI => vec![Kind::Register, Kind::Register, Kind::Immediate],
        InstructionType::AUIPC
        | InstructionType::LUI => vec![Kind::Register, Kind::Immediate],
        InstructionType::BEQ
        | InstructionType::BGE
        | InstructionType::BGEU
        | InstructionType::BLT
        | InstructionType::BLTU
        | InstructionType::BNE => vec![Kind::Register, Kind::Register, Kind::Label],
        InstructionType::JAL => vec![Kind::Register, Kind::Label],
        InstructionType::LB
        | InstructionType::LH
        | InstructionType::LW
        | InstructionType::SB
        | InstructionType::SH
        | InstructionType::SW => vec![Kind::Register, Kind::Immediate, Kind::Register],
        InstructionType::NOP => Vec::new(),
    };
    assert(sig@ =~= signature(t));
    sig
}

/// Accepts `got` operands where `expected` are expected.
fn validate_args(expected: usize, got: usize, text: &Vec<char>) -> (r: Result<(), ParseError>)
    ensures
        got == expected ==> r is Ok,
        got != expected ==> r is Err && r->Err_0@ == (ParseFault::ArgumentCount {
            min: expected,
            max: expected,
            got,
            text: text@,
        }),
{
    validate_args_interval(expected, expected, got, text)
}

/// Accepts `got` operands where `min` to `max` are expected.
fn validate_args_interval(min: usize, max: usize, got: usize, text: &Vec<char>) -> (r: Result<
    (),
    ParseError,
>)
    ensures
        min <= got <= max ==> r is Ok,
        !(min <= got <= max) ==> r is Err && r->Err_0@ == (ParseFault::ArgumentCount {
            min,
            max,
            got,
            text: text@,
        }),
{
    if got >= min && got <= max {
        Ok(())
    } else {
        Err(ParseError::ArgumentCount { min, max, got, text: string_of(text) })
    }
}

/// The operands that `pieces` write for an instruction of opcode `t`.
fn parse_operands(t: InstructionType, pieces: &Vec<Vec<char>>) -> (r: Result<Vec<Operand>, ParseError>)
    requires
        pieces.len() == signature(t).len(),
    ensures
        match operands(signature(t), texts(pieces@)) {
            Ok(expected) => r is Ok && written(r->Ok_0@) == expected,
            Err(fault) => r is Err && r->Err_0@ == fault,
        },
{
    let sig: Vec<Kind> = kinds_of(t);
    let mut found: Vec<Operand> = Vec::new();
    let mut i: usize = 0;
    assert(sig@.take(0) =~= Seq::<Kind>::empty());
    assert(written(found@) =~= Seq::<Written>::empty());
    while i < sig.len()
        invariant
            i <= sig.len(),
            sig@ == signature(t),
            pieces.len() == sig.len(),
            operands(sig@.take(i as int), texts(pieces@).take(i as int)) == Ok::<
                Seq<Written>,
                ParseFault,
            >(written(found@)),
        decreases sig.len() - i,
    {
        proof {
            assert(sig@.take(i + 1).drop_last() =~= sig@.take(i as int));
            assert(texts(pieces@).take(i + 1).drop_last() =~= texts(pieces@).take(i as int));
            assert(texts(pieces@).take(i + 1).last() == pieces@[i as int]@);
            assert(sig@.take(i + 1).last() == sig@[i as int]);
            if operands(sig@.take(i + 1), texts(pieces@).take(i + 1)) is Err {
                lemma_operands_prefix(sig@, texts(pieces@), i + 1);
            }
        }
        let ghost before = found@;
        match parse_operand(sig[i], &pieces[i]) {
            Ok(operand) => {
                found.push(operand);
                assert(written(found@) =~= written(before).push(operand@));
            },
            Err(e) => {
                return Err(e);
            },
        }
        i = i + 1;
    }
    assert(sig@.take(sig.len() as int) =~= sig@);
    assert(texts(pieces@).take(pieces.len() as int) =~= texts(pieces@));
    Ok(found)
}

/// A fault among the first `i` operands is the fault of them all.
proof fn lemma_operands_prefix(sig: Seq<Kind>, pieces: Seq<Seq<char>>, i: int)
    requires
        0 <= i <= sig.len(),
        sig.len() == pieces.len(),
        operands(sig.take(i), pieces.take(i)) is Err,
    ensures
        operands(sig, pieces) == operands(sig.take(i), pieces.take(i)),
    decreases sig.len() - i,
{
    if i == sig.len() {
        assert(sig.take(i) =~= sig);
        assert(pieces.take(i) =~= pieces);
    } else {
        assert(sig.take(i + 1).drop_last() =~= sig.take(i));
        assert(pieces.take(i + 1).drop_last() =~= pieces.take(i));
        lemma_operands_prefix(sig, pieces, i + 1);
    }
}

/// The operands of an instruction of opcode `t` whose operand text `text`
/// falls into `pieces` at its commas.
fn parse_arguments(t: InstructionType, pieces: &Vec<Vec<char>>, text: &Vec<char>) -> (r: Result<
    Vec<Operand>,
    ParseError,
>)
    ensures
        match arguments(t, texts(pieces@), text@) {
            Ok(expected) => r is Ok && written(r->Ok_0@) == expected && kinds(expected)
                == signature(t),
            Err(fault) => r is Err && r->Err_0@ == fault,
        },
{
    let sig: Vec<Kind> = kinds_of(t);
    match t {
        InstructionType::NOP => {
            let none: Vec<Operand> = Vec::new();
            assert(written(none@) =~= Seq::<Written>::empty());
            assert(kinds(Seq::<Written>::empty()) =~= signature(t));
            Ok(none)
        },
        InstructionType::SB => {
            match validate_args_interval(2, 3, pieces.len(), text) {
                Ok(()) => {},
                Err(e) => {
                    return Err(e);
                },
            }
            if pieces.len() == 2 {
                assert(texts(pieces@)[0] == pieces@[0]@);
                assert(texts(pieces@)[1] == pieces@[1]@);
                let source = match parse_operand(Kind::Register, &pieces[0]) {
                    Ok(source) => source,
                    Err(e) => {
                        return Err(e);
                    },
                };
                let (offset, base) = match parse_offset_reg(&pieces[1]) {
                    Ok(pair) => pair,
                    Err(e) => {
                        return Err(e);
                    },
                };
                let ghost source_written = source@;
                let found: Vec<Operand> = vec![
                    source,
                    Operand::Immediate(offset),
                    Operand::Register(base),
                ];
                assert(written(found@) =~= seq![
                    source_written,
                    Written::Immediate(offset),
                    Written::Register(base),
                ]);
                assert(kinds(written(found@)) =~= signature(t));
                Ok(found)
            } else {
                let found = parse_operands(t, pieces);
                proof {
                    if found is Ok {
                        lemma_operands_kinds(signature(t), texts(pieces@));
                    }
                }
                found
            }
        },
        _ => {
            match validate_args(sig.len(), pieces.len(), text) {
                Ok(()) => {},
                Err(e) => {
                    return Err(e);
                },
            }
            let found = parse_operands(t, pieces);
            proof {
                if found is Ok {
                    lemma_operands_kinds(signature(t), texts(pieces@));
                }
            }
            found
        },
    }
}

/// What a line says, ready for the program.
pub enum Parsed {
    /// Nothing: the line is blank or a comment.
    Nothing,
    /// The definition of a label.
    Label(String),
    /// An instruction.
    Operation(Instruction),
}

impl View for Parsed {
    type V = Item;

    open spec fn view(&self) -> Item {
        match self {
            Parsed::Nothing => Item::Nothing,
            Parsed::Label(name) => Item::Label(name@),
            Parsed::Operation(instruction) => Item::Operation(
                instruction.opcode(),
                instruction.operands(),
            ),
        }
    }
}

/// Reads one line.
pub fn parse_line(line: &Vec<char>) -> (r: Result<Parsed, ParseError>)
    ensures
        gives(r, item(line@)),
{
    let t: Vec<char> = trimmed(line);
    if t.len() == 0 || t[0] == '#' {
        return Ok(Parsed::Nothing);
    }
    let end: usize = find_space(&t);
    if end >= t.len() {
        if t[t.len() - 1] == ':' {
            let name: Vec<char> = slice(&t, 0, t.len() - 1);
            assert(name@ =~= t@.drop_last());
            return Ok(Parsed::Label(string_of(&name)));
        }
        return match parse_opcode(&lowered(&t)) {
            Some(InstructionType::NOP) => {
                let none: Vec<Operand> = Vec::new();
                assert(written(none@) =~= Seq::<Written>::empty());
                assert(kinds(written(none@)) =~= signature(InstructionType::NOP));
                Ok(Parsed::Operation(Instruction::assemble(InstructionType::NOP, &none)))
            },
            _ => Err(ParseError::InvalidLine(string_of(&t))),
        };
    }
    let word: Vec<char> = slice(&t, 0, end);
    assert(word@ =~= t@.take(end as int));
    let rest: Vec<char> = slice(&t, end + 1, t.len());
    assert(rest@ =~= t@.skip(end + 1));
    let code: Vec<char> = slice(&rest, 0, find(&rest, '#'));
    assert(code@ =~= without_comment(rest@));
    let text: Vec<char> = trimmed(&code);
    let opcode: InstructionType = match parse_opcode(&lowered(&word)) {
        Some(opcode) => opcode,
        None => {
            return Err(ParseError::UnknownInstruction(string_of(&t)));
        },
    };
    let pieces: Vec<Vec<char>> = split_at(&text, ',');
    match parse_arguments(opcode, &pieces, &text) {
        Ok(found) => Ok(Parsed::Operation(Instruction::assemble(opcode, &found))),
        Err(e) => Err(e),
    }
}

/// Reads a program from assembly text.
pub fn parse(s: String) -> (r: Result<Application, ParseError>)
    ensures
        match assembled(split(s@, '\n')) {
            Ok(listing) => r is Ok && r->Ok_0.labels@ == listing.labels && operations(
                r->Ok_0.instructions@,
            ) == listing.operations,
            Err(fault) => r is Err && r->Err_0@ == fault,
        },
{
    let chars: Vec<char> = chars_of(s.as_str());
    let lines: Vec<Vec<char>> = split_at(&chars, '\n');
    let mut instructions: Vec<Instruction> = Vec::new();
    let mut labels: Labels = Labels::new();
    let mut i: usize = 0;
    assert(texts(lines@).take(0) =~= Seq::<Seq<char>>::empty());
    assert(operations(instructions@) =~= Seq::<(InstructionType, Seq<Written>)>::empty());
    while i < lines.len()
        invariant
            i <= lines.len(),
            texts(lines@) == split(s@, '\n'),
            instructions.len() <= MAX_INSTRUCTIONS,
            assembled(texts(lines@).take(i as int)) == Ok::<Listing, ParseFault>(
                Listing { operations: operations(instructions@), labels: labels@ },
            ),
        decreases lines.len() - i,
    {
        proof {
            assert(texts(lines@).take(i + 1).drop_last() =~= texts(lines@).take(i as int));
            assert(texts(lines@).take(i + 1).last() == lines@[i as int]@);
            if assembled(texts(lines@).take(i + 1)) is Err {
                lemma_assembled_prefix(texts(lines@), i + 1);
            }
        }
        let ghost before = instructions@;
        match parse_line(&lines[i]) {
            Err(e) => {
                return Err(e);
            },
            Ok(Parsed::Nothing) => {},
            Ok(Parsed::Label(name)) => {
                labels.insert(name, (4 * instructions.len()) as i32);
            },
            Ok(Parsed::Operation(instruction)) => {
                if instructions.len() >= MAX_INSTRUCTIONS {
                    return Err(ParseError::TooManyInstructions);
                }
                instructions.push(instruction);
                assert(operations(instructions@) =~= operations(before).push(
                    (instruction.opcode(), instruction.operands()),
                ));
            },
        }
        i = i + 1;
    }
    assert(texts(lines@).take(lines.len() as int) =~= texts(lines@));
    Ok(Application { instructions, labels })
}

/// A fault among the first `i` lines is the fault of the text.
proof fn lemma_assembled_prefix(lines: Seq<Seq<char>>, i: int)
    requires
        0 <= i <= lines.len(),
        assembled(lines.take(i)) is Err,
    ensures
        assembled(lines) == assembled(lines.take(i)),
    decreases lines.len() - i,
{
    if i == lines.len() {
        assert(lines.take(i) =~= lines);
    } else {
        assert(lines.take(i + 1).drop_last() =~= lines.take(i));
        lemma_assembled_prefix(lines, i + 1);
    }
}

} // verus!
