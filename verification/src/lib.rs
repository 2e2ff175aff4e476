//! A cycle-accurate simulator for a small RISC-V-like integer instruction set.
//!
//! Three machines execute the same programs and differ only in how they
//! account for time: [`mvm1::Mvm1`] charges a fixed cost for every step of
//! every instruction, [`mvm2::Mvm2`] puts an instruction cache of one line
//! before the fetch, and [`mvm3::Mvm3`] is a pipeline of four stages with a
//! branch unit and a register scoreboard.
//!
//! What a program computes is defined by [`program::Application::step`];
//! [`laws`], [`refinement`] and [`progress`] show that each machine computes
//! just that.

pub mod bit;
pub mod text;
pub mod register;
pub mod labels;
pub mod context;
pub mod opcodes;
pub mod program;
pub mod assembly;
pub mod parser;
pub mod cache;
pub mod bus;
pub mod scoreboard;
pub mod mvm1;
pub mod mvm2;
pub mod mvm3;
pub mod laws;
pub mod refinement;
pub mod progress;
