//! The instruction cache: a single line.

use vstd::prelude::*;

verus! {

/// The one line of an instruction cache: the byte addresses from `lo` to
/// `hi`, both included.
#[derive(Clone, Copy, PartialEq, Eq, Structural, Debug)]
pub struct CacheLine {
    pub lo: i64,
    pub hi: i64,
}

impl CacheLine {
    /// Whether the line holds the address `pc`.
    pub open spec fn holds(self, pc: i32) -> bool {
        self.lo <= pc <= self.hi
    }

    /// The line that a fetch of `pc` brings in: `size` bytes from `pc` on,
    /// and the byte after them.
    pub open spec fn filled(pc: i32, size: u16) -> CacheLine {
        CacheLine { lo: pc as i64, hi: (pc + size) as i64 }
    }

    /// A line that holds no address an instruction can have.
    pub fn empty() -> (line: CacheLine)
        ensures
            line == (CacheLine { lo: -1i64, hi: -1i64 }),
            forall|pc: i32| 0 <= pc ==> !line.holds(pc),
    {
        CacheLine { lo: -1, hi: -1 }
    }

    /// Whether the line holds the address `pc`.
    pub fn present(&self, pc: i32) -> (hit: bool)
        ensures
            hit == self.holds(pc),
    {
        pc as i64 >= self.lo && pc as i64 <= self.hi
    }

    /// Refills the line with the `size` bytes from `pc` on.
    pub fn fetch(&mut self, pc: i32, size: u16)
        ensures
            *final(self) == CacheLine::filled(pc, size),
            final(self).holds(pc),
    {
        self.lo = pc as i64;
        self.hi = pc as i64 + size as i64;
    }
}

} // verus!
