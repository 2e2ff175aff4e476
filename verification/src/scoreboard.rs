//! The scoreboard: how many writes to each register are in flight.

use crate::register::RegisterType;
use vstd::prelude::*;

verus! {

/// How often `r` occurs in `registers`.
pub open spec fn count_of(registers: Seq<RegisterType>, r: RegisterType) -> nat
    decreases registers.len(),
{
    if registers.len() == 0 {
        0
    } else {
        count_of(registers.drop_last(), r) + (if registers.last() == r {
            1nat
        } else {
            0nat
        })
    }
}

/// The board without an entry.
pub open spec fn clear() -> Map<RegisterType, nat> {
    Map::total(|r: RegisterType| 0nat)
}

/// The board after one more write to each of `registers` is in flight.
pub open spec fn added(board: Map<RegisterType, nat>, registers: Seq<RegisterType>) -> Map<
    RegisterType,
    nat,
> {
    Map::total(|r: RegisterType| board[r] + count_of(registers, r))
}

/// The board after one write to each of `registers` has left; a register
/// without a write in flight stays so.
pub open spec fn removed(board: Map<RegisterType, nat>, registers: Seq<RegisterType>) -> Map<
    RegisterType,
    nat,
> {
    Map::total(
        |r: RegisterType|
            if board[r] >= count_of(registers, r) {
                (board[r] - count_of(registers, r)) as nat
            } else {
                0nat
            },
    )
}

/// Whether a write to one of `registers` is in flight.
pub open spec fn blocked(board: Map<RegisterType, nat>, registers: Seq<RegisterType>) -> bool {
    exists|i: int| 0 <= i < registers.len() && board[#[trigger] registers[i]] > 0
}

/// A register occurs in a sequence at most as often as the sequence is long.
pub proof fn lemma_count_bounded(registers: Seq<RegisterType>, r: RegisterType)
    ensures
        count_of(registers, r) <= registers.len(),
    decreases registers.len(),
{
    if registers.len() > 0 {
        lemma_count_bounded(registers.drop_last(), r);
    }
}

/// Occurrences in a concatenation add up.
pub proof fn lemma_count_concat(a: Seq<RegisterType>, b: Seq<RegisterType>, r: RegisterType)
    ensures
        count_of(a + b, r) == count_of(a, r) + count_of(b, r),
    decreases b.len(),
{
    if b.len() == 0 {
        assert(a + b =~= a);
    } else {
        assert((a + b).drop_last() =~= a + b.drop_last());
        lemma_count_concat(a, b.drop_last(), r);
    }
}

/// The scoreboard of a pipeline.
pub struct Scoreboard {
    counts: [u32; 32],
}

impl View for Scoreboard {
    type V = Map<RegisterType, nat>;

    closed spec fn view(&self) -> Map<RegisterType, nat> {
        Map::total(|r: RegisterType| self.counts@[r.number() as int] as nat)
    }
}

impl Scoreboard {
    /// A scoreboard without an entry.
    pub fn new() -> (board: Scoreboard)
        ensures
            board@ == clear(),
    {
        let board = Scoreboard { counts: [0u32; 32] };
        assert(board@ =~= clear());
        board
    }

    /// Removes every entry.
    pub fn clear(&mut self)
        ensures
            final(self)@ == clear(),
    {
        self.counts = [0u32; 32];
        assert(self@ =~= clear());
    }

    /// Whether a write to one of `registers` is in flight.
    pub fn contain_written_registers(&self, registers: &Vec<RegisterType>) -> (some: bool)
        ensures
            some == blocked(self@, registers@),
    {
        let mut i: usize = 0;
        while i < registers.len()
            invariant
                i <= registers.len(),
                forall|j: int| 0 <= j < i ==> self@[#[trigger] registers[j]] == 0,
            decreases registers.len() - i,
        {
            if self.counts[registers[i].index() as usize] > 0 {
                return true;
            }
            i = i + 1;
        }
        false
    }

    /// Enters one write to each of `registers`.
    pub fn add_write_registers(&mut self, registers: &Vec<RegisterType>)
        requires
            forall|r: RegisterType| old(self)@[r] + registers.len() <= u32::MAX,
        ensures
            final(self)@ == added(old(self)@, registers@),
    {
        let mut i: usize = 0;
        assert(registers@.take(0) =~= Seq::<RegisterType>::empty());
        assert(self@ =~= added(old(self)@, registers@.take(0)));
        while i < registers.len()
            invariant
                i <= registers.len(),
                forall|r: RegisterType| old(self)@[r] + registers.len() <= u32::MAX,
                self@ == added(old(self)@, registers@.take(i as int)),
            decreases registers.len() - i,
        {
            let ghost before = self@;
            let register: RegisterType = registers[i];
            let at: usize = register.index() as usize;
            proof {
                lemma_count_bounded(registers@.take(i as int), register);
                assert(registers@.take(i + 1).drop_last() =~= registers@.take(i as int));
                assert(registers@.take(i + 1).last() == register);
                assert forall|q: RegisterType| q != register implies q.number()
                    != register.number() by {
                    RegisterType::lemma_number_injective(q, register);
                }
            }
            assert(self.counts@[at as int] as nat == before[register]);
            let ghost counts = self.counts@;
            self.counts[at] = self.counts[at] + 1;
            i = i + 1;
            proof {
                assert(self.counts@ == counts.update(at as int, (counts[at as int] + 1) as u32));
                assert forall|r: RegisterType| #[trigger]
                    self@[r] == added(old(self)@, registers@.take(i as int))[r] by {
                    assert(before[r] == counts[r.number() as int]);
                    assert(before[r] == old(self)@[r] + count_of(registers@.take(i - 1), r));
                }
                assert(self@ =~= added(old(self)@, registers@.take(i as int)));
            }
        }
        assert(registers@.take(registers.len() as int) =~= registers@);
    }

    /// Takes out one write to each of `registers`.
    pub fn delete_write_registers(&mut self, registers: &Vec<RegisterType>)
        ensures
            final(self)@ == removed(old(self)@, registers@),
    {
        let mut i: usize = 0;
        assert(registers@.take(0) =~= Seq::<RegisterType>::empty());
        assert(self@ =~= removed(old(self)@, registers@.take(0)));
        while i < registers.len()
            invariant
                i <= registers.len(),
                self@ == removed(old(self)@, registers@.take(i as int)),
            decreases registers.len() - i,
        {
            let register: RegisterType = registers[i];
            let at: usize = register.index() as usize;
            proof {
                assert(registers@.take(i + 1).drop_last() =~= registers@.take(i as int));
                assert(registers@.take(i + 1).last() == register);
                assert forall|q: RegisterType| q != register implies q.number()
                    != register.number() by {
                    RegisterType::lemma_number_injective(q, register);
                }
            }
            let ghost before = self@;
            let ghost counts = self.counts@;
            if self.counts[at] > 0 {
                self.counts[at] = self.counts[at] - 1;
            }
            i = i + 1;
            proof {
                assert(self.counts@ == (if counts[at as int] > 0 {
                    counts.update(at as int, (counts[at as int] - 1) as u32)
                } else {
                    counts
                }));
                assert forall|r: RegisterType| #[trigger]
                    self@[r] == removed(old(self)@, registers@.take(i as int))[r] by {
                    assert(before[r] == counts[r.number() as int]);
                    assert(before[r] == removed(old(self)@, registers@.take(i - 1))[r]);
                }
                assert(self@ =~= removed(old(self)@, registers@.take(i as int)));
            }
        }
        assert(registers@.take(registers.len() as int) =~= registers@);
    }
}

} // verus!
