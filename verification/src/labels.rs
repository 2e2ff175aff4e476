//! The label table of a program: from a label's name to the byte address of
//! the instruction that follows it.

use vstd::prelude::*;

verus! {

/// The map that a sequence of definitions gives: a later definition of a name
/// replaces an earlier one.
pub open spec fn table(entries: Seq<(String, i32)>) -> Map<Seq<char>, i32>
    decreases entries.len(),
{
    if entries.len() == 0 {
        Map::empty()
    } else {
        table(entries.drop_last()).insert(entries.last().0@, entries.last().1)
    }
}

/// A table of labels, kept in the order in which they were defined.
pub struct Labels {
    entries: Vec<(String, i32)>,
}

impl View for Labels {
    type V = Map<Seq<char>, i32>;

    closed spec fn view(&self) -> Map<Seq<char>, i32> {
        table(self.entries@)
    }
}

impl Labels {
    /// The number of definitions made, those that were replaced included.
    pub closed spec fn definitions(&self) -> nat {
        self.entries@.len()
    }

    /// A table without labels.
    pub fn new() -> (labels: Labels)
        ensures
            labels@ == Map::<Seq<char>, i32>::empty(),
            labels.definitions() == 0,
    {
        Labels { entries: Vec::new() }
    }

    /// Defines `name` as `address`, in place of what it was defined as before.
    pub fn insert(&mut self, name: String, address: i32)
        ensures
            final(self)@ == old(self)@.insert(name@, address),
            final(self).definitions() == old(self).definitions() + 1,
    {
        let ghost before = self.entries@;
        self.entries.push((name, address));
        assert(self.entries@.drop_last() =~= before);
    }

    /// The address of `name`, if the table defines it.
    pub fn get(&self, name: &String) -> (address: Option<i32>)
        ensures
            address == (if self@.contains_key(name@) {
                Some(self@[name@])
            } else {
                None
            }),
    {
        let mut i: usize = self.entries.len();
        assert(self.entries@.take(i as int) =~= self.entries@);
        while i > 0
            invariant
                i <= self.entries.len(),
                self@.contains_key(name@) == table(self.entries@.take(i as int)).contains_key(
                    name@,
                ),
                self@.contains_key(name@) ==> self@[name@] == table(
                    self.entries@.take(i as int),
                )[name@],
            decreases i,
        {
            i = i - 1;
            assert(self.entries@.take(i + 1).drop_last() =~= self.entries@.take(i as int));
            assert(self.entries@.take(i + 1).last() == self.entries@[i as int]);
            if self.entries[i].0 == *name {
                return Some(self.entries[i].1);
            }
        }
        None
    }

    /// The number of definitions made, those that were replaced included.
    pub fn len(&self) -> (n: usize)
        ensures
            n == self.definitions(),
    {
        self.entries.len()
    }
}

} // verus!
