//! The bus between two pipeline stages: a queue in which what one stage
//! writes in a cycle becomes visible to the next stage a cycle later.

use queues::{IsQueue, Queue};
use vstd::prelude::*;

verus! {

/// A FIFO queue of the `queues` crate.
#[verifier::external_type_specification]
#[verifier::external_body]
#[verifier::reject_recursive_types(T)]
pub struct ExQueue<T: Clone>(Queue<T>);

/// The items that `queue` holds, the oldest first.
pub uninterp spec fn queue_items(queue: Queue<(usize, i32)>) -> Seq<(usize, i32)>;

/// `Queue::new`: a queue that holds nothing.
#[verifier::external_body]
fn queue_new() -> (queue: Queue<(usize, i32)>)
    ensures
        queue_items(queue) == Seq::<(usize, i32)>::empty(),
{
    Queue::new()
}

/// `Queue::add`: `item` becomes the newest item. The call cannot fail on a
/// queue of this type.
#[verifier::external_body]
fn queue_add(queue: &mut Queue<(usize, i32)>, item: (usize, i32))
    ensures
        queue_items(*final(queue)) == queue_items(*old(queue)).push(item),
{
    let _ = queue.add(item);
}

/// `Queue::remove`: takes the oldest item out and returns it; nothing, and
/// the queue unchanged, where it holds none.
#[verifier::external_body]
fn queue_remove(queue: &mut Queue<(usize, i32)>) -> (item: Option<(usize, i32)>)
    ensures
        item == (if queue_items(*old(queue)).len() > 0 {
            Some(queue_items(*old(queue))[0])
        } else {
            None
        }),
        queue_items(*final(queue)) == (if queue_items(*old(queue)).len() > 0 {
            queue_items(*old(queue)).skip(1)
        } else {
            queue_items(*old(queue))
        }),
{
    queue.remove().ok()
}

/// `Queue::peek`: a copy of the oldest item; nothing where the queue holds
/// none.
#[verifier::external_body]
fn queue_peek(queue: &Queue<(usize, i32)>) -> (item: Option<(usize, i32)>)
    ensures
        item == (if queue_items(*queue).len() > 0 {
            Some(queue_items(*queue)[0])
        } else {
            None
        }),
{
    queue.peek().ok()
}

/// `Queue::size`: the number of items.
#[verifier::external_body]
fn queue_size(queue: &Queue<(usize, i32)>) -> (size: usize)
    ensures
        size == queue_items(*queue).len(),
{
    queue.size()
}

/// A bus as a mathematical value: its three zones, each with the oldest item
/// first, and its capacity.
pub struct Lanes {
    /// What was written in this cycle.
    pub entry: Seq<(usize, i32)>,
    /// What was written in the cycle before and is not yet visible.
    pub buffer: Seq<(usize, i32)>,
    /// What is visible to the reading stage.
    pub queue: Seq<(usize, i32)>,
    /// The capacity of the bus.
    pub max: usize,
}

impl Lanes {
    /// The bus of capacity `max` that holds nothing.
    pub open spec fn empty(max: usize) -> Lanes {
        Lanes { entry: Seq::empty(), buffer: Seq::empty(), queue: Seq::empty(), max }
    }

    /// Whether the bus takes no more: its visible zone or its entry zone is
    /// at capacity.
    pub open spec fn is_full(self) -> bool {
        self.queue.len() == self.max || self.entry.len() == self.max
    }

    /// Whether the three zones are all empty.
    pub open spec fn is_empty(self) -> bool {
        self.queue.len() == 0 && self.buffer.len() == 0 && self.entry.len() == 0
    }

    /// The bus after `item` was written to it.
    pub open spec fn added(self, item: (usize, i32)) -> Lanes {
        Lanes { entry: self.entry.push(item), ..self }
    }

    /// The bus after its oldest visible item was read.
    pub open spec fn taken(self) -> Lanes {
        Lanes { queue: self.queue.skip(1), ..self }
    }

    /// The bus at the start of the next cycle: what was buffered is visible
    /// and what was written is buffered. Nothing moves while the visible
    /// zone is at capacity.
    pub open spec fn connected(self) -> Lanes {
        if self.queue.len() == self.max {
            self
        } else {
            Lanes {
                entry: Seq::empty(),
                buffer: self.entry,
                queue: self.queue + self.buffer,
                max: self.max,
            }
        }
    }

    /// The items of the bus from the oldest to the newest.
    pub open spec fn items(self) -> Seq<(usize, i32)> {
        self.queue + self.buffer + self.entry
    }

    /// Whether the bus has capacity one and holds at most one item in each
    /// zone.
    pub open spec fn single(self) -> bool {
        self.max == 1 && self.entry.len() <= 1 && self.buffer.len() <= 1 && self.queue.len() <= 1
    }

    /// Whether the first component of every item on the bus is below `n`.
    pub open spec fn below(self, n: nat) -> bool {
        forall|i: int| 0 <= i < self.items().len() ==> (#[trigger] self.items()[i]).0 < n
    }
}

/// A bus.
pub struct Bus {
    entry: Queue<(usize, i32)>,
    buffer: Queue<(usize, i32)>,
    queue: Queue<(usize, i32)>,
    max: usize,
}

impl View for Bus {
    type V = Lanes;

    closed spec fn view(&self) -> Lanes {
        Lanes {
            entry: queue_items(self.entry),
            buffer: queue_items(self.buffer),
            queue: queue_items(self.queue),
            max: self.max,
        }
    }
}

impl Bus {
    /// An empty bus of capacity `max`.
    pub fn new(max: usize) -> (bus: Bus)
        ensures
            bus@ == Lanes::empty(max),
    {
        Bus { entry: queue_new(), buffer: queue_new(), queue: queue_new(), max }
    }

    /// Discards everything on the bus.
    pub fn flush(&mut self)
        ensures
            final(self)@ == Lanes::empty(old(self)@.max),
    {
        self.entry = queue_new();
        self.buffer = queue_new();
        self.queue = queue_new();
    }

    /// Writes `item` to the bus; it becomes visible after the next two
    /// calls of [`Bus::connect`].
    pub fn add(&mut self, item: (usize, i32))
        ensures
            final(self)@ == old(self)@.added(item),
    {
        queue_add(&mut self.entry, item);
    }

    /// Reads the oldest visible item and takes it off the bus.
    pub fn get(&mut self) -> (item: (usize, i32))
        requires
            old(self)@.queue.len() > 0,
        ensures
            item == old(self)@.queue[0],
            final(self)@ == old(self)@.taken(),
    {
        match queue_remove(&mut self.queue) {
            Some(item) => item,
            None => (0, 0),
        }
    }

    /// Reads the oldest visible item and leaves it on the bus.
    pub fn peek(&self) -> (item: (usize, i32))
        requires
            self@.queue.len() > 0,
        ensures
            item == self@.queue[0],
    {
        match queue_peek(&self.queue) {
            Some(item) => item,
            None => (0, 0),
        }
    }

    /// Whether the bus takes no more.
    pub fn is_full(&self) -> (full: bool)
        ensures
            full == self@.is_full(),
    {
        queue_size(&self.queue) == self.max || queue_size(&self.entry) == self.max
    }

    /// Whether the bus holds nothing.
    pub fn is_empty(&self) -> (empty: bool)
        ensures
            empty == self@.is_empty(),
    {
        queue_size(&self.queue) == 0 && queue_size(&self.buffer) == 0 && queue_size(&self.entry)
            == 0
    }

    /// Whether something was written in the cycle before and is not yet
    /// visible.
    pub fn contains_element_in_buffer(&self) -> (some: bool)
        ensures
            some == (self@.buffer.len() != 0),
    {
        queue_size(&self.buffer) != 0
    }

    /// Whether something is visible to the reading stage.
    pub fn contains_element_in_queue(&self) -> (some: bool)
        ensures
            some == (self@.queue.len() != 0),
    {
        queue_size(&self.queue) != 0
    }

    /// Whether something was written in this cycle.
    pub fn contains_element_in_entry(&self) -> (some: bool)
        ensures
            some == (self@.entry.len() != 0),
    {
        queue_size(&self.entry) != 0
    }

    /// Starts the next cycle of the bus: what was buffered becomes visible
    /// and what was written is buffered.
    pub fn connect(&mut self)
        ensures
            final(self)@ == old(self)@.connected(),
    {
        if queue_size(&self.queue) == self.max {
            return;
        }
        while queue_size(&self.buffer) != 0
            invariant
                self.max == old(self).max,
                queue_items(self.entry) == queue_items(old(self).entry),
                queue_items(self.queue) + queue_items(self.buffer) == queue_items(old(self).queue)
                    + queue_items(old(self).buffer),
            decreases queue_items(self.buffer).len(),
        {
            let ghost visible = queue_items(self.queue);
            let ghost waiting = queue_items(self.buffer);
            match queue_remove(&mut self.buffer) {
                Some(item) => {
                    queue_add(&mut self.queue, item);
                },
                None => {},
            }
            assert(visible.push(waiting[0]) + waiting.skip(1) =~= visible + waiting);
        }
        assert(queue_items(self.queue) =~= queue_items(self.queue) + queue_items(self.buffer));
        self.buffer = queue_new();
        while queue_size(&self.entry) != 0
            invariant
                self.max == old(self).max,
                queue_items(self.queue) == queue_items(old(self).queue) + queue_items(
                    old(self).buffer,
                ),
                queue_items(self.buffer) + queue_items(self.entry) == queue_items(old(self).entry),
            decreases queue_items(self.entry).len(),
        {
            let ghost waiting = queue_items(self.buffer);
            let ghost written = queue_items(self.entry);
            match queue_remove(&mut self.entry) {
                Some(item) => {
                    queue_add(&mut self.buffer, item);
                },
                None => {},
            }
            assert(waiting.push(written[0]) + written.skip(1) =~= waiting + written);
        }
        assert(queue_items(self.buffer) =~= queue_items(self.buffer) + queue_items(self.entry));
        self.entry = queue_new();
    }
}

} // verus!
