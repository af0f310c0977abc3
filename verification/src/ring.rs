//! A bounded buffer of actions that keeps the most recent ones, backed by the
//! `ringbuffer` crate's `AllocRingBuffer`.

use crate::common::Action;
use ringbuffer::AllocRingBuffer;
use ringbuffer::RingBuffer;
use vstd::prelude::*;

verus! {

/// The largest capacity a buffer may be created with.
pub const MAX_BUFFER_CAPACITY: usize = 4096;

#[verifier::external_type_specification]
#[verifier::external_body]
#[verifier::reject_recursive_types(T)]
pub struct ExAllocRingBuffer<T>(AllocRingBuffer<T>);

/// The items held by a ring buffer, the one pushed the longest ago first.
pub uninterp spec fn ring_items(rb: AllocRingBuffer<Action>) -> Seq<Action>;

/// The capacity a ring buffer was created with.
pub uninterp spec fn ring_capacity(rb: AllocRingBuffer<Action>) -> nat;

/// `AllocRingBuffer::new`: an empty buffer with the given capacity. The crate
/// asserts that the capacity is not zero, and allocates room for the next power
/// of two at or above it, so the capacity is bounded here.
#[verifier::external_body]
fn ring_new(capacity: usize) -> (rb: AllocRingBuffer<Action>)
    requires
        0 < capacity <= MAX_BUFFER_CAPACITY,
    ensures
        ring_items(rb) == Seq::<Action>::empty(),
        ring_capacity(rb) == capacity,
{
    AllocRingBuffer::new(capacity)
}

/// `RingBuffer::len`: the number of items held, which never exceeds the
/// capacity.
#[verifier::external_body]
fn ring_len(rb: &AllocRingBuffer<Action>) -> (n: usize)
    ensures
        n == ring_items(*rb).len(),
        n <= ring_capacity(*rb),
{
    rb.len()
}

/// `RingBuffer::push`: appends an item; when the buffer is full, the item pushed
/// the longest ago is dropped first. The capacity is unchanged. (The crate's
/// internal write counter would overflow after `usize::MAX` pushes; that is
/// not stated.)
#[verifier::external_body]
fn ring_push(rb: &mut AllocRingBuffer<Action>, a: Action)
    ensures
        ring_capacity(*final(rb)) == ring_capacity(*old(rb)),
        ring_items(*final(rb)) == (if ring_items(*old(rb)).len() >= ring_capacity(*old(rb)) {
            ring_items(*old(rb)).drop_first().push(a)
        } else {
            ring_items(*old(rb)).push(a)
        }),
{
    rb.push(a)
}

/// `Index::index` of `AllocRingBuffer`: the item at position `i`, counted from
/// the one pushed the longest ago (a copy of it).
#[verifier::external_body]
fn ring_get(rb: &AllocRingBuffer<Action>, i: usize) -> (a: Action)
    requires
        i < ring_items(*rb).len(),
    ensures
        a == ring_items(*rb)[i as int],
{
    rb[i]
}

/// `IndexMut::index_mut` of `AllocRingBuffer`: overwrites the item at position
/// `i`; nothing else changes.
#[verifier::external_body]
fn ring_set(rb: &mut AllocRingBuffer<Action>, i: usize, a: Action)
    requires
        i < ring_items(*old(rb)).len(),
    ensures
        ring_capacity(*final(rb)) == ring_capacity(*old(rb)),
        ring_items(*final(rb)) == ring_items(*old(rb)).update(i as int, a),
{
    rb[i] = a;
}

/// A bounded buffer of actions, oldest first.
pub struct ActionBuffer {
    rb: AllocRingBuffer<Action>,
}

/// The items after pushing `a` onto `items` in a buffer of capacity `cap`: the
/// last `cap` items of `items` followed by `a`.
pub open spec fn pushed(items: Seq<Action>, cap: nat, a: Action) -> Seq<Action> {
    if items.len() >= cap {
        items.drop_first().push(a)
    } else {
        items.push(a)
    }
}

impl View for ActionBuffer {
    type V = Seq<Action>;

    closed spec fn view(&self) -> Seq<Action> {
        ring_items(self.rb)
    }
}

impl ActionBuffer {
    /// The capacity of the buffer.
    pub closed spec fn capacity(&self) -> nat {
        ring_capacity(self.rb)
    }

    /// Well formed: a capacity in `1..=MAX_BUFFER_CAPACITY`, and no more items
    /// than that.
    pub open spec fn wf(&self) -> bool {
        &&& 0 < self.capacity() <= MAX_BUFFER_CAPACITY
        &&& self@.len() <= self.capacity()
    }

    /// An empty buffer of the given capacity.
    pub fn new(capacity: usize) -> (b: ActionBuffer)
        requires
            0 < capacity <= MAX_BUFFER_CAPACITY,
        ensures
            b.wf(),
            b@ == Seq::<Action>::empty(),
            b.capacity() == capacity,
    {
        ActionBuffer { rb: ring_new(capacity) }
    }

    /// The number of actions held.
    pub fn len(&self) -> (n: usize)
        ensures
            n == self@.len(),
    {
        ring_len(&self.rb)
    }

    /// Appends an action; when the buffer is full the oldest action is dropped.
    pub fn push(&mut self, a: Action)
        requires
            old(self).wf(),
        ensures
            final(self).wf(),
            final(self).capacity() == old(self).capacity(),
            final(self)@ == pushed(old(self)@, old(self).capacity(), a),
    {
        ring_push(&mut self.rb, a);
    }

    /// The action at position `i`, oldest first.
    pub fn get(&self, i: usize) -> (a: Action)
        requires
            i < self@.len(),
        ensures
            a == self@[i as int],
    {
        ring_get(&self.rb, i)
    }

    /// Overwrites the action at position `i`.
    pub fn set(&mut self, i: usize, a: Action)
        requires
            old(self).wf(),
            i < old(self)@.len(),
        ensures
            final(self).wf(),
            final(self).capacity() == old(self).capacity(),
            final(self)@ == old(self)@.update(i as int, a),
    {
        ring_set(&mut self.rb, i, a);
    }

    /// All the actions, oldest first.
    pub fn to_vec(&self) -> (v: Vec<Action>)
        ensures
            v@ == self@,
    {
        let n = self.len();
        let mut v: Vec<Action> = Vec::new();
        let mut i: usize = 0;
        while i < n
            invariant
                n == self@.len(),
                i <= n,
                v@ == self@.take(i as int),
            decreases n - i,
        {
            v.push(self.get(i));
            i = i + 1;
            assert(v@ =~= self@.take(i as int));
        }
        assert(self@.take(n as int) =~= self@);
        v
    }
}

} // verus!
