//! Append-only item store. Captured values are owned by the arena and are
//! referred to everywhere else by their stable insertion index; nothing is
//! ever removed, so an index handed out once stays valid for the arena's
//! whole life.

use vstd::prelude::*;

verus! {

/// Index of a value in an [`Arena`].
pub type ItemIdx = usize;

/// Append-only indexed storage for captured values.
pub struct Arena<T> {
    pub items: Vec<T>,
}

impl<T> View for Arena<T> {
    type V = Seq<T>;

    open spec fn view(&self) -> Seq<T> {
        self.items@
    }
}

impl<T> Arena<T> {
    /// An empty arena.
    pub fn new() -> (r: Arena<T>)
        ensures
            r@ == Seq::<T>::empty(),
    {
        Arena { items: Vec::new() }
    }

    /// How many values the arena holds.
    pub fn len(&self) -> (n: usize)
        ensures
            n == self@.len(),
    {
        self.items.len()
    }

    /// Stores one value and returns its stable index. Prior contents and
    /// prior indices are untouched.
    pub fn insert_item(&mut self, value: T) -> (idx: ItemIdx)
        ensures
            final(self)@ == old(self)@.push(value),
            idx == old(self)@.len(),
    {
        let idx = self.items.len();
        self.items.push(value);
        idx
    }

    /// Reads the value stored at `idx`.
    pub fn get(&self, idx: ItemIdx) -> (r: &T)
        requires
            idx < self@.len(),
        ensures
            *r == self@[idx as int],
    {
        &self.items[idx]
    }
}

/// Round trip through the arena: inserting a value and reading it back by
/// the returned index yields the value itself, and every earlier slot is
/// left as it was.
pub proof fn lemma_arena_round_trip<T>(items: Seq<T>, value: T)
    ensures
        items.push(value)[items.len() as int] == value,
        forall|i: int| 0 <= i < items.len() ==> items.push(value)[i] == items[i],
{
}

} // verus!
