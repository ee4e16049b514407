//! The pool of reusable buffers. A stage takes a buffer from the pool, fills
//! it, passes it on, and the last stage that held it gives it back.

use vstd::prelude::*;

verus! {

/// The pool: a stack of buffers that are free.
pub struct Recycler {
    free: Vec<Vec<u8>>,
}

impl View for Recycler {
    type V = Seq<Seq<u8>>;

    /// The free buffers with what they still hold; the one that was given
    /// back last comes last.
    closed spec fn view(&self) -> Seq<Seq<u8>> {
        Seq::new(self.free@.len(), |i: int| self.free@[i]@)
    }
}

impl Recycler {
    /// An empty pool.
    pub fn new() -> (recycler: Recycler)
        ensures
            recycler@ == Seq::<Seq<u8>>::empty(),
    {
        let recycler = Recycler { free: Vec::new() };
        assert(recycler@ =~= Seq::<Seq<u8>>::empty());
        recycler
    }

    /// How many buffers are free.
    pub fn len(&self) -> (n: usize)
        ensures
            n == self@.len(),
    {
        self.free.len()
    }

    /// Hands out an empty buffer: the one that was given back last, wiped,
    /// or a fresh one if none is free.
    pub fn allocate(&mut self) -> (buffer: Vec<u8>)
        ensures
            buffer@ == Seq::<u8>::empty(),
            final(self)@ == if old(self)@.len() > 0 {
                old(self)@.drop_last()
            } else {
                old(self)@
            },
    {
        match self.free.pop() {
            Some(mut buffer) => {
                buffer.clear();
                assert(self@ =~= old(self)@.drop_last());
                assert(buffer@ =~= Seq::<u8>::empty());
                buffer
            },
            None => {
                assert(self@ =~= old(self)@);
                Vec::new()
            },
        }
    }

    /// Takes a buffer back into the pool, on top of the others.
    pub fn recycle(&mut self, buffer: Vec<u8>)
        ensures
            final(self)@ == old(self)@.push(buffer@),
    {
        self.free.push(buffer);
        assert(self@ =~= old(self)@.push(buffer@));
    }
}

} // verus!
