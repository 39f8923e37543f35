use vstd::pervasive::cloned;
use vstd::prelude::*;

verus! {

/// A buffer that holds nothing yet.
pub struct EmptyBuffer<T> {
    buffer: Vec<T>,
}

/// A buffer of a fixed number of items.
pub struct Buffer<T> {
    buffer: Vec<T>,
}

impl<T> View for EmptyBuffer<T> {
    type V = Seq<T>;

    closed spec fn view(&self) -> Seq<T> {
        self.buffer@
    }
}

impl<T> View for Buffer<T> {
    type V = Seq<T>;

    closed spec fn view(&self) -> Seq<T> {
        self.buffer@
    }
}

impl<T> EmptyBuffer<T> {
    /// An empty buffer holds no item.
    #[verifier::type_invariant]
    closed spec fn holds_nothing(&self) -> bool {
        self.buffer@.len() == 0
    }

    /// A buffer without items.
    pub fn new() -> (empty: Self)
        ensures
            empty@ == Seq::<T>::empty(),
    {
        EmptyBuffer { buffer: Vec::new() }
    }
}

impl<T: Clone> EmptyBuffer<T> {
    /// Fills the buffer with `len` clones of `init`.
    pub fn prepare(self, len: usize, init: T) -> (filled: Buffer<T>)
        ensures
            filled@.len() == len,
            forall|i: int| 0 <= i < len ==> cloned::<T>(init, #[trigger] filled@[i]),
    {
        proof {
            use_type_invariant(&self);
        }
        let mut buffer = self.buffer;
        buffer.resize(len, init);
        Buffer { buffer }
    }
}

impl<T> Buffer<T> {
    /// The items of the buffer.
    pub fn as_slice(&self) -> (items: &[T])
        ensures
            items@ == self@,
    {
        self.buffer.as_slice()
    }

    /// The number of items of the buffer.
    pub fn len(&self) -> (len: usize)
        ensures
            len == self@.len(),
    {
        self.buffer.len()
    }

    /// The item at a position.
    pub fn get(&self, index: usize) -> (item: &T)
        requires
            index < self@.len(),
        ensures
            *item == self@[index as int],
    {
        &self.buffer[index]
    }

    /// Puts an item at a position.
    pub fn set(&mut self, index: usize, item: T)
        requires
            index < old(self)@.len(),
        ensures
            final(self)@ == old(self)@.update(index as int, item),
    {
        self.buffer[index] = item;
    }
}

} // verus!
