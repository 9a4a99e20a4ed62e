use vstd::prelude::*;

verus! {

/// A fixed-capacity array of `SIZE` elements, allocated once.
pub struct Buffer<T: Copy, const SIZE: usize>(Vec<T>);

impl<T: Copy, const SIZE: usize> Buffer<T, SIZE> {
    /// The elements.
    pub closed spec fn view(&self) -> Seq<T> {
        self.0@
    }

    /// The number of elements held.
    pub fn len(&self) -> (r: usize)
        ensures
            r == self@.len(),
    {
        self.0.len()
    }

    /// A buffer of `SIZE` copies of `value`.
    pub fn new(value: T) -> (r: Self)
        ensures
            r@.len() == SIZE,
            forall|i: int| 0 <= i < SIZE ==> #[trigger] r@[i] == value,
    {
        let mut v: Vec<T> = Vec::with_capacity(SIZE);
        while v.len() < SIZE
            invariant
                v@.len() <= SIZE,
                forall|i: int| 0 <= i < v@.len() ==> #[trigger] v@[i] == value,
            decreases SIZE - v@.len(),
        {
            v.push(value);
        }
        Buffer(v)
    }

    /// The element at `index`.
    pub fn get(&self, index: usize) -> (r: T)
        requires
            index < self@.len(),
        ensures
            r == self@[index as int],
    {
        self.0[index]
    }

    /// Replaces the element at `index`.
    pub fn set(&mut self, index: usize, value: T)
        requires
            index < old(self)@.len(),
        ensures
            final(self)@ == old(self)@.update(index as int, value),
    {
        self.0.set(index, value);
    }
}

} // verus!
