//! The interfaces of a pipeline stage's two ends.
use crate::error::AnyResult;
use vstd::prelude::*;

verus! {

/// Something that is ended once, handing back a `T`.
pub trait Closable<T>: Sized {
    /// The value is in a state in which it can be closed.
    spec fn closable(&self) -> bool;

    /// Ends it.
    fn close(self) -> (r: AnyResult<T>)
        requires
            self.closable(),
    ;
}

/// A source of values, read one at a time.
pub trait Reader<T>: Sized {
    /// The reader is in a state in which it can be read.
    spec fn readable(&self) -> bool;

    /// The next value, or `None` at the end.
    fn read(&mut self) -> (r: AnyResult<Option<T>>)
        requires
            old(self).readable(),
        ensures
            final(self).readable(),
    ;
}

/// A sink of values, written one at a time.
pub trait Writer<T>: Sized {
    /// The writer is in a state in which it can be written.
    spec fn writable(&self) -> bool;

    /// Writes one value.
    fn write(&mut self, value: T) -> (r: AnyResult<()>)
        requires
            old(self).writable(),
        ensures
            final(self).writable(),
    ;
}

} // verus!
