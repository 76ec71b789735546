use vstd::prelude::*;

verus! {

/// An opaque value that the owner of a registration gets back with each of
/// its readiness events.
#[derive(Clone, Copy, Debug, PartialEq, Eq, Structural)]
pub struct Token(pub usize);

/// The readiness classes a caller wants to be told about: a set over
/// {readable, writable}.
#[derive(Clone, Copy, Debug, PartialEq, Eq, Structural)]
pub struct Interest {
    pub readable: bool,
    pub writable: bool,
}

impl Interest {
    /// Interest in read readiness only.
    pub fn readable() -> (r: Interest)
        ensures
            r.readable,
            !r.writable,
    {
        Interest { readable: true, writable: false }
    }

    /// Interest in write readiness only.
    pub fn writable() -> (r: Interest)
        ensures
            !r.readable,
            r.writable,
    {
        Interest { readable: false, writable: true }
    }

    /// The union of two interests.
    pub fn add(self, other: Interest) -> (r: Interest)
        ensures
            r.readable == (self.readable || other.readable),
            r.writable == (self.writable || other.writable),
    {
        Interest { readable: self.readable || other.readable, writable: self.writable || other.writable }
    }

    pub fn is_readable(&self) -> (r: bool)
        ensures
            r == self.readable,
    {
        self.readable
    }

    pub fn is_writable(&self) -> (r: bool)
        ensures
            r == self.writable,
    {
        self.writable
    }
}

} // verus!
