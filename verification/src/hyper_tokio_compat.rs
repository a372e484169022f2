//! A connection as the HTTP server is given it.

use vstd::prelude::*;

verus! {

/// Holds a connection `T` for the HTTP server.
pub struct TokioUringIo<T> {
    inner: T,
}

impl<T> TokioUringIo<T> {
    /// The connection.
    pub closed spec fn inner_spec(&self) -> T {
        self.inner
    }

    /// Holds `inner`.
    pub fn new(inner: T) -> (io: TokioUringIo<T>)
        ensures
            io.inner_spec() == inner,
    {
        TokioUringIo { inner }
    }

    /// The connection, to be asked about.
    pub fn inner(&self) -> (inner: &T)
        ensures
            *inner == self.inner_spec(),
    {
        &self.inner
    }

    /// The connection, to be read from and written to.
    pub fn inner_mut(&mut self) -> (inner: &mut T)
        ensures
            *inner == old(self).inner_spec(),
            final(self).inner_spec() == *final(inner),
    {
        &mut self.inner
    }
}

} // verus!
