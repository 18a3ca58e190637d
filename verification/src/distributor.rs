//! The request distribution engine: a backend set fixed at construction and a
//! rotation cursor that advances by one, wrapping around, before each read.
//!
//! Concurrency discipline: `next` is a short read-modify-write on the cursor.
//! A caller that serves concurrent requests wraps the distributor in a mutual
//! exclusion primitive and holds it for the duration of one `next` call; the
//! contracts here describe each such exclusive step exactly, so any global
//! ordering of the steps behaves like the same calls made sequentially.

use vstd::prelude::*;
use crate::backend::{Backend, BackendView};
use crate::location::{location, spec_location};
use crate::rotation::{advance, rotation_index};

verus! {

/// Construction-time failure: the distributor was given nothing to route to.
#[derive(Clone, Copy, Debug, PartialEq, Eq, Structural)]
pub enum ConfigurationError {
    EmptyBackendSet,
}

/// Round-robin selector over a fixed, non-empty backend set.
pub struct Distributor {
    backends: Vec<Backend>,
    cursor: usize,
}

impl Distributor {
    /// The backend set, as mathematical values, in rotation order.
    pub closed spec fn backends_view(&self) -> Seq<BackendView> {
        self.backends@.map(|i: int, b: Backend| b@)
    }

    /// The current rotation cursor.
    pub closed spec fn cursor_view(&self) -> nat {
        self.cursor as nat
    }

    /// Internal invariant: a non-empty backend set and an in-range cursor.
    pub closed spec fn wf(&self) -> bool {
        self.backends@.len() > 0 && (self.cursor as nat) < self.backends@.len()
    }

    /// Build a distributor over `backends` with the cursor at zero, so the
    /// first call to `next` selects the backend at index `1 % len`. An empty
    /// backend set is refused: there is nothing to route to.
    pub fn new(backends: Vec<Backend>) -> (r: Result<Distributor, ConfigurationError>)
        ensures
            match r {
                Ok(d) => {
                    &&& backends@.len() > 0
                    &&& d.wf()
                    &&& d.backends_view() == backends@.map(|i: int, b: Backend| b@)
                    &&& d.backends_view().len() == backends@.len()
                    &&& d.cursor_view() == 0
                },
                Err(e) => backends@.len() == 0 && e == ConfigurationError::EmptyBackendSet,
            },
    {
        if backends.len() == 0 {
            Err(ConfigurationError::EmptyBackendSet)
        } else {
            Ok(Distributor { backends, cursor: 0 })
        }
    }

    /// Build a distributor whose cursor starts at `start % len`, for callers
    /// that want the rotation to begin elsewhere than the default. An empty
    /// backend set is refused.
    pub fn with_start(backends: Vec<Backend>, start: usize) -> (r: Result<
        Distributor,
        ConfigurationError,
    >)
        ensures
            match r {
                Ok(d) => {
                    &&& backends@.len() > 0
                    &&& d.wf()
                    &&& d.backends_view() == backends@.map(|i: int, b: Backend| b@)
                    &&& d.backends_view().len() == backends@.len()
                    &&& d.cursor_view() == start as nat % backends@.len()
                },
                Err(e) => backends@.len() == 0 && e == ConfigurationError::EmptyBackendSet,
            },
    {
        if backends.len() == 0 {
            Err(ConfigurationError::EmptyBackendSet)
        } else {
            let cursor = start % backends.len();
            Ok(Distributor { backends, cursor })
        }
    }

    /// The number of backends in the rotation.
    pub fn len(&self) -> (n: usize)
        ensures
            n == self.backends_view().len(),
    {
        self.backends.len()
    }

    /// Advance the cursor by one, wrapping modulo the backend count, and
    /// return the backend now under the cursor. Never fails: the set is
    /// non-empty and the cursor stays in range.
    pub fn next(&mut self) -> (b: Backend)
        requires
            old(self).wf(),
        ensures
            final(self).wf(),
            final(self).backends_view() == old(self).backends_view(),
            final(self).cursor_view() < final(self).backends_view().len(),
            final(self).cursor_view() == rotation_index(
                old(self).cursor_view(),
                1,
                old(self).backends_view().len(),
            ),
            b@ == final(self).backends_view()[final(self).cursor_view() as int],
    {
        self.cursor = advance(self.cursor, self.backends.len());
        let b = self.backends[self.cursor].clone();
        proof {
            assert(self.backends_view()[self.cursor as int] == self.backends@[self.cursor as int]@);
        }
        b
    }

    /// Select the next backend and build the redirect target for it:
    /// `http://<host>:<port>/`.
    pub fn next_location(&mut self) -> (s: String)
        requires
            old(self).wf(),
        ensures
            final(self).wf(),
            final(self).backends_view() == old(self).backends_view(),
            final(self).cursor_view() == rotation_index(
                old(self).cursor_view(),
                1,
                old(self).backends_view().len(),
            ),
            s@ == spec_location(
                final(self).backends_view()[final(self).cursor_view() as int],
            ),
    {
        let b = self.next();
        location(&b)
    }
}

} // verus!
