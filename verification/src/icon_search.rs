//! Which search for icons counts. A search runs beside the editing of a
//! web app; each new search makes every earlier one stale, and what a stale
//! search found is thrown away.

use vstd::prelude::*;

verus! {

/// The number of the search that counts.
#[derive(Clone, Copy, Debug, PartialEq, Eq, Structural)]
pub struct IconSearch {
    current: u64,
}

impl IconSearch {
    /// The number of the search that counts.
    pub closed spec fn generation(&self) -> nat {
        self.current as nat
    }

    /// Whether another search can be started: the numbers have not run out.
    pub open spec fn can_begin(&self) -> bool {
        self.generation() < u64::MAX
    }

    /// No search has been started.
    pub fn new() -> (r: IconSearch)
        ensures
            r.generation() == 0,
            r.can_begin(),
    {
        IconSearch { current: 0 }
    }

    /// Starts a search and returns its number. Every search that was
    /// started before is stale from now on.
    pub fn begin(&mut self) -> (r: Option<u64>)
        ensures
            old(self).can_begin() ==> final(self).generation() == old(self).generation() + 1 && r
                == Some(final(self).generation() as u64),
            !old(self).can_begin() ==> *final(self) == *old(self) && r.is_none(),
    {
        if self.current < u64::MAX {
            self.current = self.current + 1;
            Some(self.current)
        } else {
            None
        }
    }

    /// Whether the search with the number `search` still counts, so that
    /// what it found may be used.
    pub fn is_current(&self, search: u64) -> (r: bool)
        ensures
            r == (search as nat == self.generation()),
    {
        self.current == search
    }
}

} // verus!
