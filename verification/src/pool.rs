//! The candidates of a download: addresses that tasks draw from the front.
//!
//! Tasks share one pool. Each candidate leaves it once, with the task that
//! took it, and never comes back, whether that task's attempt succeeds or not.

use vstd::prelude::*;
use crate::text::texts;

verus! {

/// An ordered list of addresses that is only ever drawn from.
pub struct Pool {
    candidates: Vec<String>,
}

impl View for Pool {
    type V = Seq<Seq<char>>;

    closed spec fn view(&self) -> Seq<Seq<char>> {
        texts(self.candidates@)
    }
}

impl Pool {
    /// A pool of `urls`, the first of them at the front.
    pub fn new(urls: Vec<String>) -> (pool: Pool)
        ensures
            pool@ == texts(urls@),
    {
        Pool { candidates: urls }
    }

    /// How many candidates are left.
    pub fn len(&self) -> (count: usize)
        ensures
            count == self@.len(),
    {
        self.candidates.len()
    }

    /// Whether no candidate is left.
    pub fn is_empty(&self) -> (empty: bool)
        ensures
            empty == (self@.len() == 0),
    {
        self.candidates.len() == 0
    }

    /// Takes the candidate at the front, if there is one.
    ///
    /// Looking and taking are one step: a caller that holds the pool
    /// exclusively for this call gets a candidate that nobody else gets.
    pub fn take(&mut self) -> (front: Option<String>)
        ensures
            old(self)@.len() == 0 ==> front is None && final(self)@ == old(self)@,
            old(self)@.len() > 0 ==> front is Some && front->0@ == old(self)@[0] && final(self)@
                == old(self)@.skip(1),
            final(self)@.len() <= old(self)@.len(),
    {
        if self.candidates.len() == 0 {
            None
        } else {
            let url = self.candidates.remove(0);
            proof {
                assert(texts(old(self).candidates@.remove(0)) =~= texts(
                    old(self).candidates@,
                ).skip(1));
            }
            Some(url)
        }
    }
}

} // verus!
