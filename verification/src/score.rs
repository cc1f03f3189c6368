//! Keeping a score.

use vstd::prelude::*;

verus! {

/// Something that collects gold and counts what it has.
pub trait Score {
    /// The gold collected so far.
    spec fn total(&self) -> int;

    /// Adds `coin` to the gold collected.
    fn increase(&mut self, coin: i32)
        requires
            i32::MIN <= old(self).total() + coin <= i32::MAX,
        ensures
            final(self).total() == old(self).total() + coin,
    ;

    /// The gold collected so far.
    fn score(&self) -> (s: i32)
        ensures
            s == self.total(),
    ;
}

} // verus!
