//! The board's sort keys.
use vstd::prelude::*;

verus! {

/// Board order: watchability (the default), start time, or league.
#[derive(Clone, Copy, Debug, PartialEq, Eq, Hash, Structural)]
pub enum SortKey {
    Watch,
    Time,
    League,
}

impl Default for SortKey {
    fn default() -> (k: SortKey)
        ensures
            k == SortKey::Watch,
    {
        SortKey::Watch
    }
}

} // verus!
