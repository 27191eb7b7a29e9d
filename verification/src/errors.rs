//! Errors that an attempt to allocate from an arena may return.

use vstd::prelude::*;

verus! {

/// The single capacity error: the requested allocation would push the arena's
/// cursor past its capacity (fixed arena) or past its reservation (dynamic
/// arena). The cursor is left untouched when this is returned.
#[derive(Clone, Copy, Debug, PartialEq, Eq, Structural)]
pub enum AllocError {
    AtCapacity,
}

} // verus!
