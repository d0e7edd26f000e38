//! Deployment constants of the ranking store.

use vstd::prelude::*;

verus! {

/// The bound on a leaderboard's size per course.
pub const MAX_ENTRIES_PER_COURSE: i64 = 10;

} // verus!
