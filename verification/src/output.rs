//! Preparation of the output area before a run.

use vstd::prelude::*;

verus! {

/// Decides whether the output directory has to be removed before a run:
/// exactly when it exists and the caller did not ask to keep old builds.
pub fn should_purge(path_exists: bool, keep_old: bool) -> (purge: bool)
    ensures
        purge == (path_exists && !keep_old),
{
    path_exists && !keep_old
}

} // verus!
