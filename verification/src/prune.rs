//! The outcome of pruning archived workspaces.
use vstd::prelude::*;

use crate::SwarmError;

verus! {

/// The outcome of a prune that could not remove `failed` workspaces: success
/// where every one was removed, else the error that counts those left behind.
pub fn prune_outcome(failed: usize) -> (r: Result<(), SwarmError>)
    ensures
        failed == 0 ==> r is Ok,
        failed > 0 ==> (r matches Err(SwarmError::PruneIncomplete(n)) && n == failed),
{
    if failed == 0 {
        Ok(())
    } else {
        Err(SwarmError::PruneIncomplete(failed))
    }
}

} // verus!
