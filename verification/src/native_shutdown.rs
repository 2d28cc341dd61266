//! Bookkeeping of an in-process agent session's shutdown: the cleanup state
//! it reports, and which owned processes stay registered after a forced kill.

use vstd::prelude::*;

use crate::process_owner::ProcessOwnerRegistry;

verus! {

/// How far the cleanup of a session has got.
#[derive(Debug, Clone, Copy, PartialEq, Eq, Structural)]
pub enum NativeCleanupState {
    Pending,
    Complete,
    Failed,
}

/// After a forced kill of `pids`, the ones that died leave the registry;
/// those still alive (`leftover`) stay registered, as does any pid that was
/// not part of the kill.
pub fn forget_reaped(owners: &mut ProcessOwnerRegistry, pids: &Vec<u32>, leftover: &Vec<u32>)
    ensures
        final(owners)@ == old(owners)@.filter(
            |p: u32| !(pids@.contains(p) && !leftover@.contains(p)),
        ),
{
    let mut i: usize = 0;
    while i < pids.len()
        invariant
            i <= pids.len(),
            owners@ == old(owners)@.filter(
                |p: u32|
                    !((exists|k: int| 0 <= k < i && pids@[k] == p) && !leftover@.contains(p)),
            ),
        decreases pids.len() - i,
    {
        let pid = pids[i];
        let mut still_alive = false;
        let mut j: usize = 0;
        while j < leftover.len()
            invariant
                j <= leftover.len(),
                still_alive == (exists|k: int| 0 <= k < j && leftover@[k] == pid),
            decreases leftover.len() - j,
        {
            if leftover[j] == pid {
                still_alive = true;
            }
            j += 1;
        }
        assert(still_alive == leftover@.contains(pid));
        if !still_alive {
            owners.unregister(pid);
        }
        assert(owners@ =~= old(owners)@.filter(
            |p: u32|
                !((exists|k: int| 0 <= k < i + 1 && pids@[k] == p) && !leftover@.contains(p)),
        )) by {
            assert(pids@[i as int] == pid);
        }
        i += 1;
    }
    assert(owners@ =~= old(owners)@.filter(
        |p: u32| !(pids@.contains(p) && !leftover@.contains(p)),
    ));
}

} // verus!
