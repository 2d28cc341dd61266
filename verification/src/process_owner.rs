//! OS-level owners spawned by an in-process session (shell children, MCP).
//!
//! `child_pid` on the connection stays 0 for native sessions — this registry
//! is the shutdown backstop for those trees. Pid 0 is never an owner.

use std::collections::HashSet;

use vstd::prelude::*;
use vstd::std_specs::iter::IteratorSpec;

verus! {

broadcast use vstd::std_specs::hash::group_hash_axioms;

/// Set of live owner pids. No pid is 0.
pub struct ProcessOwnerRegistry {
    pids: HashSet<u32>,
}

impl ProcessOwnerRegistry {
    #[verifier::type_invariant]
    closed spec fn well_formed(self) -> bool {
        !self.pids@.contains(0)
    }
}

impl View for ProcessOwnerRegistry {
    type V = Set<u32>;

    closed spec fn view(&self) -> Set<u32> {
        self.pids@
    }
}

impl ProcessOwnerRegistry {
    pub fn new() -> (r: Self)
        ensures
            r@ == Set::<u32>::empty(),
    {
        ProcessOwnerRegistry { pids: HashSet::new() }
    }

    /// Adds `pid`; pid 0 is ignored.
    pub fn register(&mut self, pid: u32)
        ensures
            final(self)@ == if pid != 0 {
                old(self)@.insert(pid)
            } else {
                old(self)@
            },
            !final(self)@.contains(0),
    {
        proof {
            use_type_invariant(&*self);
        }
        if pid != 0 {
            let mut pids: HashSet<u32> = HashSet::new();
            std::mem::swap(&mut pids, &mut self.pids);
            pids.insert(pid);
            self.pids = pids;
        }
    }

    /// Removes `pid` if present.
    pub fn unregister(&mut self, pid: u32)
        ensures
            final(self)@ == old(self)@.remove(pid),
            !final(self)@.contains(0),
    {
        proof {
            use_type_invariant(&*self);
        }
        let mut pids: HashSet<u32> = HashSet::new();
        std::mem::swap(&mut pids, &mut self.pids);
        pids.remove(&pid);
        self.pids = pids;
    }

    /// The registered pids, each once, in no promised order.
    pub fn pids(&self) -> (r: Vec<u32>)
        ensures
            r@.to_set() == self@,
            r@.no_duplicates(),
            !r@.contains(0),
    {
        proof {
            use_type_invariant(self);
        }
        let mut out: Vec<u32> = Vec::new();
        for x in it: self.pids.iter()
            invariant
                out@ == it.seq().take(it.index()).map_values(|p: &u32| *p),
        {
            proof {
                assert(it.seq().take(it.index() + 1) =~= it.seq().take(it.index()).push(x));
            }
            out.push(*x);
            proof {
                assert(out@ =~= it.seq().take(it.index() + 1).map_values(|p: &u32| *p));
            }
        }
        proof {
            let keys = vstd::std_specs::hash::spec_hash_keys_iter(&self.pids).remaining();
            assert(out@ =~= keys.map_values(|p: &u32| *p));
            assert(out@ =~= keys.unref());
            assert(keys.unref().to_set() == self.pids@);
            assert(!out@.contains(0)) by {
                if out@.contains(0) {
                    assert(out@.to_set().contains(0));
                }
            }
        }
        out
    }

    /// Empties the registry and returns what it held.
    pub fn take_pids(&mut self) -> (r: Vec<u32>)
        ensures
            r@.to_set() == old(self)@,
            r@.no_duplicates(),
            !r@.contains(0),
            final(self)@ == Set::<u32>::empty(),
    {
        let r = self.pids();
        let mut pids: HashSet<u32> = HashSet::new();
        std::mem::swap(&mut pids, &mut self.pids);
        r
    }
}

} // verus!
