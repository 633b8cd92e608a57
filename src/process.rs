use vstd::prelude::*;
use crate::error::Error;

verus! {

/// A running process as the locator sees it: its executable name, the base
/// address and size of its main module, and the raw value of the handle that
/// was opened on it.
pub struct ProcessHandle {
    pub name: String,
    pub addr: usize,
    pub size: usize,
    pub handle: usize,
}

/// `i` is the first entry of `procs` whose name is `name`.
pub open spec fn is_first_named(procs: Seq<ProcessHandle>, name: Seq<char>, i: int) -> bool {
    &&& 0 <= i < procs.len()
    &&& procs[i].name@ == name
    &&& forall|k: int| 0 <= k < i ==> #[trigger] procs[k].name@ != name
}

/// Index of the first entry of `procs` named `name` (meaningful only when
/// there is one).
pub open spec fn first_named(procs: Seq<ProcessHandle>, name: Seq<char>) -> int {
    choose|i: int| is_first_named(procs, name, i)
}

/// Two first entries with one name are the same entry.
pub proof fn lemma_first_named_unique(procs: Seq<ProcessHandle>, name: Seq<char>, a: int, b: int)
    requires
        is_first_named(procs, name, a),
        is_first_named(procs, name, b),
    ensures
        a == b,
{
    if a < b {
        assert(procs[a].name@ != name);
    } else if b < a {
        assert(procs[b].name@ != name);
    }
}

/// Some entry of `procs` is named `name`.
pub open spec fn has_named(procs: Seq<ProcessHandle>, name: Seq<char>) -> bool {
    exists|i: int| 0 <= i < procs.len() && #[trigger] procs[i].name@ == name
}

impl ProcessHandle {
    /// A copy of this entry.
    pub fn duplicate(&self) -> (r: ProcessHandle)
        ensures
            r.name@ == self.name@,
            r.addr == self.addr,
            r.size == self.size,
            r.handle == self.handle,
    {
        ProcessHandle { name: self.name.clone(), addr: self.addr, size: self.size, handle: self.handle }
    }
}

/// Picks, among the running processes, the first whose executable name is
/// exactly `name`; `ProcessNotFound` when there is none.
pub fn locate(name: &String, running: &Vec<ProcessHandle>) -> (r: Result<ProcessHandle, Error>)
    ensures
        r.is_ok() <==> has_named(running@, name@),
        r.is_err() ==> r == Err::<ProcessHandle, Error>(Error::ProcessNotFound),
        r matches Ok(p) ==> {
            let q = running@[first_named(running@, name@)];
            &&& is_first_named(running@, name@, first_named(running@, name@))
            &&& p.name@ == q.name@
            &&& p.addr == q.addr
            &&& p.size == q.size
            &&& p.handle == q.handle
        },
{
    let mut i: usize = 0;
    while i < running.len()
        invariant
            i <= running@.len(),
            forall|k: int| 0 <= k < i ==> #[trigger] running@[k].name@ != name@,
        decreases running@.len() - i,
    {
        if running[i].name == *name {
            let p = running[i].duplicate();
            proof {
                assert(is_first_named(running@, name@, i as int));
                lemma_first_named_unique(running@, name@, i as int, first_named(running@, name@));
            }
            return Ok(p);
        }
        i = i + 1;
    }
    Err(Error::ProcessNotFound)
}

} // verus!
