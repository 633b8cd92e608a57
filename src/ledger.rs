use vstd::prelude::*;
use crate::error::{Error, HookFailure};
use crate::hook::{install, restore, stub_bytes, HookRecord, MIN_STUB_LEN};
use crate::memory::{splice, MemoryRegion};

verus! {

/// Some record in `recs` is for the site `target`.
pub open spec fn has_target(recs: Seq<HookRecord>, target: usize) -> bool {
    exists|i: int| 0 <= i < recs.len() && #[trigger] recs[i].target == target
}

/// The saved window of `h` lies inside a range of `len` bytes at `base`.
pub open spec fn fits(len: int, base: int, h: HookRecord) -> bool {
    base <= h.target && h.target - base + h.original@.len() <= len
}

/// Memory after writing back `h`, or unchanged when its window does not fit.
pub open spec fn restore_one(mem: Seq<u8>, base: int, h: HookRecord) -> Seq<u8> {
    if fits(mem.len() as int, base, h) {
        splice(mem, h.target - base, h.original@)
    } else {
        mem
    }
}

/// Memory after writing back every record, the most recent first.
pub open spec fn restore_all(mem: Seq<u8>, base: int, recs: Seq<HookRecord>) -> Seq<u8>
    decreases recs.len(),
{
    if recs.len() == 0 {
        mem
    } else {
        restore_all(restore_one(mem, base, recs.last()), base, recs.drop_last())
    }
}

/// Sites whose write-back fails, the most recent first.
pub open spec fn failed_targets(len: int, base: int, recs: Seq<HookRecord>) -> Seq<usize>
    decreases recs.len(),
{
    if recs.len() == 0 {
        Seq::empty()
    } else {
        (if fits(len, base, recs.last()) {
            Seq::empty()
        } else {
            seq![recs.last().target]
        }) + failed_targets(len, base, recs.drop_last())
    }
}

/// Writing back a record never changes the length of memory.
pub proof fn lemma_restore_one_len(mem: Seq<u8>, base: int, h: HookRecord)
    ensures
        restore_one(mem, base, h).len() == mem.len(),
{
}

/// A record whose write-back fails leaves teardown's result as if it had
/// never been installed: the other records are all written back regardless.
pub proof fn failed_restore_is_isolated(mem: Seq<u8>, base: int, recs: Seq<HookRecord>, k: int)
    requires
        0 <= k < recs.len(),
        !fits(mem.len() as int, base, recs[k]),
    ensures
        restore_all(mem, base, recs) == restore_all(mem, base, recs.remove(k)),
        failed_targets(mem.len() as int, base, recs).contains(recs[k].target),
    decreases recs.len(),
{
    let len = mem.len() as int;
    if k == recs.len() - 1 {
        assert(recs.remove(k) =~= recs.drop_last());
        let rest = failed_targets(len, base, recs.drop_last());
        assert((seq![recs[k].target] + rest)[0] == recs[k].target);
    } else {
        let m1 = restore_one(mem, base, recs.last());
        lemma_restore_one_len(mem, base, recs.last());
        failed_restore_is_isolated(m1, base, recs.drop_last(), k);
        assert(recs.drop_last()[k] == recs[k]);
        assert(recs.remove(k).last() == recs.last());
        assert(recs.remove(k).drop_last() =~= recs.drop_last().remove(k));
        let head: Seq<usize> = if fits(len, base, recs.last()) {
            Seq::empty()
        } else {
            seq![recs.last().target]
        };
        let rest = failed_targets(len, base, recs.drop_last());
        let j = choose|j: int| 0 <= j < rest.len() && rest[j] == recs[k].target;
        assert((head + rest)[head.len() + j] == recs[k].target);
    }
}

/// What the ledger's `install` answers for a hook at `target` over
/// `patch_length` bytes, given the outstanding records and the memory.
pub open spec fn install_result(
    recs: Seq<HookRecord>,
    mem: MemoryRegion,
    target: usize,
    patch_length: usize,
) -> Result<(), Error> {
    if has_target(recs, target) {
        Err(Error::HookInstallError(HookFailure::AlreadyHooked))
    } else if patch_length < MIN_STUB_LEN {
        Err(Error::HookInstallError(HookFailure::StubTooShort))
    } else if !mem.spec_contains(target as int, patch_length as int) {
        Err(Error::HookInstallError(HookFailure::OutOfRange))
    } else {
        Ok(())
    }
}

/// A hook at `target` to `entry` over `patch_length` bytes went from
/// `(recs0, mem0)` to `(recs1, mem1)`: the saved window is appended to the
/// records and the stub is spliced into memory at `target`.
pub open spec fn hook_added(
    recs0: Seq<HookRecord>,
    recs1: Seq<HookRecord>,
    mem0: Seq<u8>,
    mem1: Seq<u8>,
    base: int,
    target: usize,
    entry: usize,
    patch_length: usize,
) -> bool {
    let off = target - base;
    let h = recs1.last();
    &&& recs1 == recs0.push(h)
    &&& h.target == target
    &&& h.entry == entry
    &&& h.original@ == mem0.subrange(off, off + patch_length)
    &&& mem1 == splice(mem0, off, stub_bytes(entry as nat, patch_length as nat))
}

/// The outstanding hooks, in order of installation.
pub struct PatchLedger {
    pub records: Vec<HookRecord>,
}

impl PatchLedger {
    /// Every record is whole and no two share a site.
    pub open spec fn wf(&self) -> bool {
        &&& forall|i: int| 0 <= i < self.records@.len() ==> #[trigger] self.records@[i].wf()
        &&& forall|i: int, j: int|
            0 <= i < j < self.records@.len() ==> #[trigger] self.records@[i].target
                != #[trigger] self.records@[j].target
    }

    /// A ledger with no outstanding hook.
    pub fn new() -> (r: PatchLedger)
        ensures
            r.wf(),
            r.records@.len() == 0,
    {
        PatchLedger { records: Vec::new() }
    }

    /// Number of outstanding hooks.
    pub fn len(&self) -> (r: usize)
        ensures
            r == self.records@.len(),
    {
        self.records.len()
    }

    /// Whether `target` carries an outstanding hook.
    pub fn is_hooked(&self, target: usize) -> (r: bool)
        ensures
            r == has_target(self.records@, target),
    {
        let mut i: usize = 0;
        while i < self.records.len()
            invariant
                i <= self.records@.len(),
                forall|k: int| 0 <= k < i ==> #[trigger] self.records@[k].target != target,
            decreases self.records@.len() - i,
        {
            if self.records[i].target == target {
                return true;
            }
            i = i + 1;
        }
        false
    }

    /// Installs a hook at `target` and records it. A site that already
    /// carries a hook is refused, with memory and ledger untouched.
    pub fn install(
        &mut self,
        mem: &mut MemoryRegion,
        target: usize,
        entry: usize,
        patch_length: usize,
    ) -> (r: Result<(), Error>)
        requires
            old(self).wf(),
            old(mem).wf(),
        ensures
            final(self).wf(),
            final(mem).wf(),
            final(mem).base == old(mem).base,
            r == install_result(old(self).records@, *old(mem), target, patch_length),
            r.is_err() ==> final(mem).bytes@ == old(mem).bytes@ && final(self).records@ == old(
                self,
            ).records@,
            r.is_ok() ==> hook_added(
                old(self).records@,
                final(self).records@,
                old(mem).bytes@,
                final(mem).bytes@,
                old(mem).base as int,
                target,
                entry,
                patch_length,
            ),
    {
        if self.is_hooked(target) {
            return Err(Error::HookInstallError(HookFailure::AlreadyHooked));
        }
        match install(mem, target, entry, patch_length) {
            Ok(h) => {
                self.records.push(h);
                assert forall|i: int, j: int|
                    0 <= i < j < self.records@.len() implies #[trigger] self.records@[i].target
                    != #[trigger] self.records@[j].target by {
                    if j == self.records@.len() - 1 {
                        assert(old(self).records@[i].target == self.records@[i].target);
                    }
                }
                Ok(())
            },
            Err(e) => Err(e),
        }
    }

    /// Writes back every outstanding hook, the most recent first, and empties
    /// the ledger. A failed write-back does not stop the others; the sites
    /// that failed are returned, in the order they were tried.
    pub fn teardown(&mut self, mem: &mut MemoryRegion) -> (failed: Vec<usize>)
        requires
            old(self).wf(),
            old(mem).wf(),
        ensures
            final(self).wf(),
            final(self).records@.len() == 0,
            final(mem).wf(),
            final(mem).base == old(mem).base,
            final(mem).bytes@ == restore_all(old(mem).bytes@, old(mem).base as int, old(self).records@),
            failed@ == failed_targets(
                old(mem).bytes@.len() as int,
                old(mem).base as int,
                old(self).records@,
            ),
    {
        let ghost len = mem.bytes@.len() as int;
        let ghost base = mem.base as int;
        let mut failed: Vec<usize> = Vec::new();
        while self.records.len() > 0
            invariant
                self.wf(),
                mem.wf(),
                mem.base == base,
                mem.bytes@.len() == len,
                restore_all(mem.bytes@, base, self.records@) == restore_all(
                    old(mem).bytes@,
                    base,
                    old(self).records@,
                ),
                failed@ + failed_targets(len, base, self.records@) == failed_targets(
                    len,
                    base,
                    old(self).records@,
                ),
            decreases self.records@.len(),
        {
            let ghost recs = self.records@;
            let ghost failed_before = failed@;
            let h = self.records.pop().unwrap();
            assert(self.records@ == recs.drop_last());
            let ghost fit = fits(len, base, h);
            let ghost rest = failed_targets(len, base, recs.drop_last());
            let target = h.target;
            match restore(mem, h) {
                Ok(()) => {
                    assert(failed@ + rest =~= failed_before + (Seq::<usize>::empty() + rest));
                },
                Err(_) => {
                    failed.push(target);
                    assert(failed@ + rest =~= failed_before + (seq![target] + rest));
                },
            }
            assert(self.wf()) by {
                assert forall|i: int| 0 <= i < self.records@.len() implies #[trigger] self.records@[
                    i
                ].wf() by {
                    assert(self.records@[i] == recs[i]);
                }
                assert forall|i: int, j: int|
                    0 <= i < j < self.records@.len() implies #[trigger] self.records@[i].target
                    != #[trigger] self.records@[j].target by {
                    assert(self.records@[i] == recs[i]);
                    assert(self.records@[j] == recs[j]);
                }
            }
        }
        failed
    }
}

} // verus!
