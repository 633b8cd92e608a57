use vstd::prelude::*;
use crate::error::Error;
use crate::ledger::{hook_added, install_result, PatchLedger};
use crate::memory::MemoryRegion;
use crate::process::{first_named, has_named, locate, ProcessHandle};
use crate::target::{locate_target, resolve, TargetStrategy};

verus! {

/// Startup: finds the process named `name` among `running`, resolves the
/// code site that `strategy` names in its module image, and hooks it to
/// `entry` over `patch_length` bytes of `mem`, recording the hook in `ledger`.
///
/// Each step runs only when the one before it succeeded: a missing process
/// stops before any scan, and an unresolved site stops before any write.
/// On every error memory and ledger are left as they were.
pub fn attach(
    name: &String,
    running: &Vec<ProcessHandle>,
    image: &MemoryRegion,
    strategy: &TargetStrategy,
    ledger: &mut PatchLedger,
    mem: &mut MemoryRegion,
    entry: usize,
    patch_length: usize,
) -> (r: Result<usize, Error>)
    requires
        image.wf(),
        old(ledger).wf(),
        old(mem).wf(),
    ensures
        final(ledger).wf(),
        final(mem).wf(),
        final(mem).base == old(mem).base,
        r.is_err() ==> final(mem).bytes@ == old(mem).bytes@ && final(ledger).records@ == old(
            ledger,
        ).records@,
        !has_named(running@, name@) ==> r == Err::<usize, Error>(Error::ProcessNotFound),
        has_named(running@, name@) ==> {
            let p = running@[first_named(running@, name@)];
            match resolve(p, *image, *strategy) {
                Err(e) => r == Err::<usize, Error>(e),
                Ok(t) => match install_result(old(ledger).records@, *old(mem), t, patch_length) {
                    Err(e) => r == Err::<usize, Error>(e),
                    Ok(_) => r == Ok::<usize, Error>(t) && hook_added(
                        old(ledger).records@,
                        final(ledger).records@,
                        old(mem).bytes@,
                        final(mem).bytes@,
                        old(mem).base as int,
                        t,
                        entry,
                        patch_length,
                    ),
                },
            }
        },
{
    let process = match locate(name, running) {
        Ok(p) => p,
        Err(e) => {
            return Err(e);
        },
    };
    let target = match locate_target(&process, image, strategy) {
        Ok(t) => t,
        Err(e) => {
            proof {
                let q = running@[first_named(running@, name@)];
                assert(resolve(process, *image, *strategy) == resolve(q, *image, *strategy));
            }
            return Err(e);
        },
    };
    proof {
        let q = running@[first_named(running@, name@)];
        assert(resolve(process, *image, *strategy) == resolve(q, *image, *strategy));
    }
    match ledger.install(mem, target, entry, patch_length) {
        Ok(()) => Ok(target),
        Err(e) => Err(e),
    }
}

} // verus!
