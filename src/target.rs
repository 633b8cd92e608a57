use vstd::prelude::*;
use crate::error::Error;
use crate::memory::MemoryRegion;
use crate::pattern::{is_first_match, matches_at, scan, Pattern};
use crate::process::ProcessHandle;

verus! {

/// How the code site to patch is found in the module image.
pub enum TargetStrategy {
    /// A fixed offset from the module's base address.
    FixedOffset(usize),
    /// The lowest match of a byte signature in the module image.
    Signature(Pattern),
}

/// The lowest offset at which `pat` matches `mem` (meaningful only when
/// there is one).
pub open spec fn first_match_offset(mem: Seq<u8>, pat: Seq<Option<u8>>) -> int {
    choose|o: int| is_first_match(mem, pat, o)
}

/// The site that `strategy` names in the module of `process`, whose image
/// is `image`.
pub open spec fn resolve(process: ProcessHandle, image: MemoryRegion, strategy: TargetStrategy) -> Result<
    usize,
    Error,
> {
    match strategy {
        TargetStrategy::FixedOffset(off) => if off < process.size && process.addr + off
            <= usize::MAX {
            Ok((process.addr + off) as usize)
        } else {
            Err(Error::TargetOutOfRange)
        },
        TargetStrategy::Signature(p) => if exists|o: int| matches_at(image.bytes@, p.elems@, o) {
            Ok((image.base + first_match_offset(image.bytes@, p.elems@)) as usize)
        } else {
            Err(Error::PatternNotFound)
        },
    }
}

/// Two lowest matches are the same match.
pub proof fn lemma_first_match_unique(mem: Seq<u8>, pat: Seq<Option<u8>>, a: int, b: int)
    requires
        is_first_match(mem, pat, a),
        is_first_match(mem, pat, b),
    ensures
        a == b,
{
    if a < b {
        assert(!matches_at(mem, pat, a));
    } else if b < a {
        assert(!matches_at(mem, pat, b));
    }
}

/// Resolves the code site named by `strategy`.
///
/// A fixed offset must fall inside the module (`TargetOutOfRange`
/// otherwise); a signature must occur in `image` (`PatternNotFound`
/// otherwise). Nothing is written.
pub fn locate_target(process: &ProcessHandle, image: &MemoryRegion, strategy: &TargetStrategy) -> (r:
    Result<usize, Error>)
    requires
        image.wf(),
    ensures
        r == resolve(*process, *image, *strategy),
        r matches Ok(a) ==> (strategy is Signature ==> image.base <= a && is_first_match(
            image.bytes@,
            strategy->Signature_0.elems@,
            a - image.base,
        )),
{
    match strategy {
        TargetStrategy::FixedOffset(off) => {
            if *off < process.size && *off <= usize::MAX - process.addr {
                Ok(process.addr + *off)
            } else {
                Err(Error::TargetOutOfRange)
            }
        },
        TargetStrategy::Signature(p) => match scan(image, p) {
            Some(s) => {
                proof {
                    let o = s.address - image.base;
                    assert(matches_at(image.bytes@, p.elems@, o));
                    let c = first_match_offset(image.bytes@, p.elems@);
                    lemma_first_match_unique(image.bytes@, p.elems@, o, c);
                }
                Ok(s.address)
            },
            None => Err(Error::PatternNotFound),
        },
    }
}

} // verus!
