use vstd::prelude::*;
use crate::memory::MemoryRegion;

verus! {

/// A byte signature; `None` marks a wildcard position that matches any byte.
pub struct Pattern {
    pub elems: Vec<Option<u8>>,
}

/// Where a signature was found and how many bytes it covers.
#[derive(Debug, Clone, Copy, PartialEq, Eq, Structural)]
pub struct ScanResult {
    pub address: usize,
    pub length: usize,
}

/// One pattern position accepts the byte `b`.
pub open spec fn elem_matches(p: Option<u8>, b: u8) -> bool {
    match p {
        Some(v) => v == b,
        None => true,
    }
}

/// The whole pattern matches `mem` starting at offset `off`, without running
/// past the end of `mem`.
pub open spec fn matches_at(mem: Seq<u8>, pat: Seq<Option<u8>>, off: int) -> bool {
    0 <= off && off + pat.len() <= mem.len() && forall|i: int|
        0 <= i < pat.len() ==> #[trigger] elem_matches(pat[i], mem[off + i])
}

/// `off` is the lowest offset at which `pat` matches `mem`.
pub open spec fn is_first_match(mem: Seq<u8>, pat: Seq<Option<u8>>, off: int) -> bool {
    matches_at(mem, pat, off) && forall|o: int| 0 <= o < off ==> !#[trigger] matches_at(mem, pat, o)
}

impl Pattern {
    /// A pattern from its positions, wildcards as `None`.
    pub fn new(elems: Vec<Option<u8>>) -> (r: Pattern)
        ensures
            r.elems@ == elems@,
    {
        Pattern { elems }
    }

    /// A pattern that matches exactly `bytes`, with no wildcard.
    pub fn exact(bytes: &Vec<u8>) -> (r: Pattern)
        ensures
            r.elems@.len() == bytes@.len(),
            forall|i: int| 0 <= i < bytes@.len() ==> r.elems@[i] == Some(bytes@[i]),
    {
        let mut elems: Vec<Option<u8>> = Vec::with_capacity(bytes.len());
        let mut i: usize = 0;
        while i < bytes.len()
            invariant
                i <= bytes@.len(),
                elems@.len() == i,
                forall|k: int| 0 <= k < i ==> elems@[k] == Some(bytes@[k]),
            decreases bytes@.len() - i,
        {
            elems.push(Some(bytes[i]));
            i = i + 1;
        }
        Pattern { elems }
    }

    /// Number of bytes the pattern covers.
    pub fn len(&self) -> (r: usize)
        ensures
            r == self.elems@.len(),
    {
        self.elems.len()
    }
}

/// Whether `pat` matches `mem` at offset `off`; `off + pat.len()` must not
/// run past `mem`.
fn match_here(mem: &Vec<u8>, pat: &Vec<Option<u8>>, off: usize) -> (r: bool)
    requires
        off + pat@.len() <= mem@.len(),
    ensures
        r == matches_at(mem@, pat@, off as int),
{
    let n: usize = mem.len();
    let mut i: usize = 0;
    while i < pat.len()
        invariant
            n == mem@.len(),
            off + pat@.len() <= mem@.len(),
            i <= pat@.len(),
            forall|k: int| 0 <= k < i ==> #[trigger] elem_matches(pat@[k], mem@[off + k]),
        decreases pat@.len() - i,
    {
        let ok = match pat[i] {
            Some(v) => v == mem[off + i],
            None => true,
        };
        if !ok {
            assert(!elem_matches(pat@[i as int], mem@[off + i]));
            return false;
        }
        i = i + 1;
    }
    true
}

/// Searches `region` for the lowest address at which `pattern` matches.
///
/// Candidates are tried from the start of the range upwards; a candidate
/// whose pattern would run past the end of the range is never examined, so
/// no byte outside the range is read.
pub fn scan(region: &MemoryRegion, pattern: &Pattern) -> (r: Option<ScanResult>)
    requires
        region.wf(),
    ensures
        match r {
            Some(s) => is_first_match(region.bytes@, pattern.elems@, s.address - region.base)
                && s.length == pattern.elems@.len()
                && region.base <= s.address,
            None => forall|o: int| !#[trigger] matches_at(region.bytes@, pattern.elems@, o),
        },
{
    let mem = &region.bytes;
    let pat = &pattern.elems;
    if pat.len() > mem.len() {
        return None;
    }
    let last = mem.len() - pat.len();
    let mut off: usize = 0;
    while off <= last
        invariant
            last + pat@.len() == mem@.len(),
            region.wf(),
            mem@ == region.bytes@,
            pat@ == pattern.elems@,
            off <= last + 1,
            forall|o: int| 0 <= o < off ==> !#[trigger] matches_at(mem@, pat@, o),
        decreases last + 1 - off,
    {
        if match_here(mem, pat, off) {
            return Some(ScanResult { address: region.base + off, length: pat.len() });
        }
        off = off + 1;
    }
    proof {
        assert forall|o: int| !#[trigger] matches_at(mem@, pat@, o) by {
            if 0 <= o && o < off {
            }
        }
    }
    None
}

} // verus!
