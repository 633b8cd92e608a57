use vstd::prelude::*;

verus! {

/// Replaces `patch.len()` bytes of `bytes` starting at `off` with `patch`.
pub open spec fn splice(bytes: Seq<u8>, off: int, patch: Seq<u8>) -> Seq<u8> {
    bytes.subrange(0, off) + patch + bytes.subrange(off + patch.len(), bytes.len() as int)
}

/// An owned copy of a mapped byte range `[base, base + bytes.len())`.
///
/// Every access is checked against the range; callers never do raw address
/// arithmetic themselves.
pub struct MemoryRegion {
    pub base: usize,
    pub bytes: Vec<u8>,
}

impl MemoryRegion {
    /// The range does not wrap around the address space.
    pub open spec fn wf(&self) -> bool {
        self.base + self.bytes@.len() <= usize::MAX
    }

    /// `[addr, addr + len)` lies inside the range.
    pub open spec fn spec_contains(&self, addr: int, len: int) -> bool {
        self.base <= addr && 0 <= len && addr - self.base + len <= self.bytes@.len()
    }

    /// Offset of `addr` from the start of the range.
    pub open spec fn offset_of(&self, addr: int) -> int {
        addr - self.base
    }

    /// Wraps `bytes` as the content of the range starting at `base`; `None`
    /// when the range would run past the end of the address space.
    pub fn new(base: usize, bytes: Vec<u8>) -> (r: Option<MemoryRegion>)
        ensures
            r.is_some() <==> base + bytes@.len() <= usize::MAX,
            r matches Some(m) ==> m.base == base && m.bytes@ == bytes@ && m.wf(),
    {
        if bytes.len() <= usize::MAX - base {
            Some(MemoryRegion { base, bytes })
        } else {
            None
        }
    }

    /// Number of bytes in the range.
    pub fn size(&self) -> (r: usize)
        ensures
            r == self.bytes@.len(),
    {
        self.bytes.len()
    }

    /// Whether `[addr, addr + len)` lies inside the range.
    pub fn contains(&self, addr: usize, len: usize) -> (r: bool)
        requires
            self.wf(),
        ensures
            r == self.spec_contains(addr as int, len as int),
    {
        addr >= self.base && len <= self.bytes.len() && addr - self.base <= self.bytes.len() - len
    }

    /// Copies `len` bytes starting at `addr`; `None` when they are not all
    /// inside the range.
    pub fn read(&self, addr: usize, len: usize) -> (r: Option<Vec<u8>>)
        requires
            self.wf(),
        ensures
            r.is_some() <==> self.spec_contains(addr as int, len as int),
            r matches Some(v) ==> v@ == self.bytes@.subrange(
                self.offset_of(addr as int),
                self.offset_of(addr as int) + len,
            ),
    {
        if !self.contains(addr, len) {
            return None;
        }
        let off = addr - self.base;
        let mut out: Vec<u8> = Vec::with_capacity(len);
        let mut i: usize = 0;
        while i < len
            invariant
                self.wf(),
                off + len <= self.bytes@.len(),
                i <= len,
                out@ == self.bytes@.subrange(off as int, off + i),
            decreases len - i,
        {
            out.push(self.bytes[off + i]);
            i = i + 1;
            assert(out@ =~= self.bytes@.subrange(off as int, off + i));
        }
        Some(out)
    }

    /// Writes `data` at `addr`. Returns `false`, and leaves the range as it
    /// was, when `data` does not fit inside the range.
    pub fn write(&mut self, addr: usize, data: &Vec<u8>) -> (r: bool)
        requires
            old(self).wf(),
        ensures
            final(self).wf(),
            final(self).base == old(self).base,
            r == old(self).spec_contains(addr as int, data@.len() as int),
            r ==> final(self).bytes@ == splice(
                old(self).bytes@,
                old(self).offset_of(addr as int),
                data@,
            ),
            !r ==> final(self).bytes@ == old(self).bytes@,
    {
        if !self.contains(addr, data.len()) {
            return false;
        }
        let off = addr - self.base;
        let ghost before = self.bytes@;
        let mut i: usize = 0;
        while i < data.len()
            invariant
                self.base == old(self).base,
                before == old(self).bytes@,
                self.wf(),
                off + data@.len() <= before.len(),
                i <= data@.len(),
                self.bytes@.len() == before.len(),
                forall|k: int| 0 <= k < off ==> self.bytes@[k] == before[k],
                forall|k: int| off <= k < off + i ==> self.bytes@[k] == data@[k - off],
                forall|k: int| off + i <= k < before.len() ==> self.bytes@[k] == before[k],
            decreases data@.len() - i,
        {
            self.bytes.set(off + i, data[i]);
            i = i + 1;
        }
        assert(self.bytes@ =~= splice(before, off as int, data@));
        true
    }
}

} // verus!
