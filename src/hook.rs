use vstd::prelude::*;
use crate::error::{Error, HookFailure};
use crate::memory::{splice, MemoryRegion};

verus! {

/// Shortest patch window that can hold a jump stub: `mov rax, imm64; jmp rax`.
pub const MIN_STUB_LEN: usize = 12;

/// Window from which the register-free `jmp [rip+0]; dq imm64` stub is used.
pub const RIP_STUB_LEN: usize = 14;

/// Opcode byte of the one-byte no-op that pads a stub to its window.
pub const NOP: u8 = 0x90;

/// The lowest `n` bytes of `v`, least significant first.
pub open spec fn le_bytes(v: nat, n: nat) -> Seq<u8>
    decreases n,
{
    if n == 0 {
        Seq::empty()
    } else {
        seq![(v % 256) as u8] + le_bytes(v / 256, (n - 1) as nat)
    }
}

/// `n` no-op bytes.
pub open spec fn nops(n: nat) -> Seq<u8> {
    Seq::new(n, |_i: int| NOP)
}

/// The bytes written over a window of `len` bytes to send execution to
/// `entry`: an absolute jump, then no-ops up to the end of the window.
pub open spec fn stub_bytes(entry: nat, len: nat) -> Seq<u8> {
    if len >= RIP_STUB_LEN {
        seq![0xFFu8, 0x25u8, 0u8, 0u8, 0u8, 0u8] + le_bytes(entry, 8) + nops(
            (len - RIP_STUB_LEN) as nat,
        )
    } else {
        seq![0x48u8, 0xB8u8] + le_bytes(entry, 8) + seq![0xFFu8, 0xE0u8] + nops(
            (len - MIN_STUB_LEN) as nat,
        )
    }
}

/// What an installed hook saved: the site, the bytes it overwrote and where
/// it jumps to.
pub struct HookRecord {
    pub target: usize,
    pub original: Vec<u8>,
    pub entry: usize,
}

impl HookRecord {
    /// The saved window is never shorter than the shortest stub, so writing
    /// it back never leaves a truncated instruction.
    pub open spec fn wf(&self) -> bool {
        self.original@.len() >= MIN_STUB_LEN
    }

    /// Number of bytes that were overwritten.
    pub fn patch_length(&self) -> (r: usize)
        ensures
            r == self.original@.len(),
    {
        self.original.len()
    }
}

/// The eight little-endian bytes of `v`.
fn le_bytes_u64(v: u64) -> (r: Vec<u8>)
    ensures
        r@ == le_bytes(v as nat, 8),
{
    let mut out: Vec<u8> = Vec::with_capacity(8);
    let mut cur: u64 = v;
    let mut i: usize = 0;
    while i < 8
        invariant
            i <= 8,
            out@ + le_bytes(cur as nat, (8 - i) as nat) == le_bytes(v as nat, 8),
        decreases 8 - i,
    {
        let ghost prev = out@;
        let ghost rest = le_bytes((cur / 256) as nat, (8 - i - 1) as nat);
        assert(le_bytes(cur as nat, (8 - i) as nat) == seq![(cur % 256) as u8] + rest);
        out.push((cur % 256) as u8);
        assert(prev + (seq![(cur % 256) as u8] + rest) =~= out@ + rest);
        cur = cur / 256;
        i = i + 1;
    }
    assert(out@ =~= out@ + le_bytes(cur as nat, 0));
    out
}

/// Appends `n` no-op bytes to `out`.
fn push_nops(out: &mut Vec<u8>, n: usize)
    ensures
        final(out)@ == old(out)@ + nops(n as nat),
{
    let mut i: usize = 0;
    while i < n
        invariant
            i <= n,
            out@ == old(out)@ + nops(i as nat),
        decreases n - i,
    {
        out.push(NOP);
        i = i + 1;
        assert(out@ =~= old(out)@ + nops(i as nat));
    }
}

/// The stub that fills a window of `len` bytes with a jump to `entry`.
pub fn build_stub(entry: usize, len: usize) -> (r: Vec<u8>)
    requires
        len >= MIN_STUB_LEN,
    ensures
        r@ == stub_bytes(entry as nat, len as nat),
        r@.len() == len,
{
    let mut addr = le_bytes_u64(entry as u64);
    assert(addr@.len() == 8) by {
        reveal_with_fuel(le_bytes, 9);
    }
    let mut out: Vec<u8>;
    if len >= RIP_STUB_LEN {
        out = vec![0xFFu8, 0x25u8, 0u8, 0u8, 0u8, 0u8];
        out.append(&mut addr);
        push_nops(&mut out, len - RIP_STUB_LEN);
        assert(out@ =~= stub_bytes(entry as nat, len as nat));
    } else {
        out = vec![0x48u8, 0xB8u8];
        out.append(&mut addr);
        out.push(0xFFu8);
        out.push(0xE0u8);
        push_nops(&mut out, len - MIN_STUB_LEN);
        assert(out@ =~= stub_bytes(entry as nat, len as nat));
    }
    out
}

/// Installs a jump to `entry` over the `patch_length` bytes at `target`.
///
/// The window is saved first and the stub then written over it. A window
/// shorter than the shortest stub, or one that leaves the range, is refused
/// with memory untouched.
pub fn install(mem: &mut MemoryRegion, target: usize, entry: usize, patch_length: usize) -> (r:
    Result<HookRecord, Error>)
    requires
        old(mem).wf(),
    ensures
        final(mem).wf(),
        final(mem).base == old(mem).base,
        patch_length < MIN_STUB_LEN ==> r == Err::<HookRecord, Error>(
            Error::HookInstallError(HookFailure::StubTooShort),
        ),
        patch_length >= MIN_STUB_LEN && !old(mem).spec_contains(target as int, patch_length as int)
            ==> r == Err::<HookRecord, Error>(Error::HookInstallError(HookFailure::OutOfRange)),
        r.is_err() ==> final(mem).bytes@ == old(mem).bytes@,
        r.is_ok() <==> patch_length >= MIN_STUB_LEN && old(mem).spec_contains(
            target as int,
            patch_length as int,
        ),
        r matches Ok(h) ==> {
            let off = old(mem).offset_of(target as int);
            &&& h.wf()
            &&& h.target == target
            &&& h.entry == entry
            &&& h.original@ == old(mem).bytes@.subrange(off, off + patch_length)
            &&& final(mem).bytes@ == splice(
                old(mem).bytes@,
                off,
                stub_bytes(entry as nat, patch_length as nat),
            )
        },
{
    if patch_length < MIN_STUB_LEN {
        return Err(Error::HookInstallError(HookFailure::StubTooShort));
    }
    let original = match mem.read(target, patch_length) {
        Some(v) => v,
        None => {
            return Err(Error::HookInstallError(HookFailure::OutOfRange));
        },
    };
    let stub = build_stub(entry, patch_length);
    let written = mem.write(target, &stub);
    if !written {
        return Err(Error::HookInstallError(HookFailure::OutOfRange));
    }
    Ok(HookRecord { target, original, entry })
}

/// Writes the saved bytes of `record` back over its site, consuming it.
/// Fails, with memory untouched, when the site does not lie inside the range.
pub fn restore(mem: &mut MemoryRegion, record: HookRecord) -> (r: Result<(), Error>)
    requires
        old(mem).wf(),
    ensures
        final(mem).wf(),
        final(mem).base == old(mem).base,
        r.is_ok() <==> old(mem).spec_contains(record.target as int, record.original@.len() as int),
        r.is_err() ==> r == Err::<(), Error>(Error::RestoreError) && final(mem).bytes@ == old(
            mem,
        ).bytes@,
        r.is_ok() ==> final(mem).bytes@ == splice(
            old(mem).bytes@,
            old(mem).offset_of(record.target as int),
            record.original@,
        ),
{
    if mem.write(record.target, &record.original) {
        Ok(())
    } else {
        Err(Error::RestoreError)
    }
}

/// Writing back the window that a patch overwrote gives the bytes that were
/// there before the patch.
pub proof fn lemma_splice_undo(bytes: Seq<u8>, off: int, patch: Seq<u8>)
    requires
        0 <= off,
        off + patch.len() <= bytes.len(),
    ensures
        splice(splice(bytes, off, patch), off, bytes.subrange(off, off + patch.len())) == bytes,
{
    assert(splice(splice(bytes, off, patch), off, bytes.subrange(off, off + patch.len())) =~= bytes);
}

/// Restoring the record that `install` returned puts back, bit for bit, the
/// bytes that were at the site just before `install` ran.
pub proof fn restore_inverts_install(before: Seq<u8>, off: int, entry: nat, len: nat)
    requires
        0 <= off,
        len >= MIN_STUB_LEN,
        off + len <= before.len(),
    ensures
        stub_bytes(entry, len).len() == len,
        splice(splice(before, off, stub_bytes(entry, len)), off, before.subrange(off, off + len))
            == before,
{
    lemma_stub_len(entry, len);
    lemma_splice_undo(before, off, stub_bytes(entry, len));
}

/// A stub fills its window exactly.
pub proof fn lemma_stub_len(entry: nat, len: nat)
    requires
        len >= MIN_STUB_LEN,
    ensures
        stub_bytes(entry, len).len() == len,
{
    reveal_with_fuel(le_bytes, 9);
}

} // verus!
