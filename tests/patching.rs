use likeadragon::control::{exit_requested, EXIT_BUTTON};
use likeadragon::error::{Error, HookFailure};
use likeadragon::hook::{build_stub, install, restore, HookRecord, MIN_STUB_LEN};
use likeadragon::ledger::PatchLedger;
use likeadragon::memory::MemoryRegion;
use likeadragon::pattern::{scan, Pattern, ScanResult};
use likeadragon::process::{locate, ProcessHandle};
use likeadragon::setup::attach;
use likeadragon::target::{locate_target, TargetStrategy};

fn region(base: usize, bytes: Vec<u8>) -> MemoryRegion {
    MemoryRegion::new(base, bytes).unwrap()
}

fn counting(n: usize) -> Vec<u8> {
    (0..n).map(|i| (i as u8).wrapping_mul(7).wrapping_add(3)).collect()
}

fn process(name: &str, addr: usize, size: usize, handle: usize) -> ProcessHandle {
    ProcessHandle { name: name.to_string(), addr, size, handle }
}

#[test]
fn scan_wildcard_signature_at_start() {
    let m = region(0, vec![0x49, 0x8D, 0x50, 0x40, 0x99]);
    let p = Pattern::new(vec![Some(0x49), Some(0x8D), None, Some(0x40)]);
    assert_eq!(scan(&m, &p), Some(ScanResult { address: 0, length: 4 }));
}

#[test]
fn scan_returns_lowest_match() {
    let m = region(0x1000, vec![0x00, 0xAA, 0x01, 0xBB, 0xAA, 0x02, 0xBB, 0xAA, 0x03, 0xBB]);
    let p = Pattern::new(vec![Some(0xAA), None, Some(0xBB)]);
    assert_eq!(scan(&m, &p), Some(ScanResult { address: 0x1001, length: 3 }));
}

#[test]
fn scan_wildcard_matches_any_byte() {
    let p = Pattern::new(vec![None, Some(0x10)]);
    for b in [0x00u8, 0x7F, 0xFF] {
        let m = region(0, vec![0x55, b, 0x10]);
        assert_eq!(scan(&m, &p), Some(ScanResult { address: 1, length: 2 }));
    }
}

#[test]
fn scan_reports_not_found() {
    let m = region(0, vec![0x49, 0x8D, 0x51, 0x40, 0x99]);
    let p = Pattern::exact(&vec![0x49, 0x8D, 0x50, 0x40]);
    assert_eq!(scan(&m, &p), None);
}

#[test]
fn scan_stops_at_end_of_range() {
    // The prefix of the signature sits at the very end of the range.
    let m = region(0, vec![0x00, 0x00, 0x49, 0x8D]);
    let p = Pattern::exact(&vec![0x49, 0x8D, 0x50]);
    assert_eq!(scan(&m, &p), None);
    let longer = Pattern::exact(&vec![0x00, 0x00, 0x49, 0x8D, 0x50]);
    assert_eq!(scan(&m, &longer), None);
}

#[test]
fn scan_match_flush_with_end_of_range() {
    let m = region(0x40, vec![0x01, 0x02, 0x03, 0x49, 0x8D]);
    let p = Pattern::exact(&vec![0x49, 0x8D]);
    assert_eq!(scan(&m, &p), Some(ScanResult { address: 0x43, length: 2 }));
}

#[test]
fn region_refuses_wrapping_range() {
    assert!(MemoryRegion::new(usize::MAX - 1, vec![0, 0, 0]).is_none());
    assert!(MemoryRegion::new(usize::MAX - 2, vec![0, 0]).is_some());
}

#[test]
fn region_read_and_write_are_bounds_checked() {
    let mut m = region(0x100, vec![1, 2, 3, 4]);
    assert_eq!(m.read(0x101, 2), Some(vec![2, 3]));
    assert_eq!(m.read(0x103, 2), None);
    assert_eq!(m.read(0xFF, 1), None);
    assert!(!m.write(0x103, &vec![9, 9]));
    assert_eq!(m.bytes, vec![1, 2, 3, 4]);
    assert!(m.write(0x102, &vec![9, 8]));
    assert_eq!(m.bytes, vec![1, 2, 9, 8]);
    assert!(m.contains(0x100, 4));
    assert!(!m.contains(0x100, 5));
}

#[test]
fn stub_long_form_pads_with_nops() {
    let s = build_stub(0x1122_3344_5566_7788, 18);
    assert_eq!(
        s,
        vec![
            0xFF, 0x25, 0x00, 0x00, 0x00, 0x00, 0x88, 0x77, 0x66, 0x55, 0x44, 0x33, 0x22, 0x11,
            0x90, 0x90, 0x90, 0x90
        ]
    );
}

#[test]
fn stub_short_form_uses_register_jump() {
    let s = build_stub(0x0000_7FF6_1234_5678, 13);
    assert_eq!(
        s,
        vec![0x48, 0xB8, 0x78, 0x56, 0x34, 0x12, 0xF6, 0x7F, 0x00, 0x00, 0xFF, 0xE0, 0x90]
    );
    assert_eq!(build_stub(1, MIN_STUB_LEN).len(), MIN_STUB_LEN);
}

#[test]
fn install_writes_stub_and_saves_window() {
    let before = counting(64);
    let mut m = region(0x4000, before.clone());
    let h = install(&mut m, 0x4008, 0xDEAD_BEEF, 18).unwrap();
    assert_eq!(h.target, 0x4008);
    assert_eq!(h.entry, 0xDEAD_BEEF);
    assert_eq!(h.original, before[8..26].to_vec());
    assert_eq!(h.patch_length(), 18);
    assert_eq!(m.bytes[8..26].to_vec(), build_stub(0xDEAD_BEEF, 18));
    assert_eq!(m.bytes[..8].to_vec(), before[..8].to_vec());
    assert_eq!(m.bytes[26..].to_vec(), before[26..].to_vec());
}

#[test]
fn restore_after_install_round_trips() {
    let before = counting(48);
    let mut m = region(0x4000, before.clone());
    let h = install(&mut m, 0x4010, 0x7777, 18).unwrap();
    assert_ne!(m.bytes, before);
    assert_eq!(restore(&mut m, h), Ok(()));
    assert_eq!(m.bytes, before);
}

#[test]
fn install_refuses_window_below_stub_length() {
    let before = counting(32);
    let mut m = region(0, before.clone());
    let r = install(&mut m, 0, 0x1234, MIN_STUB_LEN - 1);
    assert!(matches!(r, Err(Error::HookInstallError(HookFailure::StubTooShort))));
    assert_eq!(m.bytes, before);
}

#[test]
fn install_refuses_window_past_range() {
    let before = counting(32);
    let mut m = region(0x10, before.clone());
    let r = install(&mut m, 0x10 + 20, 0x1234, 18);
    assert!(matches!(r, Err(Error::HookInstallError(HookFailure::OutOfRange))));
    let r = install(&mut m, 0x8, 0x1234, 18);
    assert!(matches!(r, Err(Error::HookInstallError(HookFailure::OutOfRange))));
    assert_eq!(m.bytes, before);
}

#[test]
fn install_saves_whole_window_beyond_short_original_code() {
    // Only 13 bytes of the site belong to the original instruction run;
    // the window of 18 still saves and restores every byte.
    let mut before = vec![
        0x49, 0x8D, 0x50, 0x40, 0x48, 0x8D, 0x4F, 0x20, 0xE8, 0xB8, 0x76, 0x03, 0x00,
    ];
    before.extend_from_slice(&[0xCC, 0xCC, 0xCC, 0xCC, 0xCC, 0xCC, 0xCC]);
    let mut m = region(0x1F41D1B, before.clone());
    let h = install(&mut m, 0x1F41D1B, 0xABCD, 18).unwrap();
    assert_eq!(h.original.len(), 18);
    assert_eq!(h.original, before[..18].to_vec());
    assert_eq!(restore(&mut m, h), Ok(()));
    assert_eq!(m.bytes, before);
}

#[test]
fn restore_refuses_record_outside_range() {
    let before = counting(16);
    let mut m = region(0, before.clone());
    let h = HookRecord { target: 4, original: vec![0; 14], entry: 0 };
    assert_eq!(restore(&mut m, h), Err(Error::RestoreError));
    assert_eq!(m.bytes, before);
}

#[test]
fn ledger_refuses_second_hook_on_same_site() {
    let before = counting(64);
    let mut m = region(0, before.clone());
    let mut ledger = PatchLedger::new();
    assert_eq!(ledger.install(&mut m, 4, 0x1000, 18), Ok(()));
    let patched = m.bytes.clone();
    assert_eq!(
        ledger.install(&mut m, 4, 0x2000, 18),
        Err(Error::HookInstallError(HookFailure::AlreadyHooked))
    );
    assert_eq!(ledger.len(), 1);
    assert_eq!(m.bytes, patched);
    assert!(ledger.is_hooked(4));
    assert!(!ledger.is_hooked(5));
}

#[test]
fn ledger_keeps_state_when_install_fails() {
    let before = counting(20);
    let mut m = region(0, before.clone());
    let mut ledger = PatchLedger::new();
    assert_eq!(
        ledger.install(&mut m, 0, 0x1000, 8),
        Err(Error::HookInstallError(HookFailure::StubTooShort))
    );
    assert_eq!(
        ledger.install(&mut m, 10, 0x1000, 14),
        Err(Error::HookInstallError(HookFailure::OutOfRange))
    );
    assert_eq!(ledger.len(), 0);
    assert_eq!(m.bytes, before);
}

#[test]
fn teardown_undoes_overlapping_hooks_in_reverse_order() {
    let before = counting(64);
    let mut m = region(0x9000, before.clone());
    let mut ledger = PatchLedger::new();
    assert_eq!(ledger.install(&mut m, 0x9000, 0x1111, 14), Ok(()));
    assert_eq!(ledger.install(&mut m, 0x9004, 0x2222, 14), Ok(()));
    let failed = ledger.teardown(&mut m);
    assert!(failed.is_empty());
    assert_eq!(ledger.len(), 0);
    assert_eq!(m.bytes, before);
}

#[test]
fn teardown_continues_past_failed_restore() {
    let before = counting(64);
    let mut m = region(0, before.clone());
    let mut ledger = PatchLedger::new();
    assert_eq!(ledger.install(&mut m, 0, 0x1111, 14), Ok(()));
    assert_eq!(ledger.install(&mut m, 40, 0x2222, 14), Ok(()));
    assert_eq!(ledger.install(&mut m, 16, 0x3333, 14), Ok(()));
    // The mapping now ends before the second site.
    let mut shrunk = region(0, m.bytes[..32].to_vec());
    let failed = ledger.teardown(&mut shrunk);
    assert_eq!(failed, vec![40]);
    assert_eq!(ledger.len(), 0);
    assert_eq!(shrunk.bytes, before[..32].to_vec());
}

#[test]
fn locate_reports_missing_process() {
    let running = vec![process("explorer.exe", 0x1000, 0x100, 4), process("notepad.exe", 0x2000, 0x200, 8)];
    let r = locate(&"YakuzaLikeADragon.exe".to_string(), &running);
    assert!(matches!(r, Err(Error::ProcessNotFound)));
    let r = locate(&"YakuzaLikeADragon.exe".to_string(), &Vec::new());
    assert!(matches!(r, Err(Error::ProcessNotFound)));
}

#[test]
fn locate_picks_first_process_with_exact_name() {
    let running = vec![
        process("YakuzaLikeADragon.exe.bak", 0x1000, 0x100, 4),
        process("YakuzaLikeADragon.exe", 0x14000_0000, 0x300_0000, 12),
        process("YakuzaLikeADragon.exe", 0x15000_0000, 0x100, 16),
    ];
    let p = locate(&"YakuzaLikeADragon.exe".to_string(), &running).unwrap();
    assert_eq!(p.name, "YakuzaLikeADragon.exe");
    assert_eq!(p.addr, 0x14000_0000);
    assert_eq!(p.size, 0x300_0000);
    assert_eq!(p.handle, 12);
}

#[test]
fn target_from_fixed_offset() {
    let p = process("game.exe", 0x14000_0000, 0x300_0000, 1);
    let image = region(0x14000_0000, vec![0; 8]);
    let r = locate_target(&p, &image, &TargetStrategy::FixedOffset(0x1F41D1B));
    assert_eq!(r, Ok(0x14000_0000 + 0x1F41D1B));
    let r = locate_target(&p, &image, &TargetStrategy::FixedOffset(0x300_0000));
    assert_eq!(r, Err(Error::TargetOutOfRange));
    let high = process("game.exe", usize::MAX - 4, 100, 1);
    let r = locate_target(&high, &image, &TargetStrategy::FixedOffset(10));
    assert_eq!(r, Err(Error::TargetOutOfRange));
}

#[test]
fn target_from_signature() {
    let p = process("game.exe", 0x2000, 8, 1);
    let image = region(0x2000, vec![0x90, 0x48, 0x89, 0x5C, 0x24, 0x08, 0x48, 0x89]);
    let sig = Pattern::new(vec![Some(0x48), Some(0x89), None, Some(0x24)]);
    let r = locate_target(&p, &image, &TargetStrategy::Signature(sig));
    assert_eq!(r, Ok(0x2001));
    let missing = Pattern::exact(&vec![0x48, 0x83, 0xEC]);
    let r = locate_target(&p, &image, &TargetStrategy::Signature(missing));
    assert_eq!(r, Err(Error::PatternNotFound));
}

#[test]
fn exit_button_detection() {
    assert!(exit_requested(EXIT_BUTTON));
    assert!(exit_requested(0x1000 | 0x0001));
    assert!(!exit_requested(0x0000));
    assert!(!exit_requested(0x2000 | 0x0010));
}

#[test]
fn attach_stops_before_scan_when_process_missing() {
    let before = counting(32);
    let mut mem = region(0x100, before.clone());
    let image = region(0x100, before.clone());
    let mut ledger = PatchLedger::new();
    let running = vec![process("other.exe", 0x100, 32, 3)];
    let sig = TargetStrategy::Signature(Pattern::new(vec![None]));
    let r = attach(&"game.exe".to_string(), &running, &image, &sig, &mut ledger, &mut mem, 0x55, 14);
    assert_eq!(r, Err(Error::ProcessNotFound));
    assert_eq!(ledger.len(), 0);
    assert_eq!(mem.bytes, before);
}

#[test]
fn attach_stops_before_install_when_signature_missing() {
    let before = counting(32);
    let mut mem = region(0x100, before.clone());
    let image = region(0x100, before.clone());
    let mut ledger = PatchLedger::new();
    let running = vec![process("game.exe", 0x100, 32, 3)];
    let sig = TargetStrategy::Signature(Pattern::exact(&vec![0xEE, 0xEF]));
    let r = attach(&"game.exe".to_string(), &running, &image, &sig, &mut ledger, &mut mem, 0x55, 14);
    assert_eq!(r, Err(Error::PatternNotFound));
    assert_eq!(ledger.len(), 0);
    assert_eq!(mem.bytes, before);
}

#[test]
fn attach_hooks_signature_site_and_teardown_restores() {
    let mut before = counting(40);
    before[10..14].copy_from_slice(&[0x49, 0x8D, 0x50, 0x40]);
    let mut mem = region(0x100, before.clone());
    let image = region(0x100, before.clone());
    let mut ledger = PatchLedger::new();
    let running = vec![process("game.exe", 0x100, 40, 3)];
    let sig = TargetStrategy::Signature(Pattern::new(vec![Some(0x49), Some(0x8D), None, Some(0x40)]));
    let r = attach(&"game.exe".to_string(), &running, &image, &sig, &mut ledger, &mut mem, 0x55, 18);
    assert_eq!(r, Ok(0x10A));
    assert_eq!(mem.bytes[10..28].to_vec(), build_stub(0x55, 18));
    let r = attach(&"game.exe".to_string(), &running, &image, &sig, &mut ledger, &mut mem, 0x66, 18);
    assert_eq!(r, Err(Error::HookInstallError(HookFailure::AlreadyHooked)));
    assert!(ledger.teardown(&mut mem).is_empty());
    assert_eq!(mem.bytes, before);
}

#[test]
fn attach_fixed_offset_outside_module() {
    let before = counting(16);
    let mut mem = region(0x100, before.clone());
    let image = region(0x100, Vec::new());
    let mut ledger = PatchLedger::new();
    let running = vec![process("game.exe", 0x100, 16, 3)];
    let r = attach(&"game.exe".to_string(), &running, &image, &TargetStrategy::FixedOffset(16), &mut ledger, &mut mem, 0x55, 14);
    assert_eq!(r, Err(Error::TargetOutOfRange));
    let r = attach(&"game.exe".to_string(), &running, &image, &TargetStrategy::FixedOffset(2), &mut ledger, &mut mem, 0x55, 14);
    assert_eq!(r, Ok(0x102));
    assert_eq!(mem.bytes[2..16].to_vec(), build_stub(0x55, 14));
}
