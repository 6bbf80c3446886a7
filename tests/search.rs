use cic_csum::search::{find_candidate, prefix_state, search, search_x, target_checksum};
use cic_csum::state::ChecksumInfo;
use cic_csum::sweep::{DeviceSweep, SweepStep};

fn sample_image() -> [u8; 4096] {
    let mut rom = [0u8; 4096];
    for (i, b) in rom.iter_mut().enumerate() {
        *b = ((i * 7 + 3) & 0xff) as u8;
    }
    rom
}

fn with_candidate(rom: [u8; 4096], y: u32, x: u32) -> [u8; 4096] {
    let mut out = rom;
    out[4088..4092].copy_from_slice(&y.to_be_bytes());
    out[4092..4096].copy_from_slice(&x.to_be_bytes());
    out
}

#[test]
fn target_checksum_of_candidate_image() {
    let rom = with_candidate(sample_image(), 5, 77);
    assert_eq!(target_checksum(0x3f, rom), (0x94ce, 0xaac8_2408));
    assert_eq!(target_checksum(0x3f, sample_image()), (0x42eb, 0xc23d_ef06));
}

#[test]
fn staged_candidate_matches_whole_image() {
    let rom = sample_image();
    let pre = prefix_state(0x3f, rom);
    let y_state = pre.prepare_y(5);
    assert!(y_state.try_x(77, 0x94ce, 0xaac8_2408));
    assert!(!y_state.try_x(78, 0x94ce, 0xaac8_2408));
    let mut whole = ChecksumInfo::new(0x3f, with_candidate(rom, 5, 77));
    whole.checksum(0, 1006);
    assert_eq!(whole.buffer, y_state.buffer);
}

#[test]
fn search_finds_reachable_candidate() {
    let rom = sample_image();
    let (high, low) = target_checksum(0x3f, with_candidate(rom, 5, 77));
    let found = find_candidate(0x3f, rom, high, low, 2, 9, 300);
    let (y, x) = found.expect("a candidate in range");
    assert!(y <= 5);
    assert!(x <= 300);
    assert_eq!(target_checksum(0x3f, with_candidate(rom, y, x)), (high, low));
}

#[test]
fn search_reports_exhaustion() {
    let rom = sample_image();
    // the high part of a checksum never exceeds sixteen bits
    assert_eq!(find_candidate(0x3f, rom, 0x1_0000, 0, 0, 3, 99), None);
    let pre = prefix_state(0x3f, rom);
    assert_eq!(search(&pre, 0x94ce, 0xaac8_2408, 6, 8, 200), None);
    assert_eq!(search(&pre, 0x94ce, 0xaac8_2408, 9, 2, 200), None);
}

#[test]
fn search_x_over_one_y() {
    let pre = prefix_state(0x3f, sample_image());
    let y_state = pre.prepare_y(5);
    assert_eq!(search_x(&y_state, 0x94ce, 0xaac8_2408, 1000), Some(77));
    assert_eq!(search_x(&y_state, 0x94ce, 0xaac8_2408, 76), None);
    assert_eq!(search(&pre, 0x94ce, 0xaac8_2408, 5, 5, 500), Some((5, 77)));
}

#[test]
fn sweep_needs_a_batch() {
    assert_eq!(DeviceSweep::new(0, 0, 20), None);
    assert_eq!(DeviceSweep::new(0, 400, 0), None);
    let s = DeviceSweep::new(7, 400, 20000).unwrap();
    assert_eq!((s.y, s.x_offset, s.batch), (7, 0, 8_000_000));
}

#[test]
fn sweep_advances_x_then_y() {
    let mut s = DeviceSweep::new(3, 0x4000_0000, 2).unwrap();
    assert_eq!(s.next(false), SweepStep::Dispatch { y: 3, x_offset: 0x8000_0000, new_y: false });
    assert_eq!(s.next(false), SweepStep::Dispatch { y: 4, x_offset: 0, new_y: true });
    assert_eq!(s.next(true), SweepStep::Found);
    assert_eq!((s.y, s.x_offset), (4, 0));
}

#[test]
fn sweep_ends_after_largest_y() {
    let mut s = DeviceSweep::new(u32::MAX, 0xffff_ffff, 0xffff_ffff).unwrap();
    assert_eq!(s.next(false), SweepStep::Exhausted);
    let mut t = DeviceSweep::new(u32::MAX - 1, 0xffff_ffff, 0xffff_ffff).unwrap();
    assert_eq!(t.next(false), SweepStep::Dispatch { y: u32::MAX, x_offset: 0, new_y: true });
    assert_eq!(t.next(false), SweepStep::Exhausted);
}

#[test]
fn sweep_small_batches_cover_every_x() {
    let mut s = DeviceSweep::new(0, 0x8000_0000, 1).unwrap();
    assert_eq!(s.next(false), SweepStep::Dispatch { y: 0, x_offset: 0x8000_0000, new_y: false });
    assert_eq!(s.next(false), SweepStep::Dispatch { y: 1, x_offset: 0, new_y: true });
}
