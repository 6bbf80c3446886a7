use cic_csum::engine::{checksum_function, finalize, rotate_left, rotate_right, round, MAGIC_NUMBER};
use cic_csum::state::ChecksumInfo;
use rand::{Rng, SeedableRng};

fn sample_image() -> [u8; 4096] {
    let mut rom = [0u8; 4096];
    for (i, b) in rom.iter_mut().enumerate() {
        *b = ((i * 7 + 3) & 0xff) as u8;
    }
    rom
}

#[test]
fn mix_exact_values() {
    assert_eq!(checksum_function(0, 5, 7), 0);
    assert_eq!(checksum_function(1, 0, 9), 0xffff_fff7);
    assert_eq!(checksum_function(0x1234_5678, 0x9abc_def0, 3), 0xe6d3_c9ce);
    assert_eq!(checksum_function(0xffff_ffff, 0xffff_ffff, 1), 0xffff_fffd);
    assert_eq!(checksum_function(2, 0x8000_0000, 0), 1);
    assert_eq!(checksum_function(MAGIC_NUMBER, 0, 0x10), 0x3f87_69b6);
}

#[test]
fn mix_zero_middle_takes_last() {
    let mut rng = rand::rngs::StdRng::seed_from_u64(7);
    for _ in 0..1000 {
        let a: u32 = rng.gen();
        let c: u32 = rng.gen();
        assert_eq!(checksum_function(a, 0, c), checksum_function(a, c, c));
    }
    assert_eq!(checksum_function(0, 0, 0), checksum_function(0, 0, 0));
}

#[test]
fn mix_is_repeatable() {
    let first = checksum_function(0xdead_beef, 0x1234, 77);
    for _ in 0..10 {
        assert_eq!(checksum_function(0xdead_beef, 0x1234, 77), first);
    }
}

#[test]
fn rotations_by_zero_are_identity() {
    assert_eq!(rotate_right(0x8000_0001, 0), 0x8000_0001);
    assert_eq!(rotate_left(0x8000_0001, 0), 0x8000_0001);
    assert_eq!(rotate_right(0x8000_0001, 1), 0xc000_0000);
    assert_eq!(rotate_left(0x8000_0001, 1), 0x0000_0003);
    assert_eq!(rotate_right(0x1234_5678, 31), rotate_left(0x1234_5678, 1));
}

#[test]
fn last_round_leaves_upper_registers() {
    let mut state = [0x1111_1111u32; 16];
    round(&mut state, 3, 9, 0, 1008);
    for r in state[10..].iter() {
        assert_eq!(*r, 0x1111_1111);
    }
    assert_eq!(state[2], 0x1111_1111 ^ 9);
    let mut other = [0x1111_1111u32; 16];
    round(&mut other, 3, 9, 0, 1007);
    assert_ne!(other[10..], state[10..]);
}

#[test]
fn finalize_high_part_fits_sixteen_bits() {
    let mut rng = rand::rngs::StdRng::seed_from_u64(11);
    for _ in 0..200 {
        let mut state = [0u32; 16];
        for r in state.iter_mut() {
            *r = rng.gen();
        }
        let (high, _low) = finalize(&state);
        assert!(high <= 0xffff);
    }
}

#[test]
fn rom_word_is_big_endian() {
    let rom = sample_image();
    let csum = ChecksumInfo::new(0, rom);
    assert_eq!(csum.rom_word(0), 0x030a_1118);
    assert_eq!(csum.rom_word(16), 0xc3ca_d1d8);
}

#[test]
fn seed_word_fills_every_register() {
    let csum = ChecksumInfo::new(0x3f, sample_image());
    assert_eq!(csum.buffer, [0x5610_1e04u32; 16]);
    assert_eq!(csum.low, 0);
    assert_eq!(csum.high, 0);
    let wide = ChecksumInfo::new(0x13f, sample_image());
    assert_eq!(wide.buffer, csum.buffer);
}

#[test]
fn regression_vector() {
    let mut csum = ChecksumInfo::new(0x3f, sample_image());
    csum.calc_checksum();
    csum.finalize_checksum();
    assert_eq!((csum.high, csum.low), (0x42eb, 0xc23d_ef06));

    let mut other = ChecksumInfo::new(0x91, sample_image());
    other.checksum(0, 1008);
    other.finalize_checksum();
    assert_eq!((other.high, other.low), (0x5646, 0x2720_55cb));
}

#[test]
fn prefix_fold_values() {
    let mut csum = ChecksumInfo::new(0x3f, sample_image());
    csum.checksum(0, 1005);
    assert_eq!(csum.buffer[..4], [0x3b92_9fe6, 0x7b2c_ee5d, 0x15da_4f9c, 0xd8e8_75a7]);
}

#[test]
fn staged_fold_matches_whole_fold() {
    let mut rng = rand::rngs::StdRng::seed_from_u64(3);
    for _ in 0..5 {
        let mut rom = [0u8; 4096];
        for b in rom.iter_mut() {
            *b = rng.gen();
        }
        let seed: u32 = rng.gen::<u16>() as u32;
        let mut whole = ChecksumInfo::new(seed, rom);
        whole.checksum(0, 1008);
        let mut staged = ChecksumInfo::new(seed, rom);
        staged.checksum(0, 1005);
        staged.checksum(1005, 1006);
        staged.checksum(1006, 1008);
        assert_eq!(whole.buffer, staged.buffer);
        let mut thirds = ChecksumInfo::new(seed, rom);
        thirds.checksum(0, 1);
        thirds.checksum(1, 500);
        thirds.checksum(500, 1008);
        assert_eq!(whole.buffer, thirds.buffer);
    }
}

#[test]
fn empty_fold_changes_nothing() {
    let mut csum = ChecksumInfo::new(0x3f, sample_image());
    let before = csum.buffer;
    csum.checksum(700, 700);
    assert_eq!(csum.buffer, before);
    csum.checksum(900, 10);
    assert_eq!(csum.buffer, before);
}

#[test]
fn set_rom_word_writes_big_endian() {
    let mut csum = ChecksumInfo::new(0, sample_image());
    csum.set_rom_word(1023, 0x0102_0304);
    assert_eq!(csum.rom[4092..], [1, 2, 3, 4]);
    assert_eq!(csum.rom_word(1023), 0x0102_0304);
    assert_eq!(csum.rom_word(1022), ChecksumInfo::new(0, sample_image()).rom_word(1022));
}
