//! The image together with its accumulator: seeding, staged folds over
//! sub-ranges of the checksummed region, and finalization.
use vstd::prelude::*;
use vstd::slice::slice_subrange;
use byteorder::{BigEndian, ByteOrder};
use crate::engine::{finalize, round, checksum_high, checksum_low, round_words, LAST_ROUND, MAGIC_NUMBER};

verus! {

/// Size of an image in bytes.
pub const ROM_SIZE: usize = 4096;

/// Index, in whole-image words, of the first word of the checksummed region.
pub const REGION_START: usize = 16;

/// The big-endian value of four bytes.
pub open spec fn be_u32(b0: u8, b1: u8, b2: u8, b3: u8) -> u32 {
    (b0 as int * 0x100_0000 + b1 as int * 0x1_0000 + b2 as int * 0x100 + b3 as int) as u32
}

/// Word `i` of an image, counting 4-byte big-endian words from its start.
pub open spec fn image_word(rom: Seq<u8>, i: int) -> u32 {
    be_u32(rom[4 * i], rom[4 * i + 1], rom[4 * i + 2], rom[4 * i + 3])
}

/// Word `k` of the checksummed region, `0 <= k < 1008`.
pub open spec fn region_word(rom: Seq<u8>, k: int) -> u32 {
    image_word(rom, REGION_START + k)
}

/// The initial register value for a seed: the low byte of the seed times the
/// magic number, plus one, XORed with the first word of the region.
pub open spec fn seed_word(seed: u32, rom: Seq<u8>) -> u32 {
    MAGIC_NUMBER.wrapping_mul(seed & 0xff).wrapping_add(1) ^ region_word(rom, 0)
}

/// The accumulator of a fresh computation: the seed word in all 16 registers.
pub open spec fn initial_words(seed: u32, rom: Seq<u8>) -> Seq<u32> {
    Seq::new(16, |i: int| seed_word(seed, rom))
}

/// Round `idx` (1-based) over the region: its data word is word `idx - 1`,
/// the previous word is word `idx - 2` (word 0 for the first round), and the
/// next word is word `idx`, or zero in the last round.
pub open spec fn round_at(s: Seq<u32>, rom: Seq<u8>, idx: nat) -> Seq<u32> {
    let last = if idx >= 2 { region_word(rom, idx - 2) } else { region_word(rom, 0) };
    let data = region_word(rom, idx - 1);
    let next = if idx < LAST_ROUND { region_word(rom, idx as int) } else { 0 };
    round_words(s, last, data, next, idx as u32)
}

/// Rounds `start + 1` to `end` applied in order to `s`; nothing when `end <= start`.
pub open spec fn fold(s: Seq<u32>, rom: Seq<u8>, start: nat, end: nat) -> Seq<u32>
    decreases end,
{
    if end <= start {
        s
    } else {
        round_at(fold(s, rom, start, (end - 1) as nat), rom, end)
    }
}

/// Folding `[a, b)` and then `[b, c)` is folding `[a, c)`.
pub proof fn lemma_fold_staged(s: Seq<u32>, rom: Seq<u8>, a: nat, b: nat, c: nat)
    requires
        a <= b <= c,
    ensures
        fold(fold(s, rom, a, b), rom, b, c) == fold(s, rom, a, c),
    decreases c,
{
    if c > b {
        lemma_fold_staged(s, rom, a, b, (c - 1) as nat);
    }
}

/// The search's three stages, rounds 1 to 1005, then 1006, then 1007 and 1008,
/// leave the same 16 registers as folding the whole region at once.
pub proof fn lemma_fold_search_stages(s: Seq<u32>, rom: Seq<u8>)
    ensures
        fold(fold(fold(s, rom, 0, 1005), rom, 1005, 1006), rom, 1006, 1008) == fold(s, rom, 0, 1008),
{
    lemma_fold_staged(s, rom, 0, 1005, 1006);
    lemma_fold_staged(s, rom, 0, 1006, 1008);
}

/// A fold up to round `end` reads no region word past word `end`, so two
/// images that agree on words `0..=end` fold alike.
pub proof fn lemma_fold_reads_prefix(s: Seq<u32>, rom1: Seq<u8>, rom2: Seq<u8>, start: nat, end: nat)
    requires
        forall|k: int| 0 <= k <= end ==> region_word(rom1, k) == region_word(rom2, k),
    ensures
        fold(s, rom1, start, end) == fold(s, rom2, start, end),
    decreases end,
{
    if end > start {
        lemma_fold_reads_prefix(s, rom1, rom2, start, (end - 1) as nat);
    }
}

/// The image with `v` written big-endian as its word `i`.
pub open spec fn with_word(rom: Seq<u8>, i: int, v: u32) -> Seq<u8> {
    rom.update(4 * i, (v >> 24) as u8).update(4 * i + 1, (v >> 16) as u8).update(
        4 * i + 2,
        (v >> 8) as u8,
    ).update(4 * i + 3, v as u8)
}

/// Writing a word changes that word to the value written and no other word.
pub proof fn lemma_with_word(rom: Seq<u8>, i: int, v: u32, j: int)
    requires
        rom.len() == 4096,
        0 <= i < 1024,
        0 <= j < 1024,
    ensures
        with_word(rom, i, v).len() == 4096,
        image_word(with_word(rom, i, v), j) == if j == i { v } else { image_word(rom, j) },
{
    let b0 = (v >> 24) as u8;
    let b1 = (v >> 16) as u8;
    let b2 = (v >> 8) as u8;
    let b3 = v as u8;
    assert(b0 as u32 * 0x100_0000 + b1 as u32 * 0x1_0000 + b2 as u32 * 0x100 + b3 as u32 == v)
        by (bit_vector)
        requires
            b0 == (v >> 24) as u8,
            b1 == (v >> 16) as u8,
            b2 == (v >> 8) as u8,
            b3 == v as u8,
    ;
}

/// Relies on byteorder's `BigEndian::read_u32`: the big-endian value of the
/// first four bytes (it panics on fewer than four).
#[verifier::external_body]
fn read_be_u32(buf: &[u8]) -> (r: u32)
    requires
        buf@.len() >= 4,
    ensures
        r == be_u32(buf@[0], buf@[1], buf@[2], buf@[3]),
{
    BigEndian::read_u32(buf)
}

/// An image with its 16-register accumulator and its last finalized checksum.
#[derive(Clone, Copy)]
pub struct ChecksumInfo {
    pub buffer: [u32; 16],
    pub low: u32,
    pub high: u32,
    pub rom: [u8; 4096],
}

impl ChecksumInfo {
    /// Word `idx` of the image, counting 4-byte big-endian words from its start.
    pub fn rom_word(&self, idx: usize) -> (r: u32)
        requires
            idx < 1024,
        ensures
            r == image_word(self.rom@, idx as int),
    {
        let bytes = slice_subrange(self.rom.as_slice(), idx * 4, idx * 4 + 4);
        read_be_u32(bytes)
    }

    /// Writes `v` big-endian as word `idx` of the image.
    pub fn set_rom_word(&mut self, idx: usize, v: u32)
        requires
            idx < 1024,
        ensures
            final(self).rom@ == with_word(old(self).rom@, idx as int, v),
            final(self).buffer == old(self).buffer,
            final(self).low == old(self).low,
            final(self).high == old(self).high,
    {
        self.rom[idx * 4] = (v >> 24u32) as u8;
        self.rom[idx * 4 + 1] = (v >> 16u32) as u8;
        self.rom[idx * 4 + 2] = (v >> 8u32) as u8;
        self.rom[idx * 4 + 3] = v as u8;
        assert(self.rom@ =~= with_word(old(self).rom@, idx as int, v));
    }

    /// A fresh computation over `rom`: every register holds the seed word.
    pub fn new(seed: u32, rom: [u8; 4096]) -> (r: ChecksumInfo)
        ensures
            r.buffer@ == initial_words(seed, rom@),
            r.rom == rom,
            r.low == 0,
            r.high == 0,
    {
        let init = MAGIC_NUMBER.wrapping_mul(seed & 0xff).wrapping_add(1);
        let fresh = ChecksumInfo { buffer: [0u32; 16], low: 0, high: 0, rom };
        let data = fresh.rom_word(REGION_START);
        let init = init ^ data;
        let r = ChecksumInfo { buffer: [init; 16], low: 0, high: 0, rom };
        assert(r.buffer@ =~= initial_words(seed, rom@));
        r
    }

    /// Folds the whole region into the accumulator.
    pub fn calc_checksum(&mut self)
        ensures
            final(self).buffer@ == fold(old(self).buffer@, old(self).rom@, 0, 1008),
            final(self).rom == old(self).rom,
            final(self).low == old(self).low,
            final(self).high == old(self).high,
    {
        self.checksum(0, LAST_ROUND);
    }

    /// Folds rounds `start + 1` to `count` into the accumulator; nothing when
    /// `count <= start`.
    pub fn checksum(&mut self, start: u32, count: u32)
        requires
            count <= 1008,
        ensures
            final(self).buffer@ == fold(old(self).buffer@, old(self).rom@, start as nat, count as nat),
            final(self).rom == old(self).rom,
            final(self).low == old(self).low,
            final(self).high == old(self).high,
    {
        let ghost s0 = self.buffer@;
        let mut loop_idx: u32 = start;
        while loop_idx < count
            invariant
                start <= loop_idx,
                loop_idx <= count || loop_idx == start,
                count <= 1008,
                self.rom == old(self).rom,
                self.low == old(self).low,
                self.high == old(self).high,
                self.buffer@ == fold(s0, self.rom@, start as nat, loop_idx as nat),
            decreases count - loop_idx,
        {
            loop_idx = loop_idx + 1;
            let word = REGION_START + loop_idx as usize - 1;
            let data_last = if loop_idx >= 2 { self.rom_word(word - 1) } else { self.rom_word(REGION_START) };
            let data = self.rom_word(word);
            let data_next = if loop_idx < LAST_ROUND { self.rom_word(word + 1) } else { 0 };
            round(&mut self.buffer, data_last, data, data_next, loop_idx);
            assert(self.buffer@ == round_at(fold(s0, self.rom@, start as nat, (loop_idx - 1) as nat), self.rom@, loop_idx as nat));
        }
    }

    /// Computes the checksum of the accumulator into `high` and `low`.
    pub fn finalize_checksum(&mut self)
        ensures
            final(self).high == checksum_high(old(self).buffer@),
            final(self).low == checksum_low(old(self).buffer@),
            final(self).buffer == old(self).buffer,
            final(self).rom == old(self).rom,
    {
        let (high, low) = finalize(&self.buffer);
        self.high = high;
        self.low = low;
    }
}

} // verus!
