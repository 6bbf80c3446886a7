//! The search for the two trailing words of the region (Y, then X) whose
//! checksum equals a target, on top of a precomputed prefix accumulator.
use vstd::prelude::*;
use rayon::prelude::{IntoParallelIterator, ParallelIterator};
use crate::engine::{checksum_high, checksum_low};
use crate::state::{
    fold, image_word, initial_words, lemma_fold_reads_prefix, lemma_fold_staged, lemma_with_word,
    region_word, with_word, ChecksumInfo,
};

verus! {

/// Image word that holds Y, the second-to-last word of the region.
pub const Y_WORD: usize = 1022;

/// Image word that holds X, the last word of the region.
pub const X_WORD: usize = 1023;

/// Rounds up to this one see none of the two unknown words.
pub const PREFIX_ROUNDS: u32 = 1005;

/// The round that brings Y in, as the next word.
pub const Y_ROUND: u32 = 1006;

/// The 48-bit checksum of an image under a seed, as bits 32 to 47 and 0 to 31.
pub open spec fn image_checksum(seed: u32, rom: Seq<u8>) -> (u32, u32) {
    let s = fold(initial_words(seed, rom), rom, 0, 1008);
    (checksum_high(s), checksum_low(s))
}

/// The image with `y` and `x` written as its two trailing region words.
pub open spec fn with_candidate(rom: Seq<u8>, y: u32, x: u32) -> Seq<u8> {
    with_word(with_word(rom, Y_WORD as int, y), X_WORD as int, x)
}

/// Whether writing `x` as the last word and folding the two last rounds onto
/// the accumulator `s` of `rom` gives the checksum `(high, low)`.
pub open spec fn x_matches(s: Seq<u32>, rom: Seq<u8>, x: u32, high: u32, low: u32) -> bool {
    let f = fold(s, with_word(rom, X_WORD as int, x), 1006, 1008);
    checksum_high(f) == high && checksum_low(f) == low
}

/// The accumulator after round 1006 with `y` written, from the prefix `pre`.
pub open spec fn y_words(pre: Seq<u32>, rom: Seq<u8>, y: u32) -> Seq<u32> {
    fold(pre, with_word(rom, Y_WORD as int, y), 1005, 1006)
}

/// Whether the candidate `(y, x)`, completed from the prefix accumulator `pre`
/// of `rom`, gives the checksum `(high, low)`.
pub open spec fn candidate_matches(pre: Seq<u32>, rom: Seq<u8>, y: u32, x: u32, high: u32, low: u32) -> bool {
    x_matches(y_words(pre, rom, y), with_word(rom, Y_WORD as int, y), x, high, low)
}

/// The accumulator that rounds 1 to 1005 give from the seed, as the search expects.
pub open spec fn is_prefix(pre: ChecksumInfo, seed: u32) -> bool {
    pre.buffer@ == fold(initial_words(seed, pre.rom@), pre.rom@, 0, 1005)
}

/// From a prefix accumulator, a candidate matches a target exactly when the
/// image with that candidate written in has that checksum.
pub proof fn lemma_candidate_is_image_checksum(pre: ChecksumInfo, seed: u32, y: u32, x: u32, high: u32, low: u32)
    requires
        is_prefix(pre, seed),
    ensures
        candidate_matches(pre.buffer@, pre.rom@, y, x, high, low)
            <==> image_checksum(seed, with_candidate(pre.rom@, y, x)) == (high, low),
{
    let rom = pre.rom@;
    let r1 = with_word(rom, Y_WORD as int, y);
    let r2 = with_word(r1, X_WORD as int, x);
    assert forall|j: int| 0 <= j < 1024 implies
        image_word(r2, j) == (if j == X_WORD { x } else if j == Y_WORD { y } else { image_word(rom, j) })
    by {
        lemma_with_word(rom, Y_WORD as int, y, j);
        lemma_with_word(rom, Y_WORD as int, y, 0);
        lemma_with_word(r1, X_WORD as int, x, j);
    }
    let init_r = initial_words(seed, rom);
    let init_r2 = initial_words(seed, r2);
    assert(region_word(r2, 0) == region_word(rom, 0));
    assert(init_r =~= init_r2);
    lemma_fold_reads_prefix(init_r, rom, r2, 0, 1005);
    lemma_fold_reads_prefix(pre.buffer@, r1, r2, 1005, 1006);
    lemma_fold_staged(init_r2, r2, 0, 1005, 1006);
    lemma_fold_staged(init_r2, r2, 0, 1006, 1008);
}

impl ChecksumInfo {
    /// The per-Y accumulator: a copy of this prefix with `y` written as the
    /// second-to-last region word and round 1006 folded in.
    pub fn prepare_y(&self, y: u32) -> (r: ChecksumInfo)
        ensures
            r.rom@ == with_word(self.rom@, Y_WORD as int, y),
            r.buffer@ == y_words(self.buffer@, self.rom@, y),
            r.low == self.low,
            r.high == self.high,
    {
        let mut y_csum = *self;
        y_csum.set_rom_word(Y_WORD, y);
        y_csum.checksum(PREFIX_ROUNDS, Y_ROUND);
        y_csum
    }

    /// Whether writing `x` as the last region word and folding the last two
    /// rounds onto this per-Y accumulator gives the checksum `(high, low)`.
    pub fn try_x(&self, x: u32, high: u32, low: u32) -> (r: bool)
        ensures
            r == x_matches(self.buffer@, self.rom@, x, high, low),
    {
        let mut csum = *self;
        csum.set_rom_word(X_WORD, x);
        csum.checksum(Y_ROUND, 1008);
        csum.finalize_checksum();
        csum.high == high && csum.low == low
    }
}

/// Relies on rayon's `ParallelIterator::find_any` over `0..=x_last`: it hands
/// back some item for which the predicate holds, and `None` only when the
/// predicate holds for no item.
#[verifier::external_body]
fn par_find_x(y_state: &ChecksumInfo, high: u32, low: u32, x_last: u32) -> (r: Option<u32>)
    ensures
        r matches Some(x) ==> x <= x_last && x_matches(y_state.buffer@, y_state.rom@, x, high, low),
        r is None ==> forall|x: u32| x <= x_last ==> !#[trigger] x_matches(y_state.buffer@, y_state.rom@, x, high, low),
{
    (0..=x_last).into_par_iter().find_any(|x| y_state.try_x(*x, high, low))
}

/// Searches `0..=x_last` in parallel for an X that completes the per-Y
/// accumulator to the checksum `(high, low)`. Which of several matching X
/// comes back is left open.
pub fn search_x(y_state: &ChecksumInfo, high: u32, low: u32, x_last: u32) -> (r: Option<u32>)
    ensures
        r matches Some(x) ==> x <= x_last && x_matches(y_state.buffer@, y_state.rom@, x, high, low),
        r is None ==> forall|x: u32| x <= x_last ==> !#[trigger] x_matches(y_state.buffer@, y_state.rom@, x, high, low),
{
    par_find_x(y_state, high, low, x_last)
}

/// Tries Y from `y_first` up to `y_last`, each against every X in `0..=x_last`,
/// from the prefix accumulator `pre`, and stops at the first Y that has a
/// matching X. `None` means that no candidate in the range matches.
pub fn search(pre: &ChecksumInfo, high: u32, low: u32, y_first: u32, y_last: u32, x_last: u32) -> (r: Option<(u32, u32)>)
    ensures
        r matches Some((y, x)) ==> {
            &&& y_first <= y <= y_last
            &&& x <= x_last
            &&& candidate_matches(pre.buffer@, pre.rom@, y, x, high, low)
            &&& forall|yy: u32, xx: u32| y_first <= yy < y && xx <= x_last
                ==> !#[trigger] candidate_matches(pre.buffer@, pre.rom@, yy, xx, high, low)
        },
        r is None ==> forall|y: u32, x: u32| y_first <= y <= y_last && x <= x_last
            ==> !#[trigger] candidate_matches(pre.buffer@, pre.rom@, y, x, high, low),
{
    let mut y: u64 = y_first as u64;
    while y <= y_last as u64
        invariant
            y_first <= y,
            y <= y_last as u64 + 1 || y == y_first,
            forall|yy: u32, xx: u32| y_first <= yy < y && xx <= x_last
                ==> !#[trigger] candidate_matches(pre.buffer@, pre.rom@, yy, xx, high, low),
        decreases y_last as u64 + 1 - y,
    {
        let y_csum = pre.prepare_y(y as u32);
        match search_x(&y_csum, high, low, x_last) {
            Some(x) => {
                return Some((y as u32, x));
            },
            None => {
                assert forall|yy: u32, xx: u32| y_first <= yy < y + 1 && xx <= x_last
                    implies !#[trigger] candidate_matches(pre.buffer@, pre.rom@, yy, xx, high, low) by {
                    if yy as u64 == y {
                        assert(!x_matches(y_csum.buffer@, y_csum.rom@, xx, high, low));
                    }
                }
            },
        }
        y = y + 1;
    }
    None
}

/// The checksum that an image has under a seed, as bits 32 to 47 and 0 to 31.
pub fn target_checksum(seed: u32, rom: [u8; 4096]) -> (r: (u32, u32))
    ensures
        r == image_checksum(seed, rom@),
{
    let mut csum = ChecksumInfo::new(seed, rom);
    csum.calc_checksum();
    csum.finalize_checksum();
    (csum.high, csum.low)
}

/// The prefix accumulator of an image: rounds 1 to 1005 from the seed.
pub fn prefix_state(seed: u32, rom: [u8; 4096]) -> (r: ChecksumInfo)
    ensures
        r.rom == rom,
        is_prefix(r, seed),
{
    let mut pre = ChecksumInfo::new(seed, rom);
    pre.checksum(0, PREFIX_ROUNDS);
    pre
}

/// Searches for the two trailing region words of `rom`, Y in
/// `y_first..=y_last` ascending and X in `0..=x_last`, that give the image
/// the checksum `(high, low)` under `seed`. A candidate that comes back gives
/// that checksum and no smaller Y in the range has one; `None` means that no
/// candidate in the range gives it.
pub fn find_candidate(seed: u32, rom: [u8; 4096], high: u32, low: u32, y_first: u32, y_last: u32, x_last: u32) -> (r: Option<(u32, u32)>)
    ensures
        r matches Some((y, x)) ==> {
            &&& y_first <= y <= y_last
            &&& x <= x_last
            &&& image_checksum(seed, with_candidate(rom@, y, x)) == (high, low)
            &&& forall|yy: u32, xx: u32| y_first <= yy < y && xx <= x_last
                ==> #[trigger] image_checksum(seed, with_candidate(rom@, yy, xx)) != (high, low)
        },
        r is None ==> forall|y: u32, x: u32| y_first <= y <= y_last && x <= x_last
            ==> #[trigger] image_checksum(seed, with_candidate(rom@, y, x)) != (high, low),
{
    let pre = prefix_state(seed, rom);
    let r = search(&pre, high, low, y_first, y_last, x_last);
    assert forall|y: u32, x: u32| true implies
        #[trigger] image_checksum(seed, with_candidate(rom@, y, x)) == (high, low)
            <==> candidate_matches(pre.buffer@, pre.rom@, y, x, high, low) by {
        lemma_candidate_is_image_checksum(pre, seed, y, x, high, low);
    }
    r
}

} // verus!
