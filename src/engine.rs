//! The stateless mixing primitive, the round update and the finalization.
use vstd::prelude::*;

verus! {

/// The multiplier shared by the seed and by register 3 of the round update.
pub const MAGIC_NUMBER: u32 = 0x6c07_8965;

/// The last round index: the checksummed region holds this many words.
pub const LAST_ROUND: u32 = 1008;

/// `mix(a, b, c)`: `b` falls back to `c` when zero; then the difference of the
/// high and low halves of the 64-bit product `a * b`, or `a` when they agree.
pub open spec fn mix(a: u32, b: u32, c: u32) -> u32 {
    let m: u32 = if b == 0 { c } else { b };
    let p: int = a as int * m as int;
    let hi = (p / 0x1_0000_0000) as u32;
    let lo = (p % 0x1_0000_0000) as u32;
    let diff = hi.wrapping_sub(lo);
    if diff == 0 { a } else { diff }
}

/// Rotation to the right by `s` bits, `s < 32`; a rotation by zero is the identity.
pub open spec fn rot_right(v: u32, s: u32) -> u32 {
    if s == 0 { v } else { (v >> s) | (v << ((32 - s) as u32)) }
}

/// Rotation to the left by `s` bits, `s < 32`; a rotation by zero is the identity.
pub open spec fn rot_left(v: u32, s: u32) -> u32 {
    if s == 0 { v } else { (v << s) | (v >> ((32 - s) as u32)) }
}

/// One round of the accumulator update, driven by the previous, current and
/// next data word and the 1-based round index. The last round leaves
/// registers 10 to 15 alone.
pub open spec fn round_words(s: Seq<u32>, last: u32, data: u32, next: u32, idx: u32) -> Seq<u32> {
    let r0 = s[0].wrapping_add(mix(1007u32.wrapping_sub(idx), data, idx));
    let r1 = mix(s[1], data, idx);
    let r2 = s[2] ^ data;
    let r3 = s[3].wrapping_add(mix(data.wrapping_add(5), MAGIC_NUMBER, idx));
    let r9 = if last < data { mix(s[9], data, idx) } else { s[9].wrapping_add(data) };
    let ra = rot_right(data, last & 31);
    let r4 = s[4].wrapping_add(ra);
    let r7 = mix(s[7], rot_left(data, last & 31), idx);
    let r6 = if data < s[6] {
        r3.wrapping_add(s[6]) ^ data.wrapping_add(idx)
    } else {
        r4.wrapping_add(data) ^ s[6]
    };
    let lb = rot_left(data, last >> 27);
    let r5 = s[5].wrapping_add(lb);
    let r8 = mix(s[8], rot_right(data, last >> 27), idx);
    if idx == LAST_ROUND {
        seq![r0, r1, r2, r3, r4, r5, r6, r7, r8, r9, s[10], s[11], s[12], s[13], s[14], s[15]]
    } else {
        let r15 = mix(mix(s[15], lb, idx), rot_left(next, data >> 27), idx);
        let r14 = mix(mix(s[14], ra, idx), rot_right(next, data & 31), idx);
        let r13 = s[13].wrapping_add(
            rot_right(data, data & 31).wrapping_add(rot_right(next, next & 31)),
        );
        let r10 = mix(s[10].wrapping_add(data), next, idx);
        let r11 = mix(s[11] ^ data, next, idx);
        let r12 = s[12].wrapping_add(r8 ^ data);
        seq![r0, r1, r2, r3, r4, r5, r6, r7, r8, r9, r10, r11, r12, r13, r14, r15]
    }
}

/// One step of the finalization over register `i`, whose value is `data`.
pub open spec fn final_step(acc: (u32, u32, u32, u32), data: u32, i: u32) -> (u32, u32, u32, u32) {
    let a0 = acc.0.wrapping_add(rot_right(data, data & 31));
    let a1 = if data < a0 { acc.1.wrapping_add(data) } else { mix(acc.1, data, i) };
    let a2 = if (data & 2) >> 1 == data & 1 { acc.2.wrapping_add(data) } else { mix(acc.2, data, i) };
    let a3 = if data & 1 == 1 { acc.3 ^ data } else { mix(acc.3, data, i) };
    (a0, a1, a2, a3)
}

/// The four finalization accumulators after the first `n` registers of `s`.
pub open spec fn final_accs(s: Seq<u32>, n: nat) -> (u32, u32, u32, u32)
    decreases n,
{
    if n == 0 {
        (s[0], s[0], s[0], s[0])
    } else {
        final_step(final_accs(s, (n - 1) as nat), s[n - 1], (n - 1) as u32)
    }
}

/// The 48-bit checksum of a 16-word accumulator: `mix(acc0, acc1, 16)` in the
/// upper 32 bits, `acc3 ^ acc2` in the lower, masked to 48 bits.
pub open spec fn checksum48(s: Seq<u32>) -> u64 {
    let acc = final_accs(s, 16);
    let sum = mix(acc.0, acc.1, 16);
    let tmp = acc.3 ^ acc.2;
    (((sum as u64) << 32u64) | (tmp as u64)) & 0xffff_ffff_ffffu64
}

/// Bits 32 to 47 of the checksum.
pub open spec fn checksum_high(s: Seq<u32>) -> u32 {
    (checksum48(s) >> 32u64) as u32
}

/// Bits 0 to 31 of the checksum.
pub open spec fn checksum_low(s: Seq<u32>) -> u32 {
    checksum48(s) as u32
}

/// A zero middle argument is replaced by the last one.
pub proof fn lemma_mix_zero_is_last(a: u32, c: u32)
    ensures
        mix(a, 0, c) == mix(a, c, c),
{
}

/// The mixing primitive; its result depends on its three arguments alone.
pub fn checksum_function(a0: u32, a1: u32, a2: u32) -> (r: u32)
    ensures
        r == mix(a0, a1, a2),
{
    let a1 = if a1 == 0 { a2 } else { a1 };
    assert(a0 as int * a1 as int <= 0xffff_fffe_0000_0001) by (nonlinear_arith)
        requires
            a0 <= 0xffff_ffff,
            a1 <= 0xffff_ffff,
            0 <= a0,
            0 <= a1,
    ;
    let prod: u64 = (a0 as u64) * (a1 as u64);
    let hi = (prod >> 32u64) as u32;
    let lo = prod as u32;
    assert(hi == (prod / 0x1_0000_0000) as u32 && lo == (prod % 0x1_0000_0000) as u32)
        by (bit_vector)
        requires
            hi == (prod >> 32u64) as u32,
            lo == prod as u32,
    ;
    let diff = hi.wrapping_sub(lo);
    if diff == 0 {
        a0
    } else {
        diff
    }
}

/// Rotation to the right, with a rotation by zero left as the identity.
pub fn rotate_right(v: u32, s: u32) -> (r: u32)
    requires
        s < 32,
    ensures
        r == rot_right(v, s),
{
    if s == 0 {
        v
    } else {
        (v >> s) | (v << (32 - s))
    }
}

/// Rotation to the left, with a rotation by zero left as the identity.
pub fn rotate_left(v: u32, s: u32) -> (r: u32)
    requires
        s < 32,
    ensures
        r == rot_left(v, s),
{
    if s == 0 {
        v
    } else {
        (v << s) | (v >> (32 - s))
    }
}

/// Bounds on the rotation amounts that the round and the finalization derive.
proof fn lemma_shift_amounts(v: u32)
    ensures
        v & 31 < 32,
        v >> 27 < 32,
{
    assert(v & 31 < 32 && v >> 27 < 32) by (bit_vector);
}

/// Applies round `idx` to the accumulator, given the previous, current and
/// next data word.
pub fn round(state: &mut [u32; 16], last: u32, data: u32, next: u32, idx: u32)
    ensures
        final(state)@ == round_words(old(state)@, last, data, next, idx),
{
    proof {
        lemma_shift_amounts(last);
        lemma_shift_amounts(data);
        lemma_shift_amounts(next);
    }
    let ghost s = state@;
    let r0 = state[0].wrapping_add(checksum_function(1007u32.wrapping_sub(idx), data, idx));
    let r1 = checksum_function(state[1], data, idx);
    let r2 = state[2] ^ data;
    let r3 = state[3].wrapping_add(checksum_function(data.wrapping_add(5), MAGIC_NUMBER, idx));
    let r9 = if last < data {
        checksum_function(state[9], data, idx)
    } else {
        state[9].wrapping_add(data)
    };
    let ra = rotate_right(data, last & 31);
    let r4 = state[4].wrapping_add(ra);
    let r7 = checksum_function(state[7], rotate_left(data, last & 31), idx);
    let r6 = if data < state[6] {
        r3.wrapping_add(state[6]) ^ data.wrapping_add(idx)
    } else {
        r4.wrapping_add(data) ^ state[6]
    };
    let lb = rotate_left(data, last >> 27);
    let r5 = state[5].wrapping_add(lb);
    let r8 = checksum_function(state[8], rotate_right(data, last >> 27), idx);
    state[0] = r0;
    state[1] = r1;
    state[2] = r2;
    state[3] = r3;
    state[4] = r4;
    state[5] = r5;
    state[6] = r6;
    state[7] = r7;
    state[8] = r8;
    state[9] = r9;
    if idx == LAST_ROUND {
        assert(state@ =~= round_words(s, last, data, next, idx));
        return ;
    }
    let t15 = checksum_function(state[15], lb, idx);
    let r15 = checksum_function(t15, rotate_left(next, data >> 27), idx);
    let t14 = checksum_function(state[14], ra, idx);
    let r14 = checksum_function(t14, rotate_right(next, data & 31), idx);
    let r13 = state[13].wrapping_add(
        rotate_right(data, data & 31).wrapping_add(rotate_right(next, next & 31)),
    );
    let r10 = checksum_function(state[10].wrapping_add(data), next, idx);
    let r11 = checksum_function(state[11] ^ data, next, idx);
    let r12 = state[12].wrapping_add(r8 ^ data);
    state[10] = r10;
    state[11] = r11;
    state[12] = r12;
    state[13] = r13;
    state[14] = r14;
    state[15] = r15;
    assert(state@ =~= round_words(s, last, data, next, idx));
}

/// The checksum of an accumulator, as its bits 32 to 47 and 0 to 31.
pub fn finalize(state: &[u32; 16]) -> (r: (u32, u32))
    ensures
        r.0 == checksum_high(state@),
        r.1 == checksum_low(state@),
{
    let mut a0 = state[0];
    let mut a1 = state[0];
    let mut a2 = state[0];
    let mut a3 = state[0];
    let mut i: usize = 0;
    while i < 16
        invariant
            i <= 16,
            (a0, a1, a2, a3) == final_accs(state@, i as nat),
        decreases 16 - i,
    {
        let data = state[i];
        proof {
            lemma_shift_amounts(data);
        }
        a0 = a0.wrapping_add(rotate_right(data, data & 31));
        if data < a0 {
            a1 = a1.wrapping_add(data);
        } else {
            a1 = checksum_function(a1, data, i as u32);
        }
        if (data & 2) >> 1 == data & 1 {
            a2 = a2.wrapping_add(data);
        } else {
            a2 = checksum_function(a2, data, i as u32);
        }
        if data & 1 == 1 {
            a3 = a3 ^ data;
        } else {
            a3 = checksum_function(a3, data, i as u32);
        }
        i = i + 1;
    }
    let sum = checksum_function(a0, a1, 16);
    let tmp = a3 ^ a2;
    let checksum: u64 = (((sum as u64) << 32u64) | (tmp as u64)) & 0xffff_ffff_ffffu64;
    ((checksum >> 32u64) as u32, checksum as u32)
}

} // verus!
