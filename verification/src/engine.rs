//! Preset cycling: the per-preset seed hash and the index steps of the
//! visual and synth presets.

use vstd::prelude::*;

verus! {

/// Knuth's multiplicative hashing constant.
pub const KNUTH: u32 = 2654435761;

/// The 24-bit hash of a preset index: the top 24 bits of
/// `idx * 2654435761 mod 2^32`.
pub open spec fn preset_hash_spec(idx: u32) -> nat {
    ((idx as nat * KNUTH as nat) % 0x1_0000_0000) / 256
}

/// The stable per-preset hash behind the preset seed: the seed is this
/// value divided by `2^24`, which lies in `[0, 1)` since the hash is below
/// `2^24`. The product wraps, so every index, however large, has a hash.
pub fn preset_hash(idx: u32) -> (h: u32)
    ensures
        h == preset_hash_spec(idx),
        h == ((idx as nat * 2654435761nat) % 0x1_0000_0000nat) / 256,
        h < 0x100_0000,
{
    let m: u32 = idx.wrapping_mul(KNUTH);
    assert(m >> 8u32 == m / 256 && m / 256 < 0x100_0000) by (bit_vector);
    m >> 8u32
}

/// The preset index after `next_preset`: one more, wrapping to 0 after
/// `u32::MAX` so presets cycle forever.
pub fn next_preset_index(idx: u32) -> (r: u32)
    ensures
        r == (if idx == u32::MAX { 0 } else { idx + 1 }),
{
    idx.wrapping_add(1)
}

/// The logical frame count after one more tick.
pub fn next_frame_count(frame: u64) -> (r: u64)
    requires
        frame < u64::MAX,
    ensures
        r == frame + 1,
{
    frame + 1
}

/// The synth preset after the current one, cycling through `count` presets.
pub fn next_synth_preset(current: usize, count: usize) -> (r: usize)
    requires
        count > 0,
        current < usize::MAX,
    ensures
        r == (current + 1) % (count as int),
        r < count,
{
    (current + 1) % count
}

} // verus!
