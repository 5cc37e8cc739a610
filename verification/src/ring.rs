//! The analyzer's sample ring: recent mono samples, newest at the back,
//! bounded in length, and the analysis window cut from its newest end.

use vstd::prelude::*;
use std::collections::VecDeque;

verus! {

/// The newest `max` elements of `s` (all of them if there are fewer).
pub open spec fn keep_newest<T>(s: Seq<T>, max: nat) -> Seq<T> {
    if s.len() > max {
        s.subrange(s.len() - max, s.len() as int)
    } else {
        s
    }
}

/// Drop the oldest samples until at most `max` remain.
pub fn trim_ring<T>(ring: &mut VecDeque<T>, max: usize)
    ensures
        final(ring)@ == keep_newest(old(ring)@, max as nat),
{
    let ghost orig = ring@;
    while ring.len() > max
        invariant
            ring@.len() >= max ==> ring@ == orig.subrange(orig.len() - ring@.len(), orig.len() as int),
            ring@.len() < max ==> ring@ == orig,
            ring@.len() <= orig.len(),
        decreases ring@.len(),
    {
        let _ = ring.pop_front();
        assert(ring@ =~= orig.subrange(orig.len() - ring@.len(), orig.len() as int));
    }
    proof {
        if orig.len() > max {
            assert(ring@.len() == max);
        } else {
            assert(orig.subrange(orig.len() - ring@.len(), orig.len() as int) =~= orig) by {
                assert(ring@.len() == orig.len());
            }
        }
    }
}

/// Append a block of samples at the newest end, then bound the ring to
/// `max` samples.
pub fn push_block<T: Copy>(ring: &mut VecDeque<T>, block: &[T], max: usize)
    ensures
        final(ring)@ == keep_newest(old(ring)@ + block@, max as nat),
{
    let ghost orig = ring@;
    let n = block.len();
    let mut i: usize = 0;
    while i < n
        invariant
            n == block@.len(),
            i <= n,
            ring@ == orig + block@.subrange(0, i as int),
        decreases n - i,
    {
        ring.push_back(block[i]);
        assert(ring@ =~= orig + block@.subrange(0, i + 1));
        i = i + 1;
    }
    assert(block@.subrange(0, n as int) =~= block@);
    trim_ring(ring, max);
}

/// The analysis window of `size` samples: the newest `min(len, size)`
/// samples of the ring, right-aligned, preceded by `zero` padding.
pub open spec fn newest_window<T>(ring: Seq<T>, zero: T, size: nat) -> Seq<T> {
    let n = if ring.len() < size { ring.len() } else { size };
    Seq::new((size - n) as nat, |i: int| zero) + ring.subrange(ring.len() - n, ring.len() as int)
}

/// Copy the newest samples into a zero-padded window of `size` samples.
pub fn window_from_ring<T: Copy>(ring: &VecDeque<T>, zero: T, size: usize) -> (w: Vec<T>)
    ensures
        w@ == newest_window(ring@, zero, size as nat),
{
    let len = ring.len();
    let n = if len < size { len } else { size };
    let mut w: Vec<T> = Vec::with_capacity(size);
    let mut i: usize = 0;
    while i < size - n
        invariant
            n <= size,
            i <= size - n,
            w@ == Seq::new(i as nat, |j: int| zero),
        decreases size - n - i,
    {
        w.push(zero);
        assert(w@ =~= Seq::new((i + 1) as nat, |j: int| zero));
        i = i + 1;
    }
    let ghost pad = w@;
    let mut k: usize = 0;
    while k < n
        invariant
            len == ring@.len(),
            n <= len,
            n <= size,
            k <= n,
            pad == Seq::new((size - n) as nat, |j: int| zero),
            w@ == pad + ring@.subrange(len - n, len - n + k),
        decreases n - k,
    {
        w.push(ring[len - n + k]);
        assert(w@ =~= pad + ring@.subrange(len - n, len - n + k + 1));
        k = k + 1;
    }
    assert(w@ =~= newest_window(ring@, zero, size as nat));
    w
}

/// The ring stays bounded and keeps the newest samples: trimming leaves at
/// most `max` samples, which are the newest ones in their order, and loses
/// nothing when there were no more than `max`.
pub proof fn lemma_keep_newest<T>(s: Seq<T>, max: nat)
    ensures
        keep_newest(s, max).len() == (if s.len() > max { max } else { s.len() }),
        forall|i: int|
            0 <= i < keep_newest(s, max).len() ==> #[trigger] keep_newest(s, max)[i] == s[s.len()
                - keep_newest(s, max).len() + i],
        s.len() <= max ==> keep_newest(s, max) == s,
{
}

/// The window always holds `size` samples; its last sample is the newest
/// one of a non-empty ring, and it is pure padding for an empty ring.
pub proof fn lemma_newest_window<T>(ring: Seq<T>, zero: T, size: nat)
    ensures
        newest_window(ring, zero, size).len() == size,
        ring.len() > 0 && size > 0 ==> newest_window(ring, zero, size)[size - 1] == ring.last(),
        ring.len() == 0 ==> forall|i: int| 0 <= i < size ==> #[trigger] newest_window(ring, zero, size)[i] == zero,
        forall|j: int|
            0 <= j < size && j < ring.len() ==> #[trigger] newest_window(ring, zero, size)[size - 1 - j]
                == ring[ring.len() - 1 - j],
        forall|j: int|
            ring.len() <= j < size ==> #[trigger] newest_window(ring, zero, size)[size - 1 - j] == zero,
{
}

} // verus!
