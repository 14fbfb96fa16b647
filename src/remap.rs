//! Channel-layout adaptation of an interleaved sample sequence.

use vstd::prelude::*;
use crate::resample::copy_samples;

verus! {

/// The source channel that destination channel `ch` reads: the same channel
/// where it exists, else the last source channel.
pub open spec fn source_channel(ch: nat, src: nat) -> nat {
    if ch < src { ch } else { (src - 1) as nat }
}

/// Number of whole frames in `n` samples of `src` channels.
pub open spec fn frame_count(n: nat, src: nat) -> nat {
    (n / src) as nat
}

/// Index in the source of output sample `j` when going from `src` to `dst`
/// channels: same frame, channel chosen by `source_channel`.
pub open spec fn remap_source_index(j: nat, src: nat, dst: nat) -> nat {
    (j / dst) * src + source_channel(j % dst, src)
}

/// The remapped sequence: unchanged when the channel counts agree; otherwise
/// `frame_count` frames of `dst` samples each, every sample copied from one
/// source channel of the same frame (never a mix of channels).
pub open spec fn remap_spec<T>(s: Seq<T>, src: nat, dst: nat) -> Seq<T> {
    if src == dst {
        s
    } else {
        Seq::new(
            frame_count(s.len(), src) * dst,
            |j: int| s[remap_source_index(j as nat, src, dst) as int],
        )
    }
}

proof fn lemma_remap_index_in_bounds(j: nat, n: nat, src: nat, dst: nat)
    requires
        src > 0,
        dst > 0,
        j < frame_count(n, src) * dst,
    ensures
        remap_source_index(j, src, dst) < n,
        (j / dst) * src + (src - 1) < n,
{
    let frames = frame_count(n, src);
    let f = j / dst;
    assert(f < frames) by (nonlinear_arith)
        requires f == j / dst, j < frames * dst, dst > 0;
    assert(frames * src <= n) by (nonlinear_arith)
        requires frames == n / src, src > 0;
    assert(f * src + src <= frames * src) by (nonlinear_arith)
        requires f < frames, src > 0;
}

/// Maps interleaved `samples` with `src_channels` channels to `dst_channels`
/// channels. Each destination channel `ch` of a frame copies source channel
/// `min(ch, src_channels - 1)` of the same frame; a trailing partial frame
/// is dropped.
pub fn remap<T: Copy>(samples: &Vec<T>, src_channels: u16, dst_channels: u16) -> (r: Vec<T>)
    requires
        src_channels > 0,
        frame_count(samples@.len(), src_channels as nat) * dst_channels <= usize::MAX,
    ensures
        r@ == remap_spec(samples@, src_channels as nat, dst_channels as nat),
{
    if src_channels == dst_channels {
        return copy_samples(samples);
    }
    let len: usize = samples.len();
    let src: usize = src_channels as usize;
    let dst: usize = dst_channels as usize;
    let frames: usize = len / src;
    let total: usize = frames * dst;
    let ghost spec_r = remap_spec(samples@, src as nat, dst as nat);
    let mut r: Vec<T> = Vec::with_capacity(total);
    let mut j: usize = 0;
    while j < total
        invariant
            src_channels != dst_channels,
            src == src_channels,
            dst == dst_channels,
            src > 0,
            len == samples@.len(),
            frames == frame_count(len as nat, src as nat),
            total == frames * dst,
            spec_r == remap_spec(samples@, src as nat, dst as nat),
            j <= total,
            r@.len() == j,
            forall|k: int| 0 <= k < j ==> r@[k] == spec_r[k],
        decreases total - j,
    {
        proof {
            lemma_remap_index_in_bounds(j as nat, len as nat, src as nat, dst as nat);
        }
        let f: usize = j / dst;
        let ch: usize = j % dst;
        let src_ch: usize = if ch < src { ch } else { src - 1 };
        let idx: usize = f * src + src_ch;
        assert(idx as nat == remap_source_index(j as nat, src as nat, dst as nat));
        assert(spec_r[j as int] == samples@[idx as int]);
        r.push(samples[idx]);
        j = j + 1;
    }
    assert(r@ =~= spec_r);
    r
}

/// Remapping to the same channel count gives back the same samples.
pub proof fn lemma_remap_identity<T>(s: Seq<T>, channels: nat)
    ensures
        remap_spec(s, channels, channels) == s,
{
}

/// Stereo to mono keeps channel 0 of each frame and drops channel 1: no
/// averaging.
pub proof fn lemma_downmix_keeps_first_channel<T>(s: Seq<T>)
    ensures
        remap_spec(s, 2, 1) == Seq::new(s.len() / 2, |f: int| s[2 * f]),
{
    let r = remap_spec(s, 2, 1);
    assert forall|f: int| 0 <= f < s.len() / 2 implies r[f] == s[2 * f] by {
        assert(f / 1 == f && f % 1 == 0);
    }
    assert(r =~= Seq::new(s.len() / 2, |f: int| s[2 * f]));
}

/// Mono to stereo duplicates the one channel: each output frame holds the
/// source sample twice.
pub proof fn lemma_upmix_duplicates<T>(s: Seq<T>)
    ensures
        remap_spec(s, 1, 2).len() == 2 * s.len(),
        forall|f: int|
            0 <= f < s.len() ==> #[trigger] remap_spec(s, 1, 2)[2 * f] == s[f] && remap_spec(s, 1, 2)[2
                * f + 1] == s[f],
{
    let r = remap_spec(s, 1, 2);
    assert forall|f: int| 0 <= f < s.len() implies #[trigger] r[2 * f] == s[f] && r[2 * f + 1] == s[f] by {
        assert((2 * f) / 2 == f && (2 * f) % 2 == 0);
        assert((2 * f + 1) / 2 == f && (2 * f + 1) % 2 == 1);
    }
}

} // verus!
