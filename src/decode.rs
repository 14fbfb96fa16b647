//! The library's side of decoding: choosing the track and laying out the
//! decoded packets as one interleaved sample sequence.

use vstd::prelude::*;
use crate::error::AudioError;
use vstd::arithmetic::div_mod::{lemma_fundamental_div_mod, lemma_mod_multiples_basic};

verus! {

/// What the decoder reports of one track of the probed payload.
#[derive(Debug, Clone, Copy)]
pub struct TrackInfo {
    /// False for the placeholder (null) codec.
    pub has_codec: bool,
    pub sample_rate: Option<u32>,
    pub channels: Option<usize>,
}

/// Whether no track before `i` has a codec.
pub open spec fn no_codec_before(tracks: Seq<TrackInfo>, i: int) -> bool {
    forall|j: int| 0 <= j < i ==> !(#[trigger] tracks[j]).has_codec
}

/// The format of a track when it is usable: a positive rate and a channel
/// count in `1..=u16::MAX`.
pub open spec fn track_format(t: TrackInfo) -> Option<(u32, u16)> {
    match (t.sample_rate, t.channels) {
        (Some(rate), Some(ch)) => if rate > 0 && 0 < ch <= u16::MAX {
            Some((rate, ch as u16))
        } else {
            None
        },
        _ => None,
    }
}

/// Picks the first track with a codec and returns its index, sample rate and
/// channel count. Fails with `Format` when there is no such track, or it
/// lacks the rate or the channel count, or either is zero, or the channel
/// count exceeds `u16::MAX`.
pub fn choose_track(tracks: &Vec<TrackInfo>) -> (r: Result<(usize, u32, u16), AudioError>)
    ensures
        no_codec_before(tracks@, tracks@.len() as int) ==> r == Err::<(usize, u32, u16), AudioError>(
            AudioError::Format,
        ),
        forall|i: int|
            0 <= i < tracks@.len() && (#[trigger] tracks@[i]).has_codec && no_codec_before(tracks@, i)
                ==> r == match track_format(tracks@[i]) {
                Some((rate, ch)) => Ok::<(usize, u32, u16), AudioError>((i as usize, rate, ch)),
                None => Err(AudioError::Format),
            },
        r matches Ok((_, rate, ch)) ==> rate > 0 && ch > 0,
{
    let mut i: usize = 0;
    while i < tracks.len()
        invariant
            i <= tracks@.len(),
            no_codec_before(tracks@, i as int),
        decreases tracks@.len() - i,
    {
        let t = tracks[i];
        if t.has_codec {
            return match (t.sample_rate, t.channels) {
                (Some(rate), Some(ch)) => {
                    if rate > 0 && 0 < ch && ch <= 0xffff {
                        Ok((i, rate, ch as u16))
                    } else {
                        Err(AudioError::Format)
                    }
                },
                _ => Err(AudioError::Format),
            };
        }
        i = i + 1;
    }
    Err(AudioError::Format)
}

/// Frame-by-frame interleaving of planar samples: `channels` planes of
/// `len / channels` samples each, one after the other.
pub open spec fn interleave_spec<T>(planar: Seq<T>, channels: nat) -> Seq<T> {
    let frames = planar.len() / channels;
    Seq::new(
        frames * channels,
        |j: int| planar[(j % channels as int) * frames + j / channels as int],
    )
}

proof fn lemma_planar_index(j: int, frames: int, channels: int)
    requires
        channels > 0,
        0 <= j < frames * channels,
    ensures
        0 <= (j % channels) * frames + j / channels < frames * channels,
{
    let f = j / channels;
    let c = j % channels;
    assert(0 <= f < frames) by (nonlinear_arith)
        requires f == j / channels, 0 <= j < frames * channels, channels > 0;
    assert(0 <= c < channels);
    assert(c * frames + f < frames * channels) by (nonlinear_arith)
        requires 0 <= c < channels, 0 <= f < frames;
    assert(0 <= c * frames) by (nonlinear_arith)
        requires 0 <= c, 0 <= frames;
}

/// Appends one decoded packet, given as `packet_channels` planes laid out
/// one after another, to `samples` frame by frame with the channels in
/// source order; a single plane is appended as it is. A packet whose channel
/// count differs from the track's is refused with `Format` and nothing is
/// appended, so `samples` keeps holding whole frames of the track.
pub fn append_packet<T: Copy>(
    samples: &mut Vec<T>,
    planar: &Vec<T>,
    packet_channels: usize,
    track_channels: u16,
) -> (r: Result<(), AudioError>)
    requires
        track_channels > 0,
        old(samples)@.len() % (track_channels as nat) == 0,
        old(samples)@.len() + planar@.len() <= usize::MAX,
    ensures
        r is Err <==> packet_channels != track_channels,
        r is Err ==> r == Err::<(), AudioError>(AudioError::Format) && final(samples)@ == old(samples)@,
        r is Ok ==> final(samples)@ == old(samples)@ + interleave_spec(planar@, track_channels as nat),
        final(samples)@.len() % (track_channels as nat) == 0,
{
    if packet_channels != track_channels as usize {
        return Err(AudioError::Format);
    }
    let channels: usize = packet_channels;
    let ghost start = samples@;
    let frames: usize = planar.len() / channels;
    assert(frames * channels <= planar@.len()) by (nonlinear_arith)
        requires frames as int == planar@.len() as int / channels as int, channels > 0;
    let total: usize = frames * channels;
    let ghost added = interleave_spec(planar@, channels as nat);
    let mut j: usize = 0;
    while j < total
        invariant
            channels > 0,
            frames as int == planar@.len() as int / channels as int,
            total == frames * channels,
            total <= planar@.len(),
            start.len() + planar@.len() <= usize::MAX,
            added == interleave_spec(planar@, channels as nat),
            j <= total,
            samples@.len() == start.len() + j,
            samples@.subrange(0, start.len() as int) == start,
            forall|k: int| 0 <= k < j ==> samples@[start.len() + k] == added[k],
        decreases total - j,
    {
        proof {
            lemma_planar_index(j as int, frames as int, channels as int);
        }
        let idx: usize = (j % channels) * frames + j / channels;
        samples.push(planar[idx]);
        proof {
            assert(samples@.subrange(0, start.len() as int) =~= start);
        }
        j = j + 1;
    }
    assert(samples@ =~= start + added);
    proof {
        let c = channels as int;
        let q = start.len() as int / c;
        lemma_fundamental_div_mod(start.len() as int, c);
        assert(start.len() as int + frames * c == (q + frames) * c) by (nonlinear_arith)
            requires start.len() as int == c * q;
        lemma_mod_multiples_basic(q + frames, c);
    }
    Ok(())
}

} // verus!
