//! Adapting decoded samples to one device's native rate and channel layout.

use vstd::prelude::*;
use crate::remap::{frame_count, remap, remap_spec};
use crate::resample::{resample, resample_spec, resampled_len};

verus! {

/// Length after remapping `n` samples from `src` to `dst` channels.
pub open spec fn remapped_len(n: nat, src: nat, dst: nat) -> nat {
    if src == dst { n } else { frame_count(n, src) * dst }
}

/// Whether both stages of the adaptation produce a sequence whose length
/// fits in `usize`.
pub open spec fn adaptation_fits(n: nat, rate: nat, channels: nat, dev_rate: nat, dev_channels: nat) -> bool {
    &&& frame_count(n, channels) * dev_channels <= usize::MAX
    &&& resampled_len(remapped_len(n, channels, dev_channels), rate, dev_rate) <= usize::MAX
}

/// The samples as a device plays them: remapped to its channel count first,
/// so that resampling works on a stream laid out for the device, then
/// resampled to its rate.
pub open spec fn adapt_spec<T>(s: Seq<T>, rate: nat, channels: nat, dev_rate: nat, dev_channels: nat) -> Seq<T> {
    resample_spec(remap_spec(s, channels, dev_channels), rate, dev_rate)
}

/// Adapts decoded `samples` (at `rate` Hz with `channels` channels) to a
/// device running at `dev_rate` Hz with `dev_channels` channels. Returns
/// `None` exactly when the source rate or channel count is zero, or an
/// intermediate or final length would not fit in `usize`.
pub fn adapt_for_device<T: Copy>(
    samples: &Vec<T>,
    rate: u32,
    channels: u16,
    dev_rate: u32,
    dev_channels: u16,
) -> (r: Option<Vec<T>>)
    ensures
        r is None <==> rate == 0 || channels == 0 || !adaptation_fits(
            samples@.len(),
            rate as nat,
            channels as nat,
            dev_rate as nat,
            dev_channels as nat,
        ),
        r matches Some(v) ==> v@ == adapt_spec(
            samples@,
            rate as nat,
            channels as nat,
            dev_rate as nat,
            dev_channels as nat,
        ),
{
    if rate == 0 || channels == 0 {
        return None;
    }
    let frames: u128 = (samples.len() / channels as usize) as u128;
    assert(frames * (dev_channels as u128) <= 0xffff_ffff_ffff_ffffu128 * 0xffffu128) by (nonlinear_arith)
        requires frames <= 0xffff_ffff_ffff_ffffu128, dev_channels <= 0xffffu16;
    let remapped_total: u128 = frames * (dev_channels as u128);
    if remapped_total > usize::MAX as u128 {
        return None;
    }
    let remapped = remap(samples, channels, dev_channels);
    let m: u128 = remapped.len() as u128;
    assert(m * (dev_rate as u128) <= 0xffff_ffff_ffff_ffffu128 * 0xffff_ffffu128) by (nonlinear_arith)
        requires m <= 0xffff_ffff_ffff_ffffu128, dev_rate <= 0xffff_ffffu32;
    let resampled_total: u128 = m * (dev_rate as u128) / (rate as u128);
    if resampled_total > usize::MAX as u128 {
        return None;
    }
    Some(resample(&remapped, rate, dev_rate))
}

} // verus!
