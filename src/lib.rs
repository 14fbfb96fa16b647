//! Multi-device audio playback pipeline: the sample-stream adaptation
//! (resampling, channel remapping), the real-time playback buffer, and the
//! device bookkeeping, verified with Verus.
//!
//! Samples are generic: the library moves them, it never computes on them,
//! so the host picks the numeric representation.

pub mod decode;
pub mod device;
pub mod encoding;
pub mod error;
pub mod pipeline;
pub mod playback;
pub mod policy;
pub mod remap;
pub mod resample;
