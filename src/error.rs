//! Errors of the playback pipeline.

use vstd::prelude::*;

verus! {

/// Why a listing or a playback request failed.
#[derive(Debug, Clone, Copy, PartialEq, Eq, Structural)]
pub enum AudioError {
    /// Listing the devices, or reading a device's name, failed.
    Enumeration,
    /// The payload has no usable audio track or lacks its rate or channels.
    Format,
    /// The track's codec is not supported by the decoder.
    DecoderInit,
    /// None of the requested identifiers names a present device.
    NoMatchingDevice,
    /// The backend refused to build an output stream.
    StreamBuild,
    /// The device's native sample encoding is not one this library writes.
    UnsupportedFormat,
}

} // verus!
