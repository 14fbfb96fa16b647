//! The native sample encodings that an output stream can be written in.

use vstd::prelude::*;
use crate::error::AudioError;

verus! {

/// Silence in unsigned 16-bit encoding: mid-scale.
pub const U16_SILENCE: u16 = 32768;

/// Silence in signed 16-bit encoding.
pub const I16_SILENCE: i16 = 0;

/// A device's native sample encoding as the backend reports it.
#[derive(Debug, Clone, Copy, PartialEq, Eq, Structural)]
pub enum NativeEncoding {
    F32,
    I16,
    U16,
    /// Any encoding this library does not write.
    Other,
}

/// An encoding that this library writes.
#[derive(Debug, Clone, Copy, PartialEq, Eq, Structural)]
pub enum OutputEncoding {
    F32,
    I16,
    U16,
}

/// The output encoding for a device's native one; `UnsupportedFormat` for
/// any other than float32, signed-16 and unsigned-16.
pub fn output_encoding(native: NativeEncoding) -> (r: Result<OutputEncoding, AudioError>)
    ensures
        r == match native {
            NativeEncoding::F32 => Ok::<OutputEncoding, AudioError>(OutputEncoding::F32),
            NativeEncoding::I16 => Ok(OutputEncoding::I16),
            NativeEncoding::U16 => Ok(OutputEncoding::U16),
            NativeEncoding::Other => Err(AudioError::UnsupportedFormat),
        },
{
    match native {
        NativeEncoding::F32 => Ok(OutputEncoding::F32),
        NativeEncoding::I16 => Ok(OutputEncoding::I16),
        NativeEncoding::U16 => Ok(OutputEncoding::U16),
        NativeEncoding::Other => Err(AudioError::UnsupportedFormat),
    }
}

} // verus!
