//! The size of what an audio frame hands to the output device.

use vstd::prelude::*;

verus! {

/// Bytes of one sample.
pub const SAMPLE_BYTES: usize = 4;

/// The bytes that `samples` interleaved samples of `channels` channels
/// take; none where that is more than the machine can address.
pub open spec fn spec_interleaved_len(samples: usize, channels: u16) -> Option<usize> {
    if samples * channels * SAMPLE_BYTES <= usize::MAX {
        Some((samples * channels * SAMPLE_BYTES) as usize)
    } else {
        None
    }
}

/// Works out how many bytes of a frame hold its samples.
pub fn interleaved_len(samples: usize, channels: u16) -> (len: Option<usize>)
    ensures
        len == spec_interleaved_len(samples, channels),
{
    assert(samples * channels <= 0xFFFF_FFFF_FFFF_FFFF * 0xFFFF) by (nonlinear_arith)
        requires
            samples <= 0xFFFF_FFFF_FFFF_FFFF,
            channels <= 0xFFFF,
    ;
    let count: u128 = samples as u128 * channels as u128;
    let bytes: u128 = count * 4;
    if bytes <= usize::MAX as u128 {
        Some(bytes as usize)
    } else {
        None
    }
}

} // verus!
