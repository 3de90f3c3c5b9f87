//! Audio formats, what a device supports, and the configuration of a stream.
use vstd::prelude::*;

verus! {

/// The sample rates of USB audio streams.
#[derive(Debug, Clone, Copy, PartialEq, Eq, Structural)]
pub enum SampleRate {
    Hz44100,
    Hz48000,
    Hz88200,
    Hz96000,
    Hz176400,
    Hz192000,
    Hz352800,
    Hz384000,
}

/// The rate in hertz.
pub open spec fn rate_hz(rate: SampleRate) -> u32 {
    match rate {
        SampleRate::Hz44100 => 44100,
        SampleRate::Hz48000 => 48000,
        SampleRate::Hz88200 => 88200,
        SampleRate::Hz96000 => 96000,
        SampleRate::Hz176400 => 176400,
        SampleRate::Hz192000 => 192000,
        SampleRate::Hz352800 => 352800,
        SampleRate::Hz384000 => 384000,
    }
}

impl SampleRate {
    /// The rate in hertz.
    pub fn hz(&self) -> (r: u32)
        ensures
            r == rate_hz(*self),
    {
        match self {
            SampleRate::Hz44100 => 44100,
            SampleRate::Hz48000 => 48000,
            SampleRate::Hz88200 => 88200,
            SampleRate::Hz96000 => 96000,
            SampleRate::Hz176400 => 176400,
            SampleRate::Hz192000 => 192000,
            SampleRate::Hz352800 => 352800,
            SampleRate::Hz384000 => 384000,
        }
    }
}

/// The number of bits of a sample.
#[derive(Debug, Clone, Copy, PartialEq, Eq, Structural)]
pub enum BitDepth {
    Bit16,
    Bit24,
    Bit32,
}

/// The bits of a sample of depth `depth`.
pub open spec fn depth_bits(depth: BitDepth) -> u8 {
    match depth {
        BitDepth::Bit16 => 16,
        BitDepth::Bit24 => 24,
        BitDepth::Bit32 => 32,
    }
}

/// How samples are encoded.
#[derive(Debug, Clone, Copy, PartialEq, Eq, Structural)]
pub enum FormatType {
    Pcm,
    Float,
}

/// The format of an audio stream.
#[derive(Debug, Clone, Copy, PartialEq, Eq, Structural)]
pub struct AudioFormat {
    pub sample_rate: SampleRate,
    pub bit_depth: BitDepth,
    pub channels: usize,
    pub format_type: FormatType,
}

/// What a device can play, in the device's order of listing.
pub struct DeviceCapabilities {
    pub supported_sample_rates: Vec<SampleRate>,
    pub supported_bit_depths: Vec<BitDepth>,
    pub supported_channels: Vec<usize>,
}

/// The configuration of an isochronous stream.
#[derive(Debug, Clone, Copy, PartialEq, Eq, Structural)]
pub struct StreamConfig {
    pub sample_rate: SampleRate,
    pub packet_size: usize,
}

} // verus!
