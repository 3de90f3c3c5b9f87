use uac2::error::Uac2Error;
use uac2::format::{AudioFormat, BitDepth, DeviceCapabilities, FormatType, SampleRate};
use uac2::format_negotiation::{
    FormatMismatchHandler, FormatNegotiationEngine, FormatNegotiationStrategy,
};

fn format(rate: SampleRate, depth: BitDepth, channels: usize) -> AudioFormat {
    AudioFormat { sample_rate: rate, bit_depth: depth, channels, format_type: FormatType::Pcm }
}

fn caps(rates: Vec<SampleRate>, depths: Vec<BitDepth>, channels: Vec<usize>) -> DeviceCapabilities {
    DeviceCapabilities {
        supported_sample_rates: rates,
        supported_bit_depths: depths,
        supported_channels: channels,
    }
}

#[test]
fn supported_format_is_kept() {
    let source = format(SampleRate::Hz96000, BitDepth::Bit24, 2);
    let device = caps(
        vec![SampleRate::Hz44100, SampleRate::Hz96000],
        vec![BitDepth::Bit16, BitDepth::Bit24],
        vec![2],
    );
    for engine in [
        FormatNegotiationEngine::new(FormatNegotiationStrategy::quality_first()),
        FormatNegotiationEngine::new(FormatNegotiationStrategy::compatibility_first()),
    ] {
        let f = engine.negotiate(&source, &device).unwrap();
        assert_eq!(f, source);
        assert!(!FormatMismatchHandler::requires_conversion(&source, &f));
    }
}

#[test]
fn quality_picks_least_not_below() {
    let engine = FormatNegotiationEngine::new(FormatNegotiationStrategy::new(true));
    let source = format(SampleRate::Hz88200, BitDepth::Bit24, 4);
    let device = caps(
        vec![SampleRate::Hz384000, SampleRate::Hz44100, SampleRate::Hz96000, SampleRate::Hz192000],
        vec![BitDepth::Bit16, BitDepth::Bit32],
        vec![2, 8, 6],
    );
    let f = engine.negotiate(&source, &device).unwrap();
    assert_eq!(f.sample_rate, SampleRate::Hz96000);
    assert_eq!(f.bit_depth, BitDepth::Bit32);
    assert_eq!(f.channels, 6);
    assert_eq!(f.format_type, FormatType::Pcm);
}

#[test]
fn quality_falls_back_to_highest() {
    let engine = FormatNegotiationEngine::new(FormatNegotiationStrategy::quality_first());
    let source = format(SampleRate::Hz384000, BitDepth::Bit32, 8);
    let device = caps(
        vec![SampleRate::Hz48000, SampleRate::Hz192000, SampleRate::Hz96000],
        vec![BitDepth::Bit24, BitDepth::Bit16],
        vec![2, 6, 4],
    );
    let f = engine.negotiate(&source, &device).unwrap();
    assert_eq!(f.sample_rate, SampleRate::Hz192000);
    assert_eq!(f.bit_depth, BitDepth::Bit24);
    assert_eq!(f.channels, 6);
}

#[test]
fn compatibility_picks_nearest_first() {
    let engine = FormatNegotiationEngine::new(FormatNegotiationStrategy::new(false));
    let source = format(SampleRate::Hz48000, BitDepth::Bit24, 4);
    let device = caps(
        vec![SampleRate::Hz192000, SampleRate::Hz44100, SampleRate::Hz96000],
        vec![BitDepth::Bit32, BitDepth::Bit16],
        vec![6, 2],
    );
    let f = engine.negotiate(&source, &device).unwrap();
    assert_eq!(f.sample_rate, SampleRate::Hz44100);
    // 16 and 32 bits are equally far from 24: the first listed is taken.
    assert_eq!(f.bit_depth, BitDepth::Bit32);
    // 6 and 2 channels are equally far from 4: the first listed is taken.
    assert_eq!(f.channels, 6);
}

#[test]
fn empty_capabilities_are_refused() {
    let engine = FormatNegotiationEngine::new(FormatNegotiationStrategy::quality_first());
    let source = format(SampleRate::Hz48000, BitDepth::Bit16, 2);
    let no_rates = caps(vec![], vec![BitDepth::Bit16], vec![2]);
    assert!(matches!(engine.negotiate(&source, &no_rates), Err(Uac2Error::NoSupportedFormat)));
    let no_depths = caps(vec![SampleRate::Hz48000], vec![], vec![2]);
    assert!(matches!(engine.negotiate(&source, &no_depths), Err(Uac2Error::NoSupportedFormat)));
    let no_channels = caps(vec![SampleRate::Hz48000], vec![BitDepth::Bit16], vec![]);
    assert!(matches!(engine.negotiate(&source, &no_channels), Err(Uac2Error::NoSupportedFormat)));
}

#[test]
fn mismatch_handling() {
    let a = format(SampleRate::Hz48000, BitDepth::Bit16, 2);
    let b = format(SampleRate::Hz192000, BitDepth::Bit32, 1);
    assert!(FormatMismatchHandler::can_handle(&a, &b));
    assert!(FormatMismatchHandler::can_handle(&b, &a));
    assert!(FormatMismatchHandler::requires_conversion(&a, &b));

    let c = format(SampleRate::Hz44100, BitDepth::Bit16, 2);
    assert!(!FormatMismatchHandler::can_handle(&c, &b));
    assert!(!FormatMismatchHandler::can_handle(&b, &c));

    let six = format(SampleRate::Hz48000, BitDepth::Bit16, 6);
    assert!(!FormatMismatchHandler::can_handle(&a, &six));
    assert!(FormatMismatchHandler::can_handle(&six, &six));
    assert!(!FormatMismatchHandler::requires_conversion(&six, &six));
    assert_eq!(SampleRate::Hz176400.hz(), 176400);
}

#[test]
fn negotiation_is_idempotent() {
    let device = caps(
        vec![SampleRate::Hz44100, SampleRate::Hz96000],
        vec![BitDepth::Bit16],
        vec![2, 6],
    );
    for quality in [true, false] {
        let engine = FormatNegotiationEngine::new(FormatNegotiationStrategy::new(quality));
        let source = format(SampleRate::Hz192000, BitDepth::Bit32, 8);
        let f = engine.negotiate(&source, &device).unwrap();
        assert_eq!(engine.negotiate(&f, &device).unwrap(), f);
    }
}
