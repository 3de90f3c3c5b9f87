//! Choosing a stream format that a device supports, close to the format of the source.
use vstd::prelude::*;

use crate::error::{Result, Uac2Error};
use crate::format::{
    depth_bits, rate_hz, AudioFormat, BitDepth, DeviceCapabilities, FormatType, SampleRate,
};

verus! {

/// How far apart two values are.
pub open spec fn distance(a: int, b: int) -> int {
    if a >= b {
        a - b
    } else {
        b - a
    }
}

/// `i` is the first position of the least key among those not below `target`.
pub open spec fn is_least_not_below(keys: Seq<u64>, target: u64, i: int) -> bool {
    &&& 0 <= i < keys.len()
    &&& keys[i] >= target
    &&& forall|j: int| 0 <= j < keys.len() && keys[j] >= target ==> keys[i] <= #[trigger] keys[j]
    &&& forall|j: int| 0 <= j < i && keys[j] >= target ==> keys[i] < #[trigger] keys[j]
}

/// `i` is the last position of the greatest key.
pub open spec fn is_last_greatest(keys: Seq<u64>, i: int) -> bool {
    &&& 0 <= i < keys.len()
    &&& forall|j: int| 0 <= j < keys.len() ==> #[trigger] keys[j] <= keys[i]
    &&& forall|j: int| i < j < keys.len() ==> #[trigger] keys[j] < keys[i]
}

/// `i` is the first position of a key nearest to `target`.
pub open spec fn is_first_nearest(keys: Seq<u64>, target: u64, i: int) -> bool {
    &&& 0 <= i < keys.len()
    &&& forall|j: int|
        0 <= j < keys.len() ==> distance(keys[i] as int, target as int) <= distance(
            #[trigger] keys[j] as int,
            target as int,
        )
    &&& forall|j: int|
        0 <= j < i ==> distance(keys[i] as int, target as int) < distance(
            #[trigger] keys[j] as int,
            target as int,
        )
}

/// Some key is not below `target`.
pub open spec fn has_key_not_below(keys: Seq<u64>, target: u64) -> bool {
    exists|j: int| 0 <= j < keys.len() && #[trigger] keys[j] >= target
}

/// `i` is the position chosen among `keys` for `target`: preferring quality, the least
/// key not below the target, or failing that the greatest key; otherwise the nearest key.
/// Ties go to the first position, except among greatest keys, where they go to the last.
pub open spec fn is_chosen_position(keys: Seq<u64>, target: u64, prefer_quality: bool, i: int) -> bool {
    if prefer_quality {
        if has_key_not_below(keys, target) {
            is_least_not_below(keys, target, i)
        } else {
            is_last_greatest(keys, i)
        }
    } else {
        is_first_nearest(keys, target, i)
    }
}

/// The position chosen among `keys` for `target` (meaningful when `keys` is not empty).
pub open spec fn chosen_position(keys: Seq<u64>, target: u64, prefer_quality: bool) -> int {
    choose|i: int| is_chosen_position(keys, target, prefer_quality, i)
}

/// At most one position is chosen.
pub proof fn lemma_chosen_position_unique(
    keys: Seq<u64>,
    target: u64,
    prefer_quality: bool,
    i: int,
    k: int,
)
    requires
        is_chosen_position(keys, target, prefer_quality, i),
        is_chosen_position(keys, target, prefer_quality, k),
    ensures
        i == k,
{
    if i != k {
        let (a, b) = if i < k { (i, k) } else { (k, i) };
        assert(is_chosen_position(keys, target, prefer_quality, a));
        assert(is_chosen_position(keys, target, prefer_quality, b));
        let ka = keys[a];
        let kb = keys[b];
        if prefer_quality {
            if has_key_not_below(keys, target) {
                assert(ka <= kb);
                assert(kb < ka);
            } else {
                assert(kb <= ka);
                assert(kb < ka);
                assert(ka <= kb);
            }
        } else {
            assert(distance(ka as int, target as int) <= distance(kb as int, target as int));
            assert(distance(kb as int, target as int) < distance(ka as int, target as int));
        }
    }
}

/// Of a non-empty sequence of keys, one position is chosen.
pub proof fn lemma_chosen_position_exists(keys: Seq<u64>, target: u64, prefer_quality: bool)
    requires
        keys.len() > 0,
    ensures
        is_chosen_position(keys, target, prefer_quality, chosen_position(keys, target, prefer_quality)),
        0 <= chosen_position(keys, target, prefer_quality) < keys.len(),
{
    let i = choose_position(keys, target, prefer_quality, keys.len() as int);
    assert(keys.take(keys.len() as int) =~= keys);
    assert(is_chosen_position(keys, target, prefer_quality, i));
}

/// A position chosen among the first `n` keys, found by induction on `n`.
proof fn choose_position(keys: Seq<u64>, target: u64, prefer_quality: bool, n: int) -> (i: int)
    requires
        0 < n <= keys.len(),
    ensures
        0 <= i < n,
        is_chosen_position(keys.take(n), target, prefer_quality, i),
    decreases n,
{
    let p = keys.take(n);
    if n == 1 {
        if prefer_quality && has_key_not_below(p, target) {
            let j = choose|j: int| 0 <= j < p.len() && #[trigger] p[j] >= target;
            assert(j == 0);
        }
        0
    } else {
        let prev = keys.take(n - 1);
        let i0 = choose_position(keys, target, prefer_quality, n - 1);
        assert(forall|j: int| 0 <= j < n - 1 ==> #[trigger] prev[j] == p[j]);
        let last = n - 1;
        if prefer_quality {
            if has_key_not_below(prev, target) {
                if p[last] >= target && p[last] < p[i0] {
                    last
                } else {
                    i0
                }
            } else if p[last] >= target {
                assert forall|j: int| 0 <= j < p.len() && p[j] >= target implies p[last] <= #[trigger] p[j] by {
                    if j < last {
                        assert(prev[j] >= target);
                    }
                }
                last
            } else {
                assert(!has_key_not_below(p, target)) by {
                    if has_key_not_below(p, target) {
                        let j = choose|j: int| 0 <= j < p.len() && #[trigger] p[j] >= target;
                        assert(prev[j] >= target);
                    }
                }
                if p[last] >= p[i0] {
                    last
                } else {
                    i0
                }
            }
        } else {
            if distance(p[last] as int, target as int) < distance(p[i0] as int, target as int) {
                last
            } else {
                i0
            }
        }
    }
}

/// Picks among `candidates`, whose keys are `keys`, the one for `source`, of key
/// `source_key`: the source itself where it is a candidate, else the candidate at the
/// chosen position; none where there is no candidate.
pub open spec fn pick<A>(
    candidates: Seq<A>,
    keys: Seq<u64>,
    source: A,
    source_key: u64,
    prefer_quality: bool,
) -> Option<A> {
    if candidates.contains(source) {
        Some(source)
    } else if candidates.len() == 0 {
        None
    } else {
        Some(candidates[chosen_position(keys, source_key, prefer_quality)])
    }
}

/// The keys of sample rates: their rates in hertz.
pub open spec fn rate_keys(rates: Seq<SampleRate>) -> Seq<u64> {
    rates.map_values(|r: SampleRate| rate_hz(r) as u64)
}

/// The keys of bit depths: their bits.
pub open spec fn depth_keys(depths: Seq<BitDepth>) -> Seq<u64> {
    depths.map_values(|d: BitDepth| depth_bits(d) as u64)
}

/// The keys of channel counts: the counts.
pub open spec fn channel_keys(channels: Seq<usize>) -> Seq<u64> {
    channels.map_values(|c: usize| c as u64)
}

/// The sample rate negotiated for `source` on a device with `caps`.
pub open spec fn negotiated_sample_rate(
    prefer_quality: bool,
    source: AudioFormat,
    caps: DeviceCapabilities,
) -> Option<SampleRate> {
    pick(
        caps.supported_sample_rates@,
        rate_keys(caps.supported_sample_rates@),
        source.sample_rate,
        rate_hz(source.sample_rate) as u64,
        prefer_quality,
    )
}

/// The bit depth negotiated for `source` on a device with `caps`.
pub open spec fn negotiated_bit_depth(
    prefer_quality: bool,
    source: AudioFormat,
    caps: DeviceCapabilities,
) -> Option<BitDepth> {
    pick(
        caps.supported_bit_depths@,
        depth_keys(caps.supported_bit_depths@),
        source.bit_depth,
        depth_bits(source.bit_depth) as u64,
        prefer_quality,
    )
}

/// The channel count negotiated for `source` on a device with `caps`.
pub open spec fn negotiated_channels(
    prefer_quality: bool,
    source: AudioFormat,
    caps: DeviceCapabilities,
) -> Option<usize> {
    pick(
        caps.supported_channels@,
        channel_keys(caps.supported_channels@),
        source.channels,
        source.channels as u64,
        prefer_quality,
    )
}

/// The format negotiated for `source` on a device with `caps`: the negotiated rate,
/// depth and channel count with the source's sample encoding, or none where the device
/// lists no rate, no depth or no channel count.
pub open spec fn negotiated_format(
    prefer_quality: bool,
    source: AudioFormat,
    caps: DeviceCapabilities,
) -> Option<AudioFormat> {
    match (
        negotiated_sample_rate(prefer_quality, source, caps),
        negotiated_bit_depth(prefer_quality, source, caps),
        negotiated_channels(prefer_quality, source, caps),
    ) {
        (Some(sample_rate), Some(bit_depth), Some(channels)) => Some(
            AudioFormat { sample_rate, bit_depth, channels, format_type: source.format_type },
        ),
        _ => None,
    }
}

/// How a format is negotiated: preferring quality picks the least supported value not
/// below the source's, or failing that the greatest; preferring compatibility picks the
/// supported value nearest to the source's.
pub struct FormatNegotiationStrategy {
    prefer_quality: bool,
}

impl FormatNegotiationStrategy {
    /// Whether quality is preferred to compatibility.
    pub closed spec fn prefers_quality(&self) -> bool {
        self.prefer_quality
    }

    /// A strategy that prefers quality when `prefer_quality` holds.
    pub fn new(prefer_quality: bool) -> (r: Self)
        ensures
            r.prefers_quality() == prefer_quality,
    {
        Self { prefer_quality }
    }

    /// A strategy that prefers quality.
    pub fn quality_first() -> (r: Self)
        ensures
            r.prefers_quality(),
    {
        Self { prefer_quality: true }
    }

    /// A strategy that prefers compatibility.
    pub fn compatibility_first() -> (r: Self)
        ensures
            !r.prefers_quality(),
    {
        Self { prefer_quality: false }
    }
}

/// Negotiates the stream format between a source and a device.
pub struct FormatNegotiationEngine {
    strategy: FormatNegotiationStrategy,
}

/// The result of a negotiation, from what was negotiated.
pub open spec fn negotiation_result<A>(chosen: Option<A>) -> Result<A> {
    match chosen {
        Some(a) => Ok(a),
        None => Err(Uac2Error::NoSupportedFormat),
    }
}

impl FormatNegotiationEngine {
    /// Whether the engine prefers quality to compatibility.
    pub closed spec fn prefers_quality(&self) -> bool {
        self.strategy.prefer_quality
    }

    /// An engine that negotiates with `strategy`.
    pub fn new(strategy: FormatNegotiationStrategy) -> (r: Self)
        ensures
            r.prefers_quality() == strategy.prefers_quality(),
    {
        Self { strategy }
    }

    /// The format to stream `source_format` in on a device with `device_caps`: the
    /// source's own rate, depth and channel count where the device supports them, else
    /// the supported ones that the strategy picks; `NoSupportedFormat` where the device
    /// lists no rate, no depth or no channel count.
    pub fn negotiate(&self, source_format: &AudioFormat, device_caps: &DeviceCapabilities) -> (r:
        Result<AudioFormat>)
        ensures
            r == negotiation_result(
                negotiated_format(self.prefers_quality(), *source_format, *device_caps),
            ),
    {
        let sample_rate = self.negotiate_sample_rate(source_format, device_caps)?;
        let bit_depth = self.negotiate_bit_depth(source_format, device_caps)?;
        let channels = self.negotiate_channels(source_format, device_caps)?;
        Ok(AudioFormat { sample_rate, bit_depth, channels, format_type: source_format.format_type })
    }

    fn negotiate_sample_rate(&self, source: &AudioFormat, caps: &DeviceCapabilities) -> (r: Result<
        SampleRate,
    >)
        ensures
            r == negotiation_result(
                negotiated_sample_rate(self.prefers_quality(), *source, *caps),
            ),
    {
        let rates = &caps.supported_sample_rates;
        let mut keys: Vec<u64> = Vec::new();
        let mut i: usize = 0;
        while i < rates.len()
            invariant
                0 <= i <= rates.len(),
                keys@.len() == i,
                forall|j: int| 0 <= j < i ==> keys@[j] == rate_hz(#[trigger] rates@[j]) as u64,
            decreases rates.len() - i,
        {
            keys.push(rates[i].hz() as u64);
            i = i + 1;
        }
        assert(keys@ =~= rate_keys(rates@));
        let target = source.sample_rate.hz() as u64;
        let supported = holds_key(&keys, target);
        proof {
            if supported {
                let j = choose|j: int| 0 <= j < keys@.len() && keys@[j] == target;
                assert(rate_hz(rates@[j]) == rate_hz(source.sample_rate));
                assert(rates@[j] == source.sample_rate);
                assert(rates@.contains(source.sample_rate));
            } else if rates@.contains(source.sample_rate) {
                let j = choose|j: int| 0 <= j < rates@.len() && rates@[j] == source.sample_rate;
                assert(keys@[j] == target);
            }
        }
        if supported {
            return Ok(source.sample_rate);
        }
        match choose_key(&keys, target, self.strategy.prefer_quality) {
            Some(i) => Ok(rates[i]),
            None => Err(Uac2Error::NoSupportedFormat),
        }
    }

    fn negotiate_bit_depth(&self, source: &AudioFormat, caps: &DeviceCapabilities) -> (r: Result<
        BitDepth,
    >)
        ensures
            r == negotiation_result(
                negotiated_bit_depth(self.prefers_quality(), *source, *caps),
            ),
    {
        let depths = &caps.supported_bit_depths;
        let mut keys: Vec<u64> = Vec::new();
        let mut i: usize = 0;
        while i < depths.len()
            invariant
                0 <= i <= depths.len(),
                keys@.len() == i,
                forall|j: int| 0 <= j < i ==> keys@[j] == depth_bits(#[trigger] depths@[j]) as u64,
            decreases depths.len() - i,
        {
            keys.push(Self::bit_depth_value(depths[i]) as u64);
            i = i + 1;
        }
        assert(keys@ =~= depth_keys(depths@));
        let target = Self::bit_depth_value(source.bit_depth) as u64;
        let supported = holds_key(&keys, target);
        proof {
            if supported {
                let j = choose|j: int| 0 <= j < keys@.len() && keys@[j] == target;
                assert(depth_bits(depths@[j]) == depth_bits(source.bit_depth));
                assert(depths@[j] == source.bit_depth);
                assert(depths@.contains(source.bit_depth));
            } else if depths@.contains(source.bit_depth) {
                let j = choose|j: int| 0 <= j < depths@.len() && depths@[j] == source.bit_depth;
                assert(keys@[j] == target);
            }
        }
        if supported {
            return Ok(source.bit_depth);
        }
        match choose_key(&keys, target, self.strategy.prefer_quality) {
            Some(i) => Ok(depths[i]),
            None => Err(Uac2Error::NoSupportedFormat),
        }
    }

    fn negotiate_channels(&self, source: &AudioFormat, caps: &DeviceCapabilities) -> (r: Result<
        usize,
    >)
        ensures
            r == negotiation_result(negotiated_channels(self.prefers_quality(), *source, *caps)),
    {
        let channels = &caps.supported_channels;
        let mut keys: Vec<u64> = Vec::new();
        let mut i: usize = 0;
        while i < channels.len()
            invariant
                0 <= i <= channels.len(),
                keys@.len() == i,
                forall|j: int| 0 <= j < i ==> keys@[j] == #[trigger] channels@[j] as u64,
            decreases channels.len() - i,
        {
            keys.push(channels[i] as u64);
            i = i + 1;
        }
        assert(keys@ =~= channel_keys(channels@));
        let target = source.channels as u64;
        let supported = holds_key(&keys, target);
        proof {
            if supported {
                let j = choose|j: int| 0 <= j < keys@.len() && keys@[j] == target;
                assert(channels@[j] == source.channels);
                assert(channels@.contains(source.channels));
            } else if channels@.contains(source.channels) {
                let j = choose|j: int| 0 <= j < channels@.len() && channels@[j] == source.channels;
                assert(keys@[j] == target);
            }
        }
        if supported {
            return Ok(source.channels);
        }
        match choose_key(&keys, target, self.strategy.prefer_quality) {
            Some(i) => Ok(channels[i]),
            None => Err(Uac2Error::NoSupportedFormat),
        }
    }

    fn bit_depth_value(depth: BitDepth) -> (r: u8)
        ensures
            r == depth_bits(depth),
    {
        match depth {
            BitDepth::Bit16 => 16,
            BitDepth::Bit24 => 24,
            BitDepth::Bit32 => 32,
        }
    }
}

/// A source's sample rate can be converted to a target's when their ratio lies between
/// one quarter and four.
pub open spec fn rate_convertible(source: SampleRate, target: SampleRate) -> bool {
    &&& 4 * rate_hz(source) >= rate_hz(target)
    &&& rate_hz(source) <= 4 * rate_hz(target)
}

/// Channels can be converted between mono and stereo, or kept.
pub open spec fn channels_convertible(source: usize, target: usize) -> bool {
    ||| (source == 1 && target == 2)
    ||| (source == 2 && target == 1)
    ||| source == target
}

/// A source format can be converted to a target format.
pub open spec fn convertible(source: AudioFormat, target: AudioFormat) -> bool {
    &&& rate_convertible(source.sample_rate, target.sample_rate)
    &&& channels_convertible(source.channels, target.channels)
}

/// Two formats differ in rate, depth or channel count.
pub open spec fn differs(source: AudioFormat, target: AudioFormat) -> bool {
    ||| source.sample_rate != target.sample_rate
    ||| source.bit_depth != target.bit_depth
    ||| source.channels != target.channels
}

/// Decides whether a format mismatch can be bridged by conversion.
pub struct FormatMismatchHandler;

impl FormatMismatchHandler {
    /// Whether a stream in `source` can be converted to `target`: the rates lie within a
    /// factor of four of each other, any depth converts, and channels convert between mono
    /// and stereo or stay as they are.
    pub fn can_handle(source: &AudioFormat, target: &AudioFormat) -> (r: bool)
        ensures
            r == convertible(*source, *target),
    {
        Self::can_convert_sample_rate(source, target) && Self::can_convert_bit_depth(source, target)
            && Self::can_convert_channels(source, target)
    }

    /// Whether streaming `source` as `target` needs a conversion.
    pub fn requires_conversion(source: &AudioFormat, target: &AudioFormat) -> (r: bool)
        ensures
            r == differs(*source, *target),
    {
        source.sample_rate != target.sample_rate || source.bit_depth != target.bit_depth
            || source.channels != target.channels
    }

    fn can_convert_sample_rate(source: &AudioFormat, target: &AudioFormat) -> (r: bool)
        ensures
            r == rate_convertible(source.sample_rate, target.sample_rate),
    {
        let s = source.sample_rate.hz() as u64;
        let t = target.sample_rate.hz() as u64;
        4 * s >= t && s <= 4 * t
    }

    fn can_convert_bit_depth(_source: &AudioFormat, _target: &AudioFormat) -> (r: bool)
        ensures
            r,
    {
        true
    }

    fn can_convert_channels(source: &AudioFormat, target: &AudioFormat) -> (r: bool)
        ensures
            r == channels_convertible(source.channels, target.channels),
    {
        (source.channels == 1 && target.channels == 2) || (source.channels == 2
            && target.channels == 1) || source.channels == target.channels
    }
}

/// Whether `keys` holds `key`.
fn holds_key(keys: &Vec<u64>, key: u64) -> (r: bool)
    ensures
        r == keys@.contains(key),
{
    let mut i: usize = 0;
    while i < keys.len()
        invariant
            0 <= i <= keys.len(),
            forall|j: int| 0 <= j < i ==> keys@[j] != key,
        decreases keys.len() - i,
    {
        if keys[i] == key {
            assert(keys@[i as int] == key);
            return true;
        }
        i = i + 1;
    }
    false
}

/// The position chosen among `keys` for `target`, or none where `keys` is empty.
fn choose_key(keys: &Vec<u64>, target: u64, prefer_quality: bool) -> (r: Option<usize>)
    ensures
        r is None <==> keys@.len() == 0,
        r matches Some(i) ==> i < keys@.len() && i == chosen_position(keys@, target, prefer_quality),
{
    let n = keys.len();
    if n == 0 {
        return None;
    }
    let ghost s = keys@;
    let mut best: usize = 0;
    if prefer_quality {
        let mut found = false;
        let mut i: usize = 0;
        while i < n
            invariant
                n == s.len(),
                s == keys@,
                0 <= i <= n,
                best < n,
                found <==> exists|j: int| 0 <= j < i && #[trigger] s[j] >= target,
                found ==> {
                    &&& best < i
                    &&& s[best as int] >= target
                    &&& forall|j: int| 0 <= j < i && s[j] >= target ==> s[best as int] <= #[trigger] s[j]
                    &&& forall|j: int| 0 <= j < best && s[j] >= target ==> s[best as int] < #[trigger] s[j]
                },
            decreases n - i,
        {
            if keys[i] >= target && (!found || keys[i] < keys[best]) {
                best = i;
                found = true;
            }
            i = i + 1;
        }
        if !found {
            assert(!has_key_not_below(s, target));
            let mut i: usize = 1;
            best = 0;
            while i < n
                invariant
                    n == s.len(),
                    s == keys@,
                    1 <= i <= n,
                    best < i,
                    forall|j: int| 0 <= j < i ==> #[trigger] s[j] <= s[best as int],
                    forall|j: int| best < j < i ==> #[trigger] s[j] < s[best as int],
                decreases n - i,
            {
                if keys[i] >= keys[best] {
                    best = i;
                }
                i = i + 1;
            }
            assert(is_last_greatest(s, best as int));
        } else {
            assert(has_key_not_below(s, target));
            assert(is_least_not_below(s, target, best as int));
        }
    } else {
        let mut i: usize = 1;
        while i < n
            invariant
                n == s.len(),
                s == keys@,
                1 <= i <= n,
                best < i,
                forall|j: int|
                    0 <= j < i ==> distance(s[best as int] as int, target as int) <= distance(
                        #[trigger] s[j] as int,
                        target as int,
                    ),
                forall|j: int|
                    0 <= j < best ==> distance(s[best as int] as int, target as int) < distance(
                        #[trigger] s[j] as int,
                        target as int,
                    ),
            decreases n - i,
        {
            let d_new = if keys[i] >= target { keys[i] - target } else { target - keys[i] };
            let d_best = if keys[best] >= target { keys[best] - target } else { target - keys[best] };
            if d_new < d_best {
                best = i;
            }
            i = i + 1;
        }
    }
    proof {
        assert(is_chosen_position(s, target, prefer_quality, best as int));
        let c = chosen_position(s, target, prefer_quality);
        assert(is_chosen_position(s, target, prefer_quality, c));
        lemma_chosen_position_unique(s, target, prefer_quality, best as int, c);
    }
    Some(best)
}

} // verus!

verus! {

/// What a pick among candidates keyed by `key` gives: something exactly when there are
/// candidates; always a candidate; the source where it is one; preferring quality, a
/// candidate of least key not below the source's, or failing that of greatest key;
/// otherwise a candidate of key nearest to the source's.
pub proof fn lemma_pick<A>(candidates: Seq<A>, key: spec_fn(A) -> u64, source: A, prefer_quality: bool)
    ensures
        ({
            let keys = candidates.map_values(key);
            let p = pick(candidates, keys, source, key(source), prefer_quality);
            &&& p is Some <==> candidates.len() > 0
            &&& p matches Some(a) ==> candidates.contains(a)
            &&& candidates.contains(source) ==> p == Some(source)
            &&& p is Some && prefer_quality && has_key_not_below(keys, key(source)) ==> {
                &&& key(p->0) >= key(source)
                &&& forall|j: int|
                    0 <= j < keys.len() && keys[j] >= key(source) ==> key(p->0) <= #[trigger] keys[j]
            }
            &&& p is Some && prefer_quality && !has_key_not_below(keys, key(source))
                ==> forall|j: int| 0 <= j < keys.len() ==> #[trigger] keys[j] <= key(p->0)
            &&& p is Some && !prefer_quality ==> forall|j: int|
                0 <= j < keys.len() ==> distance(key(p->0) as int, key(source) as int) <= distance(
                    #[trigger] keys[j] as int,
                    key(source) as int,
                )
        }),
{
    let keys = candidates.map_values(key);
    let target = key(source);
    if candidates.contains(source) {
        let i = choose|i: int| 0 <= i < candidates.len() && candidates[i] == source;
        assert(keys[i] == target);
        assert(has_key_not_below(keys, target));
    } else if candidates.len() > 0 {
        lemma_chosen_position_exists(keys, target, prefer_quality);
        let c = chosen_position(keys, target, prefer_quality);
        assert(keys[c] == key(candidates[c]));
        assert(candidates.contains(candidates[c]));
    }
}

/// A format that the device supports in rate, depth and channel count is negotiated
/// unchanged, whatever the strategy, so it is streamed without conversion.
pub proof fn law_supported_format_kept(
    prefer_quality: bool,
    source: AudioFormat,
    caps: DeviceCapabilities,
)
    requires
        caps.supported_sample_rates@.contains(source.sample_rate),
        caps.supported_bit_depths@.contains(source.bit_depth),
        caps.supported_channels@.contains(source.channels),
    ensures
        negotiated_format(prefer_quality, source, caps) == Some(source),
        !differs(source, source),
{
}

/// Negotiation succeeds exactly when the device lists a rate, a depth and a channel
/// count, and the negotiated format is made of values that the device lists, with the
/// source's sample encoding.
pub proof fn law_negotiated_format_supported(
    prefer_quality: bool,
    source: AudioFormat,
    caps: DeviceCapabilities,
)
    ensures
        negotiated_format(prefer_quality, source, caps) is Some <==> {
            &&& caps.supported_sample_rates@.len() > 0
            &&& caps.supported_bit_depths@.len() > 0
            &&& caps.supported_channels@.len() > 0
        },
        negotiated_format(prefer_quality, source, caps) matches Some(f) ==> {
            &&& caps.supported_sample_rates@.contains(f.sample_rate)
            &&& caps.supported_bit_depths@.contains(f.bit_depth)
            &&& caps.supported_channels@.contains(f.channels)
            &&& f.format_type == source.format_type
        },
{
    let rk = |r: SampleRate| rate_hz(r) as u64;
    let dk = |d: BitDepth| depth_bits(d) as u64;
    let ck = |c: usize| c as u64;
    assert(rate_keys(caps.supported_sample_rates@) =~= caps.supported_sample_rates@.map_values(rk));
    assert(depth_keys(caps.supported_bit_depths@) =~= caps.supported_bit_depths@.map_values(dk));
    assert(channel_keys(caps.supported_channels@) =~= caps.supported_channels@.map_values(ck));
    lemma_pick(caps.supported_sample_rates@, rk, source.sample_rate, prefer_quality);
    lemma_pick(caps.supported_bit_depths@, dk, source.bit_depth, prefer_quality);
    lemma_pick(caps.supported_channels@, ck, source.channels, prefer_quality);
}

/// Preferring quality never lowers the rate, the depth or the channel count while the
/// device supports one at least as high: the least such is taken. Where it supports none,
/// the highest that it supports is taken.
pub proof fn law_quality_never_lowers(source: AudioFormat, caps: DeviceCapabilities)
    ensures
        negotiated_sample_rate(true, source, caps) matches Some(r) ==> {
            let rates = caps.supported_sample_rates@;
            if exists|j: int| 0 <= j < rates.len() && rate_hz(#[trigger] rates[j]) >= rate_hz(source.sample_rate) {
                &&& rate_hz(r) >= rate_hz(source.sample_rate)
                &&& forall|j: int|
                    0 <= j < rates.len() && rate_hz(rates[j]) >= rate_hz(source.sample_rate)
                        ==> rate_hz(r) <= rate_hz(#[trigger] rates[j])
            } else {
                forall|j: int| 0 <= j < rates.len() ==> rate_hz(#[trigger] rates[j]) <= rate_hz(r)
            }
        },
        negotiated_bit_depth(true, source, caps) matches Some(d) ==> {
            let depths = caps.supported_bit_depths@;
            if exists|j: int| 0 <= j < depths.len() && depth_bits(#[trigger] depths[j]) >= depth_bits(source.bit_depth) {
                &&& depth_bits(d) >= depth_bits(source.bit_depth)
                &&& forall|j: int|
                    0 <= j < depths.len() && depth_bits(depths[j]) >= depth_bits(source.bit_depth)
                        ==> depth_bits(d) <= depth_bits(#[trigger] depths[j])
            } else {
                forall|j: int| 0 <= j < depths.len() ==> depth_bits(#[trigger] depths[j]) <= depth_bits(d)
            }
        },
        negotiated_channels(true, source, caps) matches Some(c) ==> {
            let chans = caps.supported_channels@;
            if exists|j: int| 0 <= j < chans.len() && #[trigger] chans[j] >= source.channels {
                &&& c >= source.channels
                &&& forall|j: int| 0 <= j < chans.len() && chans[j] >= source.channels ==> c <= #[trigger] chans[j]
            } else {
                forall|j: int| 0 <= j < chans.len() ==> #[trigger] chans[j] <= c
            }
        },
{
    let rates = caps.supported_sample_rates@;
    let rk = |r: SampleRate| rate_hz(r) as u64;
    let rks = rates.map_values(rk);
    assert(rate_keys(rates) =~= rks);
    lemma_pick(rates, rk, source.sample_rate, true);
    let t = rate_hz(source.sample_rate) as u64;
    if negotiated_sample_rate(true, source, caps) is Some {
        let r = negotiated_sample_rate(true, source, caps)->0;
        if exists|j: int| 0 <= j < rates.len() && rate_hz(#[trigger] rates[j]) >= rate_hz(source.sample_rate) {
            let j0 = choose|j: int| 0 <= j < rates.len() && rate_hz(#[trigger] rates[j]) >= rate_hz(source.sample_rate);
            assert(rks[j0] >= t);
            assert forall|j: int| 0 <= j < rates.len() && rate_hz(rates[j]) >= rate_hz(source.sample_rate)
                implies rate_hz(r) <= rate_hz(#[trigger] rates[j]) by {
                assert(rks[j] == rate_hz(rates[j]) as u64);
            }
        } else {
            assert(!has_key_not_below(rks, t)) by {
                if has_key_not_below(rks, t) {
                    let j = choose|j: int| 0 <= j < rks.len() && #[trigger] rks[j] >= t;
                    assert(rate_hz(rates[j]) >= rate_hz(source.sample_rate));
                }
            }
            assert forall|j: int| 0 <= j < rates.len() implies rate_hz(#[trigger] rates[j]) <= rate_hz(r) by {
                assert(rks[j] == rate_hz(rates[j]) as u64);
            }
        }
    }
    let depths = caps.supported_bit_depths@;
    let dk = |d: BitDepth| depth_bits(d) as u64;
    let dks = depths.map_values(dk);
    assert(depth_keys(depths) =~= dks);
    lemma_pick(depths, dk, source.bit_depth, true);
    let u = depth_bits(source.bit_depth) as u64;
    if negotiated_bit_depth(true, source, caps) is Some {
        let d = negotiated_bit_depth(true, source, caps)->0;
        if exists|j: int| 0 <= j < depths.len() && depth_bits(#[trigger] depths[j]) >= depth_bits(source.bit_depth) {
            let j0 = choose|j: int| 0 <= j < depths.len() && depth_bits(#[trigger] depths[j]) >= depth_bits(source.bit_depth);
            assert(dks[j0] >= u);
            assert forall|j: int| 0 <= j < depths.len() && depth_bits(depths[j]) >= depth_bits(source.bit_depth)
                implies depth_bits(d) <= depth_bits(#[trigger] depths[j]) by {
                assert(dks[j] == depth_bits(depths[j]) as u64);
            }
        } else {
            assert(!has_key_not_below(dks, u)) by {
                if has_key_not_below(dks, u) {
                    let j = choose|j: int| 0 <= j < dks.len() && #[trigger] dks[j] >= u;
                    assert(depth_bits(depths[j]) >= depth_bits(source.bit_depth));
                }
            }
            assert forall|j: int| 0 <= j < depths.len() implies depth_bits(#[trigger] depths[j]) <= depth_bits(d) by {
                assert(dks[j] == depth_bits(depths[j]) as u64);
            }
        }
    }
    let chans = caps.supported_channels@;
    let ck = |c: usize| c as u64;
    let cks = chans.map_values(ck);
    assert(channel_keys(chans) =~= cks);
    lemma_pick(chans, ck, source.channels, true);
    let v = source.channels as u64;
    if negotiated_channels(true, source, caps) is Some {
        let c = negotiated_channels(true, source, caps)->0;
        if exists|j: int| 0 <= j < chans.len() && #[trigger] chans[j] >= source.channels {
            let j0 = choose|j: int| 0 <= j < chans.len() && #[trigger] chans[j] >= source.channels;
            assert(cks[j0] >= v);
            assert forall|j: int| 0 <= j < chans.len() && chans[j] >= source.channels
                implies c <= #[trigger] chans[j] by {
                assert(cks[j] == chans[j] as u64);
            }
        } else {
            assert(!has_key_not_below(cks, v)) by {
                if has_key_not_below(cks, v) {
                    let j = choose|j: int| 0 <= j < cks.len() && #[trigger] cks[j] >= v;
                    assert(chans[j] >= source.channels);
                }
            }
            assert forall|j: int| 0 <= j < chans.len() implies #[trigger] chans[j] <= c by {
                assert(cks[j] == chans[j] as u64);
            }
        }
    }
}

/// Preferring compatibility takes the supported rate, depth and channel count nearest to
/// the source's.
pub proof fn law_compatibility_nearest(source: AudioFormat, caps: DeviceCapabilities)
    ensures
        negotiated_sample_rate(false, source, caps) matches Some(r) ==> forall|j: int|
            0 <= j < caps.supported_sample_rates@.len() ==> distance(
                rate_hz(r) as int,
                rate_hz(source.sample_rate) as int,
            ) <= distance(
                rate_hz(#[trigger] caps.supported_sample_rates@[j]) as int,
                rate_hz(source.sample_rate) as int,
            ),
        negotiated_bit_depth(false, source, caps) matches Some(d) ==> forall|j: int|
            0 <= j < caps.supported_bit_depths@.len() ==> distance(
                depth_bits(d) as int,
                depth_bits(source.bit_depth) as int,
            ) <= distance(
                depth_bits(#[trigger] caps.supported_bit_depths@[j]) as int,
                depth_bits(source.bit_depth) as int,
            ),
        negotiated_channels(false, source, caps) matches Some(c) ==> forall|j: int|
            0 <= j < caps.supported_channels@.len() ==> distance(c as int, source.channels as int)
                <= distance(#[trigger] caps.supported_channels@[j] as int, source.channels as int),
{
    let rates = caps.supported_sample_rates@;
    let rk = |r: SampleRate| rate_hz(r) as u64;
    let rks = rates.map_values(rk);
    assert(rate_keys(rates) =~= rks);
    lemma_pick(rates, rk, source.sample_rate, false);
    if negotiated_sample_rate(false, source, caps) is Some {
        let r = negotiated_sample_rate(false, source, caps)->0;
        assert forall|j: int| 0 <= j < rates.len() implies distance(
            rate_hz(r) as int,
            rate_hz(source.sample_rate) as int,
        ) <= distance(rate_hz(#[trigger] rates[j]) as int, rate_hz(source.sample_rate) as int) by {
            assert(rks[j] == rate_hz(rates[j]) as u64);
        }
    }
    let depths = caps.supported_bit_depths@;
    let dk = |d: BitDepth| depth_bits(d) as u64;
    let dks = depths.map_values(dk);
    assert(depth_keys(depths) =~= dks);
    lemma_pick(depths, dk, source.bit_depth, false);
    if negotiated_bit_depth(false, source, caps) is Some {
        let d = negotiated_bit_depth(false, source, caps)->0;
        assert forall|j: int| 0 <= j < depths.len() implies distance(
            depth_bits(d) as int,
            depth_bits(source.bit_depth) as int,
        ) <= distance(depth_bits(#[trigger] depths[j]) as int, depth_bits(source.bit_depth) as int) by {
            assert(dks[j] == depth_bits(depths[j]) as u64);
        }
    }
    let chans = caps.supported_channels@;
    let ck = |c: usize| c as u64;
    let cks = chans.map_values(ck);
    assert(channel_keys(chans) =~= cks);
    lemma_pick(chans, ck, source.channels, false);
    if negotiated_channels(false, source, caps) is Some {
        let c = negotiated_channels(false, source, caps)->0;
        assert forall|j: int| 0 <= j < chans.len() implies distance(c as int, source.channels as int)
            <= distance(#[trigger] chans[j] as int, source.channels as int) by {
            assert(cks[j] == chans[j] as u64);
        }
    }
}

/// Conversion works both ways: a format converts to another exactly when that one
/// converts back, and two formats differ symmetrically; no format differs from itself.
pub proof fn law_conversion_symmetric(a: AudioFormat, b: AudioFormat)
    ensures
        convertible(a, b) == convertible(b, a),
        differs(a, b) == differs(b, a),
        !differs(a, a),
        convertible(a, a),
{
}

/// Negotiation is idempotent: negotiating again from a negotiated format, on the same
/// device and with the same strategy, gives that format back.
pub proof fn law_negotiation_idempotent(
    prefer_quality: bool,
    source: AudioFormat,
    caps: DeviceCapabilities,
)
    ensures
        negotiated_format(prefer_quality, source, caps) matches Some(f) ==> negotiated_format(
            prefer_quality,
            f,
            caps,
        ) == Some(f),
{
    law_negotiated_format_supported(prefer_quality, source, caps);
    if negotiated_format(prefer_quality, source, caps) is Some {
        let f = negotiated_format(prefer_quality, source, caps)->0;
        law_supported_format_kept(prefer_quality, f, caps);
    }
}

/// A mismatch can be bridged exactly when the rates lie within a factor of four of each
/// other (in either direction) and the channels stay as they are or go between mono and
/// stereo; the bit depths never matter.
pub proof fn law_convertible_exactly(a: AudioFormat, b: AudioFormat, other_depth: BitDepth)
    ensures
        convertible(a, b) <==> {
            &&& rate_hz(b.sample_rate) <= 4 * rate_hz(a.sample_rate)
            &&& rate_hz(a.sample_rate) <= 4 * rate_hz(b.sample_rate)
            &&& (a.channels == b.channels || (a.channels == 1 && b.channels == 2) || (a.channels
                == 2 && b.channels == 1))
        },
        convertible(a, b) == convertible(AudioFormat { bit_depth: other_depth, ..a }, b),
{
}

/// Streaming needs a conversion exactly when the formats differ in rate, bit depth or
/// channel count; the sample encoding does not count.
pub proof fn law_conversion_needed_exactly(a: AudioFormat, b: AudioFormat)
    ensures
        !differs(a, b) <==> (a.sample_rate == b.sample_rate && a.bit_depth == b.bit_depth
            && a.channels == b.channels),
{
}

/// Preferring compatibility, of candidates equally near the source the first listed is
/// taken: the picked candidate stands at a position before which every candidate is
/// strictly farther from the source.
pub proof fn law_compatibility_first_of_ties<A>(candidates: Seq<A>, key: spec_fn(A) -> u64, source: A)
    requires
        !candidates.contains(source),
    ensures
        ({
            let p = pick(candidates, candidates.map_values(key), source, key(source), false);
            p is Some ==> exists|c: int|
                0 <= c < candidates.len() && candidates[c] == p->0 && forall|j: int|
                    0 <= j < c ==> distance(key(#[trigger] candidates[j]) as int, key(source) as int)
                        > distance(key(p->0) as int, key(source) as int)
        }),
{
    let keys = candidates.map_values(key);
    if candidates.len() > 0 {
        lemma_chosen_position_exists(keys, key(source), false);
        let c = chosen_position(keys, key(source), false);
        assert forall|j: int| 0 <= j < c implies distance(
            key(#[trigger] candidates[j]) as int,
            key(source) as int,
        ) > distance(key(candidates[c]) as int, key(source) as int) by {
            assert(keys[j] == key(candidates[j]));
            assert(keys[c] == key(candidates[c]));
        }
    }
}

} // verus!
