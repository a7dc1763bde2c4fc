//! PCM formats of the system tap, frame timestamps, and the walk over frames when channels are
//! mixed to mono.
//!
//! The samples themselves are opaque here: how a frame is mixed into one sample is up to the
//! caller.

use vstd::prelude::*;
use vstd::string::*;
use crate::timeline;

verus! {

/// The format identifier of linear PCM, the characters `lpcm`.
pub const FORMAT_LINEAR_PCM: u32 = 0x6c70_636d;

pub const FLAG_IS_FLOAT: u32 = 1;

pub const FLAG_IS_BIG_ENDIAN: u32 = 2;

pub const FLAG_IS_PACKED: u32 = 8;

pub const FLAG_IS_NON_INTERLEAVED: u32 = 32;

/// How the channels of a stream are arranged in memory.
#[derive(Clone, Copy, Debug, PartialEq, Eq, Structural)]
pub enum PcmLayout {
    Interleaved { channels: usize },
    Planar { channels: usize },
}

impl PcmLayout {
    pub open spec fn spec_channels(self) -> usize {
        match self {
            PcmLayout::Interleaved { channels } => channels,
            PcmLayout::Planar { channels } => channels,
        }
    }

    /// The number of channels.
    pub fn channels(self) -> (r: usize)
        ensures
            r == self.spec_channels(),
    {
        match self {
            PcmLayout::Interleaved { channels } => channels,
            PcmLayout::Planar { channels } => channels,
        }
    }
}

#[derive(Clone, Copy, Debug, PartialEq, Eq, Structural)]
pub struct Format {
    pub sample_rate: u32,
    pub layout: PcmLayout,
}

/// The description that the audio system gives of a stream. The sample rate is a double, held
/// by its bit pattern.
#[derive(Clone, Copy, Debug)]
pub struct StreamDescription {
    pub sample_rate_bits: u64,
    pub format_id: u32,
    pub format_flags: u32,
    pub bytes_per_packet: u32,
    pub frames_per_packet: u32,
    pub bytes_per_frame: u32,
    pub channels_per_frame: u32,
    pub bits_per_channel: u32,
}

/// Why a stream cannot be captured.
#[derive(Clone, Copy, Debug, PartialEq, Eq, Structural)]
pub enum FormatError {
    NotLinearPcm,
    NotFloat,
    NotPacked,
    BigEndian,
    BitsPerChannel { bits: u32 },
    SampleRate,
    FramesPerPacket,
    NoChannels,
    TooManyChannels,
    ByteStrides,
}

impl FormatError {
    pub open spec fn spec_message(self) -> Seq<char> {
        match self {
            FormatError::NotLinearPcm => "format is not linear PCM"@,
            FormatError::NotFloat => "PCM is not floating-point"@,
            FormatError::NotPacked => "PCM is not packed"@,
            FormatError::BigEndian => "big-endian PCM is unsupported"@,
            FormatError::BitsPerChannel { bits } => "expected f32 PCM, got "@
                + crate::text::decimal(bits as nat) + " bits"@,
            FormatError::SampleRate => "sample rate cannot be represented exactly as u32"@,
            FormatError::FramesPerPacket => "expected one PCM frame per packet"@,
            FormatError::NoChannels => "tap has zero channels"@,
            FormatError::TooManyChannels => "channel count overflows bytes per frame"@,
            FormatError::ByteStrides => "ASBD byte strides do not describe packed f32 PCM"@,
        }
    }

    /// The error in words.
    pub fn message(self) -> (r: String)
        ensures
            r@ == self.spec_message(),
    {
        match self {
            FormatError::NotLinearPcm => "format is not linear PCM".to_owned(),
            FormatError::NotFloat => "PCM is not floating-point".to_owned(),
            FormatError::NotPacked => "PCM is not packed".to_owned(),
            FormatError::BigEndian => "big-endian PCM is unsupported".to_owned(),
            FormatError::BitsPerChannel { bits } => {
                let mut s = "expected f32 PCM, got ".to_owned();
                crate::text::push_decimal(&mut s, bits as u64);
                s.append(" bits");
                s
            },
            FormatError::SampleRate =>
                "sample rate cannot be represented exactly as u32".to_owned(),
            FormatError::FramesPerPacket => "expected one PCM frame per packet".to_owned(),
            FormatError::NoChannels => "tap has zero channels".to_owned(),
            FormatError::TooManyChannels => "channel count overflows bytes per frame".to_owned(),
            FormatError::ByteStrides =>
                "ASBD byte strides do not describe packed f32 PCM".to_owned(),
        }
    }
}

/// The significand of a normal double: its 52 stored bits under the leading one.
pub open spec fn significand(bits: u64) -> int {
    0x10_0000_0000_0000 + bits % 0x10_0000_0000_0000
}

/// The sign and exponent field of a double. A set sign makes it at least 2048.
pub open spec fn exponent_field(bits: u64) -> int {
    (bits / 0x10_0000_0000_0000) as int
}

/// The value of a double, where it is a whole number from 1 to the largest `u32`.
///
/// A double with exponent field `e` is its significand times `2^(e - 1075)`. It is at least 1
/// from 1023 on and below `2^32` up to 1054.
pub open spec fn whole_rate(bits: u64) -> Option<u32> {
    let e = exponent_field(bits);
    let unit = vstd::arithmetic::power2::pow2((1075 - e) as nat);
    if 1023 <= e <= 1054 && significand(bits) % unit as int == 0 {
        Some((significand(bits) / unit as int) as u32)
    } else {
        None
    }
}

/// The number of bytes that a packed frame takes in one buffer.
pub open spec fn packed_bytes_per_frame(d: StreamDescription) -> int {
    if d.format_flags & FLAG_IS_NON_INTERLEAVED != 0 {
        4
    } else {
        d.channels_per_frame * 4
    }
}

/// The first reason for which a stream cannot be captured, if there is one.
pub open spec fn format_error(d: StreamDescription) -> Option<FormatError> {
    if d.format_id != FORMAT_LINEAR_PCM {
        Some(FormatError::NotLinearPcm)
    } else if d.format_flags & FLAG_IS_FLOAT == 0 {
        Some(FormatError::NotFloat)
    } else if d.format_flags & FLAG_IS_PACKED == 0 {
        Some(FormatError::NotPacked)
    } else if d.format_flags & FLAG_IS_BIG_ENDIAN != 0 {
        Some(FormatError::BigEndian)
    } else if d.bits_per_channel != 32 {
        Some(FormatError::BitsPerChannel { bits: d.bits_per_channel })
    } else if whole_rate(d.sample_rate_bits) is None {
        Some(FormatError::SampleRate)
    } else if d.frames_per_packet != 1 {
        Some(FormatError::FramesPerPacket)
    } else if d.channels_per_frame == 0 {
        Some(FormatError::NoChannels)
    } else if packed_bytes_per_frame(d) > usize::MAX {
        Some(FormatError::TooManyChannels)
    } else if d.bytes_per_frame != packed_bytes_per_frame(d) || d.bytes_per_packet
        != packed_bytes_per_frame(d) {
        Some(FormatError::ByteStrides)
    } else {
        None
    }
}

/// The format of a stream that can be captured.
pub open spec fn stream_format(d: StreamDescription) -> Format {
    Format {
        sample_rate: whole_rate(d.sample_rate_bits)->0,
        layout: if d.format_flags & FLAG_IS_NON_INTERLEAVED != 0 {
            PcmLayout::Planar { channels: d.channels_per_frame as usize }
        } else {
            PcmLayout::Interleaved { channels: d.channels_per_frame as usize }
        },
    }
}

/// `2^k`.
fn power_of_two(k: u64) -> (r: u64)
    requires
        k <= 52,
    ensures
        r == vstd::arithmetic::power2::pow2(k as nat),
{
    proof {
        vstd::arithmetic::power2::lemma2_to64();
    }
    let mut r: u64 = 1;
    let mut i: u64 = 0;
    while i < k
        invariant
            i <= k <= 52,
            r == vstd::arithmetic::power2::pow2(i as nat),
        decreases k - i,
    {
        proof {
            vstd::arithmetic::power2::lemma_pow2_unfold((i + 1) as nat);
            vstd::arithmetic::power2::lemma2_to64();
            vstd::arithmetic::power2::lemma2_to64_rest();
            if i + 1 < 52 {
                vstd::arithmetic::power2::lemma_pow2_strictly_increases((i + 1) as nat, 52);
            }
        }
        r = r * 2;
        i += 1;
    }
    r
}

/// The sample rate that a double stands for, if it is a whole number that a `u32` can hold.
pub fn exact_rate(bits: u64) -> (r: Option<u32>)
    ensures
        r == whole_rate(bits),
        r matches Some(rate) ==> rate > 0,
{
    let e: u64 = bits / 0x10_0000_0000_0000;
    if e < 1023 || e > 1054 {
        return None;
    }
    let unit = power_of_two(1075 - e);
    let whole: u64 = 0x10_0000_0000_0000 + bits % 0x10_0000_0000_0000;
    proof {
        vstd::arithmetic::power2::lemma2_to64();
        vstd::arithmetic::power2::lemma2_to64_rest();
        if e > 1023 {
            vstd::arithmetic::power2::lemma_pow2_strictly_increases((1075 - e) as nat, 52);
        }
        if e < 1054 {
            vstd::arithmetic::power2::lemma_pow2_strictly_increases(21, (1075 - e) as nat);
        }
        assert(unit >= 0x20_0000);
        assert(unit <= 0x10_0000_0000_0000);
        assert(whole / unit <= 0xffff_ffff) by (nonlinear_arith)
            requires
                whole < 0x20_0000_0000_0000,
                unit >= 0x20_0000,
        ;
        assert(whole / unit >= 1) by (nonlinear_arith)
            requires
                whole >= 0x10_0000_0000_0000,
                0 < unit <= 0x10_0000_0000_0000,
        ;
    }
    if whole % unit != 0 {
        return None;
    }
    Some((whole / unit) as u32)
}

/// Accepts exactly the streams of packed native single-precision PCM with a whole sample rate.
pub fn validate_asbd(d: &StreamDescription) -> (r: Result<Format, FormatError>)
    ensures
        match r {
            Ok(f) => format_error(*d) is None && f == stream_format(*d),
            Err(e) => format_error(*d) == Some(e),
        },
        r is Ok <==> {
            &&& d.format_id == 0x6c70_636d
            &&& d.format_flags & 1 != 0
            &&& d.format_flags & 8 != 0
            &&& d.format_flags & 2 == 0
            &&& d.bits_per_channel == 32
            &&& whole_rate(d.sample_rate_bits) is Some
            &&& d.frames_per_packet == 1
            &&& d.channels_per_frame > 0
            &&& d.format_flags & 32 != 0 ==> d.bytes_per_frame == 4 && d.bytes_per_packet == 4
            &&& d.format_flags & 32 == 0 ==> d.bytes_per_frame == 4 * d.channels_per_frame
                && d.bytes_per_packet == 4 * d.channels_per_frame
        },
        r matches Ok(f) ==> {
            &&& Some(f.sample_rate) == whole_rate(d.sample_rate_bits)
            &&& d.format_flags & 32 != 0 ==> f.layout == (PcmLayout::Planar {
                channels: d.channels_per_frame as usize,
            })
            &&& d.format_flags & 32 == 0 ==> f.layout == (PcmLayout::Interleaved {
                channels: d.channels_per_frame as usize,
            })
        },
{
    if d.format_id != FORMAT_LINEAR_PCM {
        return Err(FormatError::NotLinearPcm);
    }
    if d.format_flags & FLAG_IS_FLOAT == 0 {
        return Err(FormatError::NotFloat);
    }
    if d.format_flags & FLAG_IS_PACKED == 0 {
        return Err(FormatError::NotPacked);
    }
    if d.format_flags & FLAG_IS_BIG_ENDIAN != 0 {
        return Err(FormatError::BigEndian);
    }
    if d.bits_per_channel != 32 {
        return Err(FormatError::BitsPerChannel { bits: d.bits_per_channel });
    }
    let sample_rate = match exact_rate(d.sample_rate_bits) {
        Some(rate) => rate,
        None => return Err(FormatError::SampleRate),
    };
    if d.frames_per_packet != 1 {
        return Err(FormatError::FramesPerPacket);
    }
    let channels: usize = d.channels_per_frame as usize;
    if channels == 0 {
        return Err(FormatError::NoChannels);
    }
    let non_interleaved = d.format_flags & FLAG_IS_NON_INTERLEAVED != 0;
    let expected: usize = if non_interleaved {
        4
    } else {
        match channels.checked_mul(4) {
            Some(bytes) => bytes,
            None => return Err(FormatError::TooManyChannels),
        }
    };
    if d.bytes_per_frame as usize != expected || d.bytes_per_packet as usize != expected {
        return Err(FormatError::ByteStrides);
    }
    let layout = if non_interleaved {
        PcmLayout::Planar { channels }
    } else {
        PcmLayout::Interleaved { channels }
    };
    Ok(Format { sample_rate, layout })
}

/// The time of the frame that lies `frame_offset` frames after `base_nanos`.
pub open spec fn frame_time(base_nanos: u64, frame_offset: u64, sample_rate: u32) -> int {
    if sample_rate == 0 {
        base_nanos as int
    } else {
        timeline::at_most_u64(base_nanos + (frame_offset * 1_000_000_000) / sample_rate as int)
    }
}

/// The time of the frame that lies `frame_offset` frames after `base_nanos`.
pub fn timestamp_for_frame(base_nanos: u64, frame_offset: u64, sample_rate: u32) -> (r: u64)
    ensures
        r == frame_time(base_nanos, frame_offset, sample_rate),
        r >= base_nanos,
        sample_rate == 0 ==> r == base_nanos,
        sample_rate > 0 && r < u64::MAX ==> (r - base_nanos) * sample_rate <= frame_offset
            * 1_000_000_000 < (r - base_nanos + 1) * sample_rate,
{
    proof {
        law_frames_are_timed_by_the_rate(base_nanos, frame_offset, sample_rate);
    }
    if sample_rate == 0 {
        return base_nanos;
    }
    let offset: u128 = (frame_offset as u128 * 1_000_000_000u128) / sample_rate as u128;
    let capped: u64 = if offset > u64::MAX as u128 {
        u64::MAX
    } else {
        offset as u64
    };
    base_nanos.saturating_add(capped)
}

/// Whether `mixed` is what `mix` makes of a frame with these samples.
pub open spec fn mixes<T, S, F: Fn(&[T]) -> S>(mix: F, frame: Seq<T>, mixed: S) -> bool {
    exists|f: &[T]| #[trigger] f@ == frame && call_ensures(mix, (f,), mixed)
}

/// Whether `mix` can be called on every frame of `channels` samples.
pub open spec fn mixes_frames_of<T, S, F: Fn(&[T]) -> S>(mix: F, channels: int) -> bool {
    forall|f: &[T]| #[trigger] f@.len() == channels ==> call_requires(mix, (f,))
}

/// Mixes interleaved frames into the slots of `output`, as far as both reach, and returns how
/// many frames were mixed. An incomplete frame at the end is left out, and zero channels count
/// as one.
pub fn downmix_interleaved_into<T: Copy, S, F: Fn(&[T]) -> S>(
    samples: &[T],
    channels: usize,
    output: &mut Vec<S>,
    mix: F,
) -> (written: usize)
    requires
        mixes_frames_of(mix, timeline::larger(channels as int, 1)),
    ensures
        written == timeline::smaller(
            old(output)@.len() as int,
            samples@.len() as int / timeline::larger(channels as int, 1),
        ),
        final(output)@.len() == old(output)@.len(),
        forall|i: int|
            0 <= i < written ==> mixes(
                mix,
                interleaved_frame(samples@, timeline::larger(channels as int, 1), i),
                #[trigger] final(output)@[i],
            ),
        forall|i: int|
            written <= i < old(output)@.len() ==> #[trigger] final(output)@[i]
                == old(output)@[i],
{
    let channels: usize = if channels == 0 {
        1
    } else {
        channels
    };
    let len: usize = samples.len();
    let available: usize = len / channels;
    let frames: usize = if available < output.len() {
        available
    } else {
        output.len()
    };
    let mut i: usize = 0;
    while i < frames
        invariant
            channels > 0,
            len == samples@.len(),
            frames <= samples@.len() / channels as nat,
            frames <= output@.len(),
            output@.len() == old(output)@.len(),
            i <= frames,
            mixes_frames_of(mix, channels as int),
            forall|k: int|
                0 <= k < i ==> mixes(
                    mix,
                    interleaved_frame(samples@, channels as int, k),
                    #[trigger] output@[k],
                ),
            forall|k: int|
                i <= k < old(output)@.len() ==> #[trigger] output@[k] == old(output)@[k],
        decreases frames - i,
    {
        proof {
            lemma_frame_fits(samples@.len() as int, channels as int, i as int);
        }
        let from: usize = i * channels;
        let to: usize = from + channels;
        let frame = vstd::slice::slice_subrange(samples, from, to);
        assert(frame@ =~= interleaved_frame(samples@, channels as int, i as int));
        let mixed = mix(frame);
        assert(mixes(mix, interleaved_frame(samples@, channels as int, i as int), mixed));
        output[i] = mixed;
        i += 1;
    }
    frames
}

proof fn lemma_frame_fits(len: int, channels: int, i: int)
    requires
        channels > 0,
        0 <= i < len / channels,
    ensures
        0 <= i * channels,
        i * channels + channels <= len,
        (i + 1) * channels == i * channels + channels,
{
    assert((i + 1) * channels <= len && 0 <= i * channels && (i + 1) * channels == i * channels
        + channels) by (nonlinear_arith)
        requires
            channels > 0,
            0 <= i,
            i + 1 <= len / channels,
    ;
}

/// The samples of frame `i` of an interleaved stream.
pub open spec fn interleaved_frame<T>(samples: Seq<T>, channels: int, i: int) -> Seq<T> {
    samples.subrange(i * channels, i * channels + channels)
}

/// Mixes `frames` frames of an interleaved buffer, from `source_frame` on, into the first slots
/// of `output`. Fails without data.
pub fn copy_interleaved_mono<T: Copy, S, F: Fn(&[T]) -> S>(
    output: &mut Vec<S>,
    frames: usize,
    source_frame: usize,
    channels: usize,
    data: Option<&[T]>,
    mix: F,
) -> (copied: bool)
    requires
        frames <= old(output)@.len(),
        data matches Some(samples) ==> (source_frame + frames) * channels <= samples@.len(),
        mixes_frames_of(mix, channels as int),
    ensures
        copied == (data is Some),
        final(output)@.len() == old(output)@.len(),
        data matches Some(samples) ==> forall|i: int|
            0 <= i < frames ==> mixes(
                mix,
                interleaved_frame(samples@, channels as int, source_frame + i),
                #[trigger] final(output)@[i],
            ),
        forall|i: int|
            (data is None || frames <= i) && 0 <= i < old(output)@.len()
                ==> #[trigger] final(output)@[i] == old(output)@[i],
{
    let samples = match data {
        Some(samples) => samples,
        None => return false,
    };
    let len: usize = samples.len();
    let mut i: usize = 0;
    while i < frames
        invariant
            len == samples@.len(),
            frames <= output@.len(),
            output@.len() == old(output)@.len(),
            (source_frame + frames) * channels <= samples@.len(),
            i <= frames,
            mixes_frames_of(mix, channels as int),
            forall|k: int|
                0 <= k < i ==> mixes(
                    mix,
                    interleaved_frame(samples@, channels as int, source_frame + k),
                    #[trigger] output@[k],
                ),
            forall|k: int|
                i <= k < old(output)@.len() ==> #[trigger] output@[k] == old(output)@[k],
        decreases frames - i,
    {
        let ghost at = source_frame + i;
        assert(0 <= at * channels && at * channels + channels <= (source_frame + frames)
            * channels) by (nonlinear_arith)
            requires
                0 <= at < source_frame + frames,
                channels >= 0,
        ;
        let from: usize = if channels == 0 {
            0
        } else {
            assert(at <= at * channels) by (nonlinear_arith)
                requires
                    at >= 0,
                    channels >= 1,
            ;
            (source_frame + i) * channels
        };
        let frame = vstd::slice::slice_subrange(samples, from, from + channels);
        assert(frame@ =~= interleaved_frame(samples@, channels as int, at as int));
        let mixed = mix(frame);
        assert(mixes(mix, interleaved_frame(samples@, channels as int, at as int), mixed));
        output[i] = mixed;
        i += 1;
    }
    true
}

/// The samples of frame `i` of a planar stream, one from each channel.
pub open spec fn planar_frame<T>(planes: Seq<Option<&[T]>>, channels: int, i: int) -> Seq<T> {
    Seq::new(channels as nat, |c: int| planes[c]->0@[i])
}

/// Whether each of the first `channels` planes has data.
pub open spec fn all_planes_present<T>(planes: Seq<Option<&[T]>>, channels: int) -> bool {
    forall|c: int| 0 <= c < channels ==> #[trigger] planes[c] is Some
}

/// Mixes `frames` frames of a planar stream, from `source_frame` on, into the first slots of
/// `output`. Fails if a channel has no data. `frame` is working space.
pub fn copy_planar_mono<T: Copy, S, F: Fn(&[T]) -> S>(
    output: &mut Vec<S>,
    frames: usize,
    source_frame: usize,
    channels: usize,
    planes: &[Option<&[T]>],
    frame: &mut Vec<T>,
    mix: F,
) -> (copied: bool)
    requires
        frames <= old(output)@.len(),
        channels <= planes@.len(),
        source_frame + frames <= usize::MAX,
        forall|c: int|
            0 <= c < channels ==> (#[trigger] planes@[c] matches Some(plane) ==> source_frame
                + frames <= plane@.len()),
        mixes_frames_of(mix, channels as int),
    ensures
        copied == (frames == 0 || all_planes_present(planes@, channels as int)),
        final(output)@.len() == old(output)@.len(),
        copied ==> forall|i: int|
            0 <= i < frames ==> mixes(
                mix,
                planar_frame(planes@, channels as int, source_frame + i),
                #[trigger] final(output)@[i],
            ),
        forall|i: int|
            (!copied || frames <= i) && 0 <= i < old(output)@.len()
                ==> #[trigger] final(output)@[i] == old(output)@[i],
{
    let mut i: usize = 0;
    while i < frames
        invariant
            frames <= output@.len(),
            output@.len() == old(output)@.len(),
            channels <= planes@.len(),
            source_frame + frames <= usize::MAX,
            forall|c: int|
                0 <= c < channels ==> (#[trigger] planes@[c] matches Some(plane) ==> source_frame
                    + frames <= plane@.len()),
            i <= frames,
            i > 0 ==> all_planes_present(planes@, channels as int),
            mixes_frames_of(mix, channels as int),
            forall|k: int|
                0 <= k < i ==> mixes(
                    mix,
                    planar_frame(planes@, channels as int, source_frame + k),
                    #[trigger] output@[k],
                ),
            forall|k: int|
                i <= k < old(output)@.len() ==> #[trigger] output@[k] == old(output)@[k],
        decreases frames - i,
    {
        frame.clear();
        let mut c: usize = 0;
        while c < channels
            invariant
                c <= channels <= planes@.len(),
                i < frames,
                source_frame + frames <= usize::MAX,
                forall|k: int|
                    0 <= k < channels ==> (#[trigger] planes@[k] matches Some(plane)
                        ==> source_frame + frames <= plane@.len()),
                i > 0 ==> all_planes_present(planes@, channels as int),
                output@.len() == old(output)@.len(),
                i == 0 ==> output@ == old(output)@,
                frame@.len() == c,
                forall|k: int|
                    0 <= k < c ==> (#[trigger] planes@[k]) is Some && frame@[k]
                        == planes@[k]->0@[source_frame + i],
            decreases channels - c,
        {
            match planes[c] {
                Some(plane) => {
                    frame.push(plane[source_frame + i]);
                },
                None => {
                    assert(planes@[c as int] is None);
                    return false;
                },
            }
            c += 1;
        }
        assert(frame@ =~= planar_frame(planes@, channels as int, source_frame + i));
        let mixed = mix(frame.as_slice());
        assert(mixes(mix, planar_frame(planes@, channels as int, source_frame + i), mixed));
        output[i] = mixed;
        i += 1;
    }
    true
}

/// A frame lies as many nanoseconds behind the first one as the frames between them last, rounded
/// down. Without a rate all frames have the time of the first one.
pub proof fn law_frames_are_timed_by_the_rate(base_nanos: u64, frame_offset: u64, sample_rate: u32)
    ensures
        ({
            let t = frame_time(base_nanos, frame_offset, sample_rate);
            &&& base_nanos <= t <= u64::MAX
            &&& sample_rate == 0 ==> t == base_nanos
            &&& sample_rate > 0 && t < u64::MAX ==> (t - base_nanos) * sample_rate <= frame_offset
                * 1_000_000_000 < (t - base_nanos + 1) * sample_rate
        }),
        frame_time(base_nanos, 0, sample_rate) == base_nanos,
{
    if sample_rate > 0 {
        let rate = sample_rate as int;
        let nanos = frame_offset * 1_000_000_000;
        let q = nanos / rate;
        vstd::arithmetic::div_mod::lemma_fundamental_div_mod(nanos, rate);
        vstd::arithmetic::div_mod::lemma_div_pos_is_pos(nanos, rate);
        assert(0 <= nanos % rate < rate) by (nonlinear_arith)
            requires
                rate > 0,
        ;
        assert(rate * q == q * rate) by (nonlinear_arith);
        assert((q + 1) * rate == q * rate + rate) by (nonlinear_arith);
        assert(0int / rate == 0) by (nonlinear_arith)
            requires
                rate > 0,
        ;
    }
}

/// A frame of an interleaved stream has one sample from each channel, and the frames follow one
/// another without gaps.
pub proof fn law_interleaved_frames_follow_each_other<T>(
    samples: Seq<T>,
    channels: int,
    i: int,
    c: int,
)
    requires
        0 <= c < channels,
        0 <= i,
        (i + 1) * channels <= samples.len(),
    ensures
        interleaved_frame(samples, channels, i).len() == channels,
        interleaved_frame(samples, channels, i)[c] == samples[channels * i + c],
{
    assert((i + 1) * channels == i * channels + channels && i * channels >= 0 && i * channels
        == channels * i) by (nonlinear_arith)
        requires
            0 <= i,
            0 <= channels,
    ;
}

/// A frame of a planar stream has the samples that stand at its place in the planes.
pub proof fn law_planar_frame_is_a_column<T>(
    planes: Seq<Option<&[T]>>,
    channels: int,
    i: int,
    c: int,
)
    requires
        0 <= c < channels,
    ensures
        planar_frame(planes, channels, i).len() == channels,
        planar_frame(planes, channels, i)[c] == planes[c]->0@[i],
{
}

/// A stream is accepted exactly if it is linear PCM of packed little-endian floats of 32 bits at a
/// whole rate, one frame a packet, with as many bytes a frame as its channels take in one buffer.
/// If it is not, the reason given is one that holds.
pub proof fn law_accepted_streams_are_packed_floats(d: StreamDescription)
    ensures
        format_error(d) is None <==> {
            &&& d.format_id == 0x6c70_636d
            &&& d.format_flags & 1 != 0
            &&& d.format_flags & 8 != 0
            &&& d.format_flags & 2 == 0
            &&& d.bits_per_channel == 32
            &&& whole_rate(d.sample_rate_bits) is Some
            &&& d.frames_per_packet == 1
            &&& d.channels_per_frame > 0
            &&& d.format_flags & 32 != 0 ==> d.bytes_per_frame == 4 && d.bytes_per_packet == 4
            &&& d.format_flags & 32 == 0 ==> d.bytes_per_frame == 4 * d.channels_per_frame
                && d.bytes_per_packet == 4 * d.channels_per_frame
        },
        match format_error(d) {
            None => true,
            Some(FormatError::NotLinearPcm) => d.format_id != 0x6c70_636d,
            Some(FormatError::NotFloat) => d.format_flags & 1 == 0,
            Some(FormatError::NotPacked) => d.format_flags & 8 == 0,
            Some(FormatError::BigEndian) => d.format_flags & 2 != 0,
            Some(FormatError::BitsPerChannel { bits }) => bits == d.bits_per_channel && bits != 32,
            Some(FormatError::SampleRate) => whole_rate(d.sample_rate_bits) is None,
            Some(FormatError::FramesPerPacket) => d.frames_per_packet != 1,
            Some(FormatError::NoChannels) => d.channels_per_frame == 0,
            Some(FormatError::TooManyChannels) => d.channels_per_frame * 4 > usize::MAX,
            Some(FormatError::ByteStrides) => {
                let bytes = if d.format_flags & 32 != 0 {
                    4
                } else {
                    4 * d.channels_per_frame
                };
                d.bytes_per_frame != bytes || d.bytes_per_packet != bytes
            },
        },
        format_error(d) is None ==> stream_format(d).layout.spec_channels()
            == d.channels_per_frame && (stream_format(d).layout is Planar <==> d.format_flags & 32
            != 0) && Some(stream_format(d).sample_rate) == whole_rate(d.sample_rate_bits),
{
}

/// A rate is the value of the double: the 53 bits of its significand, with as many of them behind
/// the point as the exponent says. A double that stands for a whole number that fits is always
/// read as that number.
pub proof fn law_rate_is_the_value_of_the_double(bits: u64, rate: u32, behind: nat, fraction: int)
    requires
        0 <= fraction < 0x10_0000_0000_0000,
        behind <= 1075,
        bits == (1075 - behind) * 0x10_0000_0000_0000 + fraction,
        rate > 0,
    ensures
        whole_rate(bits) == Some(rate) <==> rate * vstd::arithmetic::power2::pow2(behind)
            == 0x10_0000_0000_0000 + fraction,
{
    let unit = vstd::arithmetic::power2::pow2(behind) as int;
    let whole = 0x10_0000_0000_0000 + fraction;
    vstd::arithmetic::power2::lemma2_to64();
    vstd::arithmetic::power2::lemma2_to64_rest();
    vstd::arithmetic::power2::lemma_pow2_pos(behind);
    assert(exponent_field(bits) == 1075 - behind);
    assert(significand(bits) == whole);
    if rate * unit == whole {
        if behind > 52 {
            vstd::arithmetic::power2::lemma_pow2_strictly_increases(52, behind);
            vstd::arithmetic::power2::lemma_pow2_unfold(53);
            if behind > 53 {
                vstd::arithmetic::power2::lemma_pow2_strictly_increases(53, behind);
            }
            assert(rate * unit >= unit) by (nonlinear_arith)
                requires
                    rate >= 1,
                    unit >= 0,
            ;
        }
        if behind < 21 {
            vstd::arithmetic::power2::lemma_pow2_strictly_increases(behind, 21);
            vstd::arithmetic::power2::lemma_pow2_unfold(21);
            if behind < 20 {
                vstd::arithmetic::power2::lemma_pow2_strictly_increases(behind, 20);
            }
            assert(rate * unit <= 0xffff_ffff * 0x10_0000) by (nonlinear_arith)
                requires
                    0 <= rate <= 0xffff_ffff,
                    0 <= unit <= 0x10_0000,
            ;
        }
        assert(whole % unit == 0 && whole / unit == rate) by (nonlinear_arith)
            requires
                rate * unit == whole,
                unit > 0,
        ;
    }
    if whole_rate(bits) == Some(rate) {
        vstd::arithmetic::div_mod::lemma_fundamental_div_mod(whole, unit);
        let q = whole / unit;
        if behind < 52 {
            vstd::arithmetic::power2::lemma_pow2_strictly_increases(behind, 52);
        }
        if behind > 21 {
            vstd::arithmetic::power2::lemma_pow2_strictly_increases(21, behind);
        }
        assert(0 <= q <= 0xffff_ffff) by (nonlinear_arith)
            requires
                0 <= whole < 0x20_0000_0000_0000,
                unit >= 0x20_0000,
                q == whole / unit,
        ;
        assert(rate * unit == unit * q) by (nonlinear_arith)
            requires
                rate == q,
        ;
    }
}

/// Every reason for which a stream is not captured has words of its own.
pub proof fn law_reasons_are_told_apart(bits: u32)
    ensures
        FormatError::NotLinearPcm.spec_message() == "format is not linear PCM"@,
        FormatError::NotFloat.spec_message() == "PCM is not floating-point"@,
        FormatError::NotPacked.spec_message() == "PCM is not packed"@,
        FormatError::BigEndian.spec_message() == "big-endian PCM is unsupported"@,
        FormatError::SampleRate.spec_message()
            == "sample rate cannot be represented exactly as u32"@,
        FormatError::FramesPerPacket.spec_message() == "expected one PCM frame per packet"@,
        FormatError::NoChannels.spec_message() == "tap has zero channels"@,
        FormatError::TooManyChannels.spec_message() == "channel count overflows bytes per frame"@,
        FormatError::ByteStrides.spec_message()
            == "ASBD byte strides do not describe packed f32 PCM"@,
        ({
            let t = FormatError::BitsPerChannel { bits }.spec_message();
            let number = t.subrange(22, t.len() - 5);
            &&& t.take(22) == "expected f32 PCM, got "@
            &&& t.skip(t.len() - 5) == " bits"@
            &&& crate::text::all_digits(number)
            &&& crate::text::digits_value(number) == bits
        }),
{
    let t = FormatError::BitsPerChannel { bits }.spec_message();
    reveal_strlit("expected f32 PCM, got ");
    reveal_strlit(" bits");
    crate::text::law_decimal_reads_back(bits as nat);
    assert(t.take(22) =~= "expected f32 PCM, got "@);
    assert(t.skip(t.len() - 5) =~= " bits"@);
    assert(t.subrange(22, t.len() - 5) =~= crate::text::decimal(bits as nat));
}

/// As many frames are mixed as the samples and the room allow: no slot stays free while a whole
/// frame is left.
pub proof fn law_every_whole_frame_is_mixed<T: Copy, S, F: Fn(&[T]) -> S>(
    samples: &[T],
    channels: usize,
    output: &mut Vec<S>,
    mix: F,
    written: usize,
)
    requires
        mixes_frames_of(mix, timeline::larger(channels as int, 1)),
        call_ensures(
            downmix_interleaved_into::<T, S, F>,
            (samples, channels, output, mix),
            written,
        ),
    ensures
        written <= old(output)@.len(),
        final(output)@.len() == old(output)@.len(),
        channels > 0 ==> written * channels <= samples@.len(),
        channels > 0 && written < old(output)@.len() ==> samples@.len() < (written + 1) * channels,
        channels == 0 ==> written == timeline::smaller(
            old(output)@.len() as int,
            samples@.len() as int,
        ),
        forall|i: int|
            written <= i < old(output)@.len() ==> #[trigger] final(output)@[i]
                == old(output)@[i],
{
    let n = timeline::larger(channels as int, 1);
    let len = samples@.len() as int;
    let q = len / n;
    vstd::arithmetic::div_mod::lemma_fundamental_div_mod(len, n);
    assert(0 <= len % n < n) by (nonlinear_arith)
        requires
            n > 0,
    ;
    assert(written * n <= q * n) by (nonlinear_arith)
        requires
            written <= q,
            n > 0,
    ;
    assert(n * q == q * n && (q + 1) * n == q * n + n) by (nonlinear_arith);
    if channels == 0 {
        assert(q * n == q) by (nonlinear_arith)
            requires
                n == 1,
        ;
    }
}

} // verus!
