use sori::osstatus::{collect_status, ensure_supported_macos, fourcc, property_read, status};
use sori::pcm::{
    copy_interleaved_mono, copy_planar_mono, downmix_interleaved_into, exact_rate,
    timestamp_for_frame, validate_asbd, FormatError, PcmLayout, StreamDescription, FLAG_IS_BIG_ENDIAN,
    FLAG_IS_FLOAT, FLAG_IS_NON_INTERLEAVED, FLAG_IS_PACKED, FORMAT_LINEAR_PCM,
};

fn asbd(sample_rate: f64, channels: u32, non_interleaved: bool) -> StreamDescription {
    let bytes_per_frame = if non_interleaved { 4 } else { channels * 4 };
    StreamDescription {
        sample_rate_bits: sample_rate.to_bits(),
        format_id: FORMAT_LINEAR_PCM,
        format_flags: FLAG_IS_FLOAT
            | FLAG_IS_PACKED
            | if non_interleaved { FLAG_IS_NON_INTERLEAVED } else { 0 },
        bytes_per_packet: bytes_per_frame,
        frames_per_packet: 1,
        bytes_per_frame,
        channels_per_frame: channels,
        bits_per_channel: 32,
    }
}

fn mean(frame: &[f32]) -> f32 {
    frame.iter().sum::<f32>() / frame.len() as f32
}

fn error_of(d: &StreamDescription) -> String {
    match validate_asbd(d) {
        Ok(_) => String::new(),
        Err(e) => e.message(),
    }
}

#[test]
fn validates_exact_44k1_and_48k_layouts() {
    let interleaved = validate_asbd(&asbd(44_100.0, 2, false)).unwrap();
    assert_eq!(interleaved.sample_rate, 44_100);
    assert_eq!(interleaved.layout, PcmLayout::Interleaved { channels: 2 });
    let planar = validate_asbd(&asbd(48_000.0, 6, true)).unwrap();
    assert_eq!(planar.sample_rate, 48_000);
    assert_eq!(planar.layout, PcmLayout::Planar { channels: 6 });
}

#[test]
fn rejects_non_f32_non_packed_and_bad_stride() {
    let mut value = asbd(48_000.0, 2, false);
    value.format_flags &= !FLAG_IS_FLOAT;
    assert!(validate_asbd(&value).is_err());
    value = asbd(48_000.0, 2, false);
    value.format_flags &= !FLAG_IS_PACKED;
    assert!(validate_asbd(&value).is_err());
    value = asbd(48_000.0, 2, false);
    value.bytes_per_frame = 4;
    assert!(validate_asbd(&value).is_err());
}

#[test]
fn rejects_fractional_sample_rate() {
    assert!(validate_asbd(&asbd(44_100.5, 2, false)).is_err());
}

#[test]
fn every_format_error_has_its_message() {
    let mut d = asbd(48_000.0, 2, false);
    d.format_id = 1;
    assert_eq!(error_of(&d), "format is not linear PCM");
    d = asbd(48_000.0, 2, false);
    d.format_flags = FLAG_IS_PACKED;
    assert_eq!(error_of(&d), "PCM is not floating-point");
    d.format_flags = FLAG_IS_FLOAT;
    assert_eq!(error_of(&d), "PCM is not packed");
    d.format_flags = FLAG_IS_FLOAT | FLAG_IS_PACKED | FLAG_IS_BIG_ENDIAN;
    assert_eq!(error_of(&d), "big-endian PCM is unsupported");
    d = asbd(48_000.0, 2, false);
    d.bits_per_channel = 16;
    assert_eq!(error_of(&d), "expected f32 PCM, got 16 bits");
    d = asbd(0.5, 2, false);
    assert_eq!(error_of(&d), "sample rate cannot be represented exactly as u32");
    d = asbd(48_000.0, 2, false);
    d.frames_per_packet = 2;
    assert_eq!(error_of(&d), "expected one PCM frame per packet");
    d = asbd(48_000.0, 0, false);
    assert_eq!(error_of(&d), "tap has zero channels");
    d = asbd(48_000.0, 2, false);
    d.bytes_per_packet = 4;
    assert_eq!(error_of(&d), "ASBD byte strides do not describe packed f32 PCM");
    assert!(matches!(validate_asbd(&asbd(-48_000.0, 2, false)), Err(FormatError::SampleRate)));
}

#[test]
fn exact_rates_are_whole_positive_numbers() {
    assert_eq!(exact_rate(44_100.0f64.to_bits()), Some(44_100));
    assert_eq!(exact_rate(1.0f64.to_bits()), Some(1));
    assert_eq!(exact_rate(4_294_967_295.0f64.to_bits()), Some(u32::MAX));
    assert_eq!(exact_rate(4_294_967_296.0f64.to_bits()), None);
    assert_eq!(exact_rate(44_100.5f64.to_bits()), None);
    assert_eq!(exact_rate(0.0f64.to_bits()), None);
    assert_eq!(exact_rate((-1.0f64).to_bits()), None);
    assert_eq!(exact_rate(f64::NAN.to_bits()), None);
    assert_eq!(exact_rate(f64::INFINITY.to_bits()), None);
    assert_eq!(exact_rate(f64::MIN_POSITIVE.to_bits()), None);
}

#[test]
fn downmixes_interleaved_pcm() {
    let input = [1.0f32, 3.0, -1.0, 1.0];
    let mut output = vec![0.0f32; 4096];
    assert!(copy_interleaved_mono(&mut output, 2, 0, 2, Some(&input[..]), mean));
    assert_eq!(&output[..2], &[2.0, 0.0]);
}

#[test]
fn downmixes_planar_pcm() {
    let left = [1.0f32, -1.0];
    let right = [3.0f32, 1.0];
    let planes = [Some(&left[..]), Some(&right[..])];
    let mut output = vec![0.0f32; 4096];
    let mut frame = Vec::new();
    assert!(copy_planar_mono(&mut output, 2, 0, 2, &planes, &mut frame, mean));
    assert_eq!(&output[..2], &[2.0, 0.0]);
}

#[test]
fn missing_planes_are_not_copied() {
    let left = [1.0f32, -1.0];
    let planes = [Some(&left[..]), None];
    let mut output = vec![0.0f32; 8];
    let mut frame = Vec::new();
    assert!(!copy_planar_mono(&mut output, 2, 0, 2, &planes, &mut frame, mean));
    assert_eq!(output, vec![0.0f32; 8]);
    assert!(!copy_interleaved_mono(&mut output, 2, 0, 2, None, mean));
}

#[test]
fn interleaved_samples_are_mixed_to_mono() {
    let mut output = vec![0.0f32; 2];
    let written = downmix_interleaved_into(&[1.0f32, -1.0, 0.5, 0.5], 2, &mut output, mean);
    assert_eq!(written, 2);
    assert_eq!(output, [0.0, 0.5]);
}

#[test]
fn downmix_stops_where_input_or_output_ends() {
    let mut output = vec![9.0f32; 3];
    assert_eq!(downmix_interleaved_into(&[1.0f32, 3.0, 5.0], 2, &mut output, mean), 1);
    assert_eq!(output, [2.0, 9.0, 9.0]);
    assert_eq!(downmix_interleaved_into(&[1.0f32, 2.0, 3.0, 4.0], 0, &mut output, mean), 3);
    assert_eq!(output, [1.0, 2.0, 3.0]);
}

#[test]
fn timestamps_block_first_frame_at_real_sample_rate() {
    let base = 9_000_000_000;
    assert_eq!(timestamp_for_frame(base, 4_410, 44_100), base + 100_000_000);
    assert_eq!(timestamp_for_frame(base, 4_800, 48_000), base + 100_000_000);
    assert_eq!(timestamp_for_frame(base, 1, 44_100), base + 22_675);
}

#[test]
fn timestamps_survive_extremes() {
    assert_eq!(timestamp_for_frame(7, 100, 0), 7);
    assert_eq!(timestamp_for_frame(u64::MAX, 1, 1), u64::MAX);
}

#[test]
fn status_codes_are_spelled_out() {
    assert_eq!(fourcc(0x6e6f_7065), "'nope'");
    assert_eq!(fourcc(-50), "non-FourCC");
    assert!(status(0, "Open").is_ok());
    assert_eq!(
        status(0x6e6f_7065, "Open").unwrap_err(),
        "Open failed with OSStatus 1852797029 ('nope')"
    );
    assert_eq!(status(-50, "Open").unwrap_err(), "Open failed with OSStatus -50 (non-FourCC)");
}

#[test]
fn errors_are_collected_in_order() {
    let mut errors = None;
    collect_status(0, "A", &mut errors);
    assert_eq!(errors, None);
    collect_status(-1, "B", &mut errors);
    collect_status(-2, "C", &mut errors);
    assert_eq!(
        errors.unwrap(),
        "B failed with OSStatus -1 (non-FourCC); C failed with OSStatus -2 (non-FourCC)"
    );
}

#[test]
fn properties_must_have_the_expected_size() {
    assert!(property_read(0, 40, 40).is_ok());
    assert_eq!(
        property_read(0, 8, 40).unwrap_err(),
        "AudioObjectGetPropertyData returned 8 bytes, expected 40"
    );
    assert_eq!(
        property_read(-1, 40, 40).unwrap_err(),
        "AudioObjectGetPropertyData failed with OSStatus -1 (non-FourCC)"
    );
}

#[test]
fn old_systems_are_refused() {
    assert!(ensure_supported_macos("14.4").is_ok());
    assert!(ensure_supported_macos("14.4.1").is_ok());
    assert!(ensure_supported_macos("15.0").is_ok());
    assert_eq!(
        ensure_supported_macos("14.3.9").unwrap_err(),
        "macOS 14.4 or newer is required (running 14.3.9)"
    );
    assert!(ensure_supported_macos("15").is_err());
    assert!(ensure_supported_macos("x.9").is_err());
}
