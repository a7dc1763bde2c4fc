use sori::levels::{audible, peak_of, push_level, LEVEL_OK_THRESHOLD};
use sori::timeline::{
    aligned_target_samples, samples_for_duration, samples_for_nanos, timeline_placement,
};
use sori::wav::{pad_to_samples, write_timed_samples, WavWriter};
use std::collections::VecDeque;

#[test]
fn alignment_pads_both_tracks_to_the_same_duration() {
    let (mic, system) =
        aligned_target_samples(48_000 * 3, 48_000, 48_000 * 4, 48_000, 2_000_000_000);
    assert_eq!(mic, 48_000 * 4);
    assert_eq!(system, 48_000 * 4);
}

#[test]
fn alignment_covers_the_time_elapsed() {
    let (mic, system) = aligned_target_samples(0, 44_100, 0, 48_000, 1_500_000_000);
    assert_eq!((mic, system), (66_150, 72_000));
}

#[test]
fn timeline_inserts_a_gap_where_a_chunk_was_missed() {
    let origin = 1_000_000_000;
    let captured_at = origin + 2_000_000_000;
    let (padding, skip) = timeline_placement(48_000, 48_000, origin, captured_at, 480);
    assert_eq!(padding, 48_000);
    assert_eq!(skip, 0);
}

#[test]
fn timeline_trims_overlapping_samples_instead_of_shifting_later_audio() {
    let origin = 1_000_000_000;
    let captured_at = origin + 900_000_000;
    let (padding, skip) = timeline_placement(48_000, 48_000, origin, captured_at, 9_600);
    assert_eq!(padding, 0);
    assert_eq!(skip, 4_800);
}

#[test]
fn chunks_from_before_the_start_are_trimmed() {
    assert_eq!(timeline_placement(0, 1_000, 1_000_000_000, 900_000_000, 150), (0, 100));
    assert_eq!(timeline_placement(0, 1_000, 1_000_000_000, 0, 150), (0, 150));
}

#[test]
fn durations_are_rounded_up_to_samples() {
    assert_eq!(samples_for_nanos(48_000, 1), 1);
    assert_eq!(samples_for_nanos(48_000, 1_000_000_000), 48_000);
    assert_eq!(samples_for_nanos(0, 5), 0);
    assert_eq!(samples_for_duration(1, u128::MAX), samples_for_nanos(1, u64::MAX));
}

#[test]
fn wav_files_have_the_right_bytes() {
    let mut wav = WavWriter::create(48_000);
    wav.write_sample(1);
    wav.write_sample(-2);
    assert_eq!(wav.samples(), 2);
    let plan = wav.finalize();
    assert_eq!(plan.data, [1, 0, 0xfe, 0xff]);
    assert_eq!(plan.end, 48);
    let mut header = Vec::new();
    header.extend_from_slice(b"RIFF");
    header.extend_from_slice(&40u32.to_le_bytes());
    header.extend_from_slice(b"WAVEfmt ");
    header.extend_from_slice(&16u32.to_le_bytes());
    header.extend_from_slice(&1u16.to_le_bytes());
    header.extend_from_slice(&1u16.to_le_bytes());
    header.extend_from_slice(&48_000u32.to_le_bytes());
    header.extend_from_slice(&96_000u32.to_le_bytes());
    header.extend_from_slice(&2u16.to_le_bytes());
    header.extend_from_slice(&16u16.to_le_bytes());
    header.extend_from_slice(b"data");
    header.extend_from_slice(&4u32.to_le_bytes());
    assert_eq!(plan.header, header);
}

#[test]
fn flushes_hand_out_audio_once() {
    let mut wav = WavWriter::create(8_000);
    wav.write_sample(258);
    assert_eq!(wav.take_pending(), [2, 1]);
    wav.write_sample(i16::MIN);
    let plan = wav.flush();
    assert_eq!(plan.data, [0, 0x80]);
    assert_eq!(plan.header[40..44], 4u32.to_le_bytes());
    assert!(wav.flush().data.is_empty());
    assert!(wav.fits_header());
}

#[test]
fn timed_chunks_leave_gaps_and_overlaps_right() {
    let mut wav = WavWriter::create(1_000);
    write_timed_samples(&mut wav, 1_000, 0, 3_000_000, &[7, 8]);
    write_timed_samples(&mut wav, 1_000, 0, 4_000_000, &[9, 10]);
    assert_eq!(wav.samples(), 6);
    pad_to_samples(&mut wav, 8);
    pad_to_samples(&mut wav, 2);
    let bytes = wav.take_pending();
    let samples: Vec<u8> = bytes.iter().copied().step_by(2).collect();
    assert_eq!(samples, [0, 0, 0, 7, 8, 10, 0, 0]);
}

#[test]
fn peaks_are_absolute_and_ignore_what_is_no_number() {
    let bits = |x: f32| x.to_bits();
    let samples = [bits(0.25), bits(-0.5), bits(f32::NAN), bits(0.1)];
    assert_eq!(peak_of(bits(0.0), &samples), bits(0.5));
    assert_eq!(peak_of(bits(0.75), &samples), bits(0.75));
    assert_eq!(LEVEL_OK_THRESHOLD, bits(0.01));
    assert!(audible(bits(0.01)));
    assert!(audible(bits(f32::INFINITY)));
    assert!(!audible(bits(0.0099)));
    assert!(!audible(bits(-0.5)));
    assert!(!audible(bits(f32::NAN)));
}

#[test]
fn the_last_four_levels_are_kept() {
    let mut levels = VecDeque::new();
    for value in 1..=6 {
        push_level(&mut levels, value);
    }
    assert_eq!(levels, [3, 4, 5, 6]);
}

fn stored_samples(file: &[u8]) -> Vec<i16> {
    let bytes = u32::from_le_bytes([file[40], file[41], file[42], file[43]]) as usize;
    file[44..44 + bytes].chunks(2).map(|b| i16::from_le_bytes([b[0], b[1]])).collect()
}

#[test]
fn interrupted_files_play_up_to_the_last_flush() {
    let mut wav = WavWriter::create(8_000);
    let mut file = wav.write_header();
    wav.write_sample(5);
    wav.write_sample(-6);
    file.extend_from_slice(&wav.take_pending());
    assert!(stored_samples(&file).is_empty());
    wav.write_sample(7);
    let plan = wav.flush();
    file.extend_from_slice(&plan.data);
    file[..44].copy_from_slice(&plan.header);
    assert_eq!(file.len() as u64, plan.end);
    assert_eq!(stored_samples(&file), [5, -6, 7]);
    wav.write_sample(8);
    file.extend_from_slice(&wav.take_pending());
    assert_eq!(stored_samples(&file), [5, -6, 7]);
    assert_eq!(file[44..], [5, 0, 0xfa, 0xff, 7, 0, 8, 0]);
}
