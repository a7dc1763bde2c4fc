use sori::mic::{
    capture_time, check_format, find_device, MicCapture, SampleFormat, MIC_BLOCK_FRAMES,
    MIC_POOL_BLOCKS,
};
use sori::pcm::{Format, PcmLayout, StreamDescription};
use sori::ring::BlockRing;
use sori::tap::{
    open_error, BufferShape, CallbackState, InputCheck, InputList, Source, SystemCapture, Teardown,
    CALLBACK_ERROR_BUFFER_LAYOUT, CALLBACK_ERROR_FORMAT_CHANGED, CALLBACK_ERROR_NULL_DATA,
    CALLBACK_ERROR_TIMESTAMP, RING_FRAMES, TAP_PROPERTY_FORMAT,
};

fn mean(frame: &[f32]) -> f32 {
    frame.iter().sum::<f32>() / frame.len() as f32
}

fn stereo() -> Format {
    Format { sample_rate: 48_000, layout: PcmLayout::Interleaved { channels: 2 } }
}

fn tap_description(rate: f64) -> StreamDescription {
    StreamDescription {
        sample_rate_bits: rate.to_bits(),
        format_id: 0x6c70_636d,
        format_flags: 9,
        bytes_per_packet: 4,
        frames_per_packet: 1,
        bytes_per_frame: 4,
        channels_per_frame: 1,
        bits_per_channel: 32,
    }
}

fn feed(state: &mut CallbackState<f32>, frames: usize, host_time: u64) {
    let data = vec![0.5f32; frames * 2];
    let shapes = [BufferShape { channels: 2, bytes: (frames * 8) as u32 }];
    let list = InputList { number_buffers: 1, buffers: &shapes, host_time_valid: true, host_time };
    let mut scratch = vec![0.0f32; RING_FRAMES];
    let mut frame = Vec::new();
    state.process_input(list, Source::Interleaved(Some(&data)), &mut scratch, &mut frame, mean);
}

#[test]
fn format_change_stops_delivery_and_reports_a_sticky_error() {
    let mut state = CallbackState::new(stereo(), 0.0f32);
    state.tap_format_changed(&[TAP_PROPERTY_FORMAT]);
    feed(&mut state, 10, 1);
    assert!(state.pop(|t| t).is_none());
    assert_eq!(state.take_error(), CALLBACK_ERROR_FORMAT_CHANGED);
    feed(&mut state, 10, 2);
    assert!(state.pop(|t| t).is_none());
    assert_eq!(state.take_dropped(), 0);
}

#[test]
fn other_properties_do_not_stop_delivery() {
    let mut state = CallbackState::new(stereo(), 0.0f32);
    state.tap_format_changed(&[1, 2, 3]);
    feed(&mut state, 10, 1);
    assert_eq!(state.take_error(), 0);
    assert_eq!(state.pop(|t| t).unwrap().samples.len(), 10);
}

#[test]
fn callbacks_are_cut_into_timed_blocks() {
    let mut state = CallbackState::new(stereo(), 0.0f32);
    feed(&mut state, 5_000, 1_000);
    let first = state.pop(|t| t * 10).unwrap();
    assert_eq!(first.samples.len(), 4_096);
    assert_eq!(first.samples[0], 0.5);
    assert_eq!(first.sample_rate, 48_000);
    assert_eq!(first.captured_host_nanos, 10_000);
    let second = state.pop(|t| t * 10).unwrap();
    assert_eq!(second.samples.len(), 904);
    assert_eq!(second.captured_host_nanos, 10_000 + 4_096 * 1_000_000_000 / 48_000);
    assert!(state.pop(|t| t).is_none());
}

#[test]
fn frames_without_room_are_counted() {
    let mut state = CallbackState::new(stereo(), 0.0f32);
    feed(&mut state, RING_FRAMES + 100, 1);
    assert_eq!(state.take_dropped(), 100);
    feed(&mut state, 7, 2);
    assert_eq!(state.take_dropped(), 7);
    assert_eq!(state.take_error(), 0);
    let mut blocks = 0;
    while state.pop(|t| t).is_some() {
        blocks += 1;
    }
    assert_eq!(blocks, 31);
}

#[test]
fn mismatched_buffers_are_rejected() {
    let mut state = CallbackState::new(stereo(), 0.0f32);
    let two = [BufferShape { channels: 1, bytes: 8 }, BufferShape { channels: 1, bytes: 8 }];
    let list = InputList { number_buffers: 2, buffers: &two, host_time_valid: true, host_time: 1 };
    assert_eq!(
        state.check_input(list),
        InputCheck::Reject { code: CALLBACK_ERROR_BUFFER_LAYOUT, dropped: 0 }
    );
    let odd = [BufferShape { channels: 2, bytes: 12 }];
    let list = InputList { number_buffers: 1, buffers: &odd, host_time_valid: true, host_time: 1 };
    assert!(matches!(state.check_input(list), InputCheck::Reject { .. }));
    let untimed = [BufferShape { channels: 2, bytes: 16 }];
    let list =
        InputList { number_buffers: 1, buffers: &untimed, host_time_valid: false, host_time: 1 };
    assert_eq!(
        state.check_input(list),
        InputCheck::Reject { code: CALLBACK_ERROR_TIMESTAMP, dropped: 2 }
    );
    let mut scratch = vec![0.0f32; RING_FRAMES];
    let mut frame = Vec::new();
    let list = InputList { number_buffers: 1, buffers: &untimed, host_time_valid: true, host_time: 1 };
    state.process_input(list, Source::Interleaved(None), &mut scratch, &mut frame, mean);
    assert_eq!(state.take_error(), CALLBACK_ERROR_NULL_DATA);
    assert_eq!(state.take_dropped(), 2);
}

#[test]
fn planar_buffers_are_checked_one_by_one() {
    let format = Format { sample_rate: 48_000, layout: PcmLayout::Planar { channels: 2 } };
    let mut state = CallbackState::new(format, 0.0f32);
    let uneven = [BufferShape { channels: 1, bytes: 8 }, BufferShape { channels: 1, bytes: 4 }];
    let list = InputList { number_buffers: 2, buffers: &uneven, host_time_valid: true, host_time: 1 };
    assert_eq!(
        state.check_input(list),
        InputCheck::Reject { code: CALLBACK_ERROR_BUFFER_LAYOUT, dropped: 2 }
    );
    let even = [BufferShape { channels: 1, bytes: 8 }, BufferShape { channels: 1, bytes: 8 }];
    let list = InputList { number_buffers: 2, buffers: &even, host_time_valid: true, host_time: 1 };
    let left = [1.0f32, -1.0];
    let right = [3.0f32, 1.0];
    let planes = [Some(&left[..]), Some(&right[..])];
    let mut scratch = vec![0.0f32; RING_FRAMES];
    let mut frame = Vec::new();
    state.process_input(list, Source::Planar(&planes), &mut scratch, &mut frame, mean);
    assert_eq!(state.pop(|t| t).unwrap().samples, [2.0, 0.0]);
}

#[test]
fn ring_is_first_in_first_out() {
    let mut ring = BlockRing::new(0i32);
    assert!(ring.push(&[1, 2, 3], 0, 2, 10, 0));
    assert!(ring.push(&[1, 2, 3], 2, 1, 20, 5));
    let a = ring.pop(1_000, |t| t).unwrap();
    assert_eq!((a.samples, a.captured_host_nanos), (vec![1, 2], 10));
    let b = ring.pop(1_000, |t| t).unwrap();
    assert_eq!((b.samples, b.captured_host_nanos), (vec![3], 5_000_020));
    assert!(ring.pop(1_000, |t| t).is_none());
    for k in 0..31 {
        assert!(!ring.is_full());
        assert!(ring.push(&[k], 0, 1, 0, 0));
    }
    assert!(ring.is_full());
    assert!(!ring.push(&[99], 0, 1, 0, 0));
}

#[test]
fn system_capture_opens_and_stops_in_order() {
    let mut capture: SystemCapture<f32> = SystemCapture::new();
    assert!(capture.on_tap_created(0, 11).is_ok());
    assert!(capture.on_format(&tap_description(48_000.0), 0.0).is_ok());
    assert!(capture.on_aggregate_created(0, 22).is_ok());
    assert!(capture.on_io_proc_created(0, true).is_ok());
    assert!(capture.on_started(0).is_ok());
    assert!(capture.on_listener_added(0).is_ok());
    assert!(capture.on_format_confirmed(&tap_description(48_000.0)).is_ok());
    assert_eq!(capture.sample_rate(), 48_000);
    let ops = capture.stop();
    assert_eq!(
        ops,
        [
            Teardown::StopDevice { aggregate_id: 22 },
            Teardown::DestroyIoProc { aggregate_id: 22 },
            Teardown::RemoveFormatListener { tap_id: 11 },
            Teardown::DestroyAggregate { aggregate_id: 22 },
            Teardown::DestroyTap { tap_id: 11 }
        ]
    );
    let (result, leak) = capture.finish_stop(&ops, &[0, 0, 0, 0, 0]);
    assert!(result.is_ok());
    assert!(!leak);
    assert!(capture.stop().is_empty());
}

#[test]
fn failed_teardown_is_reported_and_keeps_the_callback() {
    let mut capture: SystemCapture<f32> = SystemCapture::new();
    assert!(capture.on_tap_created(0, 11).is_ok());
    assert!(capture.on_format(&tap_description(44_100.0), 0.0).is_ok());
    assert!(capture.on_aggregate_created(0, 22).is_ok());
    assert!(capture.on_io_proc_created(0, true).is_ok());
    let ops = capture.stop();
    assert_eq!(ops.len(), 4);
    let (result, leak) = capture.finish_stop(&ops, &[-1, -2, 0, 0]);
    assert_eq!(
        result.unwrap_err(),
        "AudioDeviceStop failed with OSStatus -1 (non-FourCC); \
         AudioDeviceDestroyIOProcID failed with OSStatus -2 (non-FourCC)"
    );
    assert!(leak);
}

#[test]
fn failures_while_opening_are_told() {
    let mut capture: SystemCapture<f32> = SystemCapture::new();
    assert_eq!(
        capture.on_tap_created(0x6e6f_7065, 0).unwrap_err(),
        "AudioHardwareCreateProcessTap failed with OSStatus 1852797029 ('nope')"
    );
    assert!(capture.on_tap_created(0, 5).is_ok());
    assert!(capture.on_format(&tap_description(0.5), 0.0).is_err());
    assert!(capture.on_format(&tap_description(48_000.0), 0.0).is_ok());
    assert!(capture.on_aggregate_created(0, 6).is_ok());
    assert_eq!(
        capture.on_io_proc_created(0, false).unwrap_err(),
        "AudioDeviceCreateIOProcID returned a null IOProc ID"
    );
    assert_eq!(
        capture.on_format_confirmed(&tap_description(44_100.0)).unwrap_err(),
        "system audio format changed while capture was starting"
    );
}

#[test]
fn missing_permission_is_named() {
    assert_eq!(
        open_error("x failed with OSStatus 1852797029 ('nope')"),
        "System Audio Recording permission is required: x failed with OSStatus 1852797029 ('nope')"
    );
    assert_eq!(open_error("nope"), "could not start system audio capture: nope");
}

#[test]
fn microphone_chunks_come_out_in_order() {
    let mut mic = MicCapture::open("Desk".to_string(), 48_000, 0.0f32);
    mic.on_input(&[1.0f32, 3.0, 5.0, 7.0], 2, 100, mean);
    mic.on_input(&[0.5f32, 0.5], 2, 200, mean);
    mic.on_input(&[0.5f32], 2, 300, mean);
    assert_eq!((mic.name(), mic.sample_rate()), ("Desk", 48_000));
    let a = mic.pop_chunk().unwrap();
    assert_eq!(a.samples, [2.0, 6.0]);
    assert_eq!((a.sample_rate, a.captured_host_nanos), (48_000, 100));
    let b = mic.pop_chunk().unwrap();
    assert_eq!((b.samples, b.captured_host_nanos), (vec![0.5], 200));
    assert!(mic.pop_chunk().is_none());
    assert_eq!(mic.take_dropped(), 0);
    assert!(!mic.failed());
    mic.on_stream_error();
    assert!(mic.failed());
}

#[test]
fn microphone_pool_is_bounded_and_reused() {
    let mut mic = MicCapture::open("Desk".to_string(), 48_000, 0i32);
    let first = |frame: &[i32]| frame[0];
    let long = vec![1i32; MIC_BLOCK_FRAMES + 5];
    mic.on_input(&long, 1, 0, first);
    assert_eq!(mic.take_dropped(), 5);
    for k in 1..MIC_POOL_BLOCKS {
        mic.on_input(&[k as i32], 1, k as u64, first);
    }
    assert_eq!(mic.take_dropped(), 0);
    mic.on_input(&[7, 8, 9], 1, 0, first);
    assert_eq!(mic.take_dropped(), 3);
    assert_eq!(mic.pop_chunk().unwrap().samples.len(), MIC_BLOCK_FRAMES);
    mic.on_input(&[7, 8, 9], 1, 77, first);
    assert_eq!(mic.take_dropped(), 0);
    for k in 1..MIC_POOL_BLOCKS {
        assert_eq!(mic.pop_chunk().unwrap().samples, [k as i32]);
    }
    let last = mic.pop_chunk().unwrap();
    assert_eq!((last.samples, last.captured_host_nanos), (vec![7, 8, 9], 77));
    assert!(mic.pop_chunk().is_none());
}

#[test]
fn microphones_are_found_by_name() {
    let names = vec![None, Some("A".to_string()), Some("B".to_string()), Some("B".to_string())];
    assert_eq!(find_device(&names, "B"), Ok(2));
    assert_eq!(find_device(&names, "C"), Err("microphone not found: C".to_string()));
    assert!(check_format(SampleFormat::I16, "i16").is_ok());
    assert_eq!(
        check_format(SampleFormat::Other, "I24").unwrap_err(),
        "unsupported microphone sample format: I24"
    );
}

#[test]
fn capture_time_falls_back_to_the_host_clock() {
    assert_eq!(capture_time(Some(123), 999, 1), 123);
    assert_eq!(capture_time(Some(u128::MAX), 999, 1), u64::MAX);
    assert_eq!(capture_time(None, 1_000, 400), 600);
    assert_eq!(capture_time(None, 1_000, 4_000), 0);
}

#[test]
fn the_first_error_is_kept() {
    let mut state = CallbackState::new(stereo(), 0.0f32);
    let shapes = [BufferShape { channels: 2, bytes: 16 }];
    let mut scratch = vec![0.0f32; RING_FRAMES];
    let mut frame = Vec::new();
    let untimed =
        InputList { number_buffers: 1, buffers: &shapes, host_time_valid: false, host_time: 1 };
    let timed = InputList { number_buffers: 1, buffers: &shapes, host_time_valid: true, host_time: 1 };
    state.process_input(untimed, Source::Interleaved(None), &mut scratch, &mut frame, mean);
    state.process_input(timed, Source::Interleaved(None), &mut scratch, &mut frame, mean);
    assert_eq!(state.take_dropped(), 4);
    assert_eq!(state.take_error(), CALLBACK_ERROR_TIMESTAMP);
    assert_eq!(state.take_error(), 0);
    assert_eq!(state.format(), stereo());
}

#[test]
fn callback_errors_are_put_into_words() {
    let mut capture: SystemCapture<f32> = SystemCapture::new();
    assert_eq!(capture.take_error(), None);
    assert!(capture.on_format(&tap_description(48_000.0), 0.0).is_ok());
    assert_eq!(capture.take_error(), None);
    capture.callback().unwrap().tap_format_changed(&[TAP_PROPERTY_FORMAT]);
    assert_eq!(
        capture.take_error().as_deref(),
        Some("System audio format changed during recording; start a new recording")
    );
    assert!(capture.pop_chunk(|t| t).is_none());
    assert_eq!(capture.take_dropped(), 0);
}
