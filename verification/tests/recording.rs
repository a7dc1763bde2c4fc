use sori::devices::InputDevice;
use sori::events::{Command, RecorderEvent, RecorderHandle, StartConfig};
use sori::recorder::{
    conclude, ensure_not_cancelled, MicStep, Session, Startup, SwitchStep, AUDIO_DRAIN_EVERY,
    DEVICE_POLL_EVERY, FLUSH_EVERY, LEVEL_EVERY,
};
use sori::recordings::RecordingStatus;
use sori::stamp::Stamp;

const START: Stamp = Stamp { secs: 1_788_351_785, nanos: 0, offset: 7_200 };

fn device(name: &str, is_default: bool) -> InputDevice {
    InputDevice { name: name.to_string(), is_default, is_virtual: false }
}

fn inputs() -> Vec<InputDevice> {
    vec![device("Desk", true), device("Headset", false)]
}

fn config(mic: Option<&str>) -> StartConfig {
    StartConfig { folder: "/r/one".to_string(), mic_override: mic.map(|m| m.to_string()) }
}

fn startup(mic: Option<&str>) -> Startup {
    let mut start = Startup::begin(config(mic), &inputs(), Some("Speakers".to_string())).unwrap();
    start.on_system_opened(Ok(1_000), false).unwrap();
    let name = start.mic_to_open().to_string();
    start.on_mic_opened(Ok((name, 2_000)), false).unwrap();
    start.on_discarded(false).unwrap();
    assert!(start.rates_fit());
    start
}

fn session(mic: Option<&str>) -> Session {
    startup(mic).into_session(START, 1_000_000_000)
}

fn bits(x: f32) -> u32 {
    x.to_bits()
}

#[test]
fn normal_stop_is_not_classified_as_start_cancellation() {
    let mut handle = RecorderHandle::new("unused".to_string());
    handle.stop();
    assert!(!handle.is_cancelled());
    handle.cancel_start();
    assert!(handle.is_cancelled());
}

#[test]
fn commands_are_delivered_once_and_in_order() {
    let mut handle = RecorderHandle::new("f".to_string());
    handle.switch_mic(Some("Desk".to_string()));
    handle.stop();
    let commands = handle.take_commands();
    assert_eq!(commands.len(), 2);
    assert!(matches!(&commands[0], Command::SwitchMic(Some(name)) if name == "Desk"));
    assert!(matches!(&commands[1], Command::Stop));
    assert!(handle.take_commands().is_empty());
    assert_eq!(handle.folder(), "f");
}

#[test]
fn a_cancelled_start_fails() {
    assert!(ensure_not_cancelled(false).is_ok());
    assert_eq!(ensure_not_cancelled(true).unwrap_err(), "recording start cancelled");
}

#[test]
fn starting_needs_the_chosen_microphone() {
    let missing = Startup::begin(config(Some("Nope")), &inputs(), None);
    assert_eq!(missing.err().unwrap(), "selected microphone is not available");
    let start = Startup::begin(config(Some("Headset")), &inputs(), None).ok().unwrap();
    assert_eq!(start.mic_to_open(), "Headset");
    let start = Startup::begin(config(None), &inputs(), None).ok().unwrap();
    assert_eq!(start.mic_to_open(), "Desk");
}

#[test]
fn every_step_of_a_start_can_fail_or_be_cancelled() {
    let fresh = || Startup::begin(config(None), &inputs(), None).ok().unwrap();
    let mut start = fresh();
    assert_eq!(start.on_system_opened(Err("denied".to_string()), true).unwrap_err(), "denied");
    assert_eq!(start.on_system_opened(Ok(1), true).unwrap_err(), "recording start cancelled");
    assert!(start.on_system_opened(Ok(48_000), false).is_ok());
    assert_eq!(start.on_mic_opened(Err("busy".to_string()), false).unwrap_err(), "busy");
    assert!(start.on_mic_opened(Ok(("Desk".to_string(), 48_000)), true).is_err());
    assert!(start.on_mic_opened(Ok(("Desk".to_string(), 48_000)), false).is_ok());
    assert!(start.on_discarded(true).is_err());
    assert!(start.on_discarded(false).is_ok());
    let session = start.into_session(START, 0);
    assert_eq!(session.announce(Err("disk full".to_string()), false).err().unwrap(), "disk full");
    assert_eq!(session.announce(Ok(()), true).err().unwrap(), "recording start cancelled");
    assert!(session.announce(Ok(()), false).is_ok());
}

#[test]
fn a_start_is_announced_with_its_devices() {
    let session = session(None);
    match session.announce(Ok(()), false) {
        Ok(RecorderEvent::Started { folder, mic_device, system_device, started_at }) => {
            assert_eq!(folder, "/r/one");
            assert_eq!(mic_device, "Desk");
            assert_eq!(system_device, "Speakers");
            assert_eq!(started_at, START);
        }
        _ => panic!("not started"),
    }
    let meta = session.meta();
    assert_eq!(meta.status, RecordingStatus::Recording);
    assert_eq!(meta.sample_rate, 2_000);
    assert_eq!(session.rates(), (2_000, 1_000));
    assert_eq!(session.headers().0.len(), 44);
}

#[test]
fn intervals_are_those_of_the_engine() {
    assert_eq!((FLUSH_EVERY, LEVEL_EVERY, AUDIO_DRAIN_EVERY, DEVICE_POLL_EVERY), (5_000, 250, 5, 1_000));
}

#[test]
fn commands_end_or_switch_a_recording() {
    let mut s = session(None);
    assert!(matches!(s.on_command(Some(Command::Stop), &inputs()), MicStep::Finish));
    assert!(matches!(s.on_command(None, &inputs()), MicStep::Finish));
    let switch = |name: &str| Some(Command::SwitchMic(Some(name.to_string())));
    assert!(matches!(s.on_command(switch("Desk"), &inputs()), MicStep::Stay));
    match s.on_command(switch("Headset"), &inputs()) {
        MicStep::SwitchTo { name, explicit } => assert_eq!((name.as_str(), explicit), ("Headset", true)),
        _ => panic!("no switch"),
    }
    match s.on_command(switch("Gone"), &inputs()) {
        MicStep::Report(RecorderEvent::Warning(message)) => {
            assert_eq!(message, "Selected microphone is not available")
        }
        _ => panic!("no warning"),
    }
}

#[test]
fn only_automatic_recordings_follow_the_default() {
    let moved = vec![device("Desk", false), device("Headset", true)];
    match session(None).on_device_tick(&moved) {
        MicStep::SwitchTo { name, explicit } => {
            assert_eq!((name.as_str(), explicit), ("Headset", false))
        }
        _ => panic!("no switch"),
    }
    assert!(matches!(session(None).on_device_tick(&inputs()), MicStep::Stay));
    assert!(matches!(session(None).on_device_tick(&[]), MicStep::Stay));
    assert!(matches!(session(Some("Desk")).on_device_tick(&moved), MicStep::Stay));
}

#[test]
fn switches_are_recorded_and_failures_told() {
    let mut s = session(None);
    match s.on_mic_opened(Ok("Headset".to_string()), true, false, 12) {
        SwitchStep::Switched(RecorderEvent::MicSwitched { device, at_sec }) => {
            assert_eq!((device.as_str(), at_sec), ("Headset", 12))
        }
        _ => panic!("not switched"),
    }
    assert_eq!(s.meta().devices.switches.len(), 1);
    assert_eq!(s.meta().devices.switches[0].at_sec, 12);
    assert_eq!(s.meta().devices.mic, "Desk");
    match s.on_mic_opened(Err("busy".to_string()), true, false, 13) {
        SwitchStep::Report(RecorderEvent::Warning(message)) => {
            assert_eq!(message, "Could not switch microphone: busy")
        }
        _ => panic!("no warning"),
    }
    assert!(matches!(s.on_mic_opened(Err("busy".to_string()), false, false, 14), SwitchStep::Stay));
    assert!(matches!(s.on_mic_opened(Ok("Desk".to_string()), true, true, 15), SwitchStep::Finish));
    assert_eq!(s.meta().devices.switches.len(), 1);
}

#[test]
fn broken_inputs_end_a_recording() {
    let s = session(None);
    assert!(s.on_audio(false, None).is_ok());
    assert_eq!(s.on_audio(true, Some("x".to_string())).unwrap_err(), "microphone stream stopped");
    assert_eq!(s.on_audio(false, Some("tap gone".to_string())).unwrap_err(), "tap gone");
}

#[test]
fn silence_is_warned_of_once() {
    let mut s = session(None);
    assert!(s.on_levels(7_999_999_999).warning.is_none());
    match s.on_levels(8_000_000_000).warning {
        Some(RecorderEvent::Warning(message)) => assert_eq!(
            message,
            "Microphone \"Desk\" is silent — check input device / permission"
        ),
        _ => panic!("no warning"),
    }
    assert!(s.on_levels(9_000_000_000).warning.is_none());
    assert_eq!(s.meta().warnings, ["mic_level_low"]);
}

#[test]
fn levels_are_reported_and_reset() {
    let mut s = session(None);
    s.drain_mic(1_000_000_000, &[bits(0.5), bits(-0.75)], &[1, 2]);
    s.drain_system(1_000_000_000, &[bits(0.25)], &[3]);
    let step = s.on_levels(20_000_000_000);
    match step.levels {
        RecorderEvent::Levels { mic, system } => assert_eq!((mic, system), (bits(0.75), bits(0.25))),
        _ => panic!("no levels"),
    }
    assert!(step.warning.is_none());
    match s.on_levels(21_000_000_000).levels {
        RecorderEvent::Levels { mic, system } => assert_eq!((mic, system), (0, 0)),
        _ => panic!("no levels"),
    }
    assert!(!s.note_system_rate(1_000));
    assert!(s.note_system_rate(44_100));
    assert!(!s.note_system_rate(44_100));
}

#[test]
fn finished_tracks_have_the_same_length() {
    let mut s = session(None);
    assert!(s.can_place(1_010_000_000));
    assert!(!s.can_place(u64::MAX));
    s.drain_mic(1_010_000_000, &[bits(0.5)], &[7]);
    let (mic, system) = s.take_pending();
    assert_eq!((mic.len(), system.len()), (42, 0));
    assert!(s.can_flush());
    let (flushed, _) = s.on_flush(1);
    assert!(flushed.data.is_empty());
    assert_eq!(s.meta().duration_sec, 1);
    s.on_levels(1);
    assert!(s.fits(2_500_000_000));
    let done = s.finish(2_500_000_000);
    assert_eq!(done.mic.end, 44 + 2 * 5_000);
    assert_eq!(done.system.end, 44 + 2 * 2_500);
    assert_eq!(done.mic.data.len(), 2 * 5_000 - 42);
    assert_eq!(done.meta.status, RecordingStatus::Done);
    assert_eq!(done.meta.duration_sec, 2);
    assert!(done.meta.warnings.is_empty());
    match done.stopped(Ok(())) {
        Ok(RecorderEvent::Stopped { folder, duration_sec }) => {
            assert_eq!((folder.as_str(), duration_sec), ("/r/one", 2))
        }
        _ => panic!("not stopped"),
    }
}

#[test]
fn a_silent_recording_says_so_when_done() {
    let done = session(None).finish(1_000_000_000);
    assert_eq!(done.meta.warnings, ["mic_level_low"]);
    assert_eq!(done.stopped(Err("sync failed".to_string())).err().unwrap(), "sync failed");
    let mut s = session(None);
    s.on_levels(8_000_000_000);
    assert_eq!(s.finish(9_000_000_000).meta.warnings, ["mic_level_low"]);
}

#[test]
fn endless_recordings_do_not_fit() {
    assert!(!session(None).fits(u128::MAX));
}

#[test]
fn errors_conclude_a_recording() {
    match conclude("f".to_string(), "e".to_string(), true) {
        RecorderEvent::Cancelled { folder } => assert_eq!(folder, "f"),
        _ => panic!("not cancelled"),
    }
    match conclude("f".to_string(), "e".to_string(), false) {
        RecorderEvent::Failed { folder, error } => assert_eq!((folder.as_str(), error.as_str()), ("f", "e")),
        _ => panic!("not failed"),
    }
}
