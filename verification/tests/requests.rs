use sori::control::{on_settings_saved, Core, IpcStep, StartStep, Upkeep, START_TIMEOUT};
use sori::devices::InputDevice;
use sori::events::{Command, RecorderEvent};
use sori::ipc::{answer, LineOutcome, Request, Response};
use sori::json::Json;
use sori::stamp::Stamp;
use sori::state::{AppState, Settings};

const START: Stamp = Stamp { secs: 1_788_351_785, nanos: 0, offset: 7_200 };

fn inputs() -> Vec<InputDevice> {
    vec![
        InputDevice { name: "Desk".to_string(), is_default: true, is_virtual: false },
        InputDevice { name: "Headset".to_string(), is_default: false, is_virtual: false },
    ]
}

fn new_core() -> Core {
    Core::new(Settings { mic_override: None }, &inputs(), Some("Speakers".to_string()))
}

fn out() -> Option<String> {
    Some("Speakers".to_string())
}

fn started(c: &mut Core) {
    let event = RecorderEvent::Started {
        folder: "/r/one".to_string(),
        mic_device: "Desk".to_string(),
        system_device: "Speakers".to_string(),
        started_at: START,
    };
    c.on_recorder(event, &inputs(), out());
}

fn begin(c: &mut Core, reply: u64) {
    assert!(matches!(c.on_ipc(Request::Start { mic: None }, reply, &inputs()), IpcStep::CreateFolder));
    let config = c.on_folder_created(Ok("/r/one".to_string()), Some(reply), 0).ok().unwrap();
    assert_eq!(config.folder, "/r/one");
}

fn error(r: &Response) -> &str {
    assert!(!r.ok);
    r.error.as_deref().unwrap()
}

fn folder(r: &Response) -> String {
    assert!(r.ok);
    r.data.as_ref().unwrap().text_of("folder")
}

fn refused(step: IpcStep) -> String {
    match step {
        IpcStep::Reply(r) => error(&r).to_string(),
        _ => panic!("not refused"),
    }
}

fn state(c: &Core, secs: i64) -> AppState {
    c.write_state(Stamp { secs: START.secs + secs, ..START })
}

#[test]
fn an_idle_core_tells_its_devices() {
    let s = state(&new_core(), 0);
    assert_eq!((s.status.as_str(), s.mic.device.as_str(), s.system.device.as_str()), ("idle", "Desk", "Speakers"));
    assert!(s.mic.level_ok);
    assert!(s.folder.is_none() && s.last_error.is_none());
    let lost = Core::new(Settings { mic_override: Some("Gone".to_string()) }, &inputs(), None);
    assert_eq!(state(&lost, 0).mic.device, "No microphone");
}

#[test]
fn a_start_is_answered_when_the_capture_has_started() {
    let mut c = new_core();
    begin(&mut c, 7);
    let waiting = state(&c, 9);
    assert_eq!((waiting.status.as_str(), waiting.elapsed_sec), ("idle", 0));
    assert_eq!(waiting.folder.as_deref(), Some("/r/one"));
    assert!(waiting.started_at.is_none());
    let event = RecorderEvent::Started {
        folder: "/r/one".to_string(),
        mic_device: "Desk".to_string(),
        system_device: "Speakers".to_string(),
        started_at: START,
    };
    let step = c.on_recorder(event, &inputs(), out());
    assert_eq!(step.replies.len(), 1);
    assert_eq!(step.replies[0].0, 7);
    assert_eq!(folder(&step.replies[0].1), "/r/one");
    let s = state(&c, 62);
    assert_eq!((s.status.as_str(), s.elapsed_sec), ("recording", 62));
    assert_eq!(s.started_at, Some(START));
    assert_eq!(s.folder.as_deref(), Some("/r/one"));
}

#[test]
fn a_second_start_is_refused() {
    let mut c = new_core();
    begin(&mut c, 1);
    assert_eq!(
        refused(c.on_ipc(Request::Start { mic: Some("Desk".to_string()) }, 2, &inputs())),
        "already recording or starting"
    );
}

#[test]
fn a_start_needs_its_microphone() {
    let mut c = new_core();
    assert_eq!(
        refused(c.on_ipc(Request::Start { mic: Some("Gone".to_string()) }, 1, &inputs())),
        "microphone not found: Gone"
    );
    assert_eq!(
        refused(c.on_ipc(Request::Start { mic: None }, 1, &[])),
        "selected microphone is not available"
    );
    assert!(matches!(
        c.on_ipc(Request::Start { mic: Some("Headset".to_string()) }, 1, &inputs()),
        IpcStep::SaveAndStart
    ));
    assert_eq!(c.settings().mic_override.as_deref(), Some("Headset"));
    assert!(matches!(on_settings_saved(Ok(())), StartStep::CreateFolder));
    assert!(matches!(on_settings_saved(Err("disk".to_string())), StartStep::Refused(e) if e == "disk"));
    assert_eq!(c.on_folder_created(Err("full".to_string()), Some(1), 0).err().unwrap(), "full");
    assert!(!c.active());
    let config = c.on_folder_created(Ok("/f".to_string()), Some(1), 0).ok().unwrap();
    assert_eq!(config.mic_override.as_deref(), Some("Headset"));
    assert!(c.active());
}

#[test]
fn a_stop_is_answered_when_the_recording_is_finished() {
    let mut c = new_core();
    assert_eq!(refused(c.on_ipc(Request::Stop, 1, &inputs())), "not recording");
    begin(&mut c, 1);
    started(&mut c);
    assert!(matches!(c.on_ipc(Request::Stop, 2, &inputs()), IpcStep::Wait));
    let (cancelled, commands) = c.take_commands();
    assert!(!cancelled);
    assert!(matches!(commands.as_slice(), [Command::Stop]));
    assert_eq!(refused(c.on_ipc(Request::Stop, 3, &inputs())), "stop already in progress");
    let event = RecorderEvent::Stopped { folder: "/r/one".to_string(), duration_sec: 5 };
    let step = c.on_recorder(event, &inputs(), out());
    assert_eq!(step.finished.as_deref(), Some("/r/one"));
    assert_eq!(step.replies[0].0, 2);
    assert_eq!(folder(&step.replies[0].1), "/r/one");
    assert_eq!(state(&c, 0).status, "idle");
}

#[test]
fn stopping_too_early_cancels_the_start() {
    let mut c = new_core();
    begin(&mut c, 1);
    assert!(matches!(c.on_ipc(Request::Stop, 2, &inputs()), IpcStep::Wait));
    assert_eq!(state(&c, 0).status, "idle");
    assert!(c.take_commands().0);
    let event = RecorderEvent::Cancelled { folder: "/r/one".to_string() };
    let step = c.on_recorder(event, &inputs(), out());
    assert_eq!(step.replies.len(), 2);
    assert_eq!(step.replies[0].0, 1);
    assert_eq!(error(&step.replies[0].1), "recording start cancelled");
    assert_eq!(step.replies[1].0, 2);
    assert_eq!(error(&step.replies[1].1), "recording start cancelled");
    assert!(step.finished.is_none());
}

#[test]
fn failures_answer_everyone_and_are_remembered() {
    let mut c = new_core();
    begin(&mut c, 1);
    c.on_ipc(Request::Stop, 2, &inputs());
    let event = RecorderEvent::Failed { folder: "/r/one".to_string(), error: "denied".to_string() };
    let step = c.on_recorder(event, &inputs(), out());
    let answers: Vec<(u64, &str)> = step.replies.iter().map(|(id, r)| (*id, error(r))).collect();
    assert_eq!(answers, [(1, "denied"), (2, "denied")]);
    assert_eq!(state(&c, 0).last_error.as_deref(), Some("denied"));
    begin(&mut c, 3);
    assert!(state(&c, 0).last_error.is_none());
}

#[test]
fn late_starts_are_given_up() {
    let mut c = new_core();
    begin(&mut c, 9);
    assert!(c.check_start_timeout(START_TIMEOUT - 1).is_none());
    let replies = c.check_start_timeout(START_TIMEOUT).unwrap();
    assert_eq!(replies[0].0, 9);
    assert_eq!(error(&replies[0].1), "recording start timed out and was cancelled");
    let (cancelled, commands) = c.take_commands();
    assert!(cancelled && matches!(commands.as_slice(), [Command::Stop]));
    assert_eq!(
        state(&c, 0).last_error.as_deref(),
        Some("Recording start timed out and was cancelled")
    );
    assert_eq!(
        refused(c.on_ipc(Request::Start { mic: None }, 10, &inputs())),
        "already recording or starting"
    );
    assert!(c.check_start_timeout(u64::MAX).is_none());
}

#[test]
fn levels_show_in_the_state() {
    let mut c = new_core();
    begin(&mut c, 1);
    started(&mut c);
    for level in [0.5f32, 0.0, 0.0, 0.0] {
        let event = RecorderEvent::Levels { mic: level.to_bits(), system: 0.25f32.to_bits() };
        c.on_recorder(event, &inputs(), out());
    }
    let s = state(&c, 0);
    assert!(s.mic.level_ok);
    assert_eq!((s.mic.level, s.system.level), (0, 0.25f32.to_bits()));
    c.on_recorder(RecorderEvent::Levels { mic: 0, system: 0 }, &inputs(), out());
    assert!(!state(&c, 0).mic.level_ok);
    assert!(!c.mic_level_ok());
}

#[test]
fn microphones_can_be_changed_while_recording() {
    let mut c = new_core();
    let gone = Request::SetMic { mic: Some("Gone".to_string()) };
    assert_eq!(refused(c.on_ipc(gone, 1, &inputs())), "microphone not found: Gone");
    let headset = || Request::SetMic { mic: Some("Headset".to_string()) };
    assert!(matches!(c.on_ipc(headset(), 1, &inputs()), IpcStep::SaveAndSetMic));
    let r = c.on_mic_saved(Ok(()), &inputs(), out());
    let data = r.data.unwrap();
    assert_eq!(data.text_of("mic"), "Headset");
    assert!(data.is_bool("automatic", false));
    begin(&mut c, 2);
    started(&mut c);
    assert!(matches!(c.on_ipc(Request::SetMic { mic: None }, 3, &inputs()), IpcStep::SaveAndSetMic));
    let r = c.on_mic_saved(Ok(()), &inputs(), out());
    assert!(r.data.unwrap().is_bool("automatic", true));
    assert!(matches!(c.take_commands().1.as_slice(), [Command::SwitchMic(None)]));
    let event = RecorderEvent::MicSwitched { device: "Headset".to_string(), at_sec: 3 };
    c.on_recorder(event, &inputs(), out());
    assert_eq!(state(&c, 0).mic.device, "Headset");
    let r = c.on_mic_saved(Err("disk".to_string()), &inputs(), out());
    assert_eq!(error(&r), "disk");
}

#[test]
fn other_requests_are_passed_on() {
    let mut c = new_core();
    assert!(matches!(c.on_ipc(Request::Status, 1, &inputs()), IpcStep::TellState));
    assert!(matches!(c.on_ipc(Request::List { limit: 3 }, 1, &inputs()), IpcStep::ListRecordings(3)));
    match c.on_ipc(Request::Devices, 1, &inputs()) {
        IpcStep::Reply(Response { data: Some(Json::List(items)), .. }) => {
            assert_eq!(items.len(), 2);
            assert_eq!(items[1].text_of("name"), "Headset");
            assert!(items[0].is_bool("is_default", true));
        }
        _ => panic!("no list"),
    }
    match c.on_ipc(Request::Quit, 1, &inputs()) {
        IpcStep::Quit(r) => assert!(r.data.unwrap().is_bool("quitting", true)),
        _ => panic!("does not quit"),
    }
}

#[test]
fn shutting_down_ends_the_recorder() {
    let mut idle = new_core();
    assert!(idle.shutdown().is_none());
    let mut starting = new_core();
    begin(&mut starting, 1);
    let mut handle = starting.shutdown().unwrap();
    assert!(handle.is_cancelled());
    assert_eq!(handle.take_commands().len(), 1);
    assert!(!starting.active());
    starting.refresh_devices(&inputs(), out());
    let s = state(&starting, 0);
    assert_eq!(s.status, "idle");
    assert!(s.folder.is_none());
    let mut recording = new_core();
    begin(&mut recording, 2);
    started(&mut recording);
    assert!(!recording.shutdown().unwrap().is_cancelled());
    assert_eq!(state(&recording, 5).elapsed_sec, 0);
}

#[test]
fn upkeep_depends_on_the_capture() {
    let mut c = new_core();
    assert_eq!(c.upkeep(30), Upkeep::RefreshAndWrite);
    assert_eq!(c.upkeep(-15), Upkeep::RefreshAndWrite);
    assert_eq!(c.upkeep(31), Upkeep::Nothing);
    begin(&mut c, 1);
    started(&mut c);
    assert_eq!(c.upkeep(31), Upkeep::WriteState);
}

#[test]
fn every_line_gets_an_answer() {
    assert_eq!(error(&answer(LineOutcome::Unreadable("eof".to_string()))), "bad request: eof");
    assert_eq!(error(&answer(LineOutcome::CoreGone)), "app is shutting down");
    assert_eq!(error(&answer(LineOutcome::Unanswered)), "no response");
    assert!(answer(LineOutcome::Answered(Response::ok(Json::Null))).ok);
}
