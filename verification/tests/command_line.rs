use sori::cli::{can_print, exit_code, offline, parse, print, read_timeout, OfflineStep};
use sori::devices::InputDevice;
use sori::ipc::{
    default_limit, devices_response, folder_response, list_response, mic_response,
    quitting_response, status_response, Request, Response,
};
use sori::json::{Json, Members};
use sori::recordings::{RecordingEntry, RecordingStatus};
use sori::stamp::Stamp;
use sori::state::{AppState, Settings};

const START: Stamp = Stamp { secs: 1_788_351_785, nanos: 0, offset: 7_200 };

fn args(list: &[&str]) -> Vec<String> {
    list.iter().map(|a| a.to_string()).collect()
}

fn request(list: &[&str]) -> Request {
    parse(&args(list)).unwrap().request
}

fn printed(r: &Response, q: &Request) -> (String, String) {
    assert!(can_print(r, q));
    let p = print(r, q);
    (p.out, p.err)
}

fn recording_state() -> AppState {
    let mut s = AppState::idle("Desk", "Speakers", START);
    s.status = "recording".to_string();
    s.folder = Some("/r/one".to_string());
    s.started_at = Some(START);
    s.elapsed_sec = 3_723;
    s
}

#[test]
fn arguments_make_requests() {
    assert!(matches!(request(&["start"]), Request::Start { mic: None }));
    assert!(matches!(request(&["start", "--mic", "Desk"]), Request::Start { mic: Some(m) } if m == "Desk"));
    assert!(matches!(request(&["start", "--mic"]), Request::Start { mic: None }));
    assert!(matches!(request(&["stop"]), Request::Stop));
    assert!(matches!(request(&["status"]), Request::Status));
    assert!(matches!(request(&["list"]), Request::List { limit: 5 }));
    assert!(matches!(request(&["list", "--limit", "12"]), Request::List { limit: 12 }));
    assert!(matches!(request(&["list", "--limit", "x"]), Request::List { limit: 5 }));
    assert!(matches!(request(&["list", "--limit", "99999999999999999999"]), Request::List { limit: 5 }));
    assert!(matches!(request(&["devices"]), Request::Devices));
    assert!(matches!(request(&["set-mic", "auto"]), Request::SetMic { mic: None }));
    assert!(matches!(request(&["set-mic", "Desk"]), Request::SetMic { mic: Some(m) } if m == "Desk"));
    assert!(matches!(request(&["quit"]), Request::Quit));
    assert_eq!(default_limit(), 5);
}

#[test]
fn senseless_arguments_are_refused() {
    assert!(parse(&args(&[])).is_none());
    assert!(parse(&args(&["record"])).is_none());
    assert!(parse(&args(&["set-mic"])).is_none());
    assert!(parse(&args(&["--json"])).is_none());
}

#[test]
fn json_can_be_asked_for_anywhere() {
    assert!(parse(&args(&["list", "--json", "--limit", "2"])).unwrap().json);
    assert!(!parse(&args(&["list"])).unwrap().json);
}

#[test]
fn slow_requests_get_more_time() {
    assert_eq!(read_timeout(&Request::Stop), 40);
    assert_eq!(read_timeout(&Request::Start { mic: None }), 40);
    assert_eq!(read_timeout(&Request::Quit), 40);
    assert_eq!(read_timeout(&Request::Status), 3);
}

#[test]
fn reading_works_without_the_app() {
    assert!(matches!(offline(&Request::Status), OfflineStep::TellState));
    assert!(matches!(offline(&Request::List { limit: 4 }), OfflineStep::ListRecordings(4)));
    assert!(matches!(offline(&Request::Devices), OfflineStep::ListDevices));
    match offline(&Request::Stop) {
        OfflineStep::NotRunning(r) => assert_eq!(
            printed(&r, &Request::Stop),
            (String::new(), "error: Sori app is not running\n".to_string())
        ),
        _ => panic!("stop needs the app"),
    }
    assert_eq!((exit_code(true, true), exit_code(true, false), exit_code(false, false)), (0, 1, 2));
}

#[test]
fn folders_and_microphones_are_printed() {
    let r = folder_response("/r/one");
    assert_eq!(printed(&r, &Request::Start { mic: None }).0, "recording → /r/one\n");
    assert_eq!(printed(&r, &Request::Stop).0, "/r/one\n");
    let set = Request::SetMic { mic: None };
    assert_eq!(printed(&mic_response("Desk", true), &set).0, "mic → Desk  (automatic)\n");
    assert_eq!(printed(&mic_response("Desk", false), &set).0, "mic → Desk\n");
    assert_eq!(printed(&quitting_response(), &Request::Quit).0, "quitting\n");
    let empty = Response { ok: true, data: None, error: None };
    assert_eq!(printed(&empty, &Request::Stop).0, "?\n");
}

#[test]
fn the_state_is_printed() {
    let mut s = recording_state();
    assert_eq!(
        printed(&status_response(&s, true), &Request::Status).0,
        "recording  1:02:03  (/r/one)\nmic:     Desk\nsystem:  Speakers\n"
    );
    s.mic.level_ok = false;
    s.status = "idle".to_string();
    assert_eq!(
        printed(&status_response(&s, true), &Request::Status).0,
        "idle\nmic:     Desk  [SILENT]\nsystem:  Speakers\n"
    );
    assert_eq!(
        printed(&status_response(&s, false), &Request::Status).0,
        "offline  (last state: idle)\n"
    );
}

#[test]
fn times_travel_as_text() {
    let r = status_response(&recording_state(), true);
    let data = r.data.unwrap();
    assert_eq!(data.text_of("started_at"), "2026-09-02T14:23:05+02:00");
    assert_eq!(data.text_of("updated_at"), "2026-09-02T14:23:05+02:00");
    assert!(data.member("last_error").is_none());
    let utc = Stamp { offset: 0, nanos: 500_000_000, ..START };
    let r = status_response(&AppState::idle("", "", utc), false);
    assert_eq!(r.data.unwrap().text_of("updated_at"), "2026-09-02T12:23:05.500Z");
}

#[test]
fn lists_are_printed_in_columns() {
    let list = vec![RecordingEntry {
        folder: "/r/one".to_string(),
        started_at: START,
        duration_sec: 2_530,
        status: RecordingStatus::Done,
    }];
    let q = Request::List { limit: 5 };
    assert_eq!(
        printed(&list_response(&list), &q).0,
        "2026-09-02T14:23            42 min  done      /r/one\n"
    );
    assert_eq!(printed(&list_response(&vec![]), &q).0, "no recordings yet\n");
}

#[test]
fn odd_start_times_are_cut_at_whole_characters() {
    let item = |text: &str| {
        let mut m = Members::new();
        m.put("started_at", Json::Text(text.to_string()));
        Response::ok(Json::List(vec![m.object()]))
    };
    let q = Request::List { limit: 5 };
    assert!(can_print(&item("ééééééééé"), &q));
    assert!(printed(&item("ééééééééé"), &q).0.starts_with("éééééééé  "));
    assert!(!can_print(&item("éxééééééééé"), &q));
}

#[test]
fn devices_are_printed_with_marks() {
    let list = [
        InputDevice { name: "Desk".to_string(), is_default: true, is_virtual: false },
        InputDevice { name: "BlackHole".to_string(), is_default: false, is_virtual: true },
    ];
    assert_eq!(
        printed(&devices_response(&list), &Request::Devices).0,
        "* Desk\n  BlackHole   (virtual — skipped in automatic mode)\n"
    );
}

#[test]
fn missing_files_have_defaults() {
    assert!(Settings::or_default(None).mic_override.is_none());
    let s = Settings { mic_override: Some("Desk".to_string()) };
    assert_eq!(Settings::or_default(Some(s)).mic_override.as_deref(), Some("Desk"));
    assert_eq!(AppState::or_idle(None, "", "", START).status, "idle");
    assert_eq!(AppState::or_idle(Some(recording_state()), "", "", START).status, "recording");
}
