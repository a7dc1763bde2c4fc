//! The protocol between the command line and the core: one message a line.

use vstd::prelude::*;
use vstd::string::*;
use crate::devices::InputDevice;
use crate::json::{Json, JsonText, Members};
use crate::json;
use crate::recordings::{RecordingEntry, RecordingStatus};
use crate::stamp::Stamp;
use crate::stamp;
use crate::state::{AppState, StateText};
use crate::text;

verus! {

#[derive(Debug)]
pub enum Request {
    Start { mic: Option<String> },
    Stop,
    Status,
    List { limit: usize },
    Devices,
    /// Without a name: automatic, following the default input.
    SetMic { mic: Option<String> },
    /// Stop any recording and exit the core.
    Quit,
}

#[verifier::ext_equal]
pub enum RequestText {
    Start { mic: Option<Seq<char>> },
    Stop,
    Status,
    List { limit: usize },
    Devices,
    SetMic { mic: Option<Seq<char>> },
    Quit,
}

impl Request {
    pub open spec fn view(&self) -> RequestText {
        match self {
            Request::Start { mic } => RequestText::Start { mic: text::opt_text(*mic) },
            Request::Stop => RequestText::Stop,
            Request::Status => RequestText::Status,
            Request::List { limit } => RequestText::List { limit: *limit },
            Request::Devices => RequestText::Devices,
            Request::SetMic { mic } => RequestText::SetMic { mic: text::opt_text(*mic) },
            Request::Quit => RequestText::Quit,
        }
    }
}

/// How many recordings are listed where no number is given.
pub fn default_limit() -> (r: usize)
    ensures
        r == 5,
{
    5
}

#[derive(Debug)]
pub struct Response {
    pub ok: bool,
    pub data: Option<Json>,
    pub error: Option<String>,
}

/// What a response says.
#[verifier::ext_equal]
pub struct ResponseText {
    pub ok: bool,
    pub data: Option<JsonText>,
    pub error: Option<Seq<char>>,
}

pub open spec fn success(data: JsonText) -> ResponseText {
    ResponseText { ok: true, data: Some(data), error: None }
}

pub open spec fn failure(error: Seq<char>) -> ResponseText {
    ResponseText { ok: false, data: None, error: Some(error) }
}

impl Response {
    pub open spec fn view(&self) -> ResponseText {
        ResponseText {
            ok: self.ok,
            data: match self.data {
                Some(data) => Some(data@),
                None => None,
            },
            error: text::opt_text(self.error),
        }
    }

    pub fn ok(data: Json) -> (r: Response)
        ensures
            r@ == success(data@),
    {
        Response { ok: true, data: Some(data), error: None }
    }

    pub fn err(msg: String) -> (r: Response)
        ensures
            r@ == failure(msg@),
    {
        Response { ok: false, data: None, error: Some(msg) }
    }
}

/// What came of a line that the core received.
pub enum LineOutcome {
    /// The line is no request, for this reason.
    Unreadable(String),
    /// The core takes no more requests.
    CoreGone,
    /// The core dropped the request.
    Unanswered,
    Answered(Response),
}

/// The answer to a line.
pub fn answer(outcome: LineOutcome) -> (r: Response)
    ensures
        match outcome {
            LineOutcome::Unreadable(error) => r@ == failure("bad request: "@ + error@),
            LineOutcome::CoreGone => r@ == failure("app is shutting down"@),
            LineOutcome::Unanswered => r@ == failure("no response"@),
            LineOutcome::Answered(response) => r == response,
        },
{
    match outcome {
        LineOutcome::Unreadable(error) => {
            let mut msg = "bad request: ".to_owned();
            msg.append(error.as_str());
            Response::err(msg)
        },
        LineOutcome::CoreGone => Response::err("app is shutting down".to_owned()),
        LineOutcome::Unanswered => Response::err("no response".to_owned()),
        LineOutcome::Answered(response) => response,
    }
}

/// An object with one member, the folder of a recording.
pub open spec fn folder_json(folder: Seq<char>) -> JsonText {
    JsonText::Object(seq![("folder"@, JsonText::Text(folder))])
}

/// The answer that names the folder of a recording.
pub fn folder_response(folder: &str) -> (r: Response)
    ensures
        r@ == success(folder_json(folder@)),
{
    let mut m = Members::new();
    m.put("folder", Json::Text(folder.to_owned()));
    assert(m@ =~= seq![("folder"@, JsonText::Text(folder@))]);
    Response::ok(m.object())
}

/// The microphone in use, and whether it follows the default input.
pub open spec fn mic_json(mic: Seq<char>, automatic: bool) -> JsonText {
    JsonText::Object(
        seq![("mic"@, JsonText::Text(mic)), ("automatic"@, JsonText::Bool(automatic))],
    )
}

/// The answer that names the microphone in use.
pub fn mic_response(mic: &str, automatic: bool) -> (r: Response)
    ensures
        r@ == success(mic_json(mic@, automatic)),
{
    let mut m = Members::new();
    m.put("mic", Json::Text(mic.to_owned()));
    m.put("automatic", Json::Bool(automatic));
    assert(m@ =~= seq![
        ("mic"@, JsonText::Text(mic@)),
        ("automatic"@, JsonText::Bool(automatic)),
    ]);
    Response::ok(m.object())
}

pub open spec fn quitting_json() -> JsonText {
    JsonText::Object(seq![("quitting"@, JsonText::Bool(true))])
}

/// The answer of a core that is about to exit.
pub fn quitting_response() -> (r: Response)
    ensures
        r@ == success(quitting_json()),
{
    let mut m = Members::new();
    m.put("quitting", Json::Bool(true));
    assert(m@ =~= seq![("quitting"@, JsonText::Bool(true))]);
    Response::ok(m.object())
}

/// A status as messages and files write it.
pub open spec fn status_name(status: RecordingStatus) -> Seq<char> {
    match status {
        RecordingStatus::Recording => "recording"@,
        RecordingStatus::Done => "done"@,
        RecordingStatus::Failed => "failed"@,
        RecordingStatus::Interrupted => "interrupted"@,
    }
}

fn write_status(status: RecordingStatus) -> (r: String)
    ensures
        r@ == status_name(status),
{
    match status {
        RecordingStatus::Recording => "recording".to_owned(),
        RecordingStatus::Done => "done".to_owned(),
        RecordingStatus::Failed => "failed".to_owned(),
        RecordingStatus::Interrupted => "interrupted".to_owned(),
    }
}

/// A point in time as messages write it.
pub open spec fn time_json(at: Stamp) -> JsonText {
    JsonText::Text(stamp::rfc3339_text(at.secs, at.nanos, at.offset))
}

/// A recording in a list, with its start time as a text.
pub open spec fn recording_json(
    folder: Seq<char>,
    started_at: JsonText,
    duration_sec: u64,
    status: RecordingStatus,
) -> JsonText {
    JsonText::Object(
        seq![
            ("folder"@, JsonText::Text(folder)),
            ("started_at"@, started_at),
            ("duration_sec"@, JsonText::Uint(duration_sec)),
            ("status"@, JsonText::Text(status_name(status))),
        ],
    )
}

pub open spec fn entry_json(e: RecordingEntry) -> JsonText {
    recording_json(e.folder@, time_json(e.started_at), e.duration_sec, e.status)
}

/// A recording in a list, given its start time as a text.
pub fn recording_member(
    folder: &str,
    started_at: String,
    duration_sec: u64,
    status: RecordingStatus,
) -> (r: Json)
    ensures
        r@ == recording_json(folder@, JsonText::Text(started_at@), duration_sec, status),
{
    let ghost started = JsonText::Text(started_at@);
    let mut m = Members::new();
    m.put("folder", Json::Text(folder.to_owned()));
    m.put("started_at", Json::Text(started_at));
    m.put("duration_sec", Json::Uint(duration_sec));
    m.put("status", Json::Text(write_status(status)));
    assert(m@ =~= seq![
        ("folder"@, JsonText::Text(folder@)),
        ("started_at"@, started),
        ("duration_sec"@, JsonText::Uint(duration_sec)),
        ("status"@, JsonText::Text(status_name(status))),
    ]);
    m.object()
}

/// Whether the calendar covers the start times of all recordings in a list.
pub open spec fn all_valid(list: Seq<RecordingEntry>) -> bool {
    forall|i: int| 0 <= i < list.len() ==> (#[trigger] list[i]).started_at.valid()
}

pub open spec fn entries_json(list: Seq<RecordingEntry>) -> JsonText {
    JsonText::List(Seq::new(list.len(), |i: int| entry_json(list[i])))
}

/// The answer that lists recordings.
pub fn list_response(list: &Vec<RecordingEntry>) -> (r: Response)
    requires
        all_valid(list@),
    ensures
        r@ == success(entries_json(list@)),
{
    let mut items: Vec<Json> = Vec::new();
    let mut i: usize = 0;
    while i < list.len()
        invariant
            i <= list@.len(),
            all_valid(list@),
            items@.len() == i,
            forall|k: int| 0 <= k < i ==> (#[trigger] items@[k])@ == entry_json(list@[k]),
        decreases list@.len() - i,
    {
        let e = &list[i];
        assert(list@[i as int].started_at.valid());
        items.push(
            recording_member(
                e.folder.as_str(),
                stamp::rfc3339(&e.started_at),
                e.duration_sec,
                e.status,
            ),
        );
        i += 1;
    }
    assert(json::all_views(items@) =~= Seq::new(list@.len(), |k: int| entry_json(list@[k])));
    Response::ok(json::list(items))
}

pub open spec fn device_json(d: InputDevice) -> JsonText {
    JsonText::Object(
        seq![
            ("name"@, JsonText::Text(d.name@)),
            ("is_default"@, JsonText::Bool(d.is_default)),
            ("is_virtual"@, JsonText::Bool(d.is_virtual)),
        ],
    )
}

pub open spec fn devices_json(list: Seq<InputDevice>) -> JsonText {
    JsonText::List(Seq::new(list.len(), |i: int| device_json(list[i])))
}

/// The answer that lists input devices.
pub fn devices_response(list: &[InputDevice]) -> (r: Response)
    ensures
        r@ == success(devices_json(list@)),
{
    let len: usize = list.len();
    let mut items: Vec<Json> = Vec::new();
    let mut i: usize = 0;
    while i < len
        invariant
            len == list@.len(),
            i <= len,
            items@.len() == i,
            forall|k: int| 0 <= k < i ==> (#[trigger] items@[k])@ == device_json(list@[k]),
        decreases len - i,
    {
        let d = &list[i];
        let mut m = Members::new();
        m.put("name", Json::Text(d.name.clone()));
        m.put("is_default", Json::Bool(d.is_default));
        m.put("is_virtual", Json::Bool(d.is_virtual));
        assert(m@ =~= seq![
            ("name"@, JsonText::Text(d.name@)),
            ("is_default"@, JsonText::Bool(d.is_default)),
            ("is_virtual"@, JsonText::Bool(d.is_virtual)),
        ]);
        items.push(m.object());
        i += 1;
    }
    assert(json::all_views(items@) =~= Seq::new(list@.len(), |k: int| device_json(list@[k])));
    Response::ok(json::list(items))
}

/// A member that stands in an object only if there is a value for it.
pub open spec fn optional(key: Seq<char>, value: Option<JsonText>) -> Seq<(Seq<char>, JsonText)> {
    match value {
        Some(v) => seq![(key, v)],
        None => Seq::empty(),
    }
}

pub open spec fn text_json(s: Option<Seq<char>>) -> Option<JsonText> {
    match s {
        Some(t) => Some(JsonText::Text(t)),
        None => None,
    }
}

/// The state of the core, and whether the core itself told it. `started_at` and `updated_at` are
/// the times of the state as texts.
pub open spec fn state_json(
    s: StateText,
    started_at: Option<Seq<char>>,
    updated_at: Seq<char>,
    core_running: bool,
) -> JsonText {
    let mic = seq![
        ("device"@, JsonText::Text(s.mic_device)),
        ("level_ok"@, JsonText::Bool(s.mic_level_ok)),
        ("level"@, JsonText::Level(s.mic_level)),
    ];
    let system = seq![
        ("device"@, JsonText::Text(s.system_device)),
        ("level"@, JsonText::Level(s.system_level)),
    ];
    JsonText::Object(
        seq![("status"@, JsonText::Text(s.status))] + optional("folder"@, text_json(s.folder))
            + optional("started_at"@, text_json(started_at)) + seq![
            ("elapsed_sec"@, JsonText::Uint(s.elapsed_sec)),
            ("mic"@, JsonText::Object(mic)),
            ("system"@, JsonText::Object(system)),
        ] + optional("last_error"@, text_json(s.last_error)) + seq![
            ("updated_at"@, JsonText::Text(updated_at)),
            ("core_running"@, JsonText::Bool(core_running)),
        ],
    )
}

/// The start time of a state as a text.
pub open spec fn start_text(s: StateText) -> Option<Seq<char>> {
    match s.started_at {
        Some(at) => Some(stamp::rfc3339_text(at.secs, at.nanos, at.offset)),
        None => None,
    }
}

/// The time of the last change of a state as a text.
pub open spec fn update_text(s: StateText) -> Seq<char> {
    stamp::rfc3339_text(s.updated_at.secs, s.updated_at.nanos, s.updated_at.offset)
}

/// The answer that tells the state of the core, given its times as texts.
pub fn state_response(
    s: &AppState,
    started_at: Option<String>,
    updated_at: String,
    core_running: bool,
) -> (r: Response)
    ensures
        r@ == success(state_json(s@, text::opt_text(started_at), updated_at@, core_running)),
{
    let ghost expected = state_json(s@, text::opt_text(started_at), updated_at@, core_running);
    let mut mic = Members::new();
    mic.put("device", Json::Text(s.mic.device.clone()));
    mic.put("level_ok", Json::Bool(s.mic.level_ok));
    mic.put("level", Json::Level(s.mic.level));
    assert(mic@ =~= seq![
        ("device"@, JsonText::Text(s@.mic_device)),
        ("level_ok"@, JsonText::Bool(s@.mic_level_ok)),
        ("level"@, JsonText::Level(s@.mic_level)),
    ]);
    let mut system = Members::new();
    system.put("device", Json::Text(s.system.device.clone()));
    system.put("level", Json::Level(s.system.level));
    assert(system@ =~= seq![
        ("device"@, JsonText::Text(s@.system_device)),
        ("level"@, JsonText::Level(s@.system_level)),
    ]);
    let mut m = Members::new();
    m.put("status", Json::Text(s.status.clone()));
    match &s.folder {
        Some(folder) => m.put("folder", Json::Text(folder.clone())),
        None => {},
    }
    match started_at {
        Some(at) => m.put("started_at", Json::Text(at)),
        None => {},
    }
    m.put("elapsed_sec", Json::Uint(s.elapsed_sec));
    m.put("mic", mic.object());
    m.put("system", system.object());
    match &s.last_error {
        Some(error) => m.put("last_error", Json::Text(error.clone())),
        None => {},
    }
    m.put("updated_at", Json::Text(updated_at));
    m.put("core_running", Json::Bool(core_running));
    assert(m@ =~= expected->Object_0);
    Response::ok(m.object())
}

/// The answer that tells the state of the core. It says whether the core told it, so that what
/// was read from a file cannot be taken for the word of a running core.
pub fn status_response(s: &AppState, core_running: bool) -> (r: Response)
    requires
        s.valid(),
    ensures
        r@ == success(state_json(s@, start_text(s@), update_text(s@), core_running)),
{
    let started_at = match &s.started_at {
        Some(at) => Some(stamp::rfc3339(at)),
        None => None,
    };
    state_response(s, started_at, stamp::rfc3339(&s.updated_at), core_running)
}

/// An answer is either a success with data or a failure with an error, never both.
pub proof fn law_answer_succeeds_or_fails(data: JsonText, error: Seq<char>)
    ensures
        success(data).ok,
        success(data).data == Some(data),
        success(data).error is None,
        !failure(error).ok,
        failure(error).data is None,
        failure(error).error == Some(error),
{
}

/// Each status has a name of its own.
pub proof fn law_statuses_are_told_apart(a: RecordingStatus, b: RecordingStatus)
    ensures
        status_name(a) == status_name(b) ==> a == b,
        status_name(RecordingStatus::Recording) == "recording"@,
        status_name(RecordingStatus::Done) == "done"@,
        status_name(RecordingStatus::Failed) == "failed"@,
        status_name(RecordingStatus::Interrupted) == "interrupted"@,
{
    reveal_strlit("recording");
    reveal_strlit("done");
    reveal_strlit("failed");
    reveal_strlit("interrupted");
    assert("recording"@.len() == 9);
    assert("done"@.len() == 4);
    assert("failed"@.len() == 6);
    assert("interrupted"@.len() == 11);
}

proof fn lemma_recording_keys_differ()
    ensures
        "folder"@ != "started_at"@,
        "folder"@ != "duration_sec"@,
        "folder"@ != "status"@,
        "started_at"@ != "duration_sec"@,
        "started_at"@ != "status"@,
        "duration_sec"@ != "status"@,
{
    reveal_strlit("folder");
    reveal_strlit("started_at");
    reveal_strlit("duration_sec");
    reveal_strlit("status");
    assert("folder"@.len() == 6);
    assert("started_at"@.len() == 10);
    assert("duration_sec"@.len() == 12);
    assert("status"@.len() == 6);
    assert("folder"@[0] != "status"@[0]);
}

/// A list of recordings has one item for each, in their order, which says where it is, when it
/// started, how long it is and what became of it.
pub proof fn law_listed_recordings_read_back(list: Seq<RecordingEntry>, i: int)
    requires
        0 <= i < list.len(),
    ensures
        ({
            let items = entries_json(list)->List_0;
            let e = list[i];
            &&& entries_json(list) is List
            &&& items.len() == list.len()
            &&& items[i].member("folder"@) == Some(JsonText::Text(e.folder@))
            &&& items[i].member("started_at"@) == Some(
                JsonText::Text(
                    stamp::rfc3339_text(
                        e.started_at.secs,
                        e.started_at.nanos,
                        e.started_at.offset,
                    ),
                ),
            )
            &&& items[i].member("duration_sec"@) == Some(JsonText::Uint(e.duration_sec))
            &&& items[i].member("status"@) == Some(JsonText::Text(status_name(e.status)))
        }),
{
    let members = entry_json(list[i])->Object_0;
    lemma_recording_keys_differ();
    json::law_first_key_is_found(members, "folder"@, 0);
    json::law_first_key_is_found(members, "started_at"@, 1);
    json::law_first_key_is_found(members, "duration_sec"@, 2);
    json::law_first_key_is_found(members, "status"@, 3);
}

/// A list of devices has one item for each, in their order, which says its name, whether it is the
/// default input, and whether it counts as virtual.
pub proof fn law_listed_devices_read_back(list: Seq<InputDevice>, i: int)
    requires
        0 <= i < list.len(),
    ensures
        ({
            let items = devices_json(list)->List_0;
            &&& devices_json(list) is List
            &&& items.len() == list.len()
            &&& items[i].member("name"@) == Some(JsonText::Text(list[i].name@))
            &&& items[i].member("is_default"@) == Some(JsonText::Bool(list[i].is_default))
            &&& items[i].member("is_virtual"@) == Some(JsonText::Bool(list[i].is_virtual))
        }),
{
    let members = device_json(list[i])->Object_0;
    reveal_strlit("name");
    reveal_strlit("is_default");
    reveal_strlit("is_virtual");
    assert("name"@.len() == 4);
    assert("is_default"@.len() == 10);
    assert("is_virtual"@.len() == 10);
    assert("is_default"@[3] != "is_virtual"@[3]);
    json::law_first_key_is_found(members, "name"@, 0);
    json::law_first_key_is_found(members, "is_default"@, 1);
    json::law_first_key_is_found(members, "is_virtual"@, 2);
}

/// The answers about a folder and about a microphone say which one.
pub proof fn law_short_answers_read_back(folder: Seq<char>, mic: Seq<char>, automatic: bool)
    ensures
        folder_json(folder).member("folder"@) == Some(JsonText::Text(folder)),
        mic_json(mic, automatic).member("mic"@) == Some(JsonText::Text(mic)),
        mic_json(mic, automatic).member("automatic"@) == Some(JsonText::Bool(automatic)),
        quitting_json().member("quitting"@) == Some(JsonText::Bool(true)),
{
    reveal_strlit("mic");
    reveal_strlit("automatic");
    assert("mic"@.len() == 3);
    assert("automatic"@.len() == 9);
    json::law_first_key_is_found(folder_json(folder)->Object_0, "folder"@, 0);
    json::law_first_key_is_found(mic_json(mic, automatic)->Object_0, "mic"@, 0);
    json::law_first_key_is_found(mic_json(mic, automatic)->Object_0, "automatic"@, 1);
    json::law_first_key_is_found(quitting_json()->Object_0, "quitting"@, 0);
}

proof fn lemma_state_keys_differ()
    ensures
        "status"@ != "folder"@,
        "status"@ != "started_at"@,
        "status"@ != "elapsed_sec"@,
        "status"@ != "mic"@,
        "status"@ != "system"@,
        "status"@ != "last_error"@,
        "status"@ != "updated_at"@,
        "status"@ != "core_running"@,
        "folder"@ != "started_at"@,
        "folder"@ != "elapsed_sec"@,
        "folder"@ != "mic"@,
        "folder"@ != "system"@,
        "folder"@ != "last_error"@,
        "folder"@ != "updated_at"@,
        "folder"@ != "core_running"@,
        "started_at"@ != "elapsed_sec"@,
        "started_at"@ != "mic"@,
        "started_at"@ != "system"@,
        "started_at"@ != "last_error"@,
        "started_at"@ != "updated_at"@,
        "started_at"@ != "core_running"@,
        "elapsed_sec"@ != "mic"@,
        "elapsed_sec"@ != "system"@,
        "elapsed_sec"@ != "last_error"@,
        "elapsed_sec"@ != "updated_at"@,
        "elapsed_sec"@ != "core_running"@,
        "mic"@ != "system"@,
        "mic"@ != "last_error"@,
        "mic"@ != "updated_at"@,
        "mic"@ != "core_running"@,
        "system"@ != "last_error"@,
        "system"@ != "updated_at"@,
        "system"@ != "core_running"@,
        "last_error"@ != "updated_at"@,
        "last_error"@ != "core_running"@,
        "updated_at"@ != "core_running"@,
{
    reveal_strlit("status");
    reveal_strlit("folder");
    reveal_strlit("started_at");
    reveal_strlit("elapsed_sec");
    reveal_strlit("mic");
    reveal_strlit("system");
    reveal_strlit("last_error");
    reveal_strlit("updated_at");
    reveal_strlit("core_running");
    assert("status"@.len() == 6);
    assert("folder"@.len() == 6);
    assert("started_at"@.len() == 10);
    assert("elapsed_sec"@.len() == 11);
    assert("mic"@.len() == 3);
    assert("system"@.len() == 6);
    assert("last_error"@.len() == 10);
    assert("updated_at"@.len() == 10);
    assert("core_running"@.len() == 12);
    assert("status"@[0] != "folder"@[0]);
    assert("status"@[1] != "system"@[1]);
    assert("folder"@[0] != "system"@[0]);
    assert("started_at"@[0] != "last_error"@[0]);
    assert("started_at"@[0] != "updated_at"@[0]);
    assert("last_error"@[0] != "updated_at"@[0]);
}

/// A state that is told reads back as it is, each member under its own name. What there is no value
/// for is left out.
pub proof fn law_told_state_reads_back(
    s: StateText,
    started_at: Option<Seq<char>>,
    updated_at: Seq<char>,
    core_running: bool,
)
    ensures
        ({
            let data = state_json(s, started_at, updated_at, core_running);
            &&& data.member("status"@) == Some(JsonText::Text(s.status))
            &&& data.member("folder"@) == (match s.folder {
                Some(folder) => Some(JsonText::Text(folder)),
                None => None,
            })
            &&& data.member("started_at"@) == (match started_at {
                Some(at) => Some(JsonText::Text(at)),
                None => None,
            })
            &&& data.member("elapsed_sec"@) == Some(JsonText::Uint(s.elapsed_sec))
            &&& data.member("last_error"@) == (match s.last_error {
                Some(error) => Some(JsonText::Text(error)),
                None => None,
            })
            &&& data.member("updated_at"@) == Some(JsonText::Text(updated_at))
            &&& data.member("core_running"@) == Some(JsonText::Bool(core_running))
            &&& data.member("mic"@) is Some
            &&& data.member("system"@) is Some
            &&& data.member("mic"@)->0.member("device"@) == Some(JsonText::Text(s.mic_device))
            &&& data.member("mic"@)->0.member("level_ok"@) == Some(JsonText::Bool(s.mic_level_ok))
            &&& data.member("mic"@)->0.member("level"@) == Some(JsonText::Level(s.mic_level))
            &&& data.member("system"@)->0.member("device"@) == Some(
                JsonText::Text(s.system_device),
            )
            &&& data.member("system"@)->0.member("level"@) == Some(JsonText::Level(s.system_level))
        }),
{
    lemma_state_keys_differ();
    let mic = seq![
        ("device"@, JsonText::Text(s.mic_device)),
        ("level_ok"@, JsonText::Bool(s.mic_level_ok)),
        ("level"@, JsonText::Level(s.mic_level)),
    ];
    let system = seq![
        ("device"@, JsonText::Text(s.system_device)),
        ("level"@, JsonText::Level(s.system_level)),
    ];
    assert("device"@ != "level_ok"@ && "device"@ != "level"@ && "level_ok"@ != "level"@) by {
        reveal_strlit("device");
        reveal_strlit("level_ok");
        reveal_strlit("level");
        assert("device"@.len() == 6);
        assert("level_ok"@.len() == 8);
        assert("level"@.len() == 5);
    }
    json::law_first_key_is_found(mic, "device"@, 0);
    json::law_first_key_is_found(mic, "level_ok"@, 1);
    json::law_first_key_is_found(mic, "level"@, 2);
    json::law_first_key_is_found(system, "device"@, 0);
    json::law_first_key_is_found(system, "level"@, 1);
    let all = state_json(s, started_at, updated_at, core_running)->Object_0;
    let b = if s.folder is Some {
        1int
    } else {
        0
    };
    let c = b + if started_at is Some {
        1int
    } else {
        0
    };
    let e = c + 4 + if s.last_error is Some {
        1int
    } else {
        0
    };
    assert(all[0] == ("status"@, JsonText::Text(s.status)));
    if s.folder is Some {
        assert(all[1] == ("folder"@, JsonText::Text(s.folder->0)));
    }
    if started_at is Some {
        assert(all[c] == ("started_at"@, JsonText::Text(started_at->0)));
    }
    assert(all[c + 1] == ("elapsed_sec"@, JsonText::Uint(s.elapsed_sec)));
    assert(all[c + 2] == ("mic"@, JsonText::Object(mic)));
    assert(all[c + 3] == ("system"@, JsonText::Object(system)));
    if s.last_error is Some {
        assert(all[c + 4] == ("last_error"@, JsonText::Text(s.last_error->0)));
    }
    assert(all[e] == ("updated_at"@, JsonText::Text(updated_at)));
    assert(all[e + 1] == ("core_running"@, JsonText::Bool(core_running)));
    assert(all.len() == e + 2);
    json::law_first_key_is_found(all, "status"@, 0);
    json::law_first_key_is_found(all, "folder"@, 1);
    json::law_first_key_is_found(all, "started_at"@, c);
    json::law_first_key_is_found(all, "elapsed_sec"@, c + 1);
    json::law_first_key_is_found(all, "mic"@, c + 2);
    json::law_first_key_is_found(all, "system"@, c + 3);
    json::law_first_key_is_found(all, "last_error"@, c + 4);
    json::law_first_key_is_found(all, "updated_at"@, e);
    json::law_first_key_is_found(all, "core_running"@, e + 1);
}

/// Every line is answered. What is no request is told why, and only the core's own answer can be a
/// success.
pub proof fn law_every_line_is_answered(outcome: LineOutcome, response: Response)
    requires
        call_ensures(answer, (outcome,), response),
    ensures
        outcome matches LineOutcome::Answered(own) ==> response == own,
        !(outcome is Answered) ==> !response.ok && response.error is Some && response.data is None,
        outcome matches LineOutcome::Unreadable(error) ==> response.error->0@.take(13)
            == "bad request: "@ && response.error->0@.skip(13) == error@,
        outcome is CoreGone ==> response.error->0@ == "app is shutting down"@,
        outcome is Unanswered ==> response.error->0@ == "no response"@,
{
    if let LineOutcome::Unreadable(error) = outcome {
        reveal_strlit("bad request: ");
        let t = "bad request: "@ + error@;
        assert(t.take(13) =~= "bad request: "@);
        assert(t.skip(13) =~= error@);
        assert(response@.error == Some(t));
    }
}

/// The answers with lists have one item for each recording or device, in their order.
pub proof fn law_list_answers_read_back(
    recordings: &Vec<RecordingEntry>,
    recordings_answer: Response,
    devices: &[InputDevice],
    devices_answer: Response,
    i: int,
    j: int,
)
    requires
        all_valid(recordings@),
        call_ensures(list_response, (recordings,), recordings_answer),
        call_ensures(devices_response, (devices,), devices_answer),
        0 <= i < recordings@.len(),
        0 <= j < devices@.len(),
    ensures
        recordings_answer.ok,
        recordings_answer@.data is Some,
        recordings_answer@.data->0 is List,
        recordings_answer@.data->0->List_0.len() == recordings@.len(),
        ({
            let item = recordings_answer@.data->0->List_0[i];
            let e = recordings@[i];
            &&& item.member("folder"@) == Some(JsonText::Text(e.folder@))
            &&& item.member("duration_sec"@) == Some(JsonText::Uint(e.duration_sec))
            &&& item.member("status"@) == Some(JsonText::Text(status_name(e.status)))
        }),
        devices_answer.ok,
        devices_answer@.data is Some,
        devices_answer@.data->0 is List,
        devices_answer@.data->0->List_0.len() == devices@.len(),
        ({
            let item = devices_answer@.data->0->List_0[j];
            &&& item.member("name"@) == Some(JsonText::Text(devices@[j].name@))
            &&& item.member("is_default"@) == Some(JsonText::Bool(devices@[j].is_default))
            &&& item.member("is_virtual"@) == Some(JsonText::Bool(devices@[j].is_virtual))
        }),
{
    law_listed_recordings_read_back(recordings@, i);
    law_listed_devices_read_back(devices@, j);
}

/// The answer with the state says what the state says, and whether the core told it.
pub proof fn law_state_answer_reads_back(
    state: &AppState,
    core_running: bool,
    answer: Response,
)
    requires
        state.valid(),
        call_ensures(status_response, (state, core_running), answer),
    ensures
        answer.ok,
        answer@.data is Some,
        ({
            let data = answer@.data->0;
            &&& data.member("status"@) == Some(JsonText::Text(state.status@))
            &&& data.member("elapsed_sec"@) == Some(JsonText::Uint(state.elapsed_sec))
            &&& data.member("core_running"@) == Some(JsonText::Bool(core_running))
            &&& data.member("folder"@) is Some <==> state.folder is Some
            &&& data.member("started_at"@) is Some <==> state.started_at is Some
            &&& data.member("last_error"@) is Some <==> state.last_error is Some
            &&& data.member("mic"@)->0.member("device"@) == Some(
                JsonText::Text(state.mic.device@),
            )
            &&& data.member("mic"@)->0.member("level_ok"@) == Some(
                JsonText::Bool(state.mic.level_ok),
            )
            &&& data.member("mic"@)->0.member("level"@) == Some(JsonText::Level(state.mic.level))
            &&& data.member("system"@)->0.member("device"@) == Some(
                JsonText::Text(state.system.device@),
            )
            &&& data.member("system"@)->0.member("level"@) == Some(
                JsonText::Level(state.system.level),
            )
        }),
{
    law_told_state_reads_back(state@, start_text(state@), update_text(state@), core_running);
}

} // verus!
