//! The `sori` command: what its arguments ask for, and what it prints.
//!
//! Exit codes: 0 ok, 1 command failed, 2 app not running, 64 usage.

use vstd::prelude::*;
use vstd::string::*;
use crate::devices::InputDevice;
use crate::ipc::{Request, RequestText, Response, ResponseText};
use crate::ipc;
use crate::json::{Json, JsonText};
use crate::json;
use crate::recordings::RecordingStatus;
use crate::recordings;
use crate::state::StateText;
use crate::text;
use crate::timeline;

verus! {

/// The exit code where the arguments make no sense.
pub const EXIT_USAGE: i32 = 64;

/// How the command is used.
pub const USAGE: &'static str =
    "usage: sori <start [--mic NAME] | stop | status | list [--limit N] | devices | set-mic <NAME|auto> | quit> [--json]";

/// What the arguments ask for: a request, and whether the answer is printed as JSON.
pub struct Invocation {
    pub request: Request,
    pub json: bool,
}

/// The argument behind the first occurrence of a flag.
pub open spec fn flag_text(args: Seq<Seq<char>>, name: Seq<char>) -> Option<Seq<char>>
    decreases args.len(),
{
    if args.len() == 0 {
        None
    } else if args[0] == name {
        if args.len() > 1 {
            Some(args[1])
        } else {
            None
        }
    } else {
        flag_text(args.drop_first(), name)
    }
}

/// The number of recordings that a list is limited to.
pub open spec fn limit_of(value: Option<Seq<char>>) -> usize {
    match value {
        Some(v) => match text::parsed_unsigned(v, usize::MAX as int) {
            Some(n) => n as usize,
            None => 5,
        },
        None => 5,
    }
}

/// The request that the arguments make, if they make sense.
pub open spec fn request_of(args: Seq<Seq<char>>) -> Option<RequestText> {
    if args.len() == 0 {
        None
    } else if args[0] == "start"@ {
        Some(RequestText::Start { mic: flag_text(args, "--mic"@) })
    } else if args[0] == "stop"@ {
        Some(RequestText::Stop)
    } else if args[0] == "status"@ {
        Some(RequestText::Status)
    } else if args[0] == "list"@ {
        Some(RequestText::List { limit: limit_of(flag_text(args, "--limit"@)) })
    } else if args[0] == "devices"@ {
        Some(RequestText::Devices)
    } else if args[0] == "set-mic"@ {
        if args.len() < 2 {
            None
        } else if args[1] == "auto"@ {
            Some(RequestText::SetMic { mic: None })
        } else {
            Some(RequestText::SetMic { mic: Some(args[1]) })
        }
    } else if args[0] == "quit"@ {
        Some(RequestText::Quit)
    } else {
        None
    }
}

/// The argument behind the first occurrence of a flag.
fn flag_value(args: &Vec<String>, name: &str) -> (r: Option<String>)
    ensures
        text::opt_text(r) == flag_text(text::texts(args@), name@),
{
    let ghost all = text::texts(args@);
    let len: usize = args.len();
    let mut i: usize = 0;
    assert(all.skip(0) =~= all);
    while i < len
        invariant
            len == args@.len(),
            i <= len,
            all == text::texts(args@),
            flag_text(all, name@) == flag_text(all.skip(i as int), name@),
        decreases len - i,
    {
        let ghost rest = all.skip(i as int);
        assert(rest[0] == args@[i as int]@);
        assert(rest.drop_first() =~= all.skip(i + 1));
        if text::same(args[i].as_str(), name) {
            if i + 1 < len {
                assert(rest[1] == args@[i + 1]@);
                return Some(args[i + 1].clone());
            }
            return None;
        }
        i += 1;
    }
    None
}

fn has_argument(args: &Vec<String>, name: &str) -> (r: bool)
    ensures
        r == text::texts(args@).contains(name@),
{
    let ghost all = text::texts(args@);
    let mut i: usize = 0;
    while i < args.len()
        invariant
            i <= args@.len(),
            all == text::texts(args@),
            forall|k: int| 0 <= k < i ==> all[k] != name@,
        decreases args@.len() - i,
    {
        assert(all[i as int] == args@[i as int]@);
        if text::same(args[i].as_str(), name) {
            return true;
        }
        i += 1;
    }
    false
}

/// Reads the arguments. `None` means that they make no sense.
pub fn parse(args: &Vec<String>) -> (r: Option<Invocation>)
    ensures
        match r {
            Some(i) => request_of(text::texts(args@)) == Some(i.request@) && i.json == text::texts(
                args@,
            ).contains("--json"@),
            None => request_of(text::texts(args@)) is None,
        },
{
    if args.len() == 0 {
        return None;
    }
    let ghost all = text::texts(args@);
    let json = has_argument(args, "--json");
    let word = args[0].as_str();
    assert(all[0] == word@);
    let request = if text::same(word, "start") {
        Request::Start { mic: flag_value(args, "--mic") }
    } else if text::same(word, "stop") {
        Request::Stop
    } else if text::same(word, "status") {
        Request::Status
    } else if text::same(word, "list") {
        let limit: usize = match flag_value(args, "--limit") {
            Some(v) => match text::parse_unsigned(v.as_str(), usize::MAX as u64) {
                Some(n) => n as usize,
                None => ipc::default_limit(),
            },
            None => ipc::default_limit(),
        };
        Request::List { limit }
    } else if text::same(word, "devices") {
        Request::Devices
    } else if text::same(word, "set-mic") {
        if args.len() < 2 {
            return None;
        }
        assert(all[1] == args@[1]@);
        if text::same(args[1].as_str(), "auto") {
            Request::SetMic { mic: None }
        } else {
            Request::SetMic { mic: Some(args[1].clone()) }
        }
    } else if text::same(word, "quit") {
        Request::Quit
    } else {
        return None;
    };
    Some(Invocation { request, json })
}

/// How long an answer is waited for, in seconds: starting, stopping and quitting take time.
pub fn read_timeout(request: &Request) -> (r: u64)
    ensures
        r == match request {
            Request::Start { .. } | Request::Stop | Request::Quit => 40u64,
            _ => 3u64,
        },
{
    match request {
        Request::Start { .. } | Request::Stop | Request::Quit => 40,
        _ => 3,
    }
}

/// What is done with a request where the app does not answer.
pub enum OfflineStep {
    /// Tell the state on file, and that no core told it.
    TellState,
    ListRecordings(usize),
    ListDevices,
    /// The request needs the app.
    NotRunning(Response),
}

/// Requests that only read work without the app.
pub fn offline(request: &Request) -> (r: OfflineStep)
    ensures
        match request {
            Request::Status => r is TellState,
            Request::List { limit } => r == OfflineStep::ListRecordings(*limit),
            Request::Devices => r is ListDevices,
            _ => r matches OfflineStep::NotRunning(a) && a@ == ipc::failure(
                "Sori app is not running"@,
            ),
        },
{
    match request {
        Request::Status => OfflineStep::TellState,
        Request::List { limit } => OfflineStep::ListRecordings(*limit),
        Request::Devices => OfflineStep::ListDevices,
        _ => OfflineStep::NotRunning(Response::err("Sori app is not running".to_owned())),
    }
}

/// The exit code of a command, given whether it was answered and whether it succeeded.
pub fn exit_code(answered: bool, ok: bool) -> (r: i32)
    ensures
        r == (if !answered {
            2i32
        } else if ok {
            0i32
        } else {
            1i32
        }),
{
    if !answered {
        2
    } else if ok {
        0
    } else {
        1
    }
}

/// How many bytes a character takes in a string.
pub open spec fn char_bytes(c: char) -> int {
    if (c as int) < 0x80 {
        1
    } else if (c as int) < 0x800 {
        2
    } else if (c as int) < 0x10000 {
        3
    } else {
        4
    }
}

/// How many bytes some characters take in a string.
pub open spec fn text_bytes(s: Seq<char>) -> int
    decreases s.len(),
{
    if s.len() == 0 {
        0
    } else {
        text_bytes(s.drop_last()) + char_bytes(s.last())
    }
}

/// How many characters of a string begin within its first `n` bytes.
pub open spec fn chars_within(s: Seq<char>, n: int, from: int) -> int
    decreases s.len() - from,
{
    if from < 0 || from >= s.len() || text_bytes(s.take(from)) >= n {
        from
    } else {
        chars_within(s, n, from + 1)
    }
}

/// A string cut off after its first `n` bytes.
pub open spec fn cut(s: Seq<char>, n: int) -> Seq<char> {
    s.take(chars_within(s, n, 0))
}

/// Whether a string can be cut off after its first `n` bytes: no character reaches over them.
pub open spec fn cuts_cleanly(s: Seq<char>, n: int) -> bool {
    text_bytes(cut(s, n)) <= n
}

fn bytes_of(c: char) -> (r: u64)
    ensures
        r == char_bytes(c),
{
    let code: u32 = c as u32;
    if code < 0x80 {
        1
    } else if code < 0x800 {
        2
    } else if code < 0x10000 {
        3
    } else {
        4
    }
}

/// Cuts a string off after its first `n` bytes, and tells how many bytes are left.
fn cut_bytes(s: &str, n: u64) -> (r: (String, u64))
    requires
        n <= 1024,
    ensures
        r.0@ == cut(s@, n as int),
        r.1 == text_bytes(cut(s@, n as int)),
{
    let chars = text::to_chars(s);
    let mut out = "".to_owned();
    proof {
        reveal_strlit("");
    }
    let mut bytes: u64 = 0;
    let mut i: usize = 0;
    assert(s@.take(0) =~= Seq::empty());
    while i < chars.len() && bytes < n
        invariant
            chars@ == s@,
            i <= chars@.len(),
            n <= 1024,
            bytes <= n + 3,
            out@ == s@.take(i as int),
            bytes == text_bytes(s@.take(i as int)),
            chars_within(s@, n as int, 0) == chars_within(s@, n as int, i as int),
        decreases chars@.len() - i,
    {
        let c = chars[i];
        assert(s@.take(i + 1).drop_last() =~= s@.take(i as int));
        assert(s@.take(i + 1).last() == c);
        out.push(c);
        assert(out@ =~= s@.take(i + 1));
        bytes = bytes + bytes_of(c);
        i += 1;
    }
    (out, bytes)
}

/// `n` spaces.
pub open spec fn spaces(n: int) -> Seq<char> {
    Seq::new(
        if n > 0 {
            n as nat
        } else {
            0
        },
        |i: int| ' ',
    )
}

/// A text filled up with spaces on the right.
pub open spec fn left_aligned(s: Seq<char>, width: int) -> Seq<char> {
    s + spaces(width - s.len())
}

/// A text filled up with spaces on the left.
pub open spec fn right_aligned(s: Seq<char>, width: int) -> Seq<char> {
    spaces(width - s.len()) + s
}

fn push_spaces(out: &mut String, n: usize)
    ensures
        final(out)@ == old(out)@ + spaces(n as int),
{
    let ghost start = out@;
    let mut i: usize = 0;
    assert(start =~= start + spaces(0));
    while i < n
        invariant
            i <= n,
            out@ == start + spaces(i as int),
        decreases n - i,
    {
        out.push(' ');
        i += 1;
        assert(out@ =~= start + spaces(i as int));
    }
}

fn push_left(out: &mut String, s: &str, width: usize)
    ensures
        final(out)@ == old(out)@ + left_aligned(s@, width as int),
{
    let ghost start = out@;
    let len: usize = s.unicode_len();
    out.append(s);
    if len < width {
        push_spaces(out, width - len);
    }
    assert(out@ =~= start + left_aligned(s@, width as int));
}

fn push_right(out: &mut String, s: &str, width: usize)
    ensures
        final(out)@ == old(out)@ + right_aligned(s@, width as int),
{
    let ghost start = out@;
    let len: usize = s.unicode_len();
    if len < width {
        push_spaces(out, width - len);
    }
    out.append(s);
    assert(out@ =~= start + right_aligned(s@, width as int));
}

/// What is printed, on standard output and on standard error.
pub struct Printed {
    pub out: String,
    pub err: String,
}

/// A member of an answer, or nothing.
pub open spec fn inner(data: JsonText, key: Seq<char>) -> JsonText {
    match data.member(key) {
        Some(value) => value,
        None => JsonText::Null,
    }
}

/// The lines that tell the state of the core.
pub open spec fn status_lines(data: JsonText) -> Seq<char> {
    let status = data.shown_text("status"@);
    if data.member("core_running"@) == Some(JsonText::Bool(false)) {
        "offline  (last state: "@ + status + ")\n"@
    } else {
        (if status == "recording"@ {
            "recording  "@ + recordings::elapsed_text(data.shown_number("elapsed_sec"@) as nat)
                + "  ("@ + data.shown_text("folder"@) + ")\n"@
        } else {
            status + "\n"@
        }) + "mic:     "@ + inner(data, "mic"@).shown_text("device"@) + (if inner(
            data,
            "mic"@,
        ).member("level_ok"@) == Some(JsonText::Bool(false)) {
            "  [SILENT]\n"@
        } else {
            "\n"@
        }) + "system:  "@ + inner(data, "system"@).shown_text("device"@) + "\n"@
    }
}

/// The line of a recording in a list.
pub open spec fn recording_line(item: JsonText) -> Seq<char> {
    left_aligned(cut(item.shown_text("started_at"@), 16), 25) + " "@ + right_aligned(
        recordings::minutes_text(item.shown_number("duration_sec"@) as nat),
        8,
    ) + "  "@ + left_aligned(item.shown_text("status"@), 9) + " "@ + item.shown_text("folder"@)
        + "\n"@
}

/// The line of a device in a list.
pub open spec fn device_line(item: JsonText) -> Seq<char> {
    (if item.member("is_default"@) == Some(JsonText::Bool(true)) {
        "* "@
    } else {
        "  "@
    }) + item.shown_text("name"@) + (if item.member("is_virtual"@) == Some(JsonText::Bool(true)) {
        "   (virtual — skipped in automatic mode)\n"@
    } else {
        "\n"@
    })
}

/// The first lines of a list.
pub open spec fn recording_lines(items: Seq<JsonText>) -> Seq<char>
    decreases items.len(),
{
    if items.len() == 0 {
        Seq::empty()
    } else {
        recording_lines(items.drop_last()) + recording_line(items.last())
    }
}

pub open spec fn device_lines(items: Seq<JsonText>) -> Seq<char>
    decreases items.len(),
{
    if items.len() == 0 {
        Seq::empty()
    } else {
        device_lines(items.drop_last()) + device_line(items.last())
    }
}

/// What a successful answer to a request prints.
pub open spec fn answer_lines(request: RequestText, data: JsonText) -> Seq<char> {
    match request {
        RequestText::Start { .. } => "recording → "@ + data.shown_text("folder"@) + "\n"@,
        RequestText::Stop => data.shown_text("folder"@) + "\n"@,
        RequestText::Status => status_lines(data),
        RequestText::List { .. } => match data {
            JsonText::List(items) => if items.len() == 0 {
                "no recordings yet\n"@
            } else {
                recording_lines(items)
            },
            _ => Seq::empty(),
        },
        RequestText::SetMic { .. } => "mic → "@ + data.shown_text("mic"@) + (if data.member(
            "automatic"@,
        ) == Some(JsonText::Bool(true)) {
            "  (automatic)\n"@
        } else {
            "\n"@
        }),
        RequestText::Quit => "quitting\n"@,
        RequestText::Devices => match data {
            JsonText::List(items) => device_lines(items),
            _ => Seq::empty(),
        },
    }
}

/// The data of an answer, or nothing.
pub open spec fn data_of(r: ResponseText) -> JsonText {
    match r.data {
        Some(data) => data,
        None => JsonText::Null,
    }
}

/// What is printed on standard output.
pub open spec fn printed_out(r: ResponseText, request: RequestText) -> Seq<char> {
    if r.ok {
        answer_lines(request, data_of(r))
    } else {
        Seq::empty()
    }
}

/// What is printed on standard error.
pub open spec fn printed_err(r: ResponseText) -> Seq<char> {
    if r.ok {
        Seq::empty()
    } else {
        "error: "@ + (match r.error {
            Some(error) => error,
            None => Seq::empty(),
        }) + "\n"@
    }
}

/// Whether an answer can be printed: in a list, the start time of every recording can be cut off
/// after the minute.
pub open spec fn printable(r: ResponseText, request: RequestText) -> bool {
    r.ok && request is List ==> match data_of(r) {
        JsonText::List(items) => all_cut_cleanly(items),
        _ => true,
    }
}

/// Whether the start time of every recording in a list can be cut off after the minute.
pub open spec fn all_cut_cleanly(items: Seq<JsonText>) -> bool {
    forall|i: int|
        0 <= i < items.len() ==> cuts_cleanly((#[trigger] items[i]).shown_text("started_at"@), 16)
}

/// Whether an answer can be printed.
pub fn can_print(r: &Response, request: &Request) -> (b: bool)
    ensures
        b == printable(r@, request@),
{
    if !r.ok {
        return true;
    }
    match request {
        Request::List { .. } => match &r.data {
            Some(Json::List(items)) => {
                let ghost all = data_of(r@)->List_0;
                let len: usize = items.len();
                let mut i: usize = 0;
                while i < len
                    invariant
                        len == items@.len(),
                        i <= len,
                        data_of(r@) == JsonText::List(all),
                        r@.ok,
                        request@ is List,
                        all.len() == len,
                        forall|k: int| 0 <= k < len ==> #[trigger] all[k] == items@[k]@,
                        forall|k: int|
                            0 <= k < i ==> cuts_cleanly(
                                (#[trigger] all[k]).shown_text("started_at"@),
                                16,
                            ),
                    decreases len - i,
                {
                    let started = items[i].text_of("started_at");
                    assert(all[i as int] == items@[i as int]@);
                    let (_, bytes) = cut_bytes(started.as_str(), 16);
                    if bytes > 16 {
                        assert(!cuts_cleanly(all[i as int].shown_text("started_at"@), 16));
                        assert(!all_cut_cleanly(all));
                        return false;
                    }
                    i += 1;
                }
                true
            },
            _ => true,
        },
        _ => true,
    }
}

fn push_elapsed(out: &mut String, sec: u64)
    ensures
        final(out)@ == old(out)@ + recordings::elapsed_text(sec as nat),
{
    out.append(recordings::format_elapsed(sec).as_str());
}

#[verifier::rlimit(50)]
fn push_status(out: &mut String, data: &Json)
    ensures
        final(out)@ == old(out)@ + status_lines(data@),
{
    let ghost start = out@;
    let status = data.text_of("status");
    if data.is_bool("core_running", false) {
        out.append("offline  (last state: ");
        out.append(status.as_str());
        out.append(")\n");
        assert(out@ =~= start + status_lines(data@));
        return;
    }
    if text::same(status.as_str(), "recording") {
        out.append("recording  ");
        push_elapsed(out, data.number_of("elapsed_sec"));
        out.append("  (");
        out.append(data.text_of("folder").as_str());
        out.append(")\n");
    } else {
        out.append(status.as_str());
        out.append("\n");
    }
    let nothing = Json::Null;
    let mic = match data.member("mic") {
        Some(value) => value,
        None => &nothing,
    };
    let system = match data.member("system") {
        Some(value) => value,
        None => &nothing,
    };
    out.append("mic:     ");
    out.append(mic.text_of("device").as_str());
    if mic.is_bool("level_ok", false) {
        out.append("  [SILENT]\n");
    } else {
        out.append("\n");
    }
    out.append("system:  ");
    out.append(system.text_of("device").as_str());
    out.append("\n");
    assert(out@ =~= start + status_lines(data@));
}

fn push_recording(out: &mut String, item: &Json)
    ensures
        final(out)@ == old(out)@ + recording_line(item@),
{
    let ghost start = out@;
    let (started, _) = cut_bytes(item.text_of("started_at").as_str(), 16);
    push_left(out, started.as_str(), 25);
    out.append(" ");
    push_right(out, recordings::format_minutes(item.number_of("duration_sec")).as_str(), 8);
    out.append("  ");
    push_left(out, item.text_of("status").as_str(), 9);
    out.append(" ");
    out.append(item.text_of("folder").as_str());
    out.append("\n");
    assert(out@ =~= start + recording_line(item@));
}

fn push_device(out: &mut String, item: &Json)
    ensures
        final(out)@ == old(out)@ + device_line(item@),
{
    let ghost start = out@;
    if item.is_bool("is_default", true) {
        out.append("* ");
    } else {
        out.append("  ");
    }
    out.append(item.text_of("name").as_str());
    if item.is_bool("is_virtual", true) {
        out.append("   (virtual — skipped in automatic mode)\n");
    } else {
        out.append("\n");
    }
    assert(out@ =~= start + device_line(item@));
}

fn push_recordings(out: &mut String, items: &Vec<Json>)
    ensures
        final(out)@ == old(out)@ + recording_lines(json::all_views(items@)),
{
    let ghost start = out@;
    let ghost all = json::all_views(items@);
    let mut i: usize = 0;
    assert(all.take(0) =~= Seq::empty());
    while i < items.len()
        invariant
            i <= items@.len(),
            all == json::all_views(items@),
            out@ =~= start + recording_lines(all.take(i as int)),
        decreases items@.len() - i,
    {
        assert(all.take(i + 1).drop_last() =~= all.take(i as int));
        assert(all.take(i + 1).last() == items@[i as int]@);
        push_recording(out, &items[i]);
        i += 1;
    }
    assert(all.take(i as int) =~= all);
}

fn push_devices(out: &mut String, items: &Vec<Json>)
    ensures
        final(out)@ == old(out)@ + device_lines(json::all_views(items@)),
{
    let ghost start = out@;
    let ghost all = json::all_views(items@);
    let mut i: usize = 0;
    assert(all.take(0) =~= Seq::empty());
    while i < items.len()
        invariant
            i <= items@.len(),
            all == json::all_views(items@),
            out@ =~= start + device_lines(all.take(i as int)),
        decreases items@.len() - i,
    {
        assert(all.take(i + 1).drop_last() =~= all.take(i as int));
        assert(all.take(i + 1).last() == items@[i as int]@);
        push_device(out, &items[i]);
        i += 1;
    }
    assert(all.take(i as int) =~= all);
}

fn push_answer(out: &mut String, request: &Request, data: &Json)
    ensures
        final(out)@ == old(out)@ + answer_lines(request@, data@),
{
    let ghost start = out@;
    match request {
        Request::Start { .. } => {
            out.append("recording → ");
            out.append(data.text_of("folder").as_str());
            out.append("\n");
        },
        Request::Stop => {
            out.append(data.text_of("folder").as_str());
            out.append("\n");
        },
        Request::Status => push_status(out, data),
        Request::List { .. } => match data {
            Json::List(items) => {
                assert(data@->List_0 =~= json::all_views(items@));
                if items.len() == 0 {
                    out.append("no recordings yet\n");
                } else {
                    push_recordings(out, items);
                }
            },
            _ => {},
        },
        Request::SetMic { .. } => {
            out.append("mic → ");
            out.append(data.text_of("mic").as_str());
            if data.is_bool("automatic", true) {
                out.append("  (automatic)\n");
            } else {
                out.append("\n");
            }
        },
        Request::Quit => out.append("quitting\n"),
        Request::Devices => match data {
            Json::List(items) => {
                assert(data@->List_0 =~= json::all_views(items@));
                push_devices(out, items);
            },
            _ => {},
        },
    }
    assert(out@ =~= start + answer_lines(request@, data@));
}

/// What an answer to a request prints for people to read.
pub fn print(r: &Response, request: &Request) -> (p: Printed)
    requires
        printable(r@, request@),
    ensures
        p.out@ == printed_out(r@, request@),
        p.err@ == printed_err(r@),
{
    proof {
        reveal_strlit("");
    }
    let mut out = "".to_owned();
    let mut err = "".to_owned();
    if !r.ok {
        err.append("error: ");
        match &r.error {
            Some(error) => err.append(error.as_str()),
            None => {},
        }
        err.append("\n");
        assert(err@ =~= printed_err(r@));
    } else {
        match &r.data {
            Some(data) => push_answer(&mut out, request, data),
            None => push_answer(&mut out, request, &Json::Null),
        }
        assert(out@ =~= printed_out(r@, request@));
    }
    Printed { out, err }
}

/// A successful start or stop prints the folder of the recording that the core answered with.
pub proof fn law_folder_is_printed(folder: Seq<char>, mic: Option<Seq<char>>)
    ensures
        printed_out(ipc::success(ipc::folder_json(folder)), RequestText::Stop) == folder + "\n"@,
        printed_out(ipc::success(ipc::folder_json(folder)), RequestText::Start { mic })
            == "recording → "@ + folder + "\n"@,
        printed_err(ipc::success(ipc::folder_json(folder))) == Seq::<char>::empty(),
{
}

/// A failure prints its message on standard error and nothing else, whatever was requested.
pub proof fn law_failure_is_printed(error: Seq<char>, request: RequestText)
    ensures
        printed_out(ipc::failure(error), request) == Seq::<char>::empty(),
        printed_err(ipc::failure(error)) == "error: "@ + error + "\n"@,
{
}

proof fn lemma_keys_differ()
    ensures
        "status"@ != "folder"@,
        "status"@ != "started_at"@,
        "status"@ != "elapsed_sec"@,
        "status"@ != "mic"@,
        "status"@ != "system"@,
        "status"@ != "core_running"@,
        "folder"@ != "started_at"@,
        "folder"@ != "elapsed_sec"@,
        "folder"@ != "mic"@,
        "folder"@ != "system"@,
        "folder"@ != "core_running"@,
        "started_at"@ != "elapsed_sec"@,
        "started_at"@ != "mic"@,
        "started_at"@ != "system"@,
        "started_at"@ != "core_running"@,
        "elapsed_sec"@ != "mic"@,
        "elapsed_sec"@ != "system"@,
        "elapsed_sec"@ != "core_running"@,
        "mic"@ != "system"@,
        "mic"@ != "core_running"@,
        "system"@ != "core_running"@,
        "last_error"@ != "core_running"@,
        "updated_at"@ != "core_running"@,
        "device"@ != "level_ok"@,
{
    reveal_strlit("status");
    reveal_strlit("folder");
    reveal_strlit("started_at");
    reveal_strlit("elapsed_sec");
    reveal_strlit("mic");
    reveal_strlit("system");
    reveal_strlit("last_error");
    reveal_strlit("updated_at");
    reveal_strlit("core_running");
    reveal_strlit("device");
    reveal_strlit("level_ok");
    assert("status"@.len() == 6);
    assert("folder"@.len() == 6);
    assert("started_at"@.len() == 10);
    assert("elapsed_sec"@.len() == 11);
    assert("mic"@.len() == 3);
    assert("system"@.len() == 6);
    assert("last_error"@.len() == 10);
    assert("updated_at"@.len() == 10);
    assert("core_running"@.len() == 12);
    assert("device"@.len() == 6);
    assert("level_ok"@.len() == 8);
    assert("status"@[0] != "folder"@[0]);
    assert("status"@[1] != "system"@[1]);
    assert("folder"@[0] != "system"@[0]);
}

/// What the members of a state say.
proof fn lemma_state_members(
    s: StateText,
    started_at: Option<Seq<char>>,
    updated_at: Seq<char>,
    core_running: bool,
)
    ensures
        ({
            let data = ipc::state_json(s, started_at, updated_at, core_running);
            &&& data.shown_text("status"@) == s.status
            &&& s.folder matches Some(folder) ==> data.shown_text("folder"@) == folder
            &&& data.shown_number("elapsed_sec"@) == s.elapsed_sec
            &&& inner(data, "mic"@).shown_text("device"@) == s.mic_device
            &&& inner(data, "mic"@).member("level_ok"@) == Some(JsonText::Bool(s.mic_level_ok))
            &&& inner(data, "system"@).shown_text("device"@) == s.system_device
            &&& data.member("core_running"@) == Some(JsonText::Bool(core_running))
        }),
{
    lemma_keys_differ();
    let data = ipc::state_json(s, started_at, updated_at, core_running);
    let mic = seq![
        ("device"@, JsonText::Text(s.mic_device)),
        ("level_ok"@, JsonText::Bool(s.mic_level_ok)),
        ("level"@, JsonText::Level(s.mic_level)),
    ];
    let system = seq![
        ("device"@, JsonText::Text(s.system_device)),
        ("level"@, JsonText::Level(s.system_level)),
    ];
    let a = seq![("status"@, JsonText::Text(s.status))];
    let b = ipc::optional("folder"@, ipc::text_json(s.folder));
    let c = ipc::optional("started_at"@, ipc::text_json(started_at));
    let d = seq![
        ("elapsed_sec"@, JsonText::Uint(s.elapsed_sec)),
        ("mic"@, JsonText::Object(mic)),
        ("system"@, JsonText::Object(system)),
    ];
    let e = ipc::optional("last_error"@, ipc::text_json(s.last_error));
    let f = seq![
        ("updated_at"@, JsonText::Text(updated_at)),
        ("core_running"@, JsonText::Bool(core_running)),
    ];
    let all = data->Object_0;
    assert(all =~= a + (b + c + d + e + f));
    json::lemma_member_behind(a, b + c + d + e + f, "folder"@);
    assert(b + c + d + e + f =~= b + (c + d + e + f));
    let front = a + b + c;
    let rest = d + (e + f);
    assert(all =~= front + rest);
    json::lemma_member_behind(front, rest, "elapsed_sec"@);
    json::lemma_member_behind(front, rest, "mic"@);
    json::lemma_member_behind(front, rest, "system"@);
    json::lemma_member_behind(front, rest, "core_running"@);
    assert(rest.drop_first()[0] == ("mic"@, JsonText::Object(mic)));
    assert(rest.drop_first().drop_first()[0] == ("system"@, JsonText::Object(system)));
    assert(json::first_member(rest, "mic"@) == json::first_member(rest.drop_first(), "mic"@));
    assert(json::first_member(rest, "system"@) == json::first_member(
        rest.drop_first(),
        "system"@,
    ));
    assert(json::first_member(rest.drop_first(), "system"@) == json::first_member(
        rest.drop_first().drop_first(),
        "system"@,
    ));
    let before_last = d + e + seq![("updated_at"@, JsonText::Text(updated_at))];
    let last = seq![("core_running"@, JsonText::Bool(core_running))];
    assert(rest =~= before_last + last);
    json::lemma_member_behind(before_last, last, "core_running"@);
    assert(mic.drop_first()[0] == ("level_ok"@, JsonText::Bool(s.mic_level_ok)));
    assert(json::first_member(mic, "level_ok"@) == json::first_member(
        mic.drop_first(),
        "level_ok"@,
    ));
    if s.folder is Some {
        assert((b + (c + d + e + f))[0] == b[0]);
    }
}

/// A state that no running core told is never printed as if one had: it says that it is offline.
pub proof fn law_offline_state_says_so(
    s: StateText,
    started_at: Option<Seq<char>>,
    updated_at: Seq<char>,
)
    ensures
        printed_out(
            ipc::success(ipc::state_json(s, started_at, updated_at, false)),
            RequestText::Status,
        ) == "offline  (last state: "@ + s.status + ")\n"@,
{
    lemma_state_members(s, started_at, updated_at, false);
}

/// The state that a running core told is printed as it is: the time and the folder of a
/// recording, the devices, and whether the microphone is silent.
pub proof fn law_running_state_is_printed(
    s: StateText,
    started_at: Option<Seq<char>>,
    updated_at: Seq<char>,
    folder: Seq<char>,
)
    requires
        s.status == "recording"@ ==> s.folder == Some(folder),
    ensures
        printed_out(
            ipc::success(ipc::state_json(s, started_at, updated_at, true)),
            RequestText::Status,
        ) == (if s.status == "recording"@ {
            "recording  "@ + recordings::elapsed_text(s.elapsed_sec as nat) + "  ("@ + folder
                + ")\n"@
        } else {
            s.status + "\n"@
        }) + "mic:     "@ + s.mic_device + (if s.mic_level_ok {
            "\n"@
        } else {
            "  [SILENT]\n"@
        }) + "system:  "@ + s.system_device + "\n"@,
{
    lemma_state_members(s, started_at, updated_at, true);
}

/// A change of the microphone prints the one in use, and whether it follows the default input.
pub proof fn law_mic_is_printed(mic: Seq<char>, automatic: bool, request: RequestText)
    requires
        request is SetMic,
    ensures
        printed_out(ipc::success(ipc::mic_json(mic, automatic)), request) == "mic → "@ + mic + (
        if automatic {
            "  (automatic)\n"@
        } else {
            "\n"@
        }),
{
    reveal_strlit("mic");
    reveal_strlit("automatic");
    assert("mic"@.len() == 3);
    assert("automatic"@.len() == 9);
    let members = ipc::mic_json(mic, automatic)->Object_0;
    assert(members.drop_first()[0] == ("automatic"@, JsonText::Bool(automatic)));
    assert(json::first_member(members, "automatic"@) == json::first_member(
        members.drop_first(),
        "automatic"@,
    ));
}

/// The line of a device shows its name, whether it is the default input, and whether it is
/// skipped in automatic mode.
pub proof fn law_device_line_shows_the_device(d: InputDevice)
    ensures
        device_line(ipc::device_json(d)) == (if d.is_default {
            "* "@
        } else {
            "  "@
        }) + d.name@ + (if d.is_virtual {
            "   (virtual — skipped in automatic mode)\n"@
        } else {
            "\n"@
        }),
{
    reveal_strlit("name");
    reveal_strlit("is_default");
    reveal_strlit("is_virtual");
    assert("name"@.len() == 4);
    assert("is_default"@.len() == 10);
    assert("is_virtual"@.len() == 10);
    assert("is_default"@[3] != "is_virtual"@[3]);
    let members = ipc::device_json(d)->Object_0;
    let rest = members.drop_first();
    assert(rest[0] == ("is_default"@, JsonText::Bool(d.is_default)));
    assert(rest.drop_first()[0] == ("is_virtual"@, JsonText::Bool(d.is_virtual)));
    assert(json::first_member(members, "is_default"@) == json::first_member(rest, "is_default"@));
    assert(json::first_member(members, "is_virtual"@) == json::first_member(rest, "is_virtual"@));
    assert(json::first_member(rest, "is_virtual"@) == json::first_member(
        rest.drop_first(),
        "is_virtual"@,
    ));
}

/// The line of a recording shows when it started, how long it is, what became of it, and its
/// folder.
pub proof fn law_recording_line_shows_the_recording(
    folder: Seq<char>,
    started_at: Seq<char>,
    duration_sec: u64,
    status: RecordingStatus,
)
    ensures
        recording_line(
            ipc::recording_json(folder, JsonText::Text(started_at), duration_sec, status),
        ) == left_aligned(cut(started_at, 16), 25) + " "@ + right_aligned(
            recordings::minutes_text(duration_sec as nat),
            8,
        ) + "  "@ + left_aligned(ipc::status_name(status), 9) + " "@ + folder + "\n"@,
{
    reveal_strlit("folder");
    reveal_strlit("started_at");
    reveal_strlit("duration_sec");
    reveal_strlit("status");
    assert("folder"@.len() == 6);
    assert("started_at"@.len() == 10);
    assert("duration_sec"@.len() == 12);
    assert("status"@.len() == 6);
    assert("folder"@[0] != "status"@[0]);
    let members = ipc::recording_json(
        folder,
        JsonText::Text(started_at),
        duration_sec,
        status,
    )->Object_0;
    let a = members.drop_first();
    let b = a.drop_first();
    let c = b.drop_first();
    assert(a[0] == ("started_at"@, JsonText::Text(started_at)));
    assert(b[0] == ("duration_sec"@, JsonText::Uint(duration_sec)));
    assert(c[0] == ("status"@, JsonText::Text(ipc::status_name(status))));
    assert(json::first_member(members, "started_at"@) == json::first_member(a, "started_at"@));
    assert(json::first_member(members, "duration_sec"@) == json::first_member(a, "duration_sec"@));
    assert(json::first_member(a, "duration_sec"@) == json::first_member(b, "duration_sec"@));
    assert(json::first_member(members, "status"@) == json::first_member(a, "status"@));
    assert(json::first_member(a, "status"@) == json::first_member(b, "status"@));
    assert(json::first_member(b, "status"@) == json::first_member(c, "status"@));
}

/// The value of a flag is the argument behind its first occurrence, wherever that stands. Without
/// an occurrence, or behind the last argument, there is none.
pub proof fn law_value_follows_its_flag(args: Seq<Seq<char>>, name: Seq<char>, i: int)
    ensures
        0 <= i < args.len() && args[i] == name && (forall|j: int|
            0 <= j < i ==> #[trigger] args[j] != name) ==> flag_text(args, name) == (if i + 1
            < args.len() {
            Some(args[i + 1])
        } else {
            None
        }),
        !args.contains(name) ==> flag_text(args, name) is None,
    decreases args.len(),
{
    if args.len() > 0 && args[0] != name {
        let rest = args.drop_first();
        law_value_follows_its_flag(rest, name, i - 1);
        if 0 < i < args.len() && args[i] == name && (forall|j: int|
            0 <= j < i ==> #[trigger] args[j] != name) {
            assert forall|j: int| 0 <= j < i - 1 implies #[trigger] rest[j] != name by {
                assert(rest[j] == args[j + 1]);
            }
        }
        if !args.contains(name) {
            assert forall|j: int| 0 <= j < rest.len() implies rest[j] != name by {
                assert(rest[j] == args[j + 1]);
            }
        }
    } else if args.len() > 0 {
        assert(args[0] == name);
    }
}

/// A list is limited to the number given, and to five where none is given or what is given is no
/// number.
pub proof fn law_limit_is_the_number_given(n: nat, value: Seq<char>, i: int)
    ensures
        n <= usize::MAX ==> limit_of(Some(text::decimal(n))) == n,
        n > usize::MAX ==> limit_of(Some(text::decimal(n))) == 5,
        limit_of(None) == 5,
        value.len() == 0 ==> limit_of(Some(value)) == 5,
        0 <= i < value.len() && !('0' <= value[i] <= '9') && !(i == 0 && value[0] == '+')
            ==> limit_of(Some(value)) == 5,
{
    text::law_written_number_is_read(n, usize::MAX as int);
    text::law_only_digits_are_read(value, usize::MAX as int, i);
}

/// Each command makes its own request, and nothing else makes one. A start may name a microphone,
/// a list a limit, and a change of the microphone has to name one or say that it is automatic.
pub proof fn law_commands_make_their_requests(args: Seq<Seq<char>>)
    ensures
        args.len() == 0 ==> request_of(args) is None,
        args.len() > 0 && args[0] == "start"@ ==> request_of(args) == Some(
            RequestText::Start { mic: flag_text(args, "--mic"@) },
        ),
        args.len() > 0 && args[0] == "stop"@ ==> request_of(args) == Some(RequestText::Stop),
        args.len() > 0 && args[0] == "status"@ ==> request_of(args) == Some(RequestText::Status),
        args.len() > 0 && args[0] == "list"@ ==> request_of(args) == Some(
            RequestText::List { limit: limit_of(flag_text(args, "--limit"@)) },
        ),
        args.len() > 0 && args[0] == "devices"@ ==> request_of(args) == Some(RequestText::Devices),
        args.len() > 0 && args[0] == "quit"@ ==> request_of(args) == Some(RequestText::Quit),
        args.len() == 1 && args[0] == "set-mic"@ ==> request_of(args) is None,
        args.len() > 1 && args[0] == "set-mic"@ && args[1] == "auto"@ ==> request_of(args) == Some(
            RequestText::SetMic { mic: None },
        ),
        args.len() > 1 && args[0] == "set-mic"@ && args[1] != "auto"@ ==> request_of(args) == Some(
            RequestText::SetMic { mic: Some(args[1]) },
        ),
        args.len() > 0 && args[0] != "start"@ && args[0] != "stop"@ && args[0] != "status"@
            && args[0] != "list"@ && args[0] != "devices"@ && args[0] != "set-mic"@ && args[0]
            != "quit"@ ==> request_of(args) is None,
{
    reveal_strlit("start");
    reveal_strlit("stop");
    reveal_strlit("status");
    reveal_strlit("list");
    reveal_strlit("devices");
    reveal_strlit("set-mic");
    reveal_strlit("quit");
    assert("start"@.len() == 5);
    assert("stop"@.len() == 4);
    assert("status"@.len() == 6);
    assert("list"@.len() == 4);
    assert("devices"@.len() == 7);
    assert("set-mic"@.len() == 7);
    assert("quit"@.len() == 4);
    assert("stop"@[0] != "list"@[0]);
    assert("stop"@[0] != "quit"@[0]);
    assert("list"@[0] != "quit"@[0]);
    assert("devices"@[0] != "set-mic"@[0]);
}

/// The bytes of a text are those of its encoding.
pub proof fn law_bytes_are_those_of_the_encoding(s: Seq<char>)
    ensures
        text_bytes(s) == vstd::utf8::encode_utf8(s).len(),
    decreases s.len(),
{
    if s.len() > 0 {
        lemma_bytes_from_the_front(s);
        law_bytes_are_those_of_the_encoding(s.drop_first());
        lemma_char_bytes(s[0]);
    }
}

proof fn lemma_char_bytes(c: char)
    ensures
        vstd::utf8::encode_scalar(c as u32).len() == char_bytes(c),
{
    vstd::utf8::char_is_scalar(c);
}

proof fn lemma_bytes_from_the_front(s: Seq<char>)
    requires
        s.len() > 0,
    ensures
        text_bytes(s) == char_bytes(s[0]) + text_bytes(s.drop_first()),
    decreases s.len(),
{
    if s.len() == 1 {
        assert(s.drop_last() =~= Seq::empty());
        assert(s.drop_first() =~= Seq::empty());
    } else {
        lemma_bytes_from_the_front(s.drop_last());
        assert(s.drop_last().drop_first() =~= s.drop_first().drop_last());
    }
}

/// A text that is cut off keeps its beginning, as much of it as begins within the bytes: a
/// character more would begin behind them, and the last one kept begins within them.
pub proof fn law_cut_keeps_what_begins_within(s: Seq<char>, n: int)
    requires
        n >= 0,
    ensures
        cut(s, n).is_prefix_of(s),
        cut(s, n).len() < s.len() ==> text_bytes(cut(s, n)) >= n,
        cut(s, n).len() > 0 ==> text_bytes(cut(s, n).drop_last()) < n,
{
    assert(s.take(0) =~= Seq::empty());
    lemma_chars_within(s, n, 0);
    let k = chars_within(s, n, 0);
    assert(cut(s, n) =~= s.subrange(0, k));
    if k > 0 {
        assert(cut(s, n).drop_last() =~= s.take(k - 1));
    }
}

proof fn lemma_chars_within(s: Seq<char>, n: int, from: int)
    requires
        0 <= from <= s.len(),
    ensures
        from <= chars_within(s, n, from) <= s.len(),
        chars_within(s, n, from) < s.len() ==> text_bytes(s.take(chars_within(s, n, from))) >= n,
        chars_within(s, n, from) > from ==> text_bytes(s.take(chars_within(s, n, from) - 1)) < n,
    decreases s.len() - from,
{
    if from < s.len() && text_bytes(s.take(from)) < n {
        lemma_chars_within(s, n, from + 1);
    }
}

/// A text of ASCII characters is cut off after as many characters as bytes.
pub proof fn law_ascii_text_is_cut_by_characters(s: Seq<char>, n: int)
    requires
        n >= 0,
        forall|i: int| 0 <= i < s.len() ==> #[trigger] s[i] as int <= 0x7f,
    ensures
        cut(s, n) == s.take(timeline::smaller(s.len() as int, n)),
        cuts_cleanly(s, n),
{
    law_cut_keeps_what_begins_within(s, n);
    let c = cut(s, n);
    let k = c.len() as int;
    assert forall|i: int| 0 <= i < c.len() implies #[trigger] c[i] as int <= 0x7f by {
        assert(c[i] == s[i]);
    }
    lemma_ascii_bytes(c);
    if k > 0 {
        lemma_ascii_bytes(c.drop_last());
    }
}

proof fn lemma_ascii_bytes(s: Seq<char>)
    requires
        forall|i: int| 0 <= i < s.len() ==> #[trigger] s[i] as int <= 0x7f,
    ensures
        text_bytes(s) == s.len(),
    decreases s.len(),
{
    if s.len() > 0 {
        lemma_ascii_bytes(s.drop_last());
        assert(s.last() as int <= 0x7f);
    }
}

/// A text in a column is kept as it is. It is filled up with spaces to the width of the column, on
/// the right or on the left, and not cut where it is longer.
pub proof fn law_columns_are_filled_with_spaces(s: Seq<char>, width: int)
    ensures
        ({
            let left = left_aligned(s, width);
            let right = right_aligned(s, width);
            &&& left.len() == timeline::larger(s.len() as int, width)
            &&& right.len() == left.len()
            &&& s.is_prefix_of(left)
            &&& s.is_suffix_of(right)
            &&& forall|i: int| s.len() <= i < left.len() ==> #[trigger] left[i] == ' '
            &&& forall|i: int| 0 <= i < right.len() - s.len() ==> #[trigger] right[i] == ' '
        }),
{
    let right = right_aligned(s, width);
    assert(s =~= right.subrange(right.len() - s.len(), right.len() as int));
    assert(s =~= left_aligned(s, width).subrange(0, s.len() as int));
}

/// Lists are printed line by line: the lines of two lists one after the other are those of both,
/// and a list of one item is its line.
pub proof fn law_lists_are_printed_line_by_line(a: Seq<JsonText>, b: Seq<JsonText>, item: JsonText)
    ensures
        recording_lines(a + b) == recording_lines(a) + recording_lines(b),
        device_lines(a + b) == device_lines(a) + device_lines(b),
        recording_lines(seq![item]) == recording_line(item),
        device_lines(seq![item]) == device_line(item),
    decreases b.len(),
{
    assert(seq![item].drop_last() =~= Seq::empty());
    assert(recording_lines(seq![item].drop_last()) =~= Seq::empty());
    assert(device_lines(seq![item].drop_last()) =~= Seq::empty());
    assert(Seq::<char>::empty() + recording_line(item) =~= recording_line(item));
    assert(Seq::<char>::empty() + device_line(item) =~= device_line(item));
    if b.len() == 0 {
        assert(a + b =~= a);
        assert(recording_lines(a) + recording_lines(b) =~= recording_lines(a));
        assert(device_lines(a) + device_lines(b) =~= device_lines(a));
    } else {
        law_lists_are_printed_line_by_line(a, b.drop_last(), item);
        assert((a + b).drop_last() =~= a + b.drop_last());
        assert((a + b).last() == b.last());
        assert(recording_lines(a) + recording_lines(b) =~= recording_lines(a) + recording_lines(
            b.drop_last(),
        ) + recording_line(b.last()));
        assert(device_lines(a) + device_lines(b) =~= device_lines(a) + device_lines(b.drop_last())
            + device_line(b.last()));
    }
}

/// A list of recordings prints their lines, or says that there are none. A list of devices prints
/// theirs.
pub proof fn law_lists_are_printed(items: Seq<JsonText>, limit: usize)
    ensures
        printed_out(ipc::success(JsonText::List(items)), RequestText::List { limit }) == (
        if items.len() == 0 {
            "no recordings yet\n"@
        } else {
            recording_lines(items)
        }),
        printed_out(ipc::success(JsonText::List(items)), RequestText::Devices) == device_lines(
            items,
        ),
        printed_out(ipc::success(ipc::quitting_json()), RequestText::Quit) == "quitting\n"@,
{
}

/// A command exits with zero exactly if it was answered and succeeded, and with two exactly if
/// nobody answered.
pub proof fn law_exit_code_tells_success(answered: bool, ok: bool, code: i32)
    requires
        call_ensures(exit_code, (answered, ok), code),
    ensures
        code == 0 <==> answered && ok,
        code == 1 <==> answered && !ok,
        code == 2 <==> !answered,
{
}

/// An answer that takes the recorder is waited for longer than a start may take; any other is
/// waited for only briefly.
pub proof fn law_slow_answers_are_waited_for(request: &Request, seconds: u64)
    requires
        call_ensures(read_timeout, (request,), seconds),
    ensures
        request is Start || request is Stop || request is Quit ==> seconds == 40 && seconds
            * 1_000_000_000 > crate::control::START_TIMEOUT,
        !(request is Start || request is Stop || request is Quit) ==> seconds == 3,
{
}

/// Without the app, what only reads works, and everything else says that the app is not running.
pub proof fn law_reading_works_without_the_app(request: &Request, step: OfflineStep)
    requires
        call_ensures(offline, (request,), step),
    ensures
        request is Status <==> step is TellState,
        request is Devices <==> step is ListDevices,
        request matches Request::List { limit } ==> step == OfflineStep::ListRecordings(*limit),
        request is List <==> step is ListRecordings,
        step matches OfflineStep::NotRunning(answer) ==> !answer.ok && text::opt_text(answer.error)
            == Some("Sori app is not running"@) && answer.data is None,
{
}

/// The answer is printed as JSON exactly if any of the arguments asks for it.
pub proof fn law_json_is_asked_for_anywhere(
    args: &Vec<String>,
    invocation: Option<Invocation>,
    i: int,
)
    requires
        call_ensures(parse, (args,), invocation),
        invocation is Some,
    ensures
        0 <= i < args@.len() && args@[i]@ == "--json"@ ==> invocation->0.json,
        (forall|k: int| 0 <= k < args@.len() ==> (#[trigger] args@[k])@ != "--json"@)
            ==> !invocation->0.json,
        args@.len() > 0,
{
    let all = text::texts(args@);
    if 0 <= i < args@.len() {
        assert(all[i] == args@[i]@);
    }
    if all.contains("--json"@) {
        let k = choose|k: int| 0 <= k < all.len() && all[k] == "--json"@;
        assert(args@[k]@ == "--json"@);
    }
}

} // verus!
