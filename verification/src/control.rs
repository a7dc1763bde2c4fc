//! The core: the life of recordings, and the requests about them.
//!
//! A request that has to wait is answered later. It is known by a number; its sender is kept by
//! the caller.

use vstd::prelude::*;
use vstd::string::*;
use std::collections::VecDeque;
use crate::devices::InputDevice;
use crate::devices;
use crate::events::{
    Command,
    CommandText,
    EventText,
    HandleText,
    RecorderEvent,
    RecorderHandle,
    StartConfig,
};
use crate::events;
use crate::ipc::{Request, Response, ResponseText};
use crate::ipc;
use crate::levels;
use crate::mic;
use crate::recorder;
use crate::stamp::Stamp;
use crate::stamp;
use crate::state::{AppState, Settings, StateText};
use crate::state;
use crate::text;

verus! {

/// How long a start may take, in nanoseconds.
pub const START_TIMEOUT: u64 = 25_000_000_000;

/// A start that has not been answered yet.
pub struct PendingStart {
    pub reply: Option<u64>,
    pub folder: String,
    /// When the start is given up, in nanoseconds of a clock that never goes back.
    pub deadline: u64,
}

/// A stop that has not been answered yet.
pub struct PendingStop {
    pub reply: Option<u64>,
    pub folder: String,
}

pub struct Core {
    settings: Settings,
    recorder: Option<RecorderHandle>,
    capture_ready: bool,
    capture_started_at: Option<Stamp>,
    pending_start: Option<PendingStart>,
    pending_stop: Option<PendingStop>,
    current_mic: String,
    current_system: String,
    mic_levels: VecDeque<u32>,
    system_levels: VecDeque<u32>,
    last_error: Option<String>,
}

#[verifier::ext_equal]
pub struct StartWait {
    pub reply: Option<u64>,
    pub folder: Seq<char>,
    pub deadline: u64,
}

#[verifier::ext_equal]
pub struct StopWait {
    pub reply: Option<u64>,
    pub folder: Seq<char>,
}

/// What the core knows.
#[verifier::ext_equal]
pub struct CoreText {
    pub mic_override: Option<Seq<char>>,
    /// The running recorder, if there is one.
    pub recorder: Option<HandleText>,
    /// Whether the recorder has reported that it started.
    pub ready: bool,
    pub started_at: Option<Stamp>,
    pub pending_start: Option<StartWait>,
    pub pending_stop: Option<StopWait>,
    pub mic: Seq<char>,
    pub system: Seq<char>,
    pub mic_levels: Seq<u32>,
    pub system_levels: Seq<u32>,
    pub last_error: Option<Seq<char>>,
}

impl CoreText {
    /// What always holds: who waits, waits for the running recorder, and nobody waits for the
    /// start of a recorder that has started.
    pub open spec fn consistent(self) -> bool {
        &&& self.pending_start matches Some(p) ==> !self.ready && self.records_in(p.folder)
        &&& self.pending_stop matches Some(p) ==> self.records_in(p.folder)
        &&& self.can_be_told()
    }

    /// Whether the calendar covers the start of the recording, if there is one.
    pub open spec fn can_be_told(self) -> bool {
        self.started_at matches Some(at) ==> at.valid()
    }

    /// Whether the running recorder writes to a folder.
    pub open spec fn records_in(self, folder: Seq<char>) -> bool {
        self.recorder matches Some(h) && h.folder == folder
    }

    /// Whether a recording is in progress or about to be.
    pub open spec fn active(self) -> bool {
        self.recorder is Some
    }

    /// After the devices were looked at. A recording keeps its devices.
    pub open spec fn refreshed(self, inputs: Seq<InputDevice>, output: Option<Seq<char>>) -> CoreText {
        if self.active() {
            self
        } else {
            CoreText {
                mic: match devices::effective_choice(inputs, self.mic_override) {
                    Some(device) => device.name@,
                    None => "No microphone"@,
                },
                system: devices::output_text(output),
                ..self
            }
        }
    }

    /// The state as others see it: a recording is one whose capture has started. Until then only
    /// the folder tells that one is about to be.
    pub open spec fn state(self, now: Stamp) -> StateText {
        let idle = StateText {
            last_error: self.last_error,
            ..state::idle_state(self.mic, self.system, now)
        };
        match self.recorder {
            None => idle,
            Some(h) => if self.ready {
                StateText {
                    status: "recording"@,
                    folder: Some(h.folder),
                    started_at: self.started_at,
                    elapsed_sec: match self.started_at {
                        Some(at) => stamp::elapsed(at, now) as u64,
                        None => 0,
                    },
                    mic_level_ok: levels::is_level_ok(self.mic_levels),
                    mic_level: levels::last_level(self.mic_levels),
                    system_level: levels::last_level(self.system_levels),
                    ..idle
                }
            } else {
                StateText { folder: Some(h.folder), ..idle }
            },
        }
    }

    /// Why a start is refused, if it is.
    pub open spec fn start_refusal(
        self,
        mic: Option<Seq<char>>,
        inputs: Seq<InputDevice>,
    ) -> Option<Seq<char>> {
        if self.active() {
            Some("already recording or starting"@)
        } else {
            match mic {
                Some(_) => mic_refusal(mic, inputs),
                None => if devices::effective_choice(inputs, self.mic_override) is None {
                    Some("selected microphone is not available"@)
                } else {
                    None
                },
            }
        }
    }

    /// After a recorder was started.
    pub open spec fn with_recorder(self, folder: Seq<char>, reply: Option<u64>, now: u64) -> CoreText {
        CoreText {
            recorder: Some(HandleText { folder, cancelled: false, outbox: Seq::empty() }),
            ready: false,
            started_at: None,
            pending_start: Some(
                StartWait { reply, folder, deadline: (now + START_TIMEOUT) as u64 },
            ),
            mic_levels: Seq::empty(),
            system_levels: Seq::empty(),
            last_error: None,
            ..self
        }
    }

    /// Why a stop is refused, if it is.
    pub open spec fn stop_refusal(self) -> Option<Seq<char>> {
        if self.pending_stop is Some {
            Some("stop already in progress"@)
        } else if !self.active() {
            Some("not recording"@)
        } else {
            None
        }
    }

    /// The recorder after it was told to end: a recording that has not started is cancelled.
    pub open spec fn ended(self) -> Option<HandleText> {
        match self.recorder {
            Some(h) => Some(
                if self.ready {
                    h.after_stop()
                } else {
                    h.after_cancel()
                },
            ),
            None => None,
        }
    }

    /// After a stop was requested.
    pub open spec fn with_stop(self, reply: Option<u64>) -> CoreText {
        CoreText {
            recorder: self.ended(),
            pending_stop: Some(StopWait { reply, folder: self.recorder->Some_0.folder }),
            ..self
        }
    }

    /// After the choice of a microphone was saved.
    pub open spec fn with_saved_mic(
        self,
        inputs: Seq<InputDevice>,
        output: Option<Seq<char>>,
    ) -> CoreText {
        match self.recorder {
            Some(h) => CoreText { recorder: Some(h.after_switch(self.mic_override)), ..self },
            None => self.refreshed(inputs, output),
        }
    }

    /// Without a recorder.
    pub open spec fn without_recorder(self) -> CoreText {
        CoreText {
            recorder: None,
            ready: false,
            started_at: None,
            pending_start: None,
            pending_stop: None,
            ..self
        }
    }

    /// After the end of everything: the recorder is gone. Who still waits is not answered.
    pub open spec fn after_shutdown(self) -> CoreText {
        CoreText { recorder: None, ready: false, started_at: None, ..self }
    }

    /// After the recorder reported something.
    pub open spec fn after_event(
        self,
        event: EventText,
        inputs: Seq<InputDevice>,
        output: Option<Seq<char>>,
    ) -> CoreText {
        match event {
            EventText::Started { mic_device, system_device, started_at, .. } => CoreText {
                ready: true,
                started_at: Some(started_at),
                mic: mic_device,
                system: system_device,
                last_error: None,
                pending_start: None,
                ..self
            },
            EventText::Levels { mic, system } => CoreText {
                mic_levels: levels::newest(self.mic_levels, mic),
                system_levels: levels::newest(self.system_levels, system),
                ..self
            },
            EventText::MicSwitched { device, .. } => CoreText { mic: device, ..self },
            EventText::Warning(_) => self,
            EventText::Stopped { .. } => self.without_recorder().refreshed(inputs, output),
            EventText::Cancelled { .. } => self.without_recorder().refreshed(inputs, output),
            EventText::Failed { error, .. } => CoreText {
                last_error: Some(error),
                ..self.without_recorder()
            }.refreshed(inputs, output),
        }
    }

    /// The answer to whoever waits for a start.
    pub open spec fn to_starter(self, answer: ResponseText) -> Seq<(u64, ResponseText)> {
        match self.pending_start {
            Some(p) => match p.reply {
                Some(id) => seq![(id, answer)],
                None => Seq::empty(),
            },
            None => Seq::empty(),
        }
    }

    /// The answer to whoever waits for a stop.
    pub open spec fn to_stopper(self, answer: ResponseText) -> Seq<(u64, ResponseText)> {
        match self.pending_stop {
            Some(p) => match p.reply {
                Some(id) => seq![(id, answer)],
                None => Seq::empty(),
            },
            None => Seq::empty(),
        }
    }

    /// Who is answered what when the recorder reports something.
    pub open spec fn replies_to(self, event: EventText) -> Seq<(u64, ResponseText)> {
        match event {
            EventText::Started { .. } => self.to_starter(
                ipc::success(ipc::folder_json(self.pending_start->Some_0.folder)),
            ),
            EventText::Stopped { .. } => self.to_stopper(
                ipc::success(ipc::folder_json(self.pending_stop->Some_0.folder)),
            ),
            EventText::Cancelled { .. } => self.to_starter(
                ipc::failure("recording start cancelled"@),
            ) + self.to_stopper(ipc::failure("recording start cancelled"@)),
            EventText::Failed { error, .. } => self.to_starter(ipc::failure(error))
                + self.to_stopper(ipc::failure(error)),
            _ => Seq::empty(),
        }
    }

    /// Whether a start has taken too long.
    pub open spec fn start_timed_out(self, now: u64) -> bool {
        self.pending_start matches Some(p) && now >= p.deadline
    }

    /// After a start was given up.
    pub open spec fn after_timeout(self) -> CoreText {
        CoreText {
            recorder: match self.recorder {
                Some(h) => Some(h.after_cancel()),
                None => None,
            },
            pending_stop: match (self.recorder, self.pending_stop) {
                (Some(h), None) => Some(StopWait { reply: None, folder: h.folder }),
                _ => self.pending_stop,
            },
            pending_start: None,
            last_error: Some("Recording start timed out and was cancelled"@),
            ..self
        }
    }
}

/// What follows on a request to start.
pub enum StartStep {
    Refused(String),
    /// Save the settings, then go on.
    SaveSettings,
    /// Create a folder, then go on.
    CreateFolder,
}

/// What follows on a request.
pub enum IpcStep {
    /// Answer.
    Reply(Response),
    /// Answer, and exit.
    Quit(Response),
    /// The answer comes later.
    Wait,
    /// Save the settings, then go on with the start.
    SaveAndStart,
    /// Create a folder, then go on with the start.
    CreateFolder,
    /// Save the settings, then go on with the change of the microphone.
    SaveAndSetMic,
    /// Write the state, and answer with it.
    TellState,
    /// Answer with a list of at most so many recordings.
    ListRecordings(usize),
}

impl StartStep {
    pub open spec fn refuses(self, error: Seq<char>) -> bool {
        self matches StartStep::Refused(e) && e@ == error
    }
}

impl IpcStep {
    pub open spec fn replies(self, answer: ResponseText) -> bool {
        self matches IpcStep::Reply(a) && a@ == answer
    }

    pub open spec fn quits(self, answer: ResponseText) -> bool {
        self matches IpcStep::Quit(a) && a@ == answer
    }
}

/// Why a microphone cannot be chosen, if it cannot: a name must be that of a device.
pub open spec fn mic_refusal(name: Option<Seq<char>>, inputs: Seq<InputDevice>) -> Option<
    Seq<char>,
> {
    match name {
        Some(n) => if devices::is_present(inputs, n) {
            None
        } else {
            Some(mic::not_found_text(n))
        },
        None => None,
    }
}

/// What follows on a report of the recorder: the state is written, then these are answered. If a
/// folder is given, its recording has finished.
pub struct RecorderStep {
    pub replies: Vec<(u64, Response)>,
    pub finished: Option<String>,
}

/// Answers as pairs.
pub open spec fn reply_texts(list: Seq<(u64, Response)>) -> Seq<(u64, ResponseText)> {
    Seq::new(list.len(), |i: int| (list[i].0, list[i].1@))
}

fn add_reply(list: &mut Vec<(u64, Response)>, id: u64, response: Response)
    ensures
        reply_texts(final(list)@) == reply_texts(old(list)@).push((id, response@)),
{
    let ghost before = list@;
    list.push((id, response));
    assert(reply_texts(list@) =~= reply_texts(before).push((id, response@)));
}

/// What follows on saving the settings for a start.
pub fn on_settings_saved(saved: Result<(), String>) -> (r: StartStep)
    ensures
        match saved {
            Ok(_) => r is CreateFolder,
            Err(e) => r == StartStep::Refused(e),
        },
{
    match saved {
        Ok(_) => StartStep::CreateFolder,
        Err(e) => StartStep::Refused(e),
    }
}

/// What is to be done between two events.
#[derive(Clone, Copy, Debug, PartialEq, Eq, Structural)]
pub enum Upkeep {
    Nothing,
    WriteState,
    /// Look at the devices, then write the state.
    RefreshAndWrite,
}

impl Core {
    pub closed spec fn view(&self) -> CoreText {
        CoreText {
            mic_override: text::opt_text(self.settings.mic_override),
            recorder: match self.recorder {
                Some(h) => Some(h@),
                None => None,
            },
            ready: self.capture_ready,
            started_at: self.capture_started_at,
            pending_start: match self.pending_start {
                Some(p) => Some(
                    StartWait { reply: p.reply, folder: p.folder@, deadline: p.deadline },
                ),
                None => None,
            },
            pending_stop: match self.pending_stop {
                Some(p) => Some(StopWait { reply: p.reply, folder: p.folder@ }),
                None => None,
            },
            mic: self.current_mic@,
            system: self.current_system@,
            mic_levels: self.mic_levels@,
            system_levels: self.system_levels@,
            last_error: text::opt_text(self.last_error),
        }
    }

    /// A core that does nothing yet.
    pub fn new(settings: Settings, inputs: &[InputDevice], output: Option<String>) -> (r: Core)
        ensures
            r@.consistent(),
            r@ == (CoreText {
                mic_override: text::opt_text(settings.mic_override),
                recorder: None,
                ready: false,
                started_at: None,
                pending_start: None,
                pending_stop: None,
                mic: Seq::empty(),
                system: Seq::empty(),
                mic_levels: Seq::empty(),
                system_levels: Seq::empty(),
                last_error: None,
            }).refreshed(inputs@, text::opt_text(output)),
    {
        let mut core = Core {
            settings,
            recorder: None,
            capture_ready: false,
            capture_started_at: None,
            pending_start: None,
            pending_stop: None,
            current_mic: "".to_owned(),
            current_system: "".to_owned(),
            mic_levels: VecDeque::new(),
            system_levels: VecDeque::new(),
            last_error: None,
        };
        proof {
            reveal_strlit("");
        }
        core.refresh_devices(inputs, output);
        core
    }

    pub fn active(&self) -> (r: bool)
        ensures
            r == self@.active(),
    {
        self.recorder.is_some()
    }

    /// Whether the microphone is not silent.
    pub fn mic_level_ok(&self) -> (r: bool)
        ensures
            r == levels::is_level_ok(self@.mic_levels),
            r <==> self@.mic_levels.len() == 0 || exists|i: int|
                0 <= i < self@.mic_levels.len() && levels::LEVEL_OK_THRESHOLD
                    <= #[trigger] self@.mic_levels[i] <= levels::INFINITE,
    {
        levels::level_ok(&self.mic_levels)
    }

    /// The settings, to be saved.
    pub fn settings(&self) -> (r: &Settings)
        ensures
            text::opt_text(r.mic_override) == self@.mic_override,
    {
        &self.settings
    }

    /// Looks at the devices. A recording keeps its devices.
    pub fn refresh_devices(&mut self, inputs: &[InputDevice], output: Option<String>)
        ensures
            final(self)@ == old(self)@.refreshed(inputs@, text::opt_text(output)),
            old(self)@.consistent() ==> final(self)@.consistent(),
    {
        if self.active() {
            return;
        }
        self.current_mic = match devices::resolve_setting(inputs, &self.settings.mic_override) {
            Some(device) => device.name,
            None => "No microphone".to_owned(),
        };
        self.current_system = devices::default_output_name(output);
    }

    /// The state as others see it, to be written.
    pub fn write_state(&self, now: Stamp) -> (r: AppState)
        requires
            self@.can_be_told(),
            now.valid(),
        ensures
            r@ == self@.state(now),
            r.valid(),
            self@.recorder is Some && self@.ready ==> (r.mic.level_ok <==> self@.mic_levels.len()
                == 0 || exists|i: int|
                0 <= i < self@.mic_levels.len() && levels::LEVEL_OK_THRESHOLD
                    <= #[trigger] self@.mic_levels[i] <= levels::INFINITE),
            self@.recorder is Some && self@.ready && self@.mic_levels.len() > 0 ==> r.mic.level
                == self@.mic_levels[self@.mic_levels.len() - 1],
            self@.recorder is Some && self@.ready && self@.system_levels.len() > 0
                ==> r.system.level == self@.system_levels[self@.system_levels.len() - 1],
    {
        let mut s = AppState::idle(self.current_mic.as_str(), self.current_system.as_str(), now);
        s.last_error = text::copy_opt(&self.last_error);
        match &self.recorder {
            None => {},
            Some(recorder) => {
                s.folder = Some(recorder.folder().to_owned());
                if self.capture_ready {
                    match &self.capture_started_at {
                        Some(started_at) => {
                            s.started_at = Some(*started_at);
                            s.elapsed_sec = stamp::elapsed_seconds(started_at, &now);
                        },
                        None => {},
                    }
                    s.status = "recording".to_owned();
                    s.mic.level_ok = self.mic_level_ok();
                    s.mic.level = levels::newest_level(&self.mic_levels);
                    s.system.level = levels::newest_level(&self.system_levels);
                }
            },
        }
        s
    }

    /// A request to start, perhaps with a microphone to be used from now on.
    pub fn start(&mut self, mic_override: Option<String>, inputs: &[InputDevice]) -> (r: StartStep)
        requires
            old(self)@.consistent(),
        ensures
            final(self)@.consistent(),
            ({
                let wanted = text::opt_text(mic_override);
                match old(self)@.start_refusal(wanted, inputs@) {
                    Some(error) => final(self)@ == old(self)@ && r.refuses(error),
                    None => match wanted {
                        Some(name) => r is SaveSettings && final(self)@ == (CoreText {
                            mic_override: wanted,
                            ..old(self)@
                        }),
                        None => r is CreateFolder && final(self)@ == old(self)@,
                    },
                }
            }),
    {
        if self.active() {
            return StartStep::Refused("already recording or starting".to_owned());
        }
        match mic_override {
            Some(name) => {
                if !devices::has_device(inputs, name.as_str()) {
                    return StartStep::Refused(mic::not_found(name.as_str()));
                }
                self.settings.mic_override = Some(name);
                StartStep::SaveSettings
            },
            None => {
                if devices::resolve_setting(inputs, &self.settings.mic_override).is_none() {
                    return StartStep::Refused("selected microphone is not available".to_owned());
                }
                StartStep::CreateFolder
            },
        }
    }

    /// The folder of a recording was created, or not: the recorder is started with what is
    /// returned. `reply` waits for it.
    pub fn on_folder_created(
        &mut self,
        created: Result<String, String>,
        reply: Option<u64>,
        now: u64,
    ) -> (r: Result<StartConfig, String>)
        requires
            old(self)@.consistent(),
            !old(self)@.active(),
            now + START_TIMEOUT <= u64::MAX,
        ensures
            final(self)@.consistent(),
            match (created, r) {
                (Ok(folder), Ok(config)) => {
                    &&& config.folder@ == folder@
                    &&& text::opt_text(config.mic_override) == old(self)@.mic_override
                    &&& final(self)@ == old(self)@.with_recorder(folder@, reply, now)
                },
                (Err(error), Err(e)) => e == error && final(self)@ == old(self)@,
                _ => false,
            },
    {
        match created {
            Err(error) => Err(error),
            Ok(folder) => {
                let config = StartConfig {
                    folder: folder.clone(),
                    mic_override: text::copy_opt(&self.settings.mic_override),
                };
                self.recorder = Some(RecorderHandle::new(folder.clone()));
                self.capture_ready = false;
                self.capture_started_at = None;
                self.pending_start = Some(
                    PendingStart { reply, folder, deadline: now + START_TIMEOUT },
                );
                self.mic_levels = VecDeque::new();
                self.system_levels = VecDeque::new();
                self.last_error = None;
                Ok(config)
            },
        }
    }

    /// A request to stop. `reply` waits until the recording is finished.
    pub fn stop(&mut self, reply: Option<u64>) -> (r: Result<(), String>)
        requires
            old(self)@.consistent(),
        ensures
            final(self)@.consistent(),
            match old(self)@.stop_refusal() {
                Some(error) => final(self)@ == old(self)@ && recorder::error_of(r) == Some(error),
                None => r is Ok && final(self)@ == old(self)@.with_stop(reply),
            },
    {
        if self.pending_stop.is_some() {
            return Err("stop already in progress".to_owned());
        }
        match &mut self.recorder {
            None => Err("not recording".to_owned()),
            Some(recorder) => {
                let folder = recorder.folder().to_owned();
                if self.capture_ready {
                    recorder.stop();
                } else {
                    recorder.cancel_start();
                }
                self.pending_stop = Some(PendingStop { reply, folder });
                Ok(())
            },
        }
    }

    /// A request to use another microphone. If it is there, the settings are to be saved.
    pub fn set_mic(&mut self, name: Option<String>, inputs: &[InputDevice]) -> (r: Result<
        (),
        String,
    >)
        requires
            old(self)@.consistent(),
        ensures
            final(self)@.consistent(),
            recorder::error_of(r) == mic_refusal(text::opt_text(name), inputs@),
            final(self)@ == (if r is Ok {
                CoreText { mic_override: text::opt_text(name), ..old(self)@ }
            } else {
                old(self)@
            }),
    {
        match &name {
            Some(n) => {
                if !devices::has_device(inputs, n.as_str()) {
                    return Err(mic::not_found(n.as_str()));
                }
            },
            None => {},
        }
        self.settings.mic_override = name;
        Ok(())
    }

    /// The settings were saved for another microphone, or not. A recording is told about it.
    pub fn on_mic_saved(
        &mut self,
        saved: Result<(), String>,
        inputs: &[InputDevice],
        output: Option<String>,
    ) -> (r: Response)
        requires
            old(self)@.consistent(),
        ensures
            final(self)@.consistent(),
            match saved {
                Err(error) => final(self)@ == old(self)@ && r@ == ipc::failure(error@),
                Ok(_) => {
                    &&& final(self)@ == old(self)@.with_saved_mic(inputs@, text::opt_text(output))
                    &&& r@ == ipc::success(
                        ipc::mic_json(final(self)@.mic, final(self)@.mic_override is None),
                    )
                },
            },
    {
        match saved {
            Err(error) => Response::err(error),
            Ok(_) => {
                match &mut self.recorder {
                    Some(recorder) => {
                        recorder.switch_mic(text::copy_opt(&self.settings.mic_override));
                    },
                    None => {
                        self.refresh_devices(inputs, output);
                    },
                }
                ipc::mic_response(
                    self.current_mic.as_str(),
                    self.settings.mic_override.is_none(),
                )
            },
        }
    }

    /// A request. `reply` is the number under which it waits if it cannot be answered at once.
    pub fn on_ipc(&mut self, request: Request, reply: u64, inputs: &[InputDevice]) -> (r: IpcStep)
        requires
            old(self)@.consistent(),
        ensures
            final(self)@.consistent(),
            match request {
                Request::Start { mic } => {
                    let wanted = text::opt_text(mic);
                    match old(self)@.start_refusal(wanted, inputs@) {
                        Some(error) => final(self)@ == old(self)@ && r.replies(
                            ipc::failure(error),
                        ),
                        None => match wanted {
                            Some(name) => r is SaveAndStart && final(self)@ == (CoreText {
                                mic_override: wanted,
                                ..old(self)@
                            }),
                            None => r is CreateFolder && final(self)@ == old(self)@,
                        },
                    }
                },
                Request::Stop => match old(self)@.stop_refusal() {
                    Some(error) => final(self)@ == old(self)@ && r.replies(ipc::failure(error)),
                    None => r is Wait && final(self)@ == old(self)@.with_stop(Some(reply)),
                },
                Request::Status => r is TellState && final(self)@ == old(self)@,
                Request::List { limit } => r == IpcStep::ListRecordings(limit) && final(self)@
                    == old(self)@,
                Request::Devices => final(self)@ == old(self)@ && r.replies(
                    ipc::success(ipc::devices_json(inputs@)),
                ),
                Request::SetMic { mic } => match mic_refusal(text::opt_text(mic), inputs@) {
                    Some(error) => final(self)@ == old(self)@ && r.replies(ipc::failure(error)),
                    None => r is SaveAndSetMic && final(self)@ == (CoreText {
                        mic_override: text::opt_text(mic),
                        ..old(self)@
                    }),
                },
                Request::Quit => final(self)@ == old(self)@ && r.quits(
                    ipc::success(ipc::quitting_json()),
                ),
            },
    {
        match request {
            Request::Start { mic } => match self.start(mic, inputs) {
                StartStep::Refused(error) => IpcStep::Reply(Response::err(error)),
                StartStep::SaveSettings => IpcStep::SaveAndStart,
                StartStep::CreateFolder => IpcStep::CreateFolder,
            },
            Request::Stop => match self.stop(Some(reply)) {
                Ok(_) => IpcStep::Wait,
                Err(error) => IpcStep::Reply(Response::err(error)),
            },
            Request::Status => IpcStep::TellState,
            Request::List { limit } => IpcStep::ListRecordings(limit),
            Request::Devices => IpcStep::Reply(ipc::devices_response(inputs)),
            Request::SetMic { mic } => match self.set_mic(mic, inputs) {
                Ok(_) => IpcStep::SaveAndSetMic,
                Err(error) => IpcStep::Reply(Response::err(error)),
            },
            Request::Quit => IpcStep::Quit(ipc::quitting_response()),
        }
    }

    /// The recorder reported something.
    pub fn on_recorder(
        &mut self,
        event: RecorderEvent,
        inputs: &[InputDevice],
        output: Option<String>,
    ) -> (r: RecorderStep)
        requires
            old(self)@.consistent(),
            event@ matches EventText::Started { started_at, .. } ==> started_at.valid(),
        ensures
            final(self)@.consistent(),
            final(self)@ == old(self)@.after_event(event@, inputs@, text::opt_text(output)),
            reply_texts(r.replies@) == old(self)@.replies_to(event@),
            match event@ {
                EventText::Stopped { folder, .. } => r.finished matches Some(f) && f@ == folder,
                _ => r.finished is None,
            },
    {
        let mut replies: Vec<(u64, Response)> = Vec::new();
        let mut finished: Option<String> = None;
        assert(reply_texts(replies@) =~= Seq::empty());
        match event {
            RecorderEvent::Started { mic_device, system_device, started_at, .. } => {
                self.capture_ready = true;
                self.capture_started_at = Some(started_at);
                self.current_mic = mic_device;
                self.current_system = system_device;
                self.last_error = None;
                match self.pending_start.take() {
                    Some(PendingStart { reply: Some(id), folder, .. }) => add_reply(
                        &mut replies,
                        id,
                        ipc::folder_response(folder.as_str()),
                    ),
                    _ => {},
                }
            },
            RecorderEvent::Levels { mic, system } => {
                levels::push_level(&mut self.mic_levels, mic);
                levels::push_level(&mut self.system_levels, system);
            },
            RecorderEvent::MicSwitched { device, .. } => {
                self.current_mic = device;
            },
            RecorderEvent::Warning(_) => {},
            RecorderEvent::Stopped { folder, .. } => {
                self.recorder = None;
                self.capture_ready = false;
                self.capture_started_at = None;
                self.pending_start = None;
                match self.pending_stop.take() {
                    Some(PendingStop { reply: Some(id), folder }) => add_reply(
                        &mut replies,
                        id,
                        ipc::folder_response(folder.as_str()),
                    ),
                    _ => {},
                }
                self.refresh_devices(inputs, output);
                finished = Some(folder);
            },
            RecorderEvent::Cancelled { .. } => {
                self.recorder = None;
                self.capture_ready = false;
                self.capture_started_at = None;
                match self.pending_start.take() {
                    Some(PendingStart { reply: Some(id), .. }) => add_reply(
                        &mut replies,
                        id,
                        Response::err("recording start cancelled".to_owned()),
                    ),
                    _ => {},
                }
                match self.pending_stop.take() {
                    Some(PendingStop { reply: Some(id), .. }) => add_reply(
                        &mut replies,
                        id,
                        Response::err("recording start cancelled".to_owned()),
                    ),
                    _ => {},
                }
                self.refresh_devices(inputs, output);
            },
            RecorderEvent::Failed { error, .. } => {
                self.recorder = None;
                self.capture_ready = false;
                self.capture_started_at = None;
                match self.pending_start.take() {
                    Some(PendingStart { reply: Some(id), .. }) => add_reply(
                        &mut replies,
                        id,
                        Response::err(error.clone()),
                    ),
                    _ => {},
                }
                match self.pending_stop.take() {
                    Some(PendingStop { reply: Some(id), .. }) => add_reply(
                        &mut replies,
                        id,
                        Response::err(error.clone()),
                    ),
                    _ => {},
                }
                self.last_error = Some(error);
                self.refresh_devices(inputs, output);
            },
        }
        assert(self@ =~= old(self)@.after_event(event@, inputs@, text::opt_text(output)));
        assert(reply_texts(replies@) =~= old(self)@.replies_to(event@));
        RecorderStep { replies, finished }
    }

    /// Gives up a start that has taken too long. The recorder may still be busy with it: until
    /// it has reported back, no other recording can start. `None` means that there is nothing to
    /// give up; otherwise the state is written and these are answered.
    pub fn check_start_timeout(&mut self, now: u64) -> (r: Option<Vec<(u64, Response)>>)
        requires
            old(self)@.consistent(),
        ensures
            final(self)@.consistent(),
            match r {
                None => !old(self)@.start_timed_out(now) && final(self)@ == old(self)@,
                Some(replies) => {
                    &&& old(self)@.start_timed_out(now)
                    &&& final(self)@ == old(self)@.after_timeout()
                    &&& reply_texts(replies@) == old(self)@.to_starter(
                        ipc::failure("recording start timed out and was cancelled"@),
                    )
                },
            },
    {
        let timed_out = match &self.pending_start {
            Some(pending) => now >= pending.deadline,
            None => false,
        };
        if !timed_out {
            return None;
        }
        match &mut self.recorder {
            Some(recorder) => {
                if self.pending_stop.is_none() {
                    self.pending_stop = Some(
                        PendingStop { reply: None, folder: recorder.folder().to_owned() },
                    );
                }
                recorder.cancel_start();
            },
            None => {},
        }
        let mut replies: Vec<(u64, Response)> = Vec::new();
        assert(reply_texts(replies@) =~= Seq::empty());
        match self.pending_start.take() {
            Some(PendingStart { reply: Some(id), .. }) => add_reply(
                &mut replies,
                id,
                Response::err("recording start timed out and was cancelled".to_owned()),
            ),
            _ => {},
        }
        self.last_error = Some("Recording start timed out and was cancelled".to_owned());
        assert(self@ =~= old(self)@.after_timeout());
        assert(reply_texts(replies@) =~= old(self)@.to_starter(
            ipc::failure("recording start timed out and was cancelled"@),
        ));
        Some(replies)
    }

    /// The commands for the running recorder that have not been delivered yet, and whether its
    /// start was cancelled.
    pub fn take_commands(&mut self) -> (r: (bool, Vec<Command>))
        requires
            old(self)@.consistent(),
        ensures
            final(self)@.consistent(),
            match old(self)@.recorder {
                Some(h) => {
                    &&& r.0 == h.cancelled
                    &&& events::command_texts(r.1@) == h.outbox
                    &&& final(self)@ == (CoreText {
                        recorder: Some(HandleText { outbox: Seq::empty(), ..h }),
                        ..old(self)@
                    })
                },
                None => !r.0 && r.1@.len() == 0 && final(self)@ == old(self)@,
            },
    {
        match &mut self.recorder {
            Some(recorder) => (recorder.is_cancelled(), recorder.take_commands()),
            None => (false, Vec::new()),
        }
    }

    /// Ends everything. A running recorder is told to end and handed over, to be waited for; then
    /// the devices are looked at and the state is written for the last time. Requests that still
    /// wait are left without an answer.
    pub fn shutdown(&mut self) -> (r: Option<RecorderHandle>)
        requires
            old(self)@.consistent(),
        ensures
            final(self)@ == old(self)@.after_shutdown(),
            match r {
                Some(h) => old(self)@.ended() == Some(h@),
                None => old(self)@.ended() is None,
            },
    {
        let ready = self.capture_ready;
        let recorder = match self.recorder.take() {
            Some(recorder) => {
                let mut h = recorder;
                if ready {
                    h.stop();
                } else {
                    h.cancel_start();
                }
                Some(h)
            },
            None => None,
        };
        self.capture_ready = false;
        self.capture_started_at = None;
        recorder
    }

    /// What is to be done between two events, at a time in seconds.
    pub fn upkeep(&self, timestamp: i64) -> (r: Upkeep)
        ensures
            r == (if self@.ready {
                Upkeep::WriteState
            } else if timestamp as int % 15 == 0 {
                Upkeep::RefreshAndWrite
            } else {
                Upkeep::Nothing
            }),
    {
        if self.capture_ready {
            return Upkeep::WriteState;
        }
        if timestamp % 15 == 0 {
            Upkeep::RefreshAndWrite
        } else {
            Upkeep::Nothing
        }
    }
}

/// There is one recording at a time: while one is in progress, starting or stopping, a start is
/// refused, whatever microphone it asks for.
pub proof fn law_one_recording_at_a_time(
    c: CoreText,
    mic: Option<Seq<char>>,
    inputs: Seq<InputDevice>,
)
    requires
        c.active(),
    ensures
        c.start_refusal(mic, inputs) == Some("already recording or starting"@),
{
}

/// A start that took too long cannot turn into a second recording: the recorder that is late is
/// cancelled, and until it has reported back every start is refused.
pub proof fn law_late_start_blocks_others(
    c: CoreText,
    now: u64,
    mic: Option<Seq<char>>,
    inputs: Seq<InputDevice>,
)
    requires
        c.consistent(),
        c.start_timed_out(now),
    ensures
        c.after_timeout().recorder matches Some(h) && h.cancelled && h.outbox.last()
            == CommandText::Stop,
        c.after_timeout().start_refusal(mic, inputs) == Some("already recording or starting"@),
        c.after_timeout().pending_start is None,
        !c.after_timeout().start_timed_out(now),
{
}

/// A successful answer to a start means that the capture has started, and a successful answer to
/// a stop that the recording is finished. Nobody else gets a successful answer.
pub proof fn law_success_is_not_answered_early(c: CoreText, event: EventText, i: int)
    requires
        0 <= i < c.replies_to(event).len(),
        c.replies_to(event)[i].1.ok,
    ensures
        ({
            let id = c.replies_to(event)[i].0;
            ||| event is Started && (c.pending_start matches Some(p) && p.reply == Some(id))
            ||| event is Stopped && (c.pending_stop matches Some(p) && p.reply == Some(id))
        }),
{
}

/// The end of a recording answers everyone who waits for it, and leaves the core ready for the
/// next one.
pub proof fn law_end_answers_everyone(
    c: CoreText,
    event: EventText,
    inputs: Seq<InputDevice>,
    output: Option<Seq<char>>,
    id: u64,
)
    requires
        c.consistent(),
        event.ends_recording(),
        event is Stopped ==> c.ready,
        (c.pending_start matches Some(p) && p.reply == Some(id)) || (c.pending_stop matches Some(
            p,
        ) && p.reply == Some(id)),
    ensures
        exists|i: int| 0 <= i < c.replies_to(event).len() && (#[trigger] c.replies_to(event)[i]).0
            == id,
        ({
            let after = c.after_event(event, inputs, output);
            !after.active() && !after.ready && after.pending_start is None && after.pending_stop
                is None
        }),
{
    let replies = c.replies_to(event);
    if c.pending_start matches Some(p) && p.reply == Some(id) {
        assert(replies[0].0 == id);
    } else {
        assert(replies[replies.len() - 1].0 == id);
    }
}

/// A recorder that reports that it started is answered with the folder that it writes to.
pub proof fn law_start_is_answered_with_its_folder(c: CoreText, event: EventText, id: u64)
    requires
        c.consistent(),
        event is Started,
        c.pending_start matches Some(p) && p.reply == Some(id),
    ensures
        c.recorder matches Some(h) && c.replies_to(event) == seq![
            (id, ipc::success(ipc::folder_json(h.folder))),
        ],
{
}

/// The state says "recording" exactly while a capture is running, and "idle" otherwise. It names
/// a folder exactly while there is a recorder, and tells neither a time nor levels before the
/// capture runs.
pub proof fn law_state_tells_what_happens(c: CoreText, now: Stamp)
    ensures
        c.state(now).status == "recording"@ <==> c.active() && c.ready,
        c.state(now).status == "idle"@ <==> !(c.active() && c.ready),
        c.state(now).folder is Some <==> c.active(),
        !(c.active() && c.ready) ==> c.state(now).started_at is None && c.state(now).elapsed_sec
            == 0 && c.state(now).mic_level == 0 && c.state(now).system_level == 0,
{
    reveal_strlit("recording");
    reveal_strlit("idle");
    assert("recording"@[0] == 'r');
    assert("idle"@[0] == 'i');
}

/// A recording that is told to end before it has started is cancelled; one that has started is
/// not.
pub proof fn law_only_unstarted_recordings_are_cancelled(c: CoreText, reply: Option<u64>)
    requires
        c.recorder matches Some(h) && !h.cancelled,
        c.stop_refusal() is None,
    ensures
        c.with_stop(reply).recorder matches Some(h) && h.cancelled == !c.ready && h.outbox.last()
            == CommandText::Stop,
{
}

/// After the end of everything the core tells that it is idle, whoever still waits.
pub proof fn law_shut_down_core_is_idle(
    c: CoreText,
    inputs: Seq<InputDevice>,
    output: Option<Seq<char>>,
    now: Stamp,
)
    ensures
        ({
            let s = c.after_shutdown().refreshed(inputs, output).state(now);
            s.status == "idle"@ && s.folder is None && s.started_at is None && s.last_error
                == c.last_error
        }),
        c.after_shutdown().pending_start == c.pending_start,
        c.after_shutdown().pending_stop == c.pending_stop,
{
}

/// A new recording starts without the levels and the error of an earlier one.
pub proof fn law_start_clears_the_past(c: CoreText, folder: Seq<char>, reply: Option<u64>, now: u64)
    ensures
        c.with_recorder(folder, reply, now).last_error is None,
        c.with_recorder(folder, reply, now).mic_levels.len() == 0,
        c.with_recorder(folder, reply, now).system_levels.len() == 0,
        c.with_recorder(folder, reply, now).mic_override == c.mic_override,
{
}

/// While a recording runs, the state says of its microphone that it is heard if any of the levels
/// kept is audible, wherever it stands and in particular if the newest one is. It says that the
/// microphone is silent if there are levels and none of them is audible.
pub proof fn law_one_audible_level_is_told(c: CoreText, now: Stamp, i: int)
    requires
        c.recorder is Some,
        c.ready,
    ensures
        0 <= i < c.mic_levels.len() && levels::LEVEL_OK_THRESHOLD <= c.mic_levels[i]
            <= levels::INFINITE ==> c.state(now).mic_level_ok,
        c.mic_levels.len() == 0 ==> c.state(now).mic_level_ok,
        c.mic_levels.len() > 0 && (forall|k: int|
            0 <= k < c.mic_levels.len() ==> !(levels::LEVEL_OK_THRESHOLD
                <= #[trigger] c.mic_levels[k] <= levels::INFINITE)) ==> !c.state(now).mic_level_ok,
{
    levels::law_one_audible_level_is_enough(c.mic_levels, i);
}

/// The state always tells the devices, the last error and the time. While a recording runs, it
/// also tells the folder, when it started and for how many whole seconds it has run.
pub proof fn law_state_tells_the_recording(c: CoreText, now: Stamp)
    requires
        now.valid(),
        c.can_be_told(),
    ensures
        ({
            let s = c.state(now);
            &&& s.mic_device == c.mic
            &&& s.system_device == c.system
            &&& s.last_error == c.last_error
            &&& s.updated_at == now
            &&& c.recorder matches Some(h) ==> s.folder == Some(h.folder)
            &&& c.recorder is None || !c.ready ==> s.mic_level_ok
            &&& c.recorder is Some && c.ready ==> s.started_at == c.started_at
            &&& c.recorder is Some && c.ready && c.started_at is None ==> s.elapsed_sec == 0
            &&& c.recorder is Some && c.ready && c.started_at is Some && now.nanos < 1_000_000_000
                && c.started_at->0.nanos < 1_000_000_000 ==> {
                let at = c.started_at->0;
                let apart = (now.secs - at.secs) * 1_000_000_000 + (now.nanos - at.nanos);
                if apart < 0 {
                    s.elapsed_sec == 0
                } else {
                    s.elapsed_sec * 1_000_000_000 <= apart < (s.elapsed_sec + 1) * 1_000_000_000
                }
            }
        }),
{
    match c.started_at {
        Some(at) => {
            stamp::law_elapsed_time_is_whole_seconds(at, now);
        },
        None => {},
    }
}

/// Levels that are reported are told as they are, of either input its own, and nothing else
/// changes.
pub proof fn law_reported_levels_are_told(
    c: CoreText,
    mic: u32,
    system: u32,
    inputs: Seq<InputDevice>,
    output: Option<Seq<char>>,
    now: Stamp,
)
    ensures
        ({
            let after = c.after_event(EventText::Levels { mic, system }, inputs, output);
            let s = after.state(now);
            &&& c.recorder is Some && c.ready ==> s.mic_level == mic && s.system_level == system
            &&& c.recorder is Some && c.ready && levels::LEVEL_OK_THRESHOLD <= mic
                <= levels::INFINITE ==> s.mic_level_ok
            &&& after.mic_levels.last() == mic
            &&& after.system_levels.last() == system
            &&& after.mic_levels.is_suffix_of(c.mic_levels.push(mic))
            &&& after.system_levels.is_suffix_of(c.system_levels.push(system))
            &&& after.mic_levels.len() == (if c.mic_levels.len() < 4 {
                c.mic_levels.len() + 1
            } else {
                4
            })
            &&& after.system_levels.len() == (if c.system_levels.len() < 4 {
                c.system_levels.len() + 1
            } else {
                4
            })
            &&& after.recorder == c.recorder
            &&& after.ready == c.ready
            &&& after.started_at == c.started_at
            &&& after.pending_start == c.pending_start
            &&& after.pending_stop == c.pending_stop
            &&& after.mic == c.mic
            &&& after.system == c.system
            &&& after.mic_override == c.mic_override
            &&& after.last_error == c.last_error
        }),
{
    levels::law_newest_levels_are_kept(c.mic_levels, mic);
    levels::law_newest_levels_are_kept(c.system_levels, system);
}

/// A recorder that reports that it started is told of with the devices and the time that it
/// reported, and without an earlier error. Nobody waits for its start any more.
pub proof fn law_started_recording_is_told(
    c: CoreText,
    folder: Seq<char>,
    mic_device: Seq<char>,
    system_device: Seq<char>,
    started_at: Stamp,
    inputs: Seq<InputDevice>,
    output: Option<Seq<char>>,
    now: Stamp,
)
    requires
        c.recorder is Some,
    ensures
        ({
            let after = c.after_event(
                EventText::Started { folder, mic_device, system_device, started_at },
                inputs,
                output,
            );
            let s = after.state(now);
            &&& s.status == "recording"@
            &&& s.folder == Some(c.recorder->0.folder)
            &&& s.mic_device == mic_device
            &&& s.system_device == system_device
            &&& s.started_at == Some(started_at)
            &&& s.last_error is None
            &&& after.recorder == c.recorder
            &&& after.pending_start is None
            &&& after.pending_stop == c.pending_stop
            &&& after.mic_levels == c.mic_levels
            &&& after.system_levels == c.system_levels
            &&& after.mic_override == c.mic_override
        }),
{
}

/// A microphone that was switched to is told, and nothing else changes. A warning changes nothing.
pub proof fn law_switched_mic_is_told(
    c: CoreText,
    device: Seq<char>,
    at_sec: u64,
    warning: Seq<char>,
    inputs: Seq<InputDevice>,
    output: Option<Seq<char>>,
    now: Stamp,
)
    ensures
        ({
            let after = c.after_event(EventText::MicSwitched { device, at_sec }, inputs, output);
            &&& after.state(now).mic_device == device
            &&& after.state(now).system_device == c.system
            &&& after.recorder == c.recorder
            &&& after.ready == c.ready
            &&& after.started_at == c.started_at
            &&& after.pending_start == c.pending_start
            &&& after.pending_stop == c.pending_stop
            &&& after.mic_levels == c.mic_levels
            &&& after.system_levels == c.system_levels
            &&& after.mic_override == c.mic_override
            &&& after.last_error == c.last_error
        }),
        c.after_event(EventText::Warning(warning), inputs, output) == c,
{
}

/// After the end of a recording, the last error is that of a failure, and it is kept as it was
/// otherwise. The devices are those that the next recording would use.
pub proof fn law_end_is_told(
    c: CoreText,
    event: EventText,
    inputs: Seq<InputDevice>,
    output: Option<Seq<char>>,
    now: Stamp,
)
    requires
        event is Stopped || event is Cancelled || event is Failed,
    ensures
        ({
            let after = c.after_event(event, inputs, output);
            let s = after.state(now);
            &&& event matches EventText::Failed { error, .. } ==> s.last_error == Some(error)
            &&& !(event is Failed) ==> s.last_error == c.last_error
            &&& s.status == "idle"@
            &&& s.folder is None
            &&& s.started_at is None
            &&& after.recorder is None
            &&& !after.ready
            &&& after.pending_start is None
            &&& after.pending_stop is None
            &&& after.mic_override == c.mic_override
            &&& s.system_device == (match output {
                Some(name) => name,
                None => "Unknown output"@,
            })
            &&& s.mic_device == (match devices::effective_choice(inputs, c.mic_override) {
                Some(d) => d.name@,
                None => "No microphone"@,
            })
        }),
{
}

/// A start is accepted exactly if nothing is being recorded and there is a microphone for it: one
/// of the name asked for, or else one of the name chosen earlier, or else a physical one. It is
/// refused with the reason.
pub proof fn law_start_is_refused_for_a_reason(
    c: CoreText,
    mic: Option<Seq<char>>,
    inputs: Seq<InputDevice>,
)
    ensures
        c.recorder is Some ==> c.start_refusal(mic, inputs) == Some(
            "already recording or starting"@,
        ),
        c.recorder is None && mic is Some ==> ({
            let there = exists|i: int|
                0 <= i < inputs.len() && (#[trigger] inputs[i]).name@ == mic->0;
            c.start_refusal(mic, inputs) == (if there {
                None
            } else {
                Some("microphone not found: "@ + mic->0)
            })
        }),
        c.recorder is None && mic is None ==> ({
            let there = exists|i: int|
                0 <= i < inputs.len() && match c.mic_override {
                    Some(name) => (#[trigger] inputs[i]).name@ == name,
                    None => !inputs[i].is_virtual,
                };
            c.start_refusal(mic, inputs) == (if there {
                None
            } else {
                Some("selected microphone is not available"@)
            })
        }),
{
    devices::law_first_suitable_mic_is_used(inputs, Seq::empty());
    match c.mic_override {
        Some(name) => {
            devices::law_first_suitable_mic_is_used(inputs, name);
        },
        None => {},
    }
    if mic is Some {
        if devices::is_present(inputs, mic->0) {
            let i = choose|i: int| 0 <= i < inputs.len() && #[trigger] inputs[i].name@ == mic->0;
            assert(inputs[i].name@ == mic->0);
        }
        if exists|i: int| 0 <= i < inputs.len() && (#[trigger] inputs[i]).name@ == mic->0 {
            let i = choose|i: int| 0 <= i < inputs.len() && (#[trigger] inputs[i]).name@ == mic->0;
            assert(devices::is_present(inputs, mic->0));
        }
    }
}

/// A microphone can be chosen exactly if a device has its name. Automatic mode can always be
/// chosen.
pub proof fn law_only_present_mics_are_chosen(name: Seq<char>, inputs: Seq<InputDevice>)
    ensures
        mic_refusal(None, inputs) is None,
        mic_refusal(Some(name), inputs) is None <==> exists|i: int|
            0 <= i < inputs.len() && (#[trigger] inputs[i]).name@ == name,
        mic_refusal(Some(name), inputs) is Some ==> mic_refusal(Some(name), inputs)->0
            == "microphone not found: "@ + name,
{
    if exists|i: int| 0 <= i < inputs.len() && (#[trigger] inputs[i]).name@ == name {
        let i = choose|i: int| 0 <= i < inputs.len() && (#[trigger] inputs[i]).name@ == name;
        assert(devices::is_present(inputs, name));
    }
    if devices::is_present(inputs, name) {
        let i = choose|i: int| 0 <= i < inputs.len() && #[trigger] inputs[i].name@ == name;
        assert(inputs[i].name@ == name);
    }
}

/// A stop is accepted exactly if there is a recorder and nobody has stopped it yet.
pub proof fn law_stop_is_refused_for_a_reason(c: CoreText)
    ensures
        c.pending_stop is Some ==> c.stop_refusal() == Some("stop already in progress"@),
        c.pending_stop is None && c.recorder is None ==> c.stop_refusal() == Some("not recording"@),
        c.pending_stop is None && c.recorder is Some ==> c.stop_refusal() is None,
{
}

/// A recorder that is started writes to the folder that was created for it, has no commands and is
/// not running yet. Whoever asked for it waits for no more than twenty-five seconds.
pub proof fn law_start_waits_for_the_recorder(
    c: CoreText,
    folder: Seq<char>,
    reply: Option<u64>,
    now: u64,
)
    requires
        now + 25_000_000_000 <= u64::MAX,
    ensures
        ({
            let after = c.with_recorder(folder, reply, now);
            &&& after.recorder is Some
            &&& after.recorder->0.folder == folder
            &&& !after.recorder->0.cancelled
            &&& after.recorder->0.outbox.len() == 0
            &&& !after.ready
            &&& after.started_at is None
            &&& after.pending_start is Some
            &&& after.pending_start->0.reply == reply
            &&& after.pending_start->0.folder == folder
            &&& forall|later: u64|
                #[trigger] after.start_timed_out(later) <==> later >= now + 25_000_000_000
            &&& after.pending_stop == c.pending_stop
            &&& after.mic == c.mic
            &&& after.system == c.system
        }),
{
}

/// After a stop was accepted, its sender waits for the recorder, which is told to end after
/// everything that it was told before. Nothing else changes.
pub proof fn law_stop_waits_for_the_recorder(c: CoreText, reply: Option<u64>)
    requires
        c.stop_refusal() is None,
    ensures
        ({
            let after = c.with_stop(reply);
            &&& after.pending_stop is Some
            &&& after.pending_stop->0.reply == reply
            &&& after.pending_stop->0.folder == c.recorder->0.folder
            &&& after.recorder is Some
            &&& after.recorder->0.folder == c.recorder->0.folder
            &&& after.recorder->0.outbox == c.recorder->0.outbox.push(CommandText::Stop)
            &&& after.recorder->0.cancelled == (c.recorder->0.cancelled || !c.ready)
            &&& after.ready == c.ready
            &&& after.started_at == c.started_at
            &&& after.pending_start == c.pending_start
            &&& after.mic == c.mic
            &&& after.system == c.system
            &&& after.mic_levels == c.mic_levels
            &&& after.system_levels == c.system_levels
            &&& after.mic_override == c.mic_override
            &&& after.last_error == c.last_error
            &&& after.stop_refusal() == Some("stop already in progress"@)
        }),
{
}

/// The microphone that was chosen is handed to a recorder, behind everything that it was told
/// before. Without one, the devices are those that the next recording would use.
pub proof fn law_chosen_mic_reaches_the_recorder(
    c: CoreText,
    inputs: Seq<InputDevice>,
    output: Option<Seq<char>>,
)
    ensures
        ({
            let after = c.with_saved_mic(inputs, output);
            &&& c.recorder is Some ==> after.recorder is Some && after.recorder->0.folder
                == c.recorder->0.folder && after.recorder->0.cancelled == c.recorder->0.cancelled
                && after.recorder->0.outbox == c.recorder->0.outbox.push(
                CommandText::SwitchMic(c.mic_override),
            ) && after.mic == c.mic && after.system == c.system
            &&& c.recorder is None ==> after.recorder is None && after.mic == (
            match devices::effective_choice(inputs, c.mic_override) {
                Some(d) => d.name@,
                None => "No microphone"@,
            }) && after.system == (match output {
                Some(name) => name,
                None => "Unknown output"@,
            })
            &&& after.mic_override == c.mic_override
            &&& after.ready == c.ready
            &&& after.started_at == c.started_at
            &&& after.pending_start == c.pending_start
            &&& after.pending_stop == c.pending_stop
            &&& after.mic_levels == c.mic_levels
            &&& after.system_levels == c.system_levels
            &&& after.last_error == c.last_error
        }),
{
}

/// A look at the devices changes nothing while there is a recorder. Otherwise only the names of
/// the devices change, to those that the next recording would use.
pub proof fn law_recording_keeps_its_devices(
    c: CoreText,
    inputs: Seq<InputDevice>,
    output: Option<Seq<char>>,
)
    ensures
        ({
            let after = c.refreshed(inputs, output);
            &&& c.recorder is Some ==> after == c
            &&& c.recorder is None ==> after.mic == (match devices::effective_choice(
                inputs,
                c.mic_override,
            ) {
                Some(d) => d.name@,
                None => "No microphone"@,
            }) && after.system == (match output {
                Some(name) => name,
                None => "Unknown output"@,
            })
            &&& after.recorder == c.recorder
            &&& after.mic_override == c.mic_override
            &&& after.ready == c.ready
            &&& after.started_at == c.started_at
            &&& after.pending_start == c.pending_start
            &&& after.pending_stop == c.pending_stop
            &&& after.mic_levels == c.mic_levels
            &&& after.system_levels == c.system_levels
            &&& after.last_error == c.last_error
        }),
{
}

/// A start is given up exactly when its time is over. The recorder is told to end, behind
/// everything that it was told before, and the error is told. A stop that waits keeps waiting,
/// and if there is none, nobody waits but for the recorder.
pub proof fn law_late_start_is_given_up(c: CoreText, now: u64)
    ensures
        c.start_timed_out(now) <==> c.pending_start is Some && now >= c.pending_start->0.deadline,
        ({
            let after = c.after_timeout();
            &&& after.last_error == Some("Recording start timed out and was cancelled"@)
            &&& after.pending_start is None
            &&& c.recorder is None <==> after.recorder is None
            &&& c.recorder matches Some(h) ==> after.recorder->0.cancelled
                && after.recorder->0.folder == h.folder && after.recorder->0.outbox
                == h.outbox.push(CommandText::Stop)
            &&& c.pending_stop is Some ==> after.pending_stop == c.pending_stop
            &&& c.pending_stop is None && c.recorder is Some ==> after.pending_stop is Some
                && after.pending_stop->0.reply is None && after.pending_stop->0.folder
                == c.recorder->0.folder
            &&& after.ready == c.ready
            &&& after.started_at == c.started_at
            &&& after.mic == c.mic
            &&& after.system == c.system
            &&& after.mic_levels == c.mic_levels
            &&& after.system_levels == c.system_levels
            &&& after.mic_override == c.mic_override
        }),
{
}

/// Who waits is answered with what happened: a starter by a start, with the folder; a stopper by
/// the end, with the folder; and both by a failure or a cancellation, with the reason. Everybody
/// else waits on, and nobody is answered who does not wait.
pub proof fn law_answers_say_what_happened(c: CoreText, event: EventText, i: int)
    requires
        0 <= i < c.replies_to(event).len(),
    ensures
        ({
            let (id, answer) = c.replies_to(event)[i];
            let starter = c.pending_start is Some && c.pending_start->0.reply == Some(id);
            let stopper = c.pending_stop is Some && c.pending_stop->0.reply == Some(id);
            match event {
                EventText::Started { .. } => starter && answer.ok && answer.data == Some(
                    ipc::folder_json(c.pending_start->0.folder),
                ) && answer.error is None,
                EventText::Stopped { .. } => stopper && answer.ok && answer.data == Some(
                    ipc::folder_json(c.pending_stop->0.folder),
                ) && answer.error is None,
                EventText::Cancelled { .. } => (starter || stopper) && !answer.ok && answer.error
                    == Some("recording start cancelled"@) && answer.data is None,
                EventText::Failed { error, .. } => (starter || stopper) && !answer.ok
                    && answer.error == Some(error) && answer.data is None,
                _ => false,
            }
        }),
{
}

/// What is written of a running recording: its microphone is heard if any of the levels kept is
/// audible, wherever it stands and in particular the newest one, and it is silent if there are
/// levels and none of them is. The levels told are the newest ones.
pub proof fn law_written_state_tells_the_levels(core: &Core, now: Stamp, written: AppState, i: int)
    requires
        core@.can_be_told(),
        now.valid(),
        call_ensures(Core::write_state, (core, now), written),
        core@.recorder is Some,
        core@.ready,
    ensures
        0 <= i < core@.mic_levels.len() && levels::LEVEL_OK_THRESHOLD <= core@.mic_levels[i]
            <= levels::INFINITE ==> written.mic.level_ok,
        core@.mic_levels.len() == 0 ==> written.mic.level_ok,
        core@.mic_levels.len() > 0 && (forall|k: int|
            0 <= k < core@.mic_levels.len() ==> !(levels::LEVEL_OK_THRESHOLD
                <= #[trigger] core@.mic_levels[k] <= levels::INFINITE)) ==> !written.mic.level_ok,
        core@.mic_levels.len() > 0 ==> written.mic.level == core@.mic_levels.last(),
        core@.system_levels.len() > 0 ==> written.system.level == core@.system_levels.last(),
        written.mic.device@ == core@.mic,
        written.system.device@ == core@.system,
        written.status@ == "recording"@,
        written.started_at == core@.started_at,
        text::opt_text(written.folder) == Some(core@.recorder->0.folder),
        text::opt_text(written.last_error) == core@.last_error,
        written.updated_at == now,
{
    law_one_audible_level_is_told(core@, now, i);
}

/// Between two events, the state is written all the time while a recording runs. Otherwise the
/// devices are looked at every fifteen seconds, and nothing is done in between.
pub proof fn law_upkeep_follows_the_clock(core: &Core, timestamp: i64, todo: Upkeep, n: int)
    requires
        call_ensures(Core::upkeep, (core, timestamp), todo),
    ensures
        core@.ready <==> todo == Upkeep::WriteState,
        !core@.ready && timestamp == 15 * n ==> todo == Upkeep::RefreshAndWrite,
        !core@.ready && 15 * n < timestamp < 15 * (n + 1) ==> todo == Upkeep::Nothing,
{
}

/// A recording is stopped once: a stop that was accepted makes every later one fail until the
/// recording has ended, and changes nothing more.
pub proof fn law_second_stop_is_refused(
    core: &mut Core,
    reply: Option<u64>,
    first: Result<(), String>,
    later: &mut Core,
    later_reply: Option<u64>,
    second: Result<(), String>,
)
    requires
        old(core)@.consistent(),
        call_ensures(Core::stop, (core, reply), first),
        *old(later) == *final(core),
        call_ensures(Core::stop, (later, later_reply), second),
    ensures
        first is Ok <==> old(core)@.recorder is Some && old(core)@.pending_stop is None,
        first is Ok ==> second is Err && second->Err_0@ == "stop already in progress"@,
        first is Err ==> second is Err && second->Err_0@ == first->Err_0@ && final(core)@
            == old(core)@,
        final(later)@ == final(core)@,
{
}

/// There is one recording at a time: once a recorder was started, a start is refused.
pub proof fn law_second_start_is_refused(
    core: &mut Core,
    folder: String,
    reply: Option<u64>,
    now: u64,
    first: Result<StartConfig, String>,
    later: &mut Core,
    mic: Option<String>,
    inputs: &[InputDevice],
    second: StartStep,
)
    requires
        old(core)@.consistent(),
        !old(core)@.active(),
        now + START_TIMEOUT <= u64::MAX,
        call_ensures(Core::on_folder_created, (core, Ok(folder), reply, now), first),
        *old(later) == *final(core),
        call_ensures(Core::start, (later, mic, inputs), second),
    ensures
        first is Ok,
        first->Ok_0.folder@ == folder@,
        text::opt_text(first->Ok_0.mic_override) == old(core)@.mic_override,
        second is Refused,
        second->Refused_0@ == "already recording or starting"@,
        final(later)@ == final(core)@,
{
}

/// Commands are delivered once: what was taken is not taken again.
pub proof fn law_commands_are_delivered_once(
    core: &mut Core,
    first: (bool, Vec<Command>),
    later: &mut Core,
    second: (bool, Vec<Command>),
)
    requires
        old(core)@.consistent(),
        call_ensures(Core::take_commands, (core,), first),
        *old(later) == *final(core),
        call_ensures(Core::take_commands, (later,), second),
    ensures
        old(core)@.recorder matches Some(h) ==> events::command_texts(first.1@) == h.outbox,
        second.1@.len() == 0,
        second.0 == first.0,
        final(later)@ == final(core)@,
{
    if old(core)@.recorder is Some {
        assert(events::command_texts(second.1@).len() == second.1@.len());
    }
}

/// A stop of a recording that has started reaches the recorder as a command to stop, and one of a
/// recording that has not started also cancels it.
pub proof fn law_stop_reaches_the_recorder(
    core: &mut Core,
    reply: Option<u64>,
    stopped: Result<(), String>,
    later: &mut Core,
    taken: (bool, Vec<Command>),
)
    requires
        old(core)@.consistent(),
        call_ensures(Core::stop, (core, reply), stopped),
        stopped is Ok,
        *old(later) == *final(core),
        call_ensures(Core::take_commands, (later,), taken),
    ensures
        taken.1@.len() > 0,
        taken.1@.last() is Stop,
        !old(core)@.ready ==> taken.0,
        old(core)@.ready ==> taken.0 == old(core)@.recorder->0.cancelled,
{
    let texts = events::command_texts(taken.1@);
    assert(texts.len() == taken.1@.len());
    assert(texts.last() == CommandText::Stop);
    assert(texts[texts.len() - 1] == taken.1@[taken.1@.len() - 1]@);
}

/// A start that took too long is given up once, and whoever asked for it is told so.
pub proof fn law_late_start_is_given_up_once(
    core: &mut Core,
    now: u64,
    first: Option<Vec<(u64, Response)>>,
    later: &mut Core,
    later_now: u64,
    second: Option<Vec<(u64, Response)>>,
)
    requires
        old(core)@.consistent(),
        call_ensures(Core::check_start_timeout, (core, now), first),
        *old(later) == *final(core),
        call_ensures(Core::check_start_timeout, (later, later_now), second),
    ensures
        first is Some <==> old(core)@.pending_start is Some && now
            >= old(core)@.pending_start->0.deadline,
        first is Some ==> second is None && final(core)@.pending_start is None,
        first is None ==> final(core)@ == old(core)@,
        first is Some && old(core)@.pending_start->0.reply is Some ==> ({
            let replies = reply_texts(first->0@);
            &&& replies.len() == 1
            &&& replies[0].0 == old(core)@.pending_start->0.reply->0
            &&& !replies[0].1.ok
            &&& replies[0].1.error == Some("recording start timed out and was cancelled"@)
        }),
        first is Some && old(core)@.pending_start->0.reply is None ==> first->0@.len() == 0,
{
    if first is Some {
        assert(reply_texts(first->0@).len() == first->0@.len());
    }
}

/// Every request is taken for what it is. What only asks changes nothing and is answered at once,
/// and a refused request changes nothing and is told why.
pub proof fn law_requests_are_taken_for_what_they_are(
    core: &mut Core,
    request: Request,
    reply: u64,
    inputs: &[InputDevice],
    step: IpcStep,
)
    requires
        old(core)@.consistent(),
        call_ensures(Core::on_ipc, (core, request, reply, inputs), step),
    ensures
        request is Status <==> step is TellState,
        request is List <==> step is ListRecordings,
        request matches Request::List { limit } ==> step == IpcStep::ListRecordings(limit),
        request is Quit <==> step is Quit,
        step matches IpcStep::Quit(answer) ==> answer.ok,
        request is Devices ==> step is Reply && step->Reply_0.ok,
        request is Status || request is List || request is Quit || request is Devices
            ==> final(core)@ == old(core)@,
        step matches IpcStep::Reply(answer) ==> final(core)@ == old(core)@ && (answer.ok
            <==> request is Devices),
        request is Stop ==> (step is Wait <==> old(core)@.recorder is Some
            && old(core)@.pending_stop is None),
        step is Wait ==> request is Stop && final(core)@.pending_stop is Some
            && final(core)@.pending_stop->0.reply == Some(reply),
        step is SaveAndStart ==> request is Start && old(core)@.recorder is None
            && final(core)@.mic_override == text::opt_text(request->Start_mic)
            && final(core)@.mic_override is Some,
        step is CreateFolder ==> request is Start && request->Start_mic is None
            && old(core)@.recorder is None && final(core)@ == old(core)@,
        step is SaveAndSetMic ==> request is SetMic && final(core)@.mic_override == text::opt_text(
            request->SetMic_mic,
        ) && final(core)@.recorder == old(core)@.recorder,
        request is SetMic && request->SetMic_mic is None ==> step is SaveAndSetMic,
        request is SetMic && request->SetMic_mic is Some ==> (step is SaveAndSetMic <==> exists|i: int|
            0 <= i < inputs@.len() && (#[trigger] inputs@[i]).name@ == request->SetMic_mic->0@),
{
    match request {
        Request::SetMic { mic: Some(name) } => {
            law_only_present_mics_are_chosen(name@, inputs@);
        },
        _ => {},
    }
}

/// A recording is told to have finished exactly when it has stopped, under its folder.
pub proof fn law_only_a_stopped_recording_has_finished(
    core: &mut Core,
    event: RecorderEvent,
    inputs: &[InputDevice],
    output: Option<String>,
    step: RecorderStep,
)
    requires
        old(core)@.consistent(),
        event@ matches EventText::Started { started_at, .. } ==> started_at.valid(),
        call_ensures(Core::on_recorder, (core, event, inputs, output), step),
    ensures
        step.finished is Some <==> event is Stopped,
        event matches RecorderEvent::Stopped { folder, .. } ==> step.finished->0@ == folder@,
        event is Warning || event is Levels || event is MicSwitched ==> step.replies@.len() == 0
            && final(core)@.recorder == old(core)@.recorder && final(core)@.pending_start
            == old(core)@.pending_start && final(core)@.pending_stop == old(core)@.pending_stop,
        event is Stopped || event is Failed || event is Cancelled ==> final(core)@.recorder is None
            && final(core)@.pending_start is None && final(core)@.pending_stop is None,
        event is Started ==> final(core)@.ready && final(core)@.recorder == old(core)@.recorder,
{
    assert(reply_texts(step.replies@).len() == step.replies@.len());
}

/// A core that is shut down hands over its recorder, which is told to end last of all and is
/// cancelled if it has not started. No recorder is left.
pub proof fn law_shutdown_hands_over_the_recorder(
    core: &mut Core,
    handed: Option<RecorderHandle>,
)
    requires
        old(core)@.consistent(),
        call_ensures(Core::shutdown, (core,), handed),
    ensures
        handed is Some <==> old(core)@.recorder is Some,
        handed matches Some(h) ==> h@.folder == old(core)@.recorder->0.folder && h@.outbox
            == old(core)@.recorder->0.outbox.push(CommandText::Stop) && h@.cancelled == (
        old(core)@.recorder->0.cancelled || !old(core)@.ready),
        final(core)@.recorder is None,
        !final(core)@.ready,
        final(core)@.started_at is None,
        final(core)@.pending_start == old(core)@.pending_start,
        final(core)@.pending_stop == old(core)@.pending_stop,
        final(core)@.last_error == old(core)@.last_error,
{
}

/// A microphone that was saved is told to a recorder, or else shows in the answer at once. The
/// answer says whether the microphone is chosen automatically.
pub proof fn law_saved_mic_is_answered(
    core: &mut Core,
    saved: Result<(), String>,
    inputs: &[InputDevice],
    output: Option<String>,
    answer: Response,
)
    requires
        old(core)@.consistent(),
        call_ensures(Core::on_mic_saved, (core, saved, inputs, output), answer),
    ensures
        answer.ok <==> saved is Ok,
        saved is Err ==> final(core)@ == old(core)@ && text::opt_text(answer.error) == Some(
            saved->Err_0@,
        ),
        saved is Ok ==> answer.data is Some && answer.data->0@.member("mic"@) == Some(
            crate::json::JsonText::Text(final(core)@.mic),
        ) && answer.data->0@.member("automatic"@) == Some(
            crate::json::JsonText::Bool(old(core)@.mic_override is None),
        ),
        saved is Ok && old(core)@.recorder is Some ==> final(core)@.mic == old(core)@.mic
            && final(core)@.recorder->0.outbox.last() == CommandText::SwitchMic(
            old(core)@.mic_override,
        ),
{
    ipc::law_short_answers_read_back(
        Seq::empty(),
        final(core)@.mic,
        final(core)@.mic_override is None,
    );
}

/// A new core does nothing, knows the chosen microphone, and tells the devices that a recording
/// would use.
pub proof fn law_new_core_is_idle(
    settings: Settings,
    inputs: &[InputDevice],
    output: Option<String>,
    core: Core,
)
    requires
        call_ensures(Core::new, (settings, inputs, output), core),
    ensures
        core@.recorder is None,
        !core@.ready,
        core@.started_at is None,
        core@.pending_start is None,
        core@.pending_stop is None,
        core@.mic_levels.len() == 0,
        core@.system_levels.len() == 0,
        core@.last_error is None,
        core@.mic_override == text::opt_text(settings.mic_override),
        core@.mic == (match devices::effective_choice(
            inputs@,
            text::opt_text(settings.mic_override),
        ) {
            Some(d) => d.name@,
            None => "No microphone"@,
        }),
        core@.system == (match output {
            Some(name) => name@,
            None => "Unknown output"@,
        }),
{
}

} // verus!
