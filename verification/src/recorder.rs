//! The recording engine: starting, timing, device switching, writing and finalization.
//!
//! The engine makes the decisions. Opening devices, reading clocks and writing files is done by
//! its caller, who hands the outcomes back.

use vstd::prelude::*;
use vstd::string::*;
use crate::devices::InputDevice;
use crate::devices;
use crate::events::{Command, CommandText, EventText, RecorderEvent, StartConfig};
use crate::levels;
use crate::recordings::{Meta, MetaText, RecordingStatus};
use crate::recordings;
use crate::stamp::Stamp;
use crate::tap;
use crate::text;
use crate::timeline;
use crate::wav::{FlushPlan, Track, WavWriter};
use crate::wav;

verus! {

/// How long a microphone may stay silent before the user is warned, in nanoseconds.
pub const MIC_SILENCE_GRACE: u128 = 8_000_000_000;

/// How often the files are brought up to date, in milliseconds.
pub const FLUSH_EVERY: u64 = 5_000;

/// How often levels are reported, in milliseconds.
pub const LEVEL_EVERY: u64 = 250;

/// How often captured audio is taken, in milliseconds.
pub const AUDIO_DRAIN_EVERY: u64 = 5;

/// How often the default input is looked at, in milliseconds.
pub const DEVICE_POLL_EVERY: u64 = 1_000;

/// Fails if the start was cancelled.
pub fn ensure_not_cancelled(cancelled: bool) -> (r: Result<(), String>)
    ensures
        match r {
            Ok(_) => !cancelled,
            Err(e) => cancelled && e@ == "recording start cancelled"@,
        },
{
    if cancelled {
        Err("recording start cancelled".to_owned())
    } else {
        Ok(())
    }
}

/// Why a step of the start fails, if it does: because of its own error, or else because the
/// start was cancelled meanwhile.
pub open spec fn step_error(error: Option<Seq<char>>, cancelled: bool) -> Option<Seq<char>> {
    match error {
        Some(e) => Some(e),
        None => if cancelled {
            Some("recording start cancelled"@)
        } else {
            None
        },
    }
}

/// The error of a result, if it is one.
pub open spec fn error_of<T>(result: Result<T, String>) -> Option<Seq<char>> {
    match result {
        Ok(_) => None,
        Err(e) => Some(e@),
    }
}

/// What the start of a recording waits for.
#[derive(Clone, Copy, Debug, PartialEq, Eq, Structural)]
pub enum StartStage {
    /// System audio is being opened.
    OpenSystem,
    /// The microphone is being opened.
    OpenMic,
    /// What was captured before the start is being thrown away.
    Discard,
    /// The files are about to be created.
    CreateFiles,
}

/// A recording that is being started.
pub struct Startup {
    stage: StartStage,
    folder: String,
    mic_override: Option<String>,
    pick: String,
    system_device: String,
    system_rate: u32,
    mic_device: String,
    mic_rate: u32,
}

#[verifier::ext_equal]
pub struct StartText {
    pub stage: StartStage,
    pub folder: Seq<char>,
    pub mic_override: Option<Seq<char>>,
    /// The microphone to be opened.
    pub pick: Seq<char>,
    pub system_device: Seq<char>,
    pub system_rate: u32,
    /// The microphone that was opened.
    pub mic_device: Seq<char>,
    pub mic_rate: u32,
}

impl Startup {
    pub closed spec fn view(&self) -> StartText {
        StartText {
            stage: self.stage,
            folder: self.folder@,
            mic_override: text::opt_text(self.mic_override),
            pick: self.pick@,
            system_device: self.system_device@,
            system_rate: self.system_rate,
            mic_device: self.mic_device@,
            mic_rate: self.mic_rate,
        }
    }

    /// Picks the devices. Then system audio is to be opened.
    pub fn begin(config: StartConfig, inputs: &[InputDevice], output: Option<String>) -> (r: Result<
        Startup,
        String,
    >)
        ensures
            match (
                r,
                devices::effective_choice(inputs@, text::opt_text(config.mic_override)),
            ) {
                (Ok(start), Some(pick)) => start@ == (StartText {
                    stage: StartStage::OpenSystem,
                    folder: config.folder@,
                    mic_override: text::opt_text(config.mic_override),
                    pick: pick.name@,
                    system_device: devices::output_text(text::opt_text(output)),
                    system_rate: 0,
                    mic_device: Seq::empty(),
                    mic_rate: 0,
                }),
                (Err(e), None) => e@ == "selected microphone is not available"@,
                _ => false,
            },
    {
        match devices::resolve_setting(inputs, &config.mic_override) {
            Some(pick) => {
                proof {
                    reveal_strlit("");
                }
                Ok(
                    Startup {
                        stage: StartStage::OpenSystem,
                        folder: config.folder,
                        mic_override: config.mic_override,
                        pick: pick.name,
                        system_device: devices::default_output_name(output),
                        system_rate: 0,
                        mic_device: "".to_owned(),
                        mic_rate: 0,
                    },
                )
            },
            None => Err("selected microphone is not available".to_owned()),
        }
    }

    /// System audio was opened, at a sample rate. Then the microphone is to be opened.
    pub fn on_system_opened(&mut self, opened: Result<u32, String>, cancelled: bool) -> (r: Result<
        (),
        String,
    >)
        requires
            old(self)@.stage == StartStage::OpenSystem,
        ensures
            error_of(r) == step_error(error_of(opened), cancelled),
            final(self)@ == (match (r, opened) {
                (Ok(_), Ok(rate)) => StartText {
                    stage: StartStage::OpenMic,
                    system_rate: rate,
                    ..old(self)@
                },
                _ => old(self)@,
            }),
    {
        match opened {
            Err(e) => Err(e),
            Ok(rate) => match ensure_not_cancelled(cancelled) {
                Err(e) => Err(e),
                Ok(_) => {
                    self.stage = StartStage::OpenMic;
                    self.system_rate = rate;
                    Ok(())
                },
            },
        }
    }

    /// The microphone to be opened.
    pub fn mic_to_open(&self) -> (r: &str)
        ensures
            r@ == self@.pick,
    {
        self.pick.as_str()
    }

    /// The microphone was opened: the device and its sample rate. Then what was captured so far
    /// is to be thrown away.
    pub fn on_mic_opened(&mut self, opened: Result<(String, u32), String>, cancelled: bool) -> (r:
        Result<(), String>)
        requires
            old(self)@.stage == StartStage::OpenMic,
        ensures
            error_of(r) == step_error(error_of(opened), cancelled),
            final(self)@ == (match (r, opened) {
                (Ok(_), Ok(mic)) => StartText {
                    stage: StartStage::Discard,
                    mic_device: mic.0@,
                    mic_rate: mic.1,
                    ..old(self)@
                },
                _ => old(self)@,
            }),
    {
        match opened {
            Err(e) => Err(e),
            Ok(mic) => match ensure_not_cancelled(cancelled) {
                Err(e) => Err(e),
                Ok(_) => {
                    self.stage = StartStage::Discard;
                    self.mic_device = mic.0;
                    self.mic_rate = mic.1;
                    Ok(())
                },
            },
        }
    }

    /// What was captured so far was thrown away. Then the files are to be created.
    pub fn on_discarded(&mut self, cancelled: bool) -> (r: Result<(), String>)
        requires
            old(self)@.stage == StartStage::Discard,
        ensures
            error_of(r) == step_error(None, cancelled),
            final(self)@ == (if r is Ok {
                StartText { stage: StartStage::CreateFiles, ..old(self)@ }
            } else {
                old(self)@
            }),
    {
        match ensure_not_cancelled(cancelled) {
            Err(e) => Err(e),
            Ok(_) => {
                self.stage = StartStage::CreateFiles;
                Ok(())
            },
        }
    }

    /// Whether both sample rates can stand in a WAV header.
    pub fn rates_fit(&self) -> (r: bool)
        ensures
            r == (is_rate(self@.mic_rate) && is_rate(self@.system_rate)),
    {
        0 < self.mic_rate && self.mic_rate <= u32::MAX / 2 && 0 < self.system_rate
            && self.system_rate <= u32::MAX / 2
    }

    /// The recording as it begins, at a time of the calendar and of the host clock. Its files and
    /// its description are then to be written.
    pub fn into_session(self, started_at: Stamp, origin: u64) -> (r: Session)
        requires
            self@.stage == StartStage::CreateFiles,
            is_rate(self@.mic_rate),
            is_rate(self@.system_rate),
        ensures
            r.wf(),
            r@ == fresh_session(self@, started_at, origin),
    {
        let meta = Meta::recording(
            started_at,
            self.mic_rate,
            self.mic_device.as_str(),
            self.system_device.as_str(),
        );
        Session {
            mic_wav: WavWriter::create(self.mic_rate),
            system_wav: WavWriter::create(self.system_rate),
            folder: self.folder,
            mic_override: self.mic_override,
            mic_device: self.mic_device,
            origin,
            meta,
            mic_peak: 0,
            system_peak: 0,
            mic_ever_ok: false,
            mic_warned: false,
            system_input_rate: self.system_rate,
        }
    }
}

/// Whether a sample rate can stand in a WAV header together with the byte rate, its double.
pub open spec fn is_rate(rate: u32) -> bool {
    0 < rate <= u32::MAX / 2
}

/// A recording in progress.
pub struct Session {
    folder: String,
    mic_override: Option<String>,
    mic_device: String,
    origin: u64,
    meta: Meta,
    mic_wav: WavWriter,
    system_wav: WavWriter,
    mic_peak: u32,
    system_peak: u32,
    mic_ever_ok: bool,
    mic_warned: bool,
    system_input_rate: u32,
}

#[verifier::ext_equal]
pub struct SessionText {
    pub folder: Seq<char>,
    pub mic_override: Option<Seq<char>>,
    /// The microphone in use.
    pub mic_device: Seq<char>,
    /// When the timeline starts, in nanoseconds of the host clock.
    pub origin: u64,
    pub meta: MetaText,
    pub mic: Track,
    pub system: Track,
    /// The loudest samples since the last report.
    pub mic_peak: u32,
    pub system_peak: u32,
    /// Whether the microphone was ever heard.
    pub mic_ever_ok: bool,
    /// Whether the user was warned that it was not.
    pub mic_warned: bool,
    /// The sample rate at which system audio arrives.
    pub system_input_rate: u32,
}

pub open spec fn empty_track(sample_rate: u32) -> Track {
    Track { sample_rate, audio: Seq::empty(), stored: 0 }
}

/// A recording as it begins.
pub open spec fn fresh_session(start: StartText, started_at: Stamp, origin: u64) -> SessionText {
    SessionText {
        folder: start.folder,
        mic_override: start.mic_override,
        mic_device: start.mic_device,
        origin,
        meta: recordings::just_started(
            started_at,
            start.mic_rate,
            start.mic_device,
            start.system_device,
        ),
        mic: empty_track(start.mic_rate),
        system: empty_track(start.system_rate),
        mic_peak: 0,
        system_peak: 0,
        mic_ever_ok: false,
        mic_warned: false,
        system_input_rate: start.system_rate,
    }
}

/// What is to be done about the microphone.
pub enum MicStep {
    /// End the recording.
    Finish,
    /// Keep the microphone.
    Stay,
    /// Keep the microphone and report this.
    Report(RecorderEvent),
    /// Take what the microphone has captured, then open another one. `explicit` tells whether the
    /// user asked for it.
    SwitchTo { name: String, explicit: bool },
}

#[verifier::ext_equal]
pub enum MicStepText {
    Finish,
    Stay,
    Report(EventText),
    SwitchTo { name: Seq<char>, explicit: bool },
}

impl MicStep {
    pub open spec fn view(&self) -> MicStepText {
        match self {
            MicStep::Finish => MicStepText::Finish,
            MicStep::Stay => MicStepText::Stay,
            MicStep::Report(event) => MicStepText::Report(event@),
            MicStep::SwitchTo { name, explicit } => MicStepText::SwitchTo {
                name: name@,
                explicit: *explicit,
            },
        }
    }
}

/// What is to be done so that `pick` is the microphone in use.
pub open spec fn switch_to_pick(pick: InputDevice, in_use: Seq<char>, explicit: bool) -> MicStepText {
    if pick.name@ != in_use {
        MicStepText::SwitchTo { name: pick.name@, explicit }
    } else {
        MicStepText::Stay
    }
}

/// What became of opening another microphone.
pub enum SwitchStep {
    /// End the recording.
    Finish,
    /// The microphone is in use: save the description, then report this.
    Switched(RecorderEvent),
    /// Keep the old microphone and report this.
    Report(RecorderEvent),
    /// Keep the old microphone.
    Stay,
}

/// The step that follows on opening another microphone.
pub open spec fn is_switch_step(
    opened: Result<String, String>,
    explicit: bool,
    cancelled: bool,
    at_sec: u64,
    step: SwitchStep,
) -> bool {
    match opened {
        Ok(device) => if cancelled {
            step is Finish
        } else {
            step matches SwitchStep::Switched(event) && event@ == (EventText::MicSwitched {
                device: device@,
                at_sec,
            })
        },
        Err(error) => if explicit {
            step matches SwitchStep::Report(event) && event@ == EventText::Warning(
                "Could not switch microphone: "@ + error@,
            )
        } else {
            step is Stay
        },
    }
}

/// What is reported of the levels: the levels themselves, and a warning if the microphone has
/// been silent all the time. With a warning, the description is saved before it is reported.
pub struct LevelStep {
    pub levels: RecorderEvent,
    pub warning: Option<RecorderEvent>,
}

/// The warning about a silent microphone.
pub open spec fn silence_warning(device: Seq<char>) -> Seq<char> {
    "Microphone \""@ + device + "\" is silent — check input device / permission"@
}

/// The warnings on record: that the microphone is silent, once, or nothing.
pub open spec fn low_level_warnings(warned: bool) -> Seq<Seq<char>> {
    if warned {
        seq!["mic_level_low"@]
    } else {
        Seq::empty()
    }
}

impl SessionText {
    /// Whether exactly what the user was warned of is on record.
    pub open spec fn warned_once(self) -> bool {
        self.meta.warnings == low_level_warnings(self.mic_warned)
    }

    /// Whether the user is to be warned of a silent microphone now.
    pub open spec fn warns_of_silence(self, elapsed_nanos: u128) -> bool {
        !self.mic_ever_ok && !levels::is_audible(self.mic_peak) && !self.mic_warned && elapsed_nanos
            >= MIC_SILENCE_GRACE
    }

    /// After the levels were reported.
    pub open spec fn after_levels(self, elapsed_nanos: u128) -> SessionText {
        SessionText {
            mic_ever_ok: self.mic_ever_ok || levels::is_audible(self.mic_peak),
            mic_warned: self.mic_warned || self.warns_of_silence(elapsed_nanos),
            meta: if self.warns_of_silence(elapsed_nanos) {
                recordings::warned(self.meta, "mic_level_low"@)
            } else {
                self.meta
            },
            mic_peak: 0,
            system_peak: 0,
            ..self
        }
    }

    /// The time that both tracks cover in the end, in nanoseconds.
    pub open spec fn final_nanos(self, elapsed_nanos: u128) -> int {
        timeline::at_most_u64(
            timeline::common_nanos(
                self.mic.samples(),
                self.mic.sample_rate,
                self.system.samples(),
                self.system.sample_rate,
                elapsed_nanos as int,
            ),
        )
    }

    /// How many samples a track has in the end.
    pub open spec fn target(self, track: Track, elapsed_nanos: u128) -> int {
        timeline::samples_in(track.sample_rate, self.final_nanos(elapsed_nanos))
    }

    /// A track as it is in the end, filled up with silence.
    pub open spec fn padded(self, track: Track, elapsed_nanos: u128) -> Track {
        Track {
            audio: track.audio + wav::silence(self.target(track, elapsed_nanos) - track.audio.len()),
            ..track
        }
    }

    /// Whether the tracks can be finished: their headers can state their lengths.
    pub open spec fn can_finish(self, elapsed_nanos: u128) -> bool {
        &&& self.target(self.mic, elapsed_nanos) <= wav::MAX_SAMPLES
        &&& self.target(self.system, elapsed_nanos) <= wav::MAX_SAMPLES
        &&& self.padded(self.mic, elapsed_nanos).has_header()
        &&& self.padded(self.system, elapsed_nanos).has_header()
    }

    /// The description of the recording when it is done.
    pub open spec fn done_meta(self, elapsed_nanos: u128) -> MetaText {
        let mic_secs = self.target(self.mic, elapsed_nanos) / self.mic.sample_rate as int;
        let system_secs = self.target(self.system, elapsed_nanos) / self.system.sample_rate as int;
        let done = MetaText {
            status: RecordingStatus::Done,
            duration_sec: timeline::larger(mic_secs, system_secs) as u64,
            ..self.meta
        };
        if !self.mic_ever_ok && !self.meta.warnings.contains("mic_level_low"@) {
            recordings::warned(done, "mic_level_low"@)
        } else {
            done
        }
    }
}

/// Why a recording cannot go on, if it cannot: the microphone failed, or the system audio did.
pub open spec fn audio_error(mic_failed: bool, system_error: Option<Seq<char>>) -> Option<
    Seq<char>,
> {
    if mic_failed {
        Some("microphone stream stopped"@)
    } else {
        system_error
    }
}

/// A track after a chunk was written where its capture time puts it.
pub open spec fn with_chunk(track: Track, origin: u64, captured: u64, samples: Seq<i16>) -> Track {
    let start = timeline::chunk_start(track.sample_rate, origin, captured);
    let current = track.samples();
    Track {
        audio: track.audio + wav::silence(timeline::gap_before(current, start)) + samples.skip(
            timeline::overlap(current, start, samples.len() as int),
        ),
        ..track
    }
}

impl Session {
    pub closed spec fn view(&self) -> SessionText {
        SessionText {
            folder: self.folder@,
            mic_override: text::opt_text(self.mic_override),
            mic_device: self.mic_device@,
            origin: self.origin,
            meta: self.meta@,
            mic: self.mic_wav@,
            system: self.system_wav@,
            mic_peak: self.mic_peak,
            system_peak: self.system_peak,
            mic_ever_ok: self.mic_ever_ok,
            mic_warned: self.mic_warned,
            system_input_rate: self.system_input_rate,
        }
    }

    /// What holds of every recording in progress.
    pub closed spec fn wf(&self) -> bool {
        &&& self.mic_wav.wf()
        &&& self.system_wav.wf()
        &&& is_rate(self.mic_wav@.sample_rate)
        &&& is_rate(self.system_wav@.sample_rate)
        &&& self@.warned_once()
    }

    /// What a caller may know of every recording in progress.
    pub proof fn lemma_wf(&self)
        requires
            self.wf(),
        ensures
            is_rate(self@.mic.sample_rate),
            is_rate(self@.system.sample_rate),
            self@.mic.stored <= self@.mic.audio.len(),
            self@.system.stored <= self@.system.audio.len(),
            self@.warned_once(),
    {
        self.mic_wav.lemma_wf();
        self.system_wav.lemma_wf();
    }

    /// The files and the description were written, unless there is an error: the start is
    /// announced, if it was not cancelled meanwhile.
    pub fn announce(&self, written: Result<(), String>, cancelled: bool) -> (r: Result<
        RecorderEvent,
        String,
    >)
        ensures
            error_of(r) == step_error(error_of(written), cancelled),
            r matches Ok(event) ==> event@ == (EventText::Started {
                folder: self@.folder,
                mic_device: self@.mic_device,
                system_device: self@.meta.system_device,
                started_at: self@.meta.started_at,
            }),
    {
        match written {
            Err(e) => Err(e),
            Ok(_) => match ensure_not_cancelled(cancelled) {
                Err(e) => Err(e),
                Ok(_) => Ok(
                    RecorderEvent::Started {
                        folder: self.folder.clone(),
                        mic_device: self.mic_device.clone(),
                        system_device: self.meta.devices.system.clone(),
                        started_at: self.meta.started_at,
                    },
                ),
            },
        }
    }

    /// The description of the recording as it is now.
    pub fn meta(&self) -> (r: &Meta)
        ensures
            r@ == self@.meta,
    {
        &self.meta
    }

    /// The sample rates of the microphone track and the system track.
    pub fn rates(&self) -> (r: (u32, u32))
        ensures
            r.0 == self@.mic.sample_rate,
            r.1 == self@.system.sample_rate,
    {
        (self.mic_wav.sample_rate(), self.system_wav.sample_rate())
    }

    /// The headers of both files at the start.
    pub fn headers(&self) -> (r: (Vec<u8>, Vec<u8>))
        requires
            self.wf(),
            self@.mic.has_header(),
            self@.system.has_header(),
        ensures
            r.0@ == wav::header_bytes(self@.mic.sample_rate as int, self@.mic.data_bytes()),
            r.1@ == wav::header_bytes(self@.system.sample_rate as int, self@.system.data_bytes()),
    {
        (self.mic_wav.write_header(), self.system_wav.write_header())
    }

    /// A command came in, or none will come any more.
    pub fn on_command(&mut self, command: Option<Command>, inputs: &[InputDevice]) -> (r: MicStep)
        requires
            old(self).wf(),
        ensures
            final(self).wf(),
            match command {
                Some(Command::SwitchMic(name)) => {
                    &&& final(self)@ == (SessionText {
                        mic_override: text::opt_text(name),
                        ..old(self)@
                    })
                    &&& r@ == (match devices::effective_choice(inputs@, text::opt_text(name)) {
                        Some(pick) => switch_to_pick(pick, old(self)@.mic_device, true),
                        None => MicStepText::Report(
                            EventText::Warning("Selected microphone is not available"@),
                        ),
                    })
                },
                _ => r@ == MicStepText::Finish && final(self)@ == old(self)@,
            },
    {
        match command {
            Some(Command::SwitchMic(name)) => {
                self.mic_override = name;
                match devices::resolve_setting(inputs, &self.mic_override) {
                    Some(pick) => {
                        if text::same(pick.name.as_str(), self.mic_device.as_str()) {
                            MicStep::Stay
                        } else {
                            MicStep::SwitchTo { name: pick.name, explicit: true }
                        }
                    },
                    None => MicStep::Report(
                        RecorderEvent::Warning("Selected microphone is not available".to_owned()),
                    ),
                }
            },
            _ => MicStep::Finish,
        }
    }

    /// The default input is looked at. It matters only where no microphone was chosen.
    pub fn on_device_tick(&self, inputs: &[InputDevice]) -> (r: MicStep)
        ensures
            r@ == (match devices::automatic_choice(inputs@) {
                Some(pick) if self@.mic_override is None => switch_to_pick(
                    pick,
                    self@.mic_device,
                    false,
                ),
                _ => MicStepText::Stay,
            }),
    {
        if self.mic_override.is_some() {
            return MicStep::Stay;
        }
        match devices::automatic_mic(inputs) {
            Some(pick) => {
                if text::same(pick.name.as_str(), self.mic_device.as_str()) {
                    MicStep::Stay
                } else {
                    MicStep::SwitchTo { name: pick.name, explicit: false }
                }
            },
            None => MicStep::Stay,
        }
    }

    /// Another microphone was opened, or not. A cancelled start ends the recording.
    pub fn on_mic_opened(
        &mut self,
        opened: Result<String, String>,
        explicit: bool,
        cancelled: bool,
        at_sec: u64,
    ) -> (r: SwitchStep)
        requires
            old(self).wf(),
        ensures
            final(self).wf(),
            is_switch_step(opened, explicit, cancelled, at_sec, r),
            final(self)@ == (match opened {
                Ok(device) if !cancelled => SessionText {
                    mic_device: device@,
                    meta: recordings::switched(old(self)@.meta, at_sec, device@),
                    ..old(self)@
                },
                _ => old(self)@,
            }),
    {
        match opened {
            Ok(device) => {
                if cancelled {
                    return SwitchStep::Finish;
                }
                self.meta.switch_to(at_sec, device.as_str());
                let event = RecorderEvent::MicSwitched { device: device.clone(), at_sec };
                self.mic_device = device;
                SwitchStep::Switched(event)
            },
            Err(error) => {
                if explicit {
                    let mut message = "Could not switch microphone: ".to_owned();
                    message.append(error.as_str());
                    SwitchStep::Report(RecorderEvent::Warning(message))
                } else {
                    SwitchStep::Stay
                }
            },
        }
    }

    /// Whether a chunk captured at a time can be placed on both tracks.
    pub fn can_place(&self, captured: u64) -> (r: bool)
        ensures
            r == (timeline::chunk_start(self@.mic.sample_rate, self@.origin, captured)
                <= wav::MAX_SAMPLES && timeline::chunk_start(
                self@.system.sample_rate,
                self@.origin,
                captured,
            ) <= wav::MAX_SAMPLES),
    {
        if captured < self.origin {
            return true;
        }
        let late: u64 = captured - self.origin;
        timeline::samples_for_nanos(self.mic_wav.sample_rate(), late) <= wav::MAX_SAMPLES
            && timeline::samples_for_nanos(self.system_wav.sample_rate(), late) <= wav::MAX_SAMPLES
    }

    /// A chunk of the microphone: its samples as levels and as they are written.
    pub fn drain_mic(&mut self, captured: u64, levels: &[u32], samples: &[i16])
        requires
            old(self).wf(),
            timeline::chunk_start(old(self)@.mic.sample_rate, old(self)@.origin, captured)
                <= wav::MAX_SAMPLES,
        ensures
            final(self).wf(),
            final(self)@ == (SessionText {
                mic_peak: levels::loudest(old(self)@.mic_peak, levels@),
                mic: with_chunk(old(self)@.mic, old(self)@.origin, captured, samples@),
                ..old(self)@
            }),
            old(self)@.mic.audio.len() <= wav::MAX_SAMPLES ==> ({
                let before = old(self)@.mic.audio;
                let after = final(self)@.mic.audio;
                let start = timeline::chunk_start(
                    old(self)@.mic.sample_rate,
                    old(self)@.origin,
                    captured,
                );
                &&& before.is_prefix_of(after)
                &&& after.len() == timeline::larger(before.len() as int, start + samples@.len())
                &&& forall|k: int| before.len() <= k < start ==> #[trigger] after[k] == 0
                &&& forall|i: int|
                    0 <= i < samples@.len() && before.len() <= start + i ==> after[start + i]
                        == #[trigger] samples@[i]
            }),
    {
        proof {
            if self@.mic.audio.len() <= wav::MAX_SAMPLES {
                law_chunk_lands_at_its_capture_time(
                    self@.mic,
                    with_chunk(self@.mic, self@.origin, captured, samples@),
                    self@.origin,
                    captured,
                    samples@,
                );
            }
        }
        self.mic_peak = levels::peak_of(self.mic_peak, levels);
        let rate = self.mic_wav.sample_rate();
        wav::write_timed_samples(&mut self.mic_wav, rate, self.origin, captured, samples);
    }

    /// System audio arrives at a sample rate. Tells whether it is a new one.
    pub fn note_system_rate(&mut self, rate: u32) -> (r: bool)
        requires
            old(self).wf(),
        ensures
            final(self).wf(),
            r == (rate != old(self)@.system_input_rate),
            final(self)@ == (SessionText { system_input_rate: rate, ..old(self)@ }),
    {
        let changed = rate != self.system_input_rate;
        self.system_input_rate = rate;
        changed
    }

    /// A chunk of system audio: its samples as levels and as they are written.
    pub fn drain_system(&mut self, captured: u64, levels: &[u32], samples: &[i16])
        requires
            old(self).wf(),
            timeline::chunk_start(old(self)@.system.sample_rate, old(self)@.origin, captured)
                <= wav::MAX_SAMPLES,
        ensures
            final(self).wf(),
            final(self)@ == (SessionText {
                system_peak: levels::loudest(old(self)@.system_peak, levels@),
                system: with_chunk(old(self)@.system, old(self)@.origin, captured, samples@),
                ..old(self)@
            }),
            old(self)@.system.audio.len() <= wav::MAX_SAMPLES ==> ({
                let before = old(self)@.system.audio;
                let after = final(self)@.system.audio;
                let start = timeline::chunk_start(
                    old(self)@.system.sample_rate,
                    old(self)@.origin,
                    captured,
                );
                &&& before.is_prefix_of(after)
                &&& after.len() == timeline::larger(before.len() as int, start + samples@.len())
                &&& forall|k: int| before.len() <= k < start ==> #[trigger] after[k] == 0
                &&& forall|i: int|
                    0 <= i < samples@.len() && before.len() <= start + i ==> after[start + i]
                        == #[trigger] samples@[i]
            }),
    {
        proof {
            if self@.system.audio.len() <= wav::MAX_SAMPLES {
                law_chunk_lands_at_its_capture_time(
                    self@.system,
                    with_chunk(self@.system, self@.origin, captured, samples@),
                    self@.origin,
                    captured,
                    samples@,
                );
            }
        }
        self.system_peak = levels::peak_of(self.system_peak, levels);
        let rate = self.system_wav.sample_rate();
        wav::write_timed_samples(&mut self.system_wav, rate, self.origin, captured, samples);
    }

    /// The audio that is not stored yet, of the microphone track and of the system track.
    pub fn take_pending(&mut self) -> (r: (Vec<u8>, Vec<u8>))
        requires
            old(self).wf(),
        ensures
            final(self).wf(),
            r.0@ == wav::pcm_bytes(old(self)@.mic.audio.skip(old(self)@.mic.stored as int)),
            r.1@ == wav::pcm_bytes(old(self)@.system.audio.skip(old(self)@.system.stored as int)),
            final(self)@ == (SessionText {
                mic: Track { stored: old(self)@.mic.audio.len(), ..old(self)@.mic },
                system: Track { stored: old(self)@.system.audio.len(), ..old(self)@.system },
                ..old(self)@
            }),
    {
        (self.mic_wav.take_pending(), self.system_wav.take_pending())
    }

    /// After both inputs were drained: a recording goes on as long as both of them work.
    pub fn on_audio(&self, mic_failed: bool, system_error: Option<String>) -> (r: Result<
        (),
        String,
    >)
        ensures
            error_of(r) == audio_error(mic_failed, text::opt_text(system_error)),
    {
        if mic_failed {
            return Err("microphone stream stopped".to_owned());
        }
        match system_error {
            Some(error) => Err(error),
            None => Ok(()),
        }
    }

    /// Reports the levels, and warns once of a microphone that has been silent all the time.
    pub fn on_levels(&mut self, elapsed_nanos: u128) -> (r: LevelStep)
        requires
            old(self).wf(),
        ensures
            final(self).wf(),
            final(self)@ == old(self)@.after_levels(elapsed_nanos),
            r.levels@ == (EventText::Levels {
                mic: old(self)@.mic_peak,
                system: old(self)@.system_peak,
            }),
            match r.warning {
                Some(event) => old(self)@.warns_of_silence(elapsed_nanos) && event@
                    == EventText::Warning(silence_warning(old(self)@.mic_device)),
                None => !old(self)@.warns_of_silence(elapsed_nanos),
            },
    {
        let levels = RecorderEvent::Levels { mic: self.mic_peak, system: self.system_peak };
        if levels::audible(self.mic_peak) {
            self.mic_ever_ok = true;
        }
        let mut warning: Option<RecorderEvent> = None;
        if !self.mic_ever_ok && !self.mic_warned && elapsed_nanos >= MIC_SILENCE_GRACE {
            self.mic_warned = true;
            self.meta.warn("mic_level_low".to_owned());
            let mut message = "Microphone \"".to_owned();
            message.append(self.mic_device.as_str());
            message.append("\" is silent — check input device / permission");
            warning = Some(RecorderEvent::Warning(message));
        }
        self.mic_peak = 0;
        self.system_peak = 0;
        LevelStep { levels, warning }
    }

    /// Whether the headers can state the lengths of both tracks.
    pub fn can_flush(&self) -> (r: bool)
        requires
            self.wf(),
        ensures
            r == (self@.mic.has_header() && self@.system.has_header()),
    {
        self.mic_wav.fits_header() && self.system_wav.fits_header()
    }

    /// Brings the files up to date, of the microphone first. The description is saved after that.
    pub fn on_flush(&mut self, elapsed_secs: u64) -> (r: (FlushPlan, FlushPlan))
        requires
            old(self).wf(),
            old(self)@.mic.has_header(),
            old(self)@.system.has_header(),
        ensures
            final(self).wf(),
            final(self)@ == (SessionText {
                mic: Track { stored: old(self)@.mic.audio.len(), ..old(self)@.mic },
                system: Track { stored: old(self)@.system.audio.len(), ..old(self)@.system },
                meta: MetaText { duration_sec: elapsed_secs, ..old(self)@.meta },
                ..old(self)@
            }),
            is_flush_of(r.0, old(self)@.mic),
            is_flush_of(r.1, old(self)@.system),
    {
        let mic = self.mic_wav.flush();
        let system = self.system_wav.flush();
        self.meta.duration_sec = elapsed_secs;
        (mic, system)
    }

    /// Whether the tracks can be finished.
    pub fn fits(&self, elapsed_nanos: u128) -> (r: bool)
        requires
            self.wf(),
        ensures
            r == self@.can_finish(elapsed_nanos),
    {
        let (mic_target, system_target) = timeline::aligned_target_samples(
            self.mic_wav.samples(),
            self.mic_wav.sample_rate(),
            self.system_wav.samples(),
            self.system_wav.sample_rate(),
            elapsed_nanos,
        );
        let most: u64 = wav::MAX_HEADER_SAMPLES;
        mic_target <= most && system_target <= most && self.mic_wav.fits_header()
            && self.system_wav.fits_header()
    }

    /// Ends the recording, after both inputs were stopped and drained: both tracks are filled up
    /// to the same length, and the description says that the recording is done.
    pub fn finish(self, elapsed_nanos: u128) -> (r: Finished)
        requires
            self.wf(),
            self@.can_finish(elapsed_nanos),
        ensures
            is_flush_of(r.mic, self@.padded(self@.mic, elapsed_nanos)),
            is_flush_of(r.system, self@.padded(self@.system, elapsed_nanos)),
            r.meta@ == self@.done_meta(elapsed_nanos),
            r.folder@ == self@.folder,
            r.meta.duration_sec * 1_000_000_000 < self@.final_nanos(elapsed_nanos) + 1_000_000_000,
            self@.final_nanos(elapsed_nanos) < (r.meta.duration_sec + 1) * 1_000_000_000,
    {
        let ghost before = self@;
        proof {
            law_duration_is_the_common_length(self@, elapsed_nanos);
        }
        let mut mic_wav = self.mic_wav;
        let mut system_wav = self.system_wav;
        let mic_rate: u32 = mic_wav.sample_rate();
        let system_rate: u32 = system_wav.sample_rate();
        let (mic_target, system_target) = timeline::aligned_target_samples(
            mic_wav.samples(),
            mic_rate,
            system_wav.samples(),
            system_rate,
            elapsed_nanos,
        );
        wav::pad_to_samples(&mut mic_wav, mic_target);
        wav::pad_to_samples(&mut system_wav, system_target);
        let mic = mic_wav.finalize();
        let system = system_wav.finalize();
        let mut meta = self.meta;
        let mic_secs: u64 = mic_target / mic_rate as u64;
        let system_secs: u64 = system_target / system_rate as u64;
        meta.status = RecordingStatus::Done;
        meta.duration_sec = if mic_secs > system_secs {
            mic_secs
        } else {
            system_secs
        };
        if !self.mic_ever_ok && !meta.has_warning("mic_level_low") {
            meta.warn("mic_level_low".to_owned());
        }
        assert(meta@ =~= before.done_meta(elapsed_nanos));
        Finished { mic, system, meta, folder: self.folder }
    }
}

/// Whether a flush writes what is missing of a track and the header for all of it.
pub open spec fn is_flush_of(plan: FlushPlan, track: Track) -> bool {
    &&& plan.data@ == wav::pcm_bytes(track.audio.skip(track.stored as int))
    &&& plan.header@ == wav::header_bytes(track.sample_rate as int, track.data_bytes())
    &&& plan.end == wav::HEADER_LEN + track.data_bytes()
}

/// A recording that has ended: what is still to be written to both files, which are then synced,
/// and to the description.
pub struct Finished {
    pub mic: FlushPlan,
    pub system: FlushPlan,
    pub meta: Meta,
    pub folder: String,
}

impl Finished {
    /// Both files and the description were written, unless there is an error. Only then has the
    /// recording stopped.
    pub fn stopped(self, written: Result<(), String>) -> (r: Result<RecorderEvent, String>)
        ensures
            error_of(r) == error_of(written),
            r matches Ok(event) ==> event@ == (EventText::Stopped {
                folder: self.folder@,
                duration_sec: self.meta.duration_sec,
            }),
    {
        match written {
            Err(e) => Err(e),
            Ok(_) => Ok(
                RecorderEvent::Stopped {
                    folder: self.folder,
                    duration_sec: self.meta.duration_sec,
                },
            ),
        }
    }
}

/// The last event of a recording that ended with an error. If the start was cancelled, the folder
/// goes; if not, the folder is marked as failed.
pub fn conclude(folder: String, error: String, cancelled: bool) -> (r: RecorderEvent)
    ensures
        r@ == (if cancelled {
            EventText::Cancelled { folder: folder@ }
        } else {
            EventText::Failed { folder: folder@, error: error@ }
        }),
{
    if cancelled {
        RecorderEvent::Cancelled { folder }
    } else {
        RecorderEvent::Failed { folder, error }
    }
}

/// A file that held what was stored of a track, under whatever header, plays back the whole track
/// once a flush was written to it.
pub proof fn law_flushed_file_plays_back(file: Seq<u8>, track: Track, plan: FlushPlan)
    requires
        is_flush_of(plan, track),
        track.has_header(),
        is_rate(track.sample_rate),
        track.stored <= track.audio.len(),
        file.len() >= wav::HEADER_LEN,
        file.skip(wav::HEADER_LEN as int) == wav::pcm_bytes(track.audio.take(track.stored as int)),
    ensures
        wav::plays(
            wav::after_flush(file, plan.data@, plan.header@),
            track.sample_rate,
            track.audio,
        ),
{
    wav::law_flush_completes_the_file(file, track);
    wav::law_file_plays_back(track);
}

/// A chunk is written where its capture time puts it, on a track of any length that a header can
/// state. The earlier audio is kept. Each sample whose place is not yet taken stands at its place,
/// and between the former end and the chunk there is silence.
pub proof fn law_chunk_lands_at_its_capture_time(
    before: Track,
    after: Track,
    origin: u64,
    captured: u64,
    samples: Seq<i16>,
)
    requires
        before.audio.len() <= wav::MAX_SAMPLES,
        after == with_chunk(before, origin, captured, samples),
    ensures
        after.sample_rate == before.sample_rate,
        after.stored == before.stored,
        before.audio.is_prefix_of(after.audio),
        ({
            let start = timeline::chunk_start(before.sample_rate, origin, captured);
            &&& after.audio.len() == timeline::larger(
                before.audio.len() as int,
                start + samples.len(),
            )
            &&& forall|k: int| before.audio.len() <= k < start ==> #[trigger] after.audio[k] == 0
            &&& forall|i: int|
                0 <= i < samples.len() && before.audio.len() <= start + i ==> after.audio[start + i]
                    == #[trigger] samples[i]
        }),
{
    let start = timeline::chunk_start(before.sample_rate, origin, captured);
    wav::law_chunk_keeps_its_time(before.audio, start, samples);
}

/// The duration of a recording that is done is the whole number of seconds of the time that both
/// tracks cover, at whatever rates they have: a second less or more is not it.
pub proof fn law_duration_is_the_common_length(s: SessionText, elapsed_nanos: u128)
    requires
        s.can_finish(elapsed_nanos),
        is_rate(s.mic.sample_rate),
        is_rate(s.system.sample_rate),
    ensures
        s.done_meta(elapsed_nanos).duration_sec * 1_000_000_000 < s.final_nanos(elapsed_nanos)
            + 1_000_000_000,
        s.final_nanos(elapsed_nanos) < (s.done_meta(elapsed_nanos).duration_sec + 1)
            * 1_000_000_000,
{
    law_finished_tracks_end_together(s, elapsed_nanos);
    let t = s.final_nanos(elapsed_nanos);
    lemma_whole_seconds(s.target(s.mic, elapsed_nanos), s.mic.sample_rate as int, t);
    lemma_whole_seconds(s.target(s.system, elapsed_nanos), s.system.sample_rate as int, t);
}

/// Samples that last for `t` nanoseconds, rounded up, last for as many whole seconds.
proof fn lemma_whole_seconds(samples: int, rate: int, t: int)
    requires
        rate > 0,
        0 <= samples <= wav::MAX_SAMPLES,
        t * rate <= samples * 1_000_000_000 < t * rate + 1_000_000_000,
    ensures
        0 <= samples / rate <= samples,
        samples / rate * 1_000_000_000 < t + 1_000_000_000,
        t < (samples / rate + 1) * 1_000_000_000,
{
    let d = samples / rate;
    vstd::arithmetic::div_mod::lemma_fundamental_div_mod(samples, rate);
    vstd::arithmetic::div_mod::lemma_div_pos_is_pos(samples, rate);
    vstd::arithmetic::div_mod::lemma_div_nonincreasing(samples, rate);
    assert(0 <= samples % rate < rate) by (nonlinear_arith)
        requires
            rate > 0,
    ;
    assert(d * 1_000_000_000 < t + 1_000_000_000) by (nonlinear_arith)
        requires
            rate > 0,
            rate * d <= samples,
            samples * 1_000_000_000 < t * rate + 1_000_000_000,
    ;
    assert(t < (d + 1) * 1_000_000_000) by (nonlinear_arith)
        requires
            rate > 0,
            samples < rate * d + rate,
            t * rate <= samples * 1_000_000_000,
    ;
}

/// In the end both tracks cover the same time, to within one sample of each, and no less than the
/// time that the recording took. All that was recorded is kept, and what is added is silence. At
/// equal sample rates both tracks have the same number of samples.
pub proof fn law_finished_tracks_end_together(s: SessionText, elapsed_nanos: u128)
    requires
        s.can_finish(elapsed_nanos),
        is_rate(s.mic.sample_rate),
        is_rate(s.system.sample_rate),
    ensures
        ({
            let t = s.final_nanos(elapsed_nanos);
            let mic = s.padded(s.mic, elapsed_nanos);
            let system = s.padded(s.system, elapsed_nanos);
            &&& t >= elapsed_nanos
            &&& t * mic.sample_rate <= mic.audio.len() * 1_000_000_000 < t * mic.sample_rate
                + 1_000_000_000
            &&& t * system.sample_rate <= system.audio.len() * 1_000_000_000 < t
                * system.sample_rate + 1_000_000_000
            &&& s.mic.audio.is_prefix_of(mic.audio)
            &&& s.system.audio.is_prefix_of(system.audio)
            &&& forall|k: int| s.mic.audio.len() <= k < mic.audio.len() ==> mic.audio[k] == 0
            &&& forall|k: int|
                s.system.audio.len() <= k < system.audio.len() ==> system.audio[k] == 0
            &&& mic.sample_rate == system.sample_rate ==> mic.audio.len() == system.audio.len()
        }),
{
    let common = timeline::common_nanos(
        s.mic.samples(),
        s.mic.sample_rate,
        s.system.samples(),
        s.system.sample_rate,
        elapsed_nanos as int,
    );
    lemma_target_is_exact(common, s.mic.sample_rate);
    lemma_target_is_exact(common, s.system.sample_rate);
    timeline::law_tracks_end_together(
        s.mic.samples() as u64,
        s.mic.sample_rate,
        s.system.samples() as u64,
        s.system.sample_rate,
        elapsed_nanos,
    );
}

/// A target that a track can hold was not cut off.
proof fn lemma_target_is_exact(common: int, rate: u32)
    requires
        rate > 0,
        common >= 0,
        timeline::samples_in(rate, timeline::at_most_u64(common)) <= wav::MAX_SAMPLES,
    ensures
        common <= u64::MAX,
        timeline::ceil_div(common * rate, timeline::NANOS_PER_SEC as int) <= u64::MAX,
{
    if common > u64::MAX {
        assert(u64::MAX * rate >= u64::MAX) by (nonlinear_arith)
            requires
                rate >= 1,
        ;
    }
}

/// A microphone that was never heard is on record when the recording is done; one that was heard
/// adds nothing to the record.
pub proof fn law_silent_mic_is_on_record(s: SessionText, elapsed_nanos: u128)
    ensures
        s.done_meta(elapsed_nanos).status == RecordingStatus::Done,
        !s.mic_ever_ok ==> s.done_meta(elapsed_nanos).warnings.contains("mic_level_low"@),
        s.mic_ever_ok ==> s.done_meta(elapsed_nanos).warnings == s.meta.warnings,
        s.meta.warnings.is_prefix_of(s.done_meta(elapsed_nanos).warnings),
{
    let warnings = s.meta.warnings;
    if !s.mic_ever_ok && !warnings.contains("mic_level_low"@) {
        let after = warnings.push("mic_level_low"@);
        assert(after[warnings.len() as int] == "mic_level_low"@);
    }
}

/// That the microphone is silent is on record at most once: not before the user was warned of it,
/// once after that, and once in the end if the user was warned or the microphone was never heard.
pub proof fn law_silence_is_on_record_once(s: SessionText, elapsed_nanos: u128)
    requires
        s.warned_once(),
    ensures
        s.after_levels(elapsed_nanos).warned_once(),
        !s.mic_warned ==> s.meta.warnings.len() == 0,
        s.mic_warned ==> s.meta.warnings == seq!["mic_level_low"@],
        s.done_meta(elapsed_nanos).warnings == low_level_warnings(
            s.mic_warned || !s.mic_ever_ok,
        ),
{
    if s.warns_of_silence(elapsed_nanos) {
        assert(s.after_levels(elapsed_nanos).meta.warnings =~= low_level_warnings(true));
    }
    if s.mic_warned {
        assert(s.meta.warnings[0] == "mic_level_low"@);
    }
    assert(s.done_meta(elapsed_nanos).warnings =~= low_level_warnings(
        s.mic_warned || !s.mic_ever_ok,
    ));
}

/// The user is warned of a silent microphone at most once, not before the grace period is over,
/// and never once it was heard.
pub proof fn law_silence_is_warned_of_once(s: SessionText, now: u128, later: u128)
    ensures
        s.warns_of_silence(now) ==> now >= MIC_SILENCE_GRACE && !s.mic_ever_ok,
        s.warns_of_silence(now) ==> !s.after_levels(now).warns_of_silence(later),
        s.mic_ever_ok ==> !s.after_levels(now).warns_of_silence(later),
        levels::is_audible(s.mic_peak) ==> s.after_levels(now).mic_ever_ok,
{
}

/// A switch of the microphone is put on record behind the earlier ones, and changes nothing else
/// of what is on record.
pub proof fn law_switch_is_on_record(meta: MetaText, at_sec: u64, device: Seq<char>)
    ensures
        recordings::switched(meta, at_sec, device).switches.last() == (at_sec, device),
        meta.switches.is_prefix_of(recordings::switched(meta, at_sec, device).switches),
        recordings::switched(meta, at_sec, device).warnings == meta.warnings,
        recordings::switched(meta, at_sec, device).sample_rate == meta.sample_rate,
        recordings::switched(meta, at_sec, device).switches.len() == meta.switches.len() + 1,
        recordings::switched(meta, at_sec, device).status == meta.status,
        recordings::switched(meta, at_sec, device).started_at == meta.started_at,
        recordings::switched(meta, at_sec, device).duration_sec == meta.duration_sec,
        recordings::switched(meta, at_sec, device).mic_device == meta.mic_device,
        recordings::switched(meta, at_sec, device).system_device == meta.system_device,
{
}

/// Every error of the capture callback ends the recording, a change of the format with the words
/// that say so.
pub proof fn law_callback_errors_end_the_recording(code: u32, mic_failed: bool)
    requires
        code != tap::CALLBACK_ERROR_NONE,
    ensures
        audio_error(mic_failed, tap::error_text(code)) is Some,
        audio_error(false, tap::error_text(tap::CALLBACK_ERROR_FORMAT_CHANGED)) == Some(
            "System audio format changed during recording; start a new recording"@,
        ),
        audio_error(false, tap::error_text(tap::CALLBACK_ERROR_NONE)) is None,
{
}

/// The time that both tracks cover in the end is no longer than it has to be: it is the time that
/// the recording took, or a nanosecond less would not hold one of the tracks.
pub proof fn law_finished_length_is_the_least(s: SessionText, elapsed_nanos: u128)
    requires
        s.can_finish(elapsed_nanos),
        is_rate(s.mic.sample_rate),
        is_rate(s.system.sample_rate),
    ensures
        ({
            let t = s.final_nanos(elapsed_nanos);
            &&& t >= elapsed_nanos
            &&& t * s.mic.sample_rate >= s.mic.audio.len() * 1_000_000_000
            &&& t * s.system.sample_rate >= s.system.audio.len() * 1_000_000_000
            &&& t == elapsed_nanos || (t - 1) * s.mic.sample_rate < s.mic.audio.len()
                * 1_000_000_000 || (t - 1) * s.system.sample_rate < s.system.audio.len()
                * 1_000_000_000
        }),
{
    let common = timeline::common_nanos(
        s.mic.samples(),
        s.mic.sample_rate,
        s.system.samples(),
        s.system.sample_rate,
        elapsed_nanos as int,
    );
    lemma_target_is_exact(common, s.mic.sample_rate);
    timeline::law_common_length_is_the_least(
        s.mic.samples() as u64,
        s.mic.sample_rate,
        s.system.samples() as u64,
        s.system.sample_rate,
        elapsed_nanos,
    );
}

/// A recording that is done is described as it was, but for its state, its duration and the
/// warning about a silent microphone.
pub proof fn law_done_recording_keeps_its_description(s: SessionText, elapsed_nanos: u128)
    ensures
        ({
            let done = s.done_meta(elapsed_nanos);
            &&& done.status == RecordingStatus::Done
            &&& done.started_at == s.meta.started_at
            &&& done.sample_rate == s.meta.sample_rate
            &&& done.mic_track == s.meta.mic_track
            &&& done.system_track == s.meta.system_track
            &&& done.mic_device == s.meta.mic_device
            &&& done.system_device == s.meta.system_device
            &&& done.switches == s.meta.switches
        }),
{
}

/// After a report of the levels the peaks start anew, and nothing else changes but what is known
/// of the silence of the microphone. The user is warned exactly if eight seconds have passed, the
/// microphone was not heard before or now, and there was no warning yet.
pub proof fn law_levels_are_reported_once(s: SessionText, elapsed_nanos: u128)
    ensures
        ({
            let after = s.after_levels(elapsed_nanos);
            let heard = levels::LEVEL_OK_THRESHOLD <= s.mic_peak <= levels::INFINITE;
            let warns = s.warns_of_silence(elapsed_nanos);
            &&& warns <==> elapsed_nanos >= 8_000_000_000 && !s.mic_ever_ok && !heard
                && !s.mic_warned
            &&& after.mic_peak == 0
            &&& after.system_peak == 0
            &&& after.mic_ever_ok <==> s.mic_ever_ok || heard
            &&& after.mic_warned <==> s.mic_warned || warns
            &&& !warns ==> after.meta == s.meta
            &&& warns ==> after.meta.warnings == s.meta.warnings.push("mic_level_low"@)
                && after.meta.status == s.meta.status && after.meta.duration_sec
                == s.meta.duration_sec && after.meta.started_at == s.meta.started_at
                && after.meta.switches == s.meta.switches
            &&& after.mic == s.mic
            &&& after.system == s.system
            &&& after.folder == s.folder
            &&& after.origin == s.origin
            &&& after.mic_device == s.mic_device
            &&& after.mic_override == s.mic_override
            &&& after.system_input_rate == s.system_input_rate
        }),
{
}

/// A recording begins with two empty tracks at the rates of their devices, and is described by
/// what it was started with. Nothing was heard yet and nobody was warned.
pub proof fn law_recording_begins_empty(start: StartText, started_at: Stamp, origin: u64)
    ensures
        ({
            let s = fresh_session(start, started_at, origin);
            &&& s.mic.audio.len() == 0
            &&& s.system.audio.len() == 0
            &&& s.mic.stored == 0
            &&& s.system.stored == 0
            &&& s.mic.sample_rate == start.mic_rate
            &&& s.system.sample_rate == start.system_rate
            &&& s.system_input_rate == start.system_rate
            &&& s.folder == start.folder
            &&& s.mic_override == start.mic_override
            &&& s.mic_device == start.mic_device
            &&& s.origin == origin
            &&& s.mic_peak == 0
            &&& s.system_peak == 0
            &&& !s.mic_ever_ok
            &&& !s.mic_warned
            &&& s.meta.status == RecordingStatus::Recording
            &&& s.meta.started_at == started_at
            &&& s.meta.sample_rate == start.mic_rate
            &&& s.meta.mic_device == start.mic_device
            &&& s.meta.system_device == start.system_device
            &&& s.meta.duration_sec == 0
            &&& s.meta.warnings.len() == 0
            &&& s.meta.switches.len() == 0
        }),
{
}

/// A step of the start fails exactly if it has an error or the start was cancelled, and its own
/// error comes before the cancellation.
pub proof fn law_step_fails_for_its_own_reason(error: Option<Seq<char>>, cancelled: bool)
    ensures
        step_error(error, cancelled) is None <==> error is None && !cancelled,
        error is Some ==> step_error(error, cancelled) == error,
        error is None && cancelled ==> step_error(error, cancelled) == Some(
            "recording start cancelled"@,
        ),
{
}

/// A recording goes on exactly if both inputs work. A microphone that failed is the reason before
/// an error of the system audio.
pub proof fn law_recording_goes_on_while_both_inputs_work(
    mic_failed: bool,
    system_error: Option<Seq<char>>,
)
    ensures
        audio_error(mic_failed, system_error) is None <==> !mic_failed && system_error is None,
        mic_failed ==> audio_error(mic_failed, system_error) == Some("microphone stream stopped"@),
        !mic_failed ==> audio_error(mic_failed, system_error) == system_error,
{
}

/// A microphone is switched to exactly if it is not the one in use, under its own name.
pub proof fn law_mic_in_use_is_kept(pick: InputDevice, in_use: Seq<char>, explicit: bool)
    ensures
        pick.name@ == in_use ==> switch_to_pick(pick, in_use, explicit) == MicStepText::Stay,
        pick.name@ != in_use ==> switch_to_pick(pick, in_use, explicit) == (MicStepText::SwitchTo {
            name: pick.name@,
            explicit,
        }),
{
}

/// Once a microphone that was asked for could be opened, its switch is reported, unless the start
/// was cancelled meanwhile. One that could not be opened is reported only to a user who asked for
/// it, with the error.
pub proof fn law_switch_is_reported(
    opened: Result<String, String>,
    explicit: bool,
    cancelled: bool,
    at_sec: u64,
    step: SwitchStep,
)
    requires
        is_switch_step(opened, explicit, cancelled, at_sec, step),
    ensures
        opened is Ok && cancelled <==> step is Finish,
        opened is Ok && !cancelled <==> step is Switched,
        opened is Err && explicit <==> step is Report,
        opened is Err && !explicit <==> step is Stay,
        step is Switched ==> step->Switched_0@ == (EventText::MicSwitched {
            device: opened->Ok_0@,
            at_sec,
        }),
        step is Report ==> step->Report_0@ == EventText::Warning(
            "Could not switch microphone: "@ + opened->Err_0@,
        ),
{
}

/// The warning about a silent microphone names it between quotes.
pub proof fn law_silent_mic_is_named(device: Seq<char>)
    ensures
        silence_warning(device).take(12) == "Microphone \""@,
        silence_warning(device).subrange(12, 12 + device.len() as int) == device,
        silence_warning(device).skip(12 + device.len() as int)
            == "\" is silent — check input device / permission"@,
{
    reveal_strlit("Microphone \"");
    let t = silence_warning(device);
    let k = 12 + device.len() as int;
    assert(t.take(12) =~= "Microphone \""@);
    assert(t.subrange(12, k) =~= device);
    assert(t.skip(k) =~= "\" is silent — check input device / permission"@);
}

/// A flush leaves the file at the position behind all of the audio.
pub proof fn law_flush_ends_behind_the_audio(file: Seq<u8>, track: Track, plan: FlushPlan)
    requires
        is_flush_of(plan, track),
        track.has_header(),
        is_rate(track.sample_rate),
        track.stored <= track.audio.len(),
        file.len() >= wav::HEADER_LEN,
        file.skip(wav::HEADER_LEN as int) == wav::pcm_bytes(track.audio.take(track.stored as int)),
    ensures
        plan.end == wav::after_flush(file, plan.data@, plan.header@).len(),
        plan.end == 44 + 2 * track.audio.len(),
        plan.header@.len() == 44,
        plan.data@.len() == 2 * (track.audio.len() - track.stored),
{
    wav::law_flush_completes_the_file(file, track);
    wav::law_file_plays_back(track);
}

/// What taking in a chunk of the microphone does to a recording: on a track of any length that a
/// header can state, empty or not, the earlier audio is kept, each sample whose place is not yet
/// taken stands where the capture time puts it, and there is silence before the chunk. Nothing
/// but this track and its peak changes.
pub proof fn law_mic_chunk_lands_at_its_capture_time(
    session: &mut Session,
    captured: u64,
    levels: &[u32],
    samples: &[i16],
)
    requires
        old(session).wf(),
        timeline::chunk_start(old(session)@.mic.sample_rate, old(session)@.origin, captured)
            <= wav::MAX_SAMPLES,
        old(session)@.mic.audio.len() <= wav::MAX_SAMPLES,
        call_ensures(Session::drain_mic, (session, captured, levels, samples), ()),
    ensures
        ({
            let before = old(session)@;
            let after = final(session)@;
            let start = timeline::chunk_start(before.mic.sample_rate, before.origin, captured);
            &&& before.mic.audio.is_prefix_of(after.mic.audio)
            &&& after.mic.audio.len() == timeline::larger(
                before.mic.audio.len() as int,
                start + samples@.len(),
            )
            &&& forall|k: int|
                before.mic.audio.len() <= k < start ==> #[trigger] after.mic.audio[k] == 0
            &&& forall|i: int|
                0 <= i < samples@.len() && before.mic.audio.len() <= start + i
                    ==> after.mic.audio[start + i] == #[trigger] samples@[i]
            &&& after.mic.sample_rate == before.mic.sample_rate
            &&& after.mic.stored == before.mic.stored
            &&& before.mic_peak <= after.mic_peak
            &&& forall|i: int|
                0 <= i < levels@.len() && (#[trigger] levels@[i]) % 0x8000_0000 <= 0x7f80_0000
                    ==> levels@[i] % 0x8000_0000 <= after.mic_peak
            &&& after.system == before.system
            &&& after.system_peak == before.system_peak
            &&& after.meta == before.meta
            &&& after.origin == before.origin
            &&& after.folder == before.folder
        }),
{
    levels::law_peak_is_the_loudest(old(session)@.mic_peak, levels@);
}

/// What taking in a chunk of system audio does to a recording: on a track of any length that a
/// header can state, empty or not, the earlier audio is kept, each sample whose place is not yet
/// taken stands where the capture time puts it, and there is silence before the chunk. Nothing
/// but this track and its peak changes.
pub proof fn law_system_chunk_lands_at_its_capture_time(
    session: &mut Session,
    captured: u64,
    levels: &[u32],
    samples: &[i16],
)
    requires
        old(session).wf(),
        timeline::chunk_start(old(session)@.system.sample_rate, old(session)@.origin, captured)
            <= wav::MAX_SAMPLES,
        old(session)@.system.audio.len() <= wav::MAX_SAMPLES,
        call_ensures(Session::drain_system, (session, captured, levels, samples), ()),
    ensures
        ({
            let before = old(session)@;
            let after = final(session)@;
            let start = timeline::chunk_start(before.system.sample_rate, before.origin, captured);
            &&& before.system.audio.is_prefix_of(after.system.audio)
            &&& after.system.audio.len() == timeline::larger(
                before.system.audio.len() as int,
                start + samples@.len(),
            )
            &&& forall|k: int|
                before.system.audio.len() <= k < start ==> #[trigger] after.system.audio[k] == 0
            &&& forall|i: int|
                0 <= i < samples@.len() && before.system.audio.len() <= start + i
                    ==> after.system.audio[start + i] == #[trigger] samples@[i]
            &&& after.system.sample_rate == before.system.sample_rate
            &&& after.system.stored == before.system.stored
            &&& before.system_peak <= after.system_peak
            &&& forall|i: int|
                0 <= i < levels@.len() && (#[trigger] levels@[i]) % 0x8000_0000 <= 0x7f80_0000
                    ==> levels@[i] % 0x8000_0000 <= after.system_peak
            &&& after.mic == before.mic
            &&& after.mic_peak == before.mic_peak
            &&& after.meta == before.meta
            &&& after.origin == before.origin
            &&& after.folder == before.folder
        }),
{
    levels::law_peak_is_the_loudest(old(session)@.system_peak, levels@);
}

/// What the end of a recording says of it: its duration is the whole seconds of the time that both
/// tracks cover, at whatever rates they have. It is done, and is described as it was in all else.
pub proof fn law_finished_recording_says_how_long_it_is(
    session: Session,
    elapsed_nanos: u128,
    finished: Finished,
)
    requires
        session.wf(),
        session@.can_finish(elapsed_nanos),
        call_ensures(Session::finish, (session, elapsed_nanos), finished),
    ensures
        ({
            let t = session@.final_nanos(elapsed_nanos);
            &&& finished.meta.duration_sec * 1_000_000_000 < t + 1_000_000_000
            &&& t < (finished.meta.duration_sec + 1) * 1_000_000_000
            &&& t >= elapsed_nanos
            &&& t * session@.mic.sample_rate >= session@.mic.audio.len() * 1_000_000_000
            &&& t * session@.system.sample_rate >= session@.system.audio.len() * 1_000_000_000
            &&& t == elapsed_nanos || (t - 1) * session@.mic.sample_rate < session@.mic.audio.len()
                * 1_000_000_000 || (t - 1) * session@.system.sample_rate
                < session@.system.audio.len() * 1_000_000_000
        }),
        finished.meta.status == RecordingStatus::Done,
        finished.meta.started_at == session@.meta.started_at,
        finished.meta.sample_rate == session@.meta.sample_rate,
        finished.meta@.mic_device == session@.meta.mic_device,
        finished.meta@.system_device == session@.meta.system_device,
        finished.meta@.switches == session@.meta.switches,
        finished.folder@ == session@.folder,
{
    session.lemma_wf();
    law_finished_length_is_the_least(session@, elapsed_nanos);
}

/// What the end of a recording leaves in the files: each plays back the whole track, followed by
/// silence up to the time that both tracks cover.
pub proof fn law_finished_files_play_back(
    session: Session,
    elapsed_nanos: u128,
    finished: Finished,
    mic_file: Seq<u8>,
    system_file: Seq<u8>,
) -> (audio: (Seq<i16>, Seq<i16>))
    requires
        session.wf(),
        session@.can_finish(elapsed_nanos),
        call_ensures(Session::finish, (session, elapsed_nanos), finished),
        mic_file.len() >= wav::HEADER_LEN,
        mic_file.skip(wav::HEADER_LEN as int) == wav::pcm_bytes(
            session@.mic.audio.take(session@.mic.stored as int),
        ),
        system_file.len() >= wav::HEADER_LEN,
        system_file.skip(wav::HEADER_LEN as int) == wav::pcm_bytes(
            session@.system.audio.take(session@.system.stored as int),
        ),
    ensures
        wav::plays(
            wav::after_flush(mic_file, finished.mic.data@, finished.mic.header@),
            session@.mic.sample_rate,
            audio.0,
        ),
        wav::plays(
            wav::after_flush(system_file, finished.system.data@, finished.system.header@),
            session@.system.sample_rate,
            audio.1,
        ),
        session@.mic.audio.is_prefix_of(audio.0),
        session@.system.audio.is_prefix_of(audio.1),
        forall|k: int| session@.mic.audio.len() <= k < audio.0.len() ==> #[trigger] audio.0[k] == 0,
        forall|k: int|
            session@.system.audio.len() <= k < audio.1.len() ==> #[trigger] audio.1[k] == 0,
        ({
            let t = session@.final_nanos(elapsed_nanos);
            let mic_rate = session@.mic.sample_rate;
            let system_rate = session@.system.sample_rate;
            &&& t * mic_rate <= audio.0.len() * 1_000_000_000 < t * mic_rate + 1_000_000_000
            &&& t * system_rate <= audio.1.len() * 1_000_000_000 < t * system_rate + 1_000_000_000
        }),
{
    session.lemma_wf();
    law_finished_tracks_end_together(session@, elapsed_nanos);
    let mic = session@.padded(session@.mic, elapsed_nanos);
    let system = session@.padded(session@.system, elapsed_nanos);
    assert(mic.audio.take(mic.stored as int) =~= session@.mic.audio.take(mic.stored as int));
    assert(system.audio.take(system.stored as int) =~= session@.system.audio.take(
        system.stored as int,
    ));
    law_flushed_file_plays_back(mic_file, mic, finished.mic);
    law_flushed_file_plays_back(system_file, system, finished.system);
    (mic.audio, system.audio)
}

/// A recording that ended with an error is told as cancelled exactly if its start was, and
/// otherwise as failed with that error.
pub proof fn law_failed_recording_is_told(
    folder: String,
    error: String,
    cancelled: bool,
    event: RecorderEvent,
)
    requires
        call_ensures(conclude, (folder, error, cancelled), event),
    ensures
        cancelled ==> event@ == (EventText::Cancelled { folder: folder@ }),
        !cancelled ==> event@ == (EventText::Failed { folder: folder@, error: error@ }),
{
}

/// A command to use another microphone is obeyed if there is such a microphone and it is not in
/// use, and reported if there is none. Every other command, and the end of all commands, ends the
/// recording.
pub proof fn law_commands_are_obeyed(
    session: &mut Session,
    command: Option<Command>,
    inputs: &[InputDevice],
    step: MicStep,
)
    requires
        old(session).wf(),
        call_ensures(Session::on_command, (session, command, inputs), step),
    ensures
        !(command is Some && command->0 is SwitchMic) ==> step is Finish && final(session)@
            == old(session)@,
        command is Some && command->0 is SwitchMic ==> ({
            let name = text::opt_text(command->0->SwitchMic_0);
            &&& !(step is Finish)
            &&& final(session)@.mic_override == name
            &&& final(session)@.mic_device == old(session)@.mic_device
            &&& final(session)@.mic == old(session)@.mic
            &&& final(session)@.system == old(session)@.system
            &&& final(session)@.meta == old(session)@.meta
            &&& step is Report <==> match name {
                Some(n) => forall|i: int| 0 <= i < inputs@.len() ==> (#[trigger] inputs@[i]).name@
                    != n,
                None => forall|i: int| 0 <= i < inputs@.len() ==> (#[trigger] inputs@[i]).is_virtual,
            }
            &&& step matches MicStep::SwitchTo { name: to, explicit } ==> explicit && to@
                != old(session)@.mic_device && (name matches Some(n) ==> to@ == n)
            &&& step is Stay && name is Some ==> old(session)@.mic_device == name->0
            &&& step matches MicStep::Report(event) ==> event@ == EventText::Warning(
                "Selected microphone is not available"@,
            )
        }),
{
    if command is Some && command->0 is SwitchMic {
        match text::opt_text(command->0->SwitchMic_0) {
            Some(name) => {
                devices::law_first_suitable_mic_is_used(inputs@, name);
            },
            None => {
                devices::law_first_suitable_mic_is_used(inputs@, Seq::empty());
            },
        }
    }
}

/// A chosen microphone is kept whatever the default input is. Without a choice, the microphone is
/// switched exactly if another one would be picked now, and nobody is told if that fails.
pub proof fn law_chosen_mic_ignores_the_default(
    session: &Session,
    inputs: &[InputDevice],
    step: MicStep,
)
    requires
        call_ensures(Session::on_device_tick, (session, inputs), step),
    ensures
        session@.mic_override is Some ==> step is Stay,
        step is Stay || step is SwitchTo,
        step matches MicStep::SwitchTo { name, explicit } ==> !explicit && name@
            != session@.mic_device && exists|i: int|
            0 <= i < inputs@.len() && (#[trigger] inputs@[i]).name@ == name@
                && !inputs@[i].is_virtual,
        session@.mic_override is None && step is Stay ==> (forall|i: int|
            0 <= i < inputs@.len() ==> (#[trigger] inputs@[i]).is_virtual) || exists|i: int|
            0 <= i < inputs@.len() && (#[trigger] inputs@[i]).name@ == session@.mic_device
                && !inputs@[i].is_virtual,
{
    devices::law_automatic_mic_is_physical(inputs@);
    match devices::automatic_choice(inputs@) {
        Some(d) => {
            let i = choose|i: int| 0 <= i < inputs@.len() && inputs@[i] == d;
            assert(inputs@[i].name@ == d.name@);
        },
        None => {},
    }
}

/// Audio is handed out once: what was taken to be stored is not taken again.
pub proof fn law_pending_audio_is_handed_out_once(
    session: &mut Session,
    first: (Vec<u8>, Vec<u8>),
    later: &mut Session,
    second: (Vec<u8>, Vec<u8>),
)
    requires
        old(session).wf(),
        call_ensures(Session::take_pending, (session,), first),
        *old(later) == *final(session),
        call_ensures(Session::take_pending, (later,), second),
    ensures
        first.0@.len() == 2 * (old(session)@.mic.audio.len() - old(session)@.mic.stored),
        first.1@.len() == 2 * (old(session)@.system.audio.len() - old(session)@.system.stored),
        second.0@.len() == 0,
        second.1@.len() == 0,
        final(later)@.mic.audio == old(session)@.mic.audio,
        final(later)@.system.audio == old(session)@.system.audio,
{
    old(session).lemma_wf();
}

/// A second report of the levels without any audio in between tells silence, and a warning is never
/// given twice.
pub proof fn law_levels_start_anew_after_a_report(
    session: &mut Session,
    elapsed_nanos: u128,
    first: LevelStep,
    later: &mut Session,
    later_nanos: u128,
    second: LevelStep,
)
    requires
        old(session).wf(),
        call_ensures(Session::on_levels, (session, elapsed_nanos), first),
        *old(later) == *final(session),
        call_ensures(Session::on_levels, (later, later_nanos), second),
    ensures
        first.levels@ == (EventText::Levels {
            mic: old(session)@.mic_peak,
            system: old(session)@.system_peak,
        }),
        second.levels@ == (EventText::Levels { mic: 0, system: 0 }),
        first.warning is Some ==> second.warning is None,
        old(session)@.mic_warned || old(session)@.mic_ever_ok ==> first.warning is None
            && second.warning is None,
        elapsed_nanos < 8_000_000_000 ==> first.warning is None,
{
}

/// A start that is neither cancelled nor fails leads to the recording that was asked for: in its
/// folder, with the microphone and at the rates that were opened, and with two empty tracks.
pub proof fn law_start_leads_to_the_recording(
    config: StartConfig,
    inputs: &[InputDevice],
    output: Option<String>,
    begun: Result<Startup, String>,
    opening: &mut Startup,
    system_rate: u32,
    system_opened: Result<(), String>,
    listening: &mut Startup,
    mic: (String, u32),
    mic_opened: Result<(), String>,
    discarding: &mut Startup,
    discarded: Result<(), String>,
    started_at: Stamp,
    origin: u64,
    session: Session,
)
    requires
        call_ensures(Startup::begin, (config, inputs, output), begun),
        begun is Ok,
        *old(opening) == begun->Ok_0,
        call_ensures(
            Startup::on_system_opened,
            (opening, Ok(system_rate), false),
            system_opened,
        ),
        *old(listening) == *final(opening),
        call_ensures(Startup::on_mic_opened, (listening, Ok(mic), false), mic_opened),
        *old(discarding) == *final(listening),
        call_ensures(Startup::on_discarded, (discarding, false), discarded),
        is_rate(system_rate),
        is_rate(mic.1),
        call_ensures(Startup::into_session, (*final(discarding), started_at, origin), session),
    ensures
        system_opened is Ok,
        mic_opened is Ok,
        discarded is Ok,
        session.wf(),
        session@.folder == config.folder@,
        session@.mic_override == text::opt_text(config.mic_override),
        session@.mic_device == mic.0@,
        session@.mic.sample_rate == mic.1,
        session@.system.sample_rate == system_rate,
        session@.mic.audio.len() == 0,
        session@.system.audio.len() == 0,
        session@.origin == origin,
        session@.meta.started_at == started_at,
        session@.meta.sample_rate == mic.1,
        session@.meta.mic_device == mic.0@,
        session@.meta.system_device == (match output {
            Some(name) => name@,
            None => "Unknown output"@,
        }),
        session@.meta.status == RecordingStatus::Recording,
{
}

/// A start begins exactly if there is a microphone for it, which is then the one to be opened: that
/// of the chosen name, or a physical one.
pub proof fn law_start_needs_a_microphone(
    config: StartConfig,
    inputs: &[InputDevice],
    output: Option<String>,
    begun: Result<Startup, String>,
)
    requires
        call_ensures(Startup::begin, (config, inputs, output), begun),
    ensures
        begun is Ok <==> exists|i: int|
            0 <= i < inputs@.len() && match text::opt_text(config.mic_override) {
                Some(name) => (#[trigger] inputs@[i]).name@ == name,
                None => !inputs@[i].is_virtual,
            },
        begun matches Ok(start) ==> exists|i: int|
            0 <= i < inputs@.len() && (#[trigger] inputs@[i]).name@ == start@.pick && match text::opt_text(
                config.mic_override,
            ) {
                Some(name) => start@.pick == name,
                None => !inputs@[i].is_virtual,
            },
        begun matches Err(error) ==> error@ == "selected microphone is not available"@,
{
    match text::opt_text(config.mic_override) {
        Some(name) => {
            devices::law_first_suitable_mic_is_used(inputs@, name);
        },
        None => {
            devices::law_first_suitable_mic_is_used(inputs@, Seq::empty());
            devices::law_automatic_mic_is_physical(inputs@);
        },
    }
}

/// A recording is announced exactly if its files were written and its start was not cancelled, with
/// the folder, the devices and the time that its description has.
pub proof fn law_recording_is_announced(
    session: &Session,
    written: Result<(), String>,
    cancelled: bool,
    event: Result<RecorderEvent, String>,
)
    requires
        call_ensures(Session::announce, (session, written, cancelled), event),
    ensures
        event is Ok <==> written is Ok && !cancelled,
        event is Ok ==> event->Ok_0@ == (EventText::Started {
            folder: session@.folder,
            mic_device: session@.mic_device,
            system_device: session@.meta.system_device,
            started_at: session@.meta.started_at,
        }),
        written is Err ==> event is Err && event->Err_0@ == written->Err_0@,
        written is Ok && cancelled ==> event->Err_0@ == "recording start cancelled"@,
{
}

/// A recording has stopped exactly if its files were written, and is told with the duration that its
/// description has.
pub proof fn law_recording_has_stopped_once_written(
    finished: Finished,
    written: Result<(), String>,
    event: Result<RecorderEvent, String>,
)
    requires
        call_ensures(Finished::stopped, (finished, written), event),
    ensures
        event is Ok <==> written is Ok,
        event is Ok ==> event->Ok_0@ == (EventText::Stopped {
            folder: finished.folder@,
            duration_sec: finished.meta.duration_sec,
        }),
        event is Err ==> event->Err_0@ == written->Err_0@,
{
}

/// After a flush nothing waits to be stored, the description has the time that has passed, and no
/// audio is lost. Files that hold what was stored before then play back both tracks.
pub proof fn law_flushed_recording_plays_back(
    session: &mut Session,
    elapsed_secs: u64,
    plans: (FlushPlan, FlushPlan),
    mic_file: Seq<u8>,
    system_file: Seq<u8>,
)
    requires
        old(session).wf(),
        old(session)@.mic.has_header(),
        old(session)@.system.has_header(),
        call_ensures(Session::on_flush, (session, elapsed_secs), plans),
        mic_file.len() >= wav::HEADER_LEN,
        mic_file.skip(wav::HEADER_LEN as int) == wav::pcm_bytes(
            old(session)@.mic.audio.take(old(session)@.mic.stored as int),
        ),
        system_file.len() >= wav::HEADER_LEN,
        system_file.skip(wav::HEADER_LEN as int) == wav::pcm_bytes(
            old(session)@.system.audio.take(old(session)@.system.stored as int),
        ),
    ensures
        wav::plays(
            wav::after_flush(mic_file, plans.0.data@, plans.0.header@),
            old(session)@.mic.sample_rate,
            old(session)@.mic.audio,
        ),
        wav::plays(
            wav::after_flush(system_file, plans.1.data@, plans.1.header@),
            old(session)@.system.sample_rate,
            old(session)@.system.audio,
        ),
        final(session)@.mic.audio == old(session)@.mic.audio,
        final(session)@.system.audio == old(session)@.system.audio,
        final(session)@.mic.stored == old(session)@.mic.audio.len(),
        final(session)@.system.stored == old(session)@.system.audio.len(),
        final(session)@.meta.duration_sec == elapsed_secs,
        final(session)@.meta.status == old(session)@.meta.status,
        final(session)@.meta.warnings == old(session)@.meta.warnings,
{
    old(session).lemma_wf();
    law_flushed_file_plays_back(mic_file, old(session)@.mic, plans.0);
    law_flushed_file_plays_back(system_file, old(session)@.system, plans.1);
}

/// A microphone that was opened is in use from then on and is put on record, unless the start was
/// cancelled. One that could not be opened changes nothing.
pub proof fn law_opened_mic_is_in_use(
    session: &mut Session,
    opened: Result<String, String>,
    explicit: bool,
    cancelled: bool,
    at_sec: u64,
    step: SwitchStep,
)
    requires
        old(session).wf(),
        call_ensures(
            Session::on_mic_opened,
            (session, opened, explicit, cancelled, at_sec),
            step,
        ),
    ensures
        opened is Ok && !cancelled ==> final(session)@.mic_device == opened->Ok_0@
            && final(session)@.meta.switches == old(session)@.meta.switches.push(
            (at_sec, opened->Ok_0@),
        ) && final(session)@.meta.mic_device == old(session)@.meta.mic_device,
        opened is Err || cancelled ==> final(session)@ == old(session)@,
        final(session)@.mic == old(session)@.mic,
        final(session)@.system == old(session)@.system,
        final(session)@.mic_override == old(session)@.mic_override,
{
}

/// A rate can stand in a header exactly if it is not zero and its double fits as well.
pub proof fn law_rates_leave_room_for_the_byte_rate(rate: u32)
    ensures
        is_rate(rate) <==> rate > 0 && 2 * rate <= u32::MAX,
{
}

/// A recording can be finished exactly if the headers can state the lengths of both tracks as they
/// are in the end.
pub proof fn law_recording_can_be_finished_if_it_fits(s: SessionText, elapsed_nanos: u128)
    ensures
        s.can_finish(elapsed_nanos) <==> 36 + 2 * s.padded(s.mic, elapsed_nanos).audio.len()
            <= u32::MAX && 36 + 2 * s.padded(s.system, elapsed_nanos).audio.len() <= u32::MAX,
{
    wav::law_header_states_the_length(s.padded(s.mic, elapsed_nanos));
    wav::law_header_states_the_length(s.padded(s.system, elapsed_nanos));
}

/// Levels are told several times a second and audio is taken more often than that; the default
/// input is looked at every second, and the files are brought up to date every five.
pub proof fn law_intervals_are_in_milliseconds()
    ensures
        AUDIO_DRAIN_EVERY < LEVEL_EVERY,
        4 * LEVEL_EVERY == 1_000,
        DEVICE_POLL_EVERY == 1_000,
        FLUSH_EVERY == 5 * DEVICE_POLL_EVERY,
        50 * AUDIO_DRAIN_EVERY == LEVEL_EVERY,
{
}

} // verus!
