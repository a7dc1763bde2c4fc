//! What the recorder is told, and what it tells.

use vstd::prelude::*;
use crate::stamp::Stamp;
use crate::text;

verus! {

/// A command to the recorder.
#[derive(Debug)]
pub enum Command {
    Stop,
    /// Use another microphone; without a name, follow the default input.
    SwitchMic(Option<String>),
}

#[verifier::ext_equal]
pub enum CommandText {
    Stop,
    SwitchMic(Option<Seq<char>>),
}

impl Command {
    pub open spec fn view(&self) -> CommandText {
        match self {
            Command::Stop => CommandText::Stop,
            Command::SwitchMic(name) => CommandText::SwitchMic(text::opt_text(*name)),
        }
    }
}

/// What a recording starts with.
pub struct StartConfig {
    pub folder: String,
    pub mic_override: Option<String>,
}

/// What the recorder reports.
#[derive(Debug)]
pub enum RecorderEvent {
    Started { folder: String, mic_device: String, system_device: String, started_at: Stamp },
    Levels { mic: u32, system: u32 },
    MicSwitched { device: String, at_sec: u64 },
    Warning(String),
    Stopped { folder: String, duration_sec: u64 },
    Cancelled { folder: String },
    Failed { folder: String, error: String },
}

#[verifier::ext_equal]
pub enum EventText {
    Started {
        folder: Seq<char>,
        mic_device: Seq<char>,
        system_device: Seq<char>,
        started_at: Stamp,
    },
    Levels { mic: u32, system: u32 },
    MicSwitched { device: Seq<char>, at_sec: u64 },
    Warning(Seq<char>),
    Stopped { folder: Seq<char>, duration_sec: u64 },
    Cancelled { folder: Seq<char> },
    Failed { folder: Seq<char>, error: Seq<char> },
}

impl RecorderEvent {
    pub open spec fn view(&self) -> EventText {
        match self {
            RecorderEvent::Started { folder, mic_device, system_device, started_at } =>
                EventText::Started {
                folder: folder@,
                mic_device: mic_device@,
                system_device: system_device@,
                started_at: *started_at,
            },
            RecorderEvent::Levels { mic, system } => EventText::Levels {
                mic: *mic,
                system: *system,
            },
            RecorderEvent::MicSwitched { device, at_sec } => EventText::MicSwitched {
                device: device@,
                at_sec: *at_sec,
            },
            RecorderEvent::Warning(message) => EventText::Warning(message@),
            RecorderEvent::Stopped { folder, duration_sec } => EventText::Stopped {
                folder: folder@,
                duration_sec: *duration_sec,
            },
            RecorderEvent::Cancelled { folder } => EventText::Cancelled { folder: folder@ },
            RecorderEvent::Failed { folder, error } => EventText::Failed {
                folder: folder@,
                error: error@,
            },
        }
    }
}

impl EventText {
    /// Whether this is the last event of a recording.
    pub open spec fn ends_recording(self) -> bool {
        self is Stopped || self is Cancelled || self is Failed
    }
}

/// What the core holds of a running recorder: the folder, whether the start was cancelled, and
/// the commands that have not been delivered yet.
pub struct RecorderHandle {
    folder: String,
    cancelled: bool,
    outbox: Vec<Command>,
}

#[verifier::ext_equal]
pub struct HandleText {
    pub folder: Seq<char>,
    pub cancelled: bool,
    pub outbox: Seq<CommandText>,
}

/// Commands in the order in which they are delivered.
pub open spec fn command_texts(list: Seq<Command>) -> Seq<CommandText> {
    Seq::new(list.len(), |i: int| list[i]@)
}

impl RecorderHandle {
    pub closed spec fn view(&self) -> HandleText {
        HandleText {
            folder: self.folder@,
            cancelled: self.cancelled,
            outbox: command_texts(self.outbox@),
        }
    }

    /// The folder that the recorder writes to.
    pub fn folder(&self) -> (r: &str)
        ensures
            r@ == self@.folder,
    {
        self.folder.as_str()
    }

    /// A recorder that writes to a folder.
    pub fn new(folder: String) -> (r: RecorderHandle)
        ensures
            r@ == (HandleText { folder: folder@, cancelled: false, outbox: Seq::empty() }),
    {
        let r = RecorderHandle { folder, cancelled: false, outbox: Vec::new() };
        assert(command_texts(r.outbox@) =~= Seq::empty());
        r
    }

    fn send(&mut self, command: Command)
        ensures
            final(self)@ == (HandleText { outbox: old(self)@.outbox.push(command@), ..old(self)@ }),
    {
        let ghost before = self.outbox@;
        self.outbox.push(command);
        assert(command_texts(self.outbox@) =~= command_texts(before).push(command@));
    }

    /// Ends the recording.
    pub fn stop(&mut self)
        ensures
            final(self)@ == old(self)@.after_stop(),
    {
        self.send(Command::Stop);
    }

    /// Ends a recording that may not have started yet: what it has written so far is of no use.
    pub fn cancel_start(&mut self)
        ensures
            final(self)@ == old(self)@.after_cancel(),
    {
        self.cancelled = true;
        self.send(Command::Stop);
    }

    /// Changes the microphone.
    pub fn switch_mic(&mut self, override_name: Option<String>)
        ensures
            final(self)@ == old(self)@.after_switch(text::opt_text(override_name)),
    {
        self.send(Command::SwitchMic(override_name));
    }

    /// Whether the start was cancelled.
    pub fn is_cancelled(&self) -> (r: bool)
        ensures
            r == self@.cancelled,
    {
        self.cancelled
    }

    /// Takes the commands that have not been delivered yet.
    pub fn take_commands(&mut self) -> (r: Vec<Command>)
        ensures
            command_texts(r@) == old(self)@.outbox,
            final(self)@ == (HandleText { outbox: Seq::empty(), ..old(self)@ }),
    {
        let mut taken: Vec<Command> = Vec::new();
        core::mem::swap(&mut taken, &mut self.outbox);
        assert(command_texts(self.outbox@) =~= Seq::empty());
        taken
    }
}

impl HandleText {
    pub open spec fn after_stop(self) -> HandleText {
        HandleText { outbox: self.outbox.push(CommandText::Stop), ..self }
    }

    pub open spec fn after_cancel(self) -> HandleText {
        HandleText { cancelled: true, outbox: self.outbox.push(CommandText::Stop), ..self }
    }

    pub open spec fn after_switch(self, name: Option<Seq<char>>) -> HandleText {
        HandleText { outbox: self.outbox.push(CommandText::SwitchMic(name)), ..self }
    }
}

/// An ordinary stop is not taken for the cancellation of a start, and a cancellation stays one.
pub proof fn law_stop_is_no_cancellation(handle: HandleText, name: Option<Seq<char>>)
    ensures
        handle.after_stop().cancelled == handle.cancelled,
        handle.after_switch(name).cancelled == handle.cancelled,
        handle.after_cancel().cancelled,
        handle.after_stop().outbox.last() == CommandText::Stop,
        handle.after_cancel().outbox.last() == CommandText::Stop,
{
}

/// A recorder keeps its folder, and is told everything in the order in which it was said: each
/// command is added behind those that have not been delivered yet.
pub proof fn law_commands_are_kept_in_order(handle: HandleText, name: Option<Seq<char>>)
    ensures
        handle.after_stop().folder == handle.folder,
        handle.after_cancel().folder == handle.folder,
        handle.after_switch(name).folder == handle.folder,
        handle.after_stop().outbox.len() == handle.outbox.len() + 1,
        handle.after_cancel().outbox.len() == handle.outbox.len() + 1,
        handle.after_switch(name).outbox.len() == handle.outbox.len() + 1,
        handle.outbox.is_prefix_of(handle.after_stop().outbox),
        handle.outbox.is_prefix_of(handle.after_cancel().outbox),
        handle.outbox.is_prefix_of(handle.after_switch(name).outbox),
        handle.after_switch(name).outbox.last() == CommandText::SwitchMic(name),
{
}

} // verus!
