//! The state of the core as others see it, and the settings.

use vstd::prelude::*;
use vstd::string::*;
use crate::stamp::Stamp;
use crate::text;

verus! {

#[derive(Debug)]
pub struct StateMic {
    pub device: String,
    /// `false` while the microphone has produced nothing but silence.
    pub level_ok: bool,
    /// Peak amplitude of the latest quarter of a second, as a bit pattern. Zero when idle.
    pub level: u32,
}

#[derive(Debug)]
pub struct StateSystem {
    pub device: String,
    pub level: u32,
}

impl Default for StateMic {
    fn default() -> (r: Self)
        ensures
            r.device@ == Seq::<char>::empty(),
            !r.level_ok,
            r.level == 0,
    {
        proof {
            reveal_strlit("");
        }
        StateMic { device: "".to_owned(), level_ok: false, level: 0 }
    }
}

impl Default for StateSystem {
    fn default() -> (r: Self)
        ensures
            r.device@ == Seq::<char>::empty(),
            r.level == 0,
    {
        proof {
            reveal_strlit("");
        }
        StateSystem { device: "".to_owned(), level: 0 }
    }
}

/// What `state.json` holds.
#[derive(Debug)]
pub struct AppState {
    /// "idle" or "recording".
    pub status: String,
    pub folder: Option<String>,
    pub started_at: Option<Stamp>,
    pub elapsed_sec: u64,
    pub mic: StateMic,
    pub system: StateSystem,
    /// Why the last attempt to start failed, if it did. Cleared by the next start.
    pub last_error: Option<String>,
    pub updated_at: Stamp,
}

/// What `state.json` says.
#[verifier::ext_equal]
pub struct StateText {
    pub status: Seq<char>,
    pub folder: Option<Seq<char>>,
    pub started_at: Option<Stamp>,
    pub elapsed_sec: u64,
    pub mic_device: Seq<char>,
    pub mic_level_ok: bool,
    pub mic_level: u32,
    pub system_device: Seq<char>,
    pub system_level: u32,
    pub last_error: Option<Seq<char>>,
    pub updated_at: Stamp,
}

/// The state of a core that does nothing.
pub open spec fn idle_state(mic: Seq<char>, system: Seq<char>, now: Stamp) -> StateText {
    StateText {
        status: "idle"@,
        folder: None,
        started_at: None,
        elapsed_sec: 0,
        mic_device: mic,
        mic_level_ok: true,
        mic_level: 0,
        system_device: system,
        system_level: 0,
        last_error: None,
        updated_at: now,
    }
}

impl AppState {
    pub open spec fn view(&self) -> StateText {
        StateText {
            status: self.status@,
            folder: text::opt_text(self.folder),
            started_at: self.started_at,
            elapsed_sec: self.elapsed_sec,
            mic_device: self.mic.device@,
            mic_level_ok: self.mic.level_ok,
            mic_level: self.mic.level,
            system_device: self.system.device@,
            system_level: self.system.level,
            last_error: text::opt_text(self.last_error),
            updated_at: self.updated_at,
        }
    }

    /// Whether the calendar covers the times in this state.
    pub open spec fn valid(&self) -> bool {
        &&& self.updated_at.valid()
        &&& self.started_at matches Some(at) ==> at.valid()
    }

    /// The state of a core that does nothing.
    pub fn idle(mic: &str, system: &str, now: Stamp) -> (r: AppState)
        ensures
            r@ == idle_state(mic@, system@, now),
            now.valid() ==> r.valid(),
    {
        AppState {
            status: "idle".to_owned(),
            folder: None,
            started_at: None,
            elapsed_sec: 0,
            mic: StateMic { device: mic.to_owned(), level_ok: true, level: 0 },
            system: StateSystem { device: system.to_owned(), level: 0 },
            last_error: None,
            updated_at: now,
        }
    }

    /// What `state.json` held, or the state of a core that does nothing where it is missing or
    /// unreadable.
    pub fn or_idle(loaded: Option<AppState>, mic: &str, system: &str, now: Stamp) -> (r: AppState)
        ensures
            match loaded {
                Some(state) => r == state,
                None => r@ == idle_state(mic@, system@, now) && (now.valid() ==> r.valid()),
            },
    {
        match loaded {
            Some(state) => state,
            None => AppState::idle(mic, system, now),
        }
    }
}

/// What `settings.json` holds.
#[derive(Debug)]
pub struct Settings {
    /// `None` follows the default input, skipping virtual devices.
    pub mic_override: Option<String>,
}

impl Clone for Settings {
    fn clone(&self) -> (r: Self)
        ensures
            text::opt_text(r.mic_override) == text::opt_text(self.mic_override),
    {
        Settings { mic_override: text::copy_opt(&self.mic_override) }
    }
}

impl Default for Settings {
    fn default() -> (r: Self)
        ensures
            r.mic_override is None,
    {
        Settings { mic_override: None }
    }
}

impl Settings {
    /// The settings where `settings.json` is missing or unreadable.
    pub fn or_default(loaded: Option<Settings>) -> (r: Settings)
        ensures
            match loaded {
                Some(settings) => r == settings,
                None => r.mic_override is None,
            },
    {
        match loaded {
            Some(settings) => settings,
            None => Settings::default(),
        }
    }
}

/// A core that does nothing tells the devices it would use and the time, and nothing of a
/// recording. Nothing is known against its microphone.
pub proof fn law_idle_state_tells_no_recording(mic: Seq<char>, system: Seq<char>, now: Stamp)
    ensures
        ({
            let s = idle_state(mic, system, now);
            &&& s.status == "idle"@
            &&& s.folder is None
            &&& s.started_at is None
            &&& s.elapsed_sec == 0
            &&& s.mic_device == mic
            &&& s.mic_level_ok
            &&& s.mic_level == 0
            &&& s.system_device == system
            &&& s.system_level == 0
            &&& s.last_error is None
            &&& s.updated_at == now
        }),
{
}

} // verus!
