//! Recordings on disk: what `meta.json` says of them, and how they are listed.

use vstd::prelude::*;
use vstd::string::*;
use crate::sequences;
use crate::stamp::Stamp;
use crate::stamp;
use crate::text;
use crate::timeline;

verus! {

/// The length of a WAV file without any audio.
pub const EMPTY_TRACK_LEN: u64 = 44;

#[derive(Clone, Copy, Debug, PartialEq, Eq, Structural)]
pub enum RecordingStatus {
    Recording,
    Done,
    Failed,
    /// The core exited during the recording. The files are usable, since their headers are
    /// written every few seconds; only the tail may be missing.
    Interrupted,
}

#[derive(Debug)]
pub struct DeviceSwitch {
    /// Seconds since the recording started.
    pub at_sec: u64,
    pub device: String,
}

impl Clone for DeviceSwitch {
    fn clone(&self) -> (r: Self)
        ensures
            r == *self,
    {
        DeviceSwitch { at_sec: self.at_sec, device: self.device.clone() }
    }
}

#[derive(Debug)]
pub struct MetaDevices {
    pub mic: String,
    pub system: String,
    pub switches: Vec<DeviceSwitch>,
}

impl Default for MetaDevices {
    fn default() -> (r: Self)
        ensures
            r.mic@ == Seq::<char>::empty(),
            r.system@ == Seq::<char>::empty(),
            r.switches@.len() == 0,
    {
        proof {
            reveal_strlit("");
        }
        MetaDevices { mic: "".to_owned(), system: "".to_owned(), switches: Vec::new() }
    }
}

#[derive(Debug)]
pub struct MetaTracks {
    pub mic: String,
    pub system: String,
}

/// What `meta.json` holds.
#[derive(Debug)]
pub struct Meta {
    pub status: RecordingStatus,
    pub started_at: Stamp,
    pub duration_sec: u64,
    pub sample_rate: u32,
    pub tracks: MetaTracks,
    pub devices: MetaDevices,
    pub warnings: Vec<String>,
}

/// What `meta.json` says.
#[verifier::ext_equal]
pub struct MetaText {
    pub status: RecordingStatus,
    pub started_at: Stamp,
    pub duration_sec: u64,
    pub sample_rate: u32,
    pub mic_track: Seq<char>,
    pub system_track: Seq<char>,
    pub mic_device: Seq<char>,
    pub system_device: Seq<char>,
    pub switches: Seq<(u64, Seq<char>)>,
    pub warnings: Seq<Seq<char>>,
}

/// Changes of device as pairs.
pub open spec fn switch_texts(list: Seq<DeviceSwitch>) -> Seq<(u64, Seq<char>)> {
    Seq::new(list.len(), |i: int| (list[i].at_sec, list[i].device@))
}

fn copy_texts(list: &Vec<String>) -> (r: Vec<String>)
    ensures
        text::texts(r@) == text::texts(list@),
{
    let mut r: Vec<String> = Vec::new();
    let mut i: usize = 0;
    while i < list.len()
        invariant
            i <= list@.len(),
            r@.len() == i,
            forall|k: int| 0 <= k < i ==> (#[trigger] r@[k])@ == list@[k]@,
        decreases list@.len() - i,
    {
        r.push(list[i].clone());
        i += 1;
    }
    assert(text::texts(r@) =~= text::texts(list@));
    r
}

fn copy_switches(list: &Vec<DeviceSwitch>) -> (r: Vec<DeviceSwitch>)
    ensures
        switch_texts(r@) == switch_texts(list@),
{
    let mut r: Vec<DeviceSwitch> = Vec::new();
    let mut i: usize = 0;
    while i < list.len()
        invariant
            i <= list@.len(),
            r@.len() == i,
            forall|k: int| 0 <= k < i ==> #[trigger] r@[k] == list@[k],
        decreases list@.len() - i,
    {
        r.push(list[i].clone());
        i += 1;
    }
    assert(switch_texts(r@) =~= switch_texts(list@));
    r
}

impl Clone for Meta {
    fn clone(&self) -> (r: Self)
        ensures
            r@ == self@,
    {
        Meta {
            status: self.status,
            started_at: self.started_at,
            duration_sec: self.duration_sec,
            sample_rate: self.sample_rate,
            tracks: MetaTracks {
                mic: self.tracks.mic.clone(),
                system: self.tracks.system.clone(),
            },
            devices: MetaDevices {
                mic: self.devices.mic.clone(),
                system: self.devices.system.clone(),
                switches: copy_switches(&self.devices.switches),
            },
            warnings: copy_texts(&self.warnings),
        }
    }
}

impl Meta {
    pub open spec fn view(&self) -> MetaText {
        MetaText {
            status: self.status,
            started_at: self.started_at,
            duration_sec: self.duration_sec,
            sample_rate: self.sample_rate,
            mic_track: self.tracks.mic@,
            system_track: self.tracks.system@,
            mic_device: self.devices.mic@,
            system_device: self.devices.system@,
            switches: switch_texts(self.devices.switches@),
            warnings: text::texts(self.warnings@),
        }
    }

    /// The file that describes the recording in a folder.
    pub fn path_in(folder: &str) -> (r: String)
        ensures
            r@ == text::joined(folder@, "meta.json"@),
    {
        text::join(folder, "meta.json")
    }

    /// What is said of a recording that has just started.
    pub fn recording(started_at: Stamp, sample_rate: u32, mic: &str, system: &str) -> (r: Meta)
        ensures
            r@ == just_started(started_at, sample_rate, mic@, system@),
    {
        let r = Meta {
            status: RecordingStatus::Recording,
            started_at,
            duration_sec: 0,
            sample_rate,
            tracks: MetaTracks { mic: "mic.wav".to_owned(), system: "system.wav".to_owned() },
            devices: MetaDevices {
                mic: mic.to_owned(),
                system: system.to_owned(),
                switches: Vec::new(),
            },
            warnings: Vec::new(),
        };
        assert(r@ =~= just_started(started_at, sample_rate, mic@, system@));
        r
    }

    /// Adds a warning.
    pub fn warn(&mut self, warning: String)
        ensures
            final(self)@ == warned(old(self)@, warning@),
    {
        let ghost before = self.warnings@;
        self.warnings.push(warning);
        assert(text::texts(self.warnings@) =~= text::texts(before).push(warning@));
    }

    /// Whether a warning was given.
    pub fn has_warning(&self, warning: &str) -> (r: bool)
        ensures
            r == self@.warnings.contains(warning@),
    {
        let mut i: usize = 0;
        while i < self.warnings.len()
            invariant
                i <= self.warnings@.len(),
                forall|k: int| 0 <= k < i ==> #[trigger] self@.warnings[k] != warning@,
            decreases self.warnings@.len() - i,
        {
            assert(self@.warnings[i as int] == self.warnings@[i as int]@);
            if text::same(self.warnings[i].as_str(), warning) {
                return true;
            }
            i += 1;
        }
        false
    }

    /// Notes that another microphone is used from now on.
    pub fn switch_to(&mut self, at_sec: u64, device: &str)
        ensures
            final(self)@ == switched(old(self)@, at_sec, device@),
    {
        let ghost before = self.devices.switches@;
        self.devices.switches.push(DeviceSwitch { at_sec, device: device.to_owned() });
        assert(switch_texts(self.devices.switches@) =~= switch_texts(before).push(
            (at_sec, device@),
        ));
    }

    /// When the core starts, nothing can be recording. A recording that still says so belongs to
    /// a session that died: it is marked as interrupted, and its length is taken from the file of
    /// the microphone where it is unknown. `mic_len` is the length of that file, if it is there.
    /// Tells whether there was something to mark.
    pub fn mark_stale(&mut self, mic_len: Option<u64>) -> (r: bool)
        ensures
            r == (old(self).status == RecordingStatus::Recording),
            final(self)@ == (if r {
                interrupted(old(self)@, mic_len)
            } else {
                old(self)@
            }),
    {
        if self.status != RecordingStatus::Recording {
            return false;
        }
        self.status = RecordingStatus::Interrupted;
        self.warn("interrupted: core exited during recording".to_owned());
        if self.duration_sec == 0 {
            match mic_len {
                Some(len) => {
                    if self.sample_rate > 0 && len > EMPTY_TRACK_LEN {
                        self.duration_sec = (len - EMPTY_TRACK_LEN) / 2 / self.sample_rate as u64;
                    }
                },
                None => {},
            }
        }
        true
    }
}

pub open spec fn just_started(
    started_at: Stamp,
    sample_rate: u32,
    mic: Seq<char>,
    system: Seq<char>,
) -> MetaText {
    MetaText {
        status: RecordingStatus::Recording,
        started_at,
        duration_sec: 0,
        sample_rate,
        mic_track: "mic.wav"@,
        system_track: "system.wav"@,
        mic_device: mic,
        system_device: system,
        switches: Seq::empty(),
        warnings: Seq::empty(),
    }
}

pub open spec fn warned(meta: MetaText, warning: Seq<char>) -> MetaText {
    MetaText { warnings: meta.warnings.push(warning), ..meta }
}

pub open spec fn switched(meta: MetaText, at_sec: u64, device: Seq<char>) -> MetaText {
    MetaText { switches: meta.switches.push((at_sec, device)), ..meta }
}

/// The whole seconds of 16-bit mono audio in a file.
pub open spec fn seconds_in_file(len: u64, sample_rate: u32) -> int {
    (len - EMPTY_TRACK_LEN) / 2 / sample_rate as int
}

/// A recording whose session died.
pub open spec fn interrupted(meta: MetaText, mic_len: Option<u64>) -> MetaText {
    MetaText {
        status: RecordingStatus::Interrupted,
        duration_sec: match mic_len {
            Some(len) if meta.duration_sec == 0 && meta.sample_rate > 0 && len > EMPTY_TRACK_LEN =>
                seconds_in_file(len, meta.sample_rate) as u64,
            _ => meta.duration_sec,
        },
        ..warned(meta, "interrupted: core exited during recording"@)
    }
}

/// Whether a file is a track with audio.
pub open spec fn has_audio(len: Option<u64>) -> bool {
    len matches Some(n) && n > EMPTY_TRACK_LEN
}

/// A recording that failed.
pub open spec fn failed(meta: MetaText, error: Seq<char>) -> MetaText {
    MetaText { status: RecordingStatus::Failed, ..warned(meta, "failed: "@ + error) }
}

/// What becomes of the folder of a recording that failed: without audio it is removed (`None`),
/// with audio it says that it failed. `loaded` is what the folder said before, if anything.
pub fn mark_failed(
    mic_len: Option<u64>,
    system_len: Option<u64>,
    loaded: Option<Meta>,
    now: Stamp,
    error: &str,
) -> (r: Option<Meta>)
    ensures
        match r {
            None => !has_audio(mic_len) && !has_audio(system_len),
            Some(meta) => (has_audio(mic_len) || has_audio(system_len)) && meta@ == failed(
                match loaded {
                    Some(m) => m@,
                    None => just_started(now, 0, ""@, ""@),
                },
                error@,
            ),
        },
        r is None <==> (mic_len is None || mic_len->0 <= 44) && (system_len is None
            || system_len->0 <= 44),
{
    let mic_audio = match mic_len {
        Some(n) => n > EMPTY_TRACK_LEN,
        None => false,
    };
    let system_audio = match system_len {
        Some(n) => n > EMPTY_TRACK_LEN,
        None => false,
    };
    if !mic_audio && !system_audio {
        return None;
    }
    let mut meta = match loaded {
        Some(meta) => meta,
        None => Meta::recording(now, 0, "", ""),
    };
    meta.status = RecordingStatus::Failed;
    let mut warning = "failed: ".to_owned();
    warning.append(error);
    meta.warn(warning);
    Some(meta)
}

/// An entry of the list of recordings.
#[derive(Debug)]
pub struct RecordingEntry {
    pub folder: String,
    pub started_at: Stamp,
    pub duration_sec: u64,
    pub status: RecordingStatus,
}

impl Clone for RecordingEntry {
    fn clone(&self) -> (r: Self)
        ensures
            r == *self,
    {
        RecordingEntry {
            folder: self.folder.clone(),
            started_at: self.started_at,
            duration_sec: self.duration_sec,
            status: self.status,
        }
    }
}

/// A length in words: seconds below a minute, whole minutes from there on.
pub open spec fn minutes_text(sec: nat) -> Seq<char> {
    if sec < 60 {
        text::decimal(sec) + " sec"@
    } else {
        text::decimal(sec / 60) + " min"@
    }
}

pub fn format_minutes(sec: u64) -> (r: String)
    ensures
        r@ == minutes_text(sec as nat),
        r@.len() > 4,
        text::all_digits(r@.take(r@.len() - 4)),
        sec < 60 ==> r@.skip(r@.len() - 4) == " sec"@ && text::digits_value(r@.take(r@.len() - 4))
            == sec,
        sec >= 60 ==> r@.skip(r@.len() - 4) == " min"@ && 60 * text::digits_value(
            r@.take(r@.len() - 4),
        ) <= sec < 60 * (text::digits_value(r@.take(r@.len() - 4)) + 1),
{
    let mut r = "".to_owned();
    proof {
        reveal_strlit("");
        law_minutes_read_back(sec as nat);
    }
    if sec < 60 {
        text::push_decimal(&mut r, sec);
        r.append(" sec");
    } else {
        text::push_decimal(&mut r, sec / 60);
        r.append(" min");
    }
    assert(r@ =~= minutes_text(sec as nat));
    r
}

/// A length on a clock: minutes and seconds, with hours in front of them from one hour on.
pub open spec fn elapsed_text(sec: nat) -> Seq<char> {
    let h = sec / 3600;
    let m = sec % 3600 / 60;
    let s = sec % 60;
    if h > 0 {
        text::decimal(h) + ":"@ + text::two_digits(m) + ":"@ + text::two_digits(s)
    } else {
        text::decimal(m) + ":"@ + text::two_digits(s)
    }
}

/// Whether a text reads as a length on a clock: two digits of seconds behind a colon, and before
/// it the minutes, or from one hour on two digits of minutes and the hours.
pub open spec fn reads_as_clock(t: Seq<char>, sec: nat) -> bool {
    let n = t.len() as int;
    let s = text::digits_value(t.skip(n - 2));
    &&& n >= 4
    &&& t[n - 3] == ':'
    &&& text::all_digits(t.skip(n - 2))
    &&& s < 60
    &&& if sec < 3600 {
        &&& text::all_digits(t.take(n - 3))
        &&& 60 * text::digits_value(t.take(n - 3)) + s == sec
    } else {
        let m = text::digits_value(t.subrange(n - 5, n - 3));
        &&& n >= 7
        &&& t[n - 6] == ':'
        &&& text::all_digits(t.subrange(n - 5, n - 3))
        &&& m < 60
        &&& text::all_digits(t.take(n - 6))
        &&& 3600 * text::digits_value(t.take(n - 6)) + 60 * m + s == sec
    }
}

/// "12:34" or "1:02:03"
pub fn format_elapsed(sec: u64) -> (r: String)
    ensures
        r@ == elapsed_text(sec as nat),
        reads_as_clock(r@, sec as nat),
{
    proof {
        law_clock_reads_back(sec as nat);
    }
    let h: u64 = sec / 3600;
    let m: u64 = (sec % 3600) / 60;
    let s: u64 = sec % 60;
    let mut r = "".to_owned();
    proof {
        reveal_strlit("");
    }
    if h > 0 {
        text::push_decimal(&mut r, h);
        r.append(":");
        text::push_two_digits(&mut r, m);
    } else {
        text::push_decimal(&mut r, m);
    }
    r.append(":");
    text::push_two_digits(&mut r, s);
    assert(r@ =~= elapsed_text(sec as nat));
    r
}

impl RecordingEntry {
    /// "Sep 2, 14:30 · 42 min"
    pub fn label(&self) -> (r: String)
        requires
            self.started_at.valid(),
        ensures
            r@ == label_text(
                stamp::formatted(
                    self.started_at.secs,
                    self.started_at.nanos,
                    self.started_at.offset,
                    stamp::LABEL_FORMAT@,
                ),
                self.duration_sec,
            ),
    {
        label_of(stamp::format_stamp(&self.started_at, stamp::LABEL_FORMAT), self.duration_sec)
    }
}

/// A start time and a length, with a dot between them.
pub open spec fn label_text(started: Seq<char>, duration_sec: u64) -> Seq<char> {
    started + " · "@ + minutes_text(duration_sec as nat)
}

/// A start time and a length, with a dot between them.
pub fn label_of(started: String, duration_sec: u64) -> (r: String)
    ensures
        r@ == label_text(started@, duration_sec),
{
    let mut r = started;
    r.append(" · ");
    r.append(format_minutes(duration_sec).as_str());
    r
}

/// Something found in the recordings directory: its path and last component, whether it is a
/// directory, and what its `meta.json` says, if that is readable.
pub struct FoundFolder {
    pub path: String,
    pub name: Option<String>,
    pub is_dir: bool,
    pub meta: Option<Meta>,
}

/// Whether something found still says that it is being recorded: a directory whose description
/// says so.
pub open spec fn says_recording(f: FoundFolder) -> bool {
    f.is_dir && (f.meta matches Some(meta) && meta.status == RecordingStatus::Recording)
}

/// How many of those found still say that they are being recorded.
pub open spec fn recording_count(found: Seq<FoundFolder>) -> int
    decreases found.len(),
{
    if found.len() == 0 {
        0
    } else {
        recording_count(found.drop_last()) + (if says_recording(found.last()) {
            1int
        } else {
            0int
        })
    }
}

/// Whether `after` is what was found with a dead session marked: interrupted if it said that it
/// was being recorded, and unchanged otherwise.
pub open spec fn is_marked(before: FoundFolder, mic_len: Option<u64>, after: FoundFolder) -> bool {
    if says_recording(before) {
        &&& after.path == before.path
        &&& after.name == before.name
        &&& after.is_dir == before.is_dir
        &&& after.meta matches Some(meta) && meta@ == interrupted(before.meta->Some_0@, mic_len)
    } else {
        after == before
    }
}

/// Whether everything found was marked, given the lengths of the microphone files.
pub open spec fn all_marked(
    before: Seq<FoundFolder>,
    mic_lens: Seq<Option<u64>>,
    after: Seq<FoundFolder>,
) -> bool {
    &&& after.len() == before.len()
    &&& forall|i: int|
        0 <= i < before.len() ==> is_marked(before[i], mic_lens[i], #[trigger] after[i])
}

/// Whether something found still says that it is being recorded.
pub fn still_recording(f: &FoundFolder) -> (r: bool)
    ensures
        r == says_recording(*f),
        r <==> f.is_dir && f.meta is Some && f.meta->0.status == RecordingStatus::Recording,
{
    if !f.is_dir {
        return false;
    }
    match &f.meta {
        Some(meta) => meta.status == RecordingStatus::Recording,
        None => false,
    }
}

/// Marks the recordings of sessions that died, and tells how many there were. `mic_lens` are the
/// lengths of the microphone files, as far as they are there.
pub fn mark_stale_recordings(found: &mut Vec<FoundFolder>, mic_lens: &Vec<Option<u64>>) -> (n:
    usize)
    requires
        old(found)@.len() == mic_lens@.len(),
    ensures
        n == recording_count(old(found)@),
        all_marked(old(found)@, mic_lens@, final(found)@),
        final(found)@.len() == old(found)@.len(),
        forall|i: int|
            0 <= i < old(found)@.len() ==> ({
                let before = old(found)@[i];
                let after = #[trigger] final(found)@[i];
                if before.is_dir && before.meta is Some && before.meta->0.status
                    == RecordingStatus::Recording {
                    &&& after.path == before.path
                    &&& after.name == before.name
                    &&& after.is_dir
                    &&& after.meta is Some
                    &&& after.meta->0.status == RecordingStatus::Interrupted
                    &&& after.meta->0.started_at == before.meta->0.started_at
                } else {
                    after == before
                }
            }),
{
    let ghost before = found@;
    let len: usize = found.len();
    let mut n: usize = 0;
    let mut i: usize = 0;
    assert(before.take(0) =~= Seq::empty());
    while i < len
        invariant
            before == old(found)@,
            len == before.len(),
            mic_lens@.len() == len,
            found@.len() == len,
            i <= len,
            n <= i,
            n == recording_count(before.take(i as int)),
            forall|k: int| 0 <= k < i ==> is_marked(before[k], mic_lens@[k], #[trigger] found@[k]),
            forall|k: int| i <= k < len ==> #[trigger] found@[k] == before[k],
        decreases len - i,
    {
        assert(before.take(i + 1).drop_last() =~= before.take(i as int));
        assert(before.take(i + 1).last() == before[i as int]);
        assert(found@[i as int] == before[i as int]);
        if still_recording(&found[i]) {
            match &mut found[i].meta {
                Some(meta) => {
                    let _ = meta.mark_stale(mic_lens[i]);
                },
                None => {},
            }
            n += 1;
        }
        i += 1;
    }
    assert(before.take(len as int) =~= before);
    n
}

/// Whether something found is a recording: a directory other than the link to the latest one,
/// with a readable `meta.json`.
pub open spec fn is_recording(f: FoundFolder) -> bool {
    f.is_dir && text::opt_text(f.name) != Some("latest"@) && f.meta is Some
}

/// The entry for a recording.
pub open spec fn is_entry_of(f: FoundFolder, e: RecordingEntry) -> bool {
    &&& e.folder@ == f.path@
    &&& f.meta matches Some(meta) && e.started_at == meta.started_at && e.duration_sec
        == meta.duration_sec && e.status == meta.status
}

/// The recordings among what was found, in the order in which they were found.
pub open spec fn recordings_in(found: Seq<FoundFolder>) -> Seq<FoundFolder> {
    found.filter(|f: FoundFolder| is_recording(f))
}

/// Whether the entry at `a` is listed before the entry at `b`: the newer one first, and of two
/// that started at the same time the one found first.
pub open spec fn is_listed_before(times: Seq<Stamp>, a: int, b: int) -> bool {
    times[b].before(times[a]) || (!times[a].before(times[b]) && a < b)
}

/// Whether `order` lists all positions, newest first.
pub open spec fn is_newest_first(times: Seq<Stamp>, order: Seq<int>) -> bool {
    &&& order.len() == times.len()
    &&& forall|i: int| 0 <= i < order.len() ==> 0 <= #[trigger] order[i] < times.len()
    &&& forall|i: int, j: int|
        0 <= i < j < order.len() ==> is_listed_before(
            times,
            #[trigger] order[i],
            #[trigger] order[j],
        )
}

/// The start times of some recordings.
pub open spec fn start_times(found: Seq<FoundFolder>) -> Seq<Stamp> {
    Seq::new(found.len(), |i: int| found[i].meta->Some_0.started_at)
}

pub open spec fn entry_times(list: Seq<RecordingEntry>) -> Seq<Stamp> {
    Seq::new(list.len(), |i: int| list[i].started_at)
}

/// Positions as numbers.
pub open spec fn positions(order: Seq<usize>) -> Seq<int> {
    Seq::new(order.len(), |i: int| order[i] as int)
}

/// The positions of some entries, newest first.
fn newest_first(list: &Vec<RecordingEntry>) -> (r: Vec<usize>)
    ensures
        is_newest_first(entry_times(list@), positions(r@)),
{
    let ghost times = entry_times(list@);
    let mut order: Vec<usize> = Vec::new();
    let mut k: usize = 0;
    while k < list.len()
        invariant
            k <= list@.len(),
            times == entry_times(list@),
            order@.len() == k,
            forall|i: int| 0 <= i < k ==> (#[trigger] order@[i]) < k,
            forall|i: int, j: int|
                0 <= i < j < k ==> is_listed_before(
                    times,
                    #[trigger] order@[i] as int,
                    #[trigger] order@[j] as int,
                ),
        decreases list@.len() - k,
    {
        let mut p: usize = 0;
        while p < k && !list[order[p]].started_at.is_before(&list[k].started_at)
            invariant
                p <= k < list@.len(),
                times == entry_times(list@),
                order@.len() == k,
                forall|i: int| 0 <= i < k ==> (#[trigger] order@[i]) < k,
                forall|i: int|
                    0 <= i < p ==> !times[#[trigger] order@[i] as int].before(times[k as int]),
            decreases k - p,
        {
            p += 1;
        }
        let ghost before = order@;
        order.insert(p, k);
        proof {
            let after = order@;
            assert(after =~= before.insert(p as int, k));
            assert forall|i: int, j: int| 0 <= i < j < k + 1 implies is_listed_before(
                times,
                #[trigger] after[i] as int,
                #[trigger] after[j] as int,
            ) by {
                if i < p && j == p {
                    assert(after[i] == before[i]);
                } else if i == p && j > p {
                    assert(after[j] == before[j - 1]);
                    if j - 1 > p {
                        assert(is_listed_before(times, before[p as int] as int, before[j - 1] as int));
                    }
                } else {
                    let i0 = if i < p {
                        i
                    } else {
                        i - 1
                    };
                    let j0 = if j < p {
                        j
                    } else {
                        j - 1
                    };
                    assert(after[i] == before[i0]);
                    assert(after[j] == before[j0]);
                    assert(is_listed_before(times, before[i0] as int, before[j0] as int));
                }
            }
        }
        k += 1;
    }
    assert forall|i: int, j: int| 0 <= i < j < positions(order@).len() implies is_listed_before(
        times,
        #[trigger] positions(order@)[i],
        #[trigger] positions(order@)[j],
    ) by {
        assert(is_listed_before(times, order@[i] as int, order@[j] as int));
    }
    order
}

/// Whether a list shows what was found: the recordings, newest first, at most `limit` of them.
pub open spec fn lists(found: Seq<FoundFolder>, limit: usize, list: Seq<RecordingEntry>) -> bool {
    let recordings = recordings_in(found);
    exists|order: Seq<int>|
        {
            &&& #[trigger] is_newest_first(start_times(recordings), order)
            &&& list.len() == timeline::smaller(recordings.len() as int, limit as int)
            &&& forall|i: int|
                0 <= i < list.len() ==> is_entry_of(recordings[order[i]], #[trigger] list[i])
        }
}

/// The recordings among what was found, newest first, at most `limit` of them.
pub fn list_recordings(found: &Vec<FoundFolder>, limit: usize) -> (r: Vec<RecordingEntry>)
    ensures
        lists(found@, limit, r@),
        r@.len() <= limit,
        forall|i: int, j: int|
            0 <= i < j < r@.len() ==> !(#[trigger] r@[i]).started_at.before(
                (#[trigger] r@[j]).started_at,
            ),
{
    let ghost wanted = |f: FoundFolder| is_recording(f);
    let mut all: Vec<RecordingEntry> = Vec::new();
    let mut i: usize = 0;
    assert(found@.take(0).filter(wanted) =~= Seq::<FoundFolder>::empty()) by {
        reveal(Seq::filter);
        assert(found@.take(0).len() == 0);
    }
    while i < found.len()
        invariant
            i <= found@.len(),
            wanted == (|f: FoundFolder| is_recording(f)),
            all@.len() == found@.take(i as int).filter(wanted).len(),
            forall|k: int|
                0 <= k < all@.len() ==> is_entry_of(
                    found@.take(i as int).filter(wanted)[k],
                    #[trigger] all@[k],
                ),
        decreases found@.len() - i,
    {
        let ghost before = found@.take(i as int);
        let ghost after = found@.take(i + 1);
        proof {
            assert(after =~= before.push(found@[i as int]));
            before.lemma_filter_push(found@[i as int], wanted);
        }
        let f = &found[i];
        let is_latest = match &f.name {
            Some(name) => text::same(name.as_str(), "latest"),
            None => false,
        };
        if f.is_dir && !is_latest {
            match &f.meta {
                Some(meta) => {
                    all.push(
                        RecordingEntry {
                            folder: f.path.clone(),
                            started_at: meta.started_at,
                            duration_sec: meta.duration_sec,
                            status: meta.status,
                        },
                    );
                },
                None => {},
            }
        }
        i += 1;
    }
    assert(found@.take(i as int) =~= found@);
    let ghost recordings = recordings_in(found@);
    assert(recordings == found@.filter(wanted));
    assert(entry_times(all@) =~= start_times(recordings)) by {
        assert forall|k: int| 0 <= k < all@.len() implies entry_times(all@)[k] == start_times(
            recordings,
        )[k] by {
            assert(is_entry_of(recordings[k], all@[k]));
        }
    }
    let order = newest_first(&all);
    assert forall|j: int| 0 <= j < order@.len() implies (#[trigger] order@[j]) < all@.len() by {
        assert(positions(order@)[j] == order@[j]);
    }
    let shown: usize = if limit < all.len() {
        limit
    } else {
        all.len()
    };
    let mut r: Vec<RecordingEntry> = Vec::new();
    let mut k: usize = 0;
    while k < shown
        invariant
            k <= shown <= all@.len(),
            order@.len() == all@.len(),
            forall|j: int| 0 <= j < order@.len() ==> (#[trigger] order@[j]) < all@.len(),
            r@.len() == k,
            forall|j: int| 0 <= j < k ==> #[trigger] r@[j] == all@[order@[j] as int],
        decreases shown - k,
    {
        assert(order@[k as int] < all@.len());
        r.push(all[order[k]].clone());
        k += 1;
    }
    proof {
        let o = positions(order@);
        assert(is_newest_first(start_times(recordings), o));
        assert forall|j: int| 0 <= j < r@.len() implies is_entry_of(
            recordings[o[j]],
            #[trigger] r@[j],
        ) by {
            assert(r@[j] == all@[order@[j] as int]);
        }
        assert forall|i: int, j: int| 0 <= i < j < r@.len() implies !(
        #[trigger] r@[i]).started_at.before((#[trigger] r@[j]).started_at) by {
            law_list_is_newest_first(found@, limit, r@, i, j);
        }
    }
    r
}

/// A list never shows an older recording above a newer one.
pub proof fn law_list_is_newest_first(
    found: Seq<FoundFolder>,
    limit: usize,
    list: Seq<RecordingEntry>,
    i: int,
    j: int,
)
    requires
        lists(found, limit, list),
        0 <= i < j < list.len(),
    ensures
        !list[i].started_at.before(list[j].started_at),
{
    let recordings = recordings_in(found);
    let times = start_times(recordings);
    let order = choose|order: Seq<int>|
        {
            &&& #[trigger] is_newest_first(times, order)
            &&& list.len() == timeline::smaller(recordings.len() as int, limit as int)
            &&& forall|i: int|
                0 <= i < list.len() ==> is_entry_of(recordings[order[i]], #[trigger] list[i])
        };
    assert(is_entry_of(recordings[order[i]], list[i]));
    assert(is_entry_of(recordings[order[j]], list[j]));
    assert(is_listed_before(times, order[i], order[j]));
}

/// A list shows every recording that started after one it shows.
pub proof fn law_list_leaves_out_the_oldest(
    found: Seq<FoundFolder>,
    limit: usize,
    list: Seq<RecordingEntry>,
    k: int,
    i: int,
)
    requires
        lists(found, limit, list),
        0 <= k < recordings_in(found).len(),
        0 <= i < list.len(),
        list[i].started_at.before(start_times(recordings_in(found))[k]),
    ensures
        exists|j: int| 0 <= j < i && is_entry_of(recordings_in(found)[k], #[trigger] list[j]),
{
    let recordings = recordings_in(found);
    let times = start_times(recordings);
    let order = choose|order: Seq<int>|
        {
            &&& #[trigger] is_newest_first(times, order)
            &&& list.len() == timeline::smaller(recordings.len() as int, limit as int)
            &&& forall|i: int|
                0 <= i < list.len() ==> is_entry_of(recordings[order[i]], #[trigger] list[i])
        };
    lemma_order_is_complete(times, order, k);
    let j = choose|j: int| 0 <= j < order.len() && order[j] == k;
    assert(is_entry_of(recordings[order[i]], list[i]));
    if j > i {
        assert(is_listed_before(times, order[i], order[j]));
    }
    assert(is_entry_of(recordings[k], list[j]));
}

/// Every position occurs in an order that lists as many positions as there are.
proof fn lemma_order_is_complete(times: Seq<Stamp>, order: Seq<int>, k: int)
    requires
        is_newest_first(times, order),
        0 <= k < times.len(),
    ensures
        exists|j: int| 0 <= j < order.len() && order[j] == k,
{
    assert(order.no_duplicates()) by {
        assert forall|a: int, b: int| 0 <= a < b < order.len() implies order[a] != order[b] by {
            assert(is_listed_before(times, order[a], order[b]));
        }
    }
    order.unique_seq_to_set();
    let all = vstd::set_lib::set_int_range(0, times.len() as int);
    vstd::set_lib::lemma_int_range(0, times.len() as int);
    assert(order.to_set().subset_of(all));
    vstd::set_lib::lemma_subset_equality(order.to_set(), all);
    assert(order.to_set().contains(k));
}

/// A second pass over what was found marks nothing: all that said that it was being recorded is
/// interrupted.
pub proof fn law_second_pass_marks_nothing(
    before: Seq<FoundFolder>,
    mic_lens: Seq<Option<u64>>,
    after: Seq<FoundFolder>,
)
    requires
        all_marked(before, mic_lens, after),
    ensures
        recording_count(after) == 0,
    decreases after.len(),
{
    if after.len() > 0 {
        let n = after.len() - 1;
        assert(is_marked(before[n], mic_lens[n], after[n]));
        assert(all_marked(before.drop_last(), mic_lens, after.drop_last())) by {
            assert forall|i: int| 0 <= i < before.drop_last().len() implies is_marked(
                before.drop_last()[i],
                mic_lens[i],
                #[trigger] after.drop_last()[i],
            ) by {
                assert(is_marked(before[i], mic_lens[i], after[i]));
            }
        }
        law_second_pass_marks_nothing(before.drop_last(), mic_lens, after.drop_last());
    }
}

/// Marking is done once: a recording that was marked is not marked again.
pub proof fn law_stale_recordings_are_marked_once(meta: MetaText, mic_len: Option<u64>)
    ensures
        interrupted(meta, mic_len).status != RecordingStatus::Recording,
        interrupted(meta, mic_len).started_at == meta.started_at,
        meta.duration_sec > 0 ==> interrupted(meta, mic_len).duration_sec == meta.duration_sec,
{
}

/// A length in words reads back: below a minute as the seconds themselves, and from there on as
/// the whole minutes, however many they are.
pub proof fn law_minutes_read_back(sec: nat)
    ensures
        ({
            let t = minutes_text(sec);
            let shown = t.take(t.len() - 4);
            &&& t.len() > 4
            &&& text::all_digits(shown)
            &&& sec < 60 ==> t.skip(t.len() - 4) == " sec"@ && text::digits_value(shown) == sec
            &&& sec >= 60 ==> t.skip(t.len() - 4) == " min"@ && 60 * text::digits_value(shown)
                <= sec < 60 * (text::digits_value(shown) + 1)
        }),
{
    let t = minutes_text(sec);
    reveal_strlit(" sec");
    reveal_strlit(" min");
    if sec < 60 {
        text::law_decimal_reads_back(sec);
        assert(t.take(t.len() - 4) =~= text::decimal(sec));
        assert(t.skip(t.len() - 4) =~= " sec"@);
    } else {
        text::law_decimal_reads_back(sec / 60);
        assert(t.take(t.len() - 4) =~= text::decimal(sec / 60));
        assert(t.skip(t.len() - 4) =~= " min"@);
    }
}

/// A length on a clock reads back as the seconds it was made of, and shows no sixtieth minute or
/// second.
pub proof fn law_clock_reads_back(sec: nat)
    ensures
        reads_as_clock(elapsed_text(sec), sec),
{
    let h = sec / 3600;
    let m = sec % 3600 / 60;
    let s = sec % 60;
    assert(3600 * h + 60 * m + s == sec);
    text::law_two_digits_read_back(s);
    if h > 0 {
        text::law_decimal_reads_back(h);
        text::law_two_digits_read_back(m);
        lemma_long_clock(text::decimal(h), text::two_digits(m), text::two_digits(s));
    } else {
        text::law_decimal_reads_back(m);
        lemma_short_clock(text::decimal(m), text::two_digits(s));
    }
}

/// The parts of a clock with minutes and seconds.
proof fn lemma_short_clock(minutes: Seq<char>, seconds: Seq<char>)
    requires
        seconds.len() == 2,
    ensures
        ({
            let t = minutes + ":"@ + seconds;
            let n = t.len() as int;
            &&& n == minutes.len() + 3
            &&& t[n - 3] == ':'
            &&& t.skip(n - 2) == seconds
            &&& t.take(n - 3) == minutes
        }),
{
    reveal_strlit(":");
    let t = minutes + ":"@ + seconds;
    let n = t.len() as int;
    assert(t.skip(n - 2) =~= seconds);
    assert(t.take(n - 3) =~= minutes);
}

/// The parts of a clock with hours, minutes and seconds.
proof fn lemma_long_clock(hours: Seq<char>, minutes: Seq<char>, seconds: Seq<char>)
    requires
        minutes.len() == 2,
        seconds.len() == 2,
    ensures
        ({
            let t = hours + ":"@ + minutes + ":"@ + seconds;
            let n = t.len() as int;
            &&& n == hours.len() + 6
            &&& t[n - 3] == ':'
            &&& t[n - 6] == ':'
            &&& t.skip(n - 2) == seconds
            &&& t.subrange(n - 5, n - 3) == minutes
            &&& t.take(n - 6) == hours
        }),
{
    reveal_strlit(":");
    let t = hours + ":"@ + minutes + ":"@ + seconds;
    let n = t.len() as int;
    assert(t.skip(n - 2) =~= seconds);
    assert(t.subrange(n - 5, n - 3) =~= minutes);
    assert(t.take(n - 6) =~= hours);
}

/// The length that is taken from the file of the microphone is the whole number of seconds that
/// its samples of two bytes behind the header last. It is taken only where none was known, and
/// nothing else of what was said of the recording is lost.
pub proof fn law_interrupted_length_is_that_of_the_file(meta: MetaText, mic_len: Option<u64>)
    ensures
        ({
            let after = interrupted(meta, mic_len);
            let d = after.duration_sec;
            &&& after.status == RecordingStatus::Interrupted
            &&& meta.duration_sec > 0 ==> d == meta.duration_sec
            &&& mic_len is None || meta.sample_rate == 0 || mic_len->0 <= 44 ==> d
                == meta.duration_sec
            &&& meta.duration_sec == 0 && mic_len is Some && meta.sample_rate > 0 && mic_len->0
                > 44 ==> 44 + 2 * meta.sample_rate * d <= mic_len->0 < 44 + 2 * meta.sample_rate * (
            d + 1)
            &&& after.warnings.len() == meta.warnings.len() + 1
            &&& after.warnings.last() == "interrupted: core exited during recording"@
            &&& meta.warnings.is_prefix_of(after.warnings)
            &&& after.started_at == meta.started_at
            &&& after.sample_rate == meta.sample_rate
            &&& after.mic_track == meta.mic_track
            &&& after.system_track == meta.system_track
            &&& after.mic_device == meta.mic_device
            &&& after.system_device == meta.system_device
            &&& after.switches == meta.switches
        }),
{
    if meta.duration_sec == 0 && has_audio(mic_len) && meta.sample_rate > 0 {
        let samples = (mic_len->0 - 44) / 2;
        let rate = meta.sample_rate as int;
        let d = samples / rate;
        vstd::arithmetic::div_mod::lemma_fundamental_div_mod(samples, rate);
        vstd::arithmetic::div_mod::lemma_div_pos_is_pos(samples, rate);
        vstd::arithmetic::div_mod::lemma_div_nonincreasing(samples, rate);
        assert(0 <= samples % rate < rate) by (nonlinear_arith)
            requires
                rate > 0,
        ;
        assert(2 * rate * d == 2 * (rate * d)) by (nonlinear_arith);
        assert(2 * rate * (d + 1) == 2 * (rate * d) + 2 * rate) by (nonlinear_arith);
    }
}

/// A recording that has just started says what it was started with, and nothing more.
pub proof fn law_new_recording_says_how_it_began(
    started_at: Stamp,
    sample_rate: u32,
    mic: Seq<char>,
    system: Seq<char>,
)
    ensures
        ({
            let meta = just_started(started_at, sample_rate, mic, system);
            &&& meta.status == RecordingStatus::Recording
            &&& meta.started_at == started_at
            &&& meta.duration_sec == 0
            &&& meta.sample_rate == sample_rate
            &&& meta.mic_track == "mic.wav"@
            &&& meta.system_track == "system.wav"@
            &&& meta.mic_device == mic
            &&& meta.system_device == system
            &&& meta.switches.len() == 0
            &&& meta.warnings.len() == 0
        }),
{
}

/// A recording that failed says so, with the error behind the earlier warnings. All else that was
/// said of it is kept.
pub proof fn law_failure_is_on_record(meta: MetaText, error: Seq<char>)
    ensures
        ({
            let after = failed(meta, error);
            &&& after.status == RecordingStatus::Failed
            &&& after.warnings.len() == meta.warnings.len() + 1
            &&& "failed: "@.is_prefix_of(after.warnings.last())
            &&& after.warnings.last().skip(8) == error
            &&& meta.warnings.is_prefix_of(after.warnings)
            &&& after.started_at == meta.started_at
            &&& after.duration_sec == meta.duration_sec
            &&& after.sample_rate == meta.sample_rate
            &&& after.mic_track == meta.mic_track
            &&& after.system_track == meta.system_track
            &&& after.mic_device == meta.mic_device
            &&& after.system_device == meta.system_device
            &&& after.switches == meta.switches
        }),
{
    reveal_strlit("failed: ");
    let t = "failed: "@ + error;
    assert(t.skip(8) =~= error);
    assert("failed: "@ =~= t.subrange(0, 8));
}

/// A warning is put on record behind the earlier ones, and nothing else changes.
pub proof fn law_warning_is_on_record(meta: MetaText, warning: Seq<char>)
    ensures
        ({
            let after = warned(meta, warning);
            &&& after.warnings.len() == meta.warnings.len() + 1
            &&& after.warnings.last() == warning
            &&& meta.warnings.is_prefix_of(after.warnings)
            &&& after.status == meta.status
            &&& after.duration_sec == meta.duration_sec
            &&& after.started_at == meta.started_at
            &&& after.sample_rate == meta.sample_rate
            &&& after.mic_track == meta.mic_track
            &&& after.system_track == meta.system_track
            &&& after.mic_device == meta.mic_device
            &&& after.system_device == meta.system_device
            &&& after.switches == meta.switches
        }),
{
}

/// A label begins with the start time and ends with the length, and has three characters between
/// them.
pub proof fn law_label_shows_start_and_length(started: Seq<char>, duration_sec: u64)
    ensures
        ({
            let t = label_text(started, duration_sec);
            let i = started.len() as int;
            let length = t.skip(i + 3);
            let shown = length.take(length.len() - 4);
            &&& t.take(i) == started
            &&& t.subrange(i, i + 3) == " · "@
            &&& length.len() > 4
            &&& text::all_digits(shown)
            &&& duration_sec < 60 ==> length.skip(length.len() - 4) == " sec"@
                && text::digits_value(shown) == duration_sec
            &&& duration_sec >= 60 ==> length.skip(length.len() - 4) == " min"@ && 60
                * text::digits_value(shown) <= duration_sec < 60 * (text::digits_value(shown) + 1)
        }),
{
    let t = label_text(started, duration_sec);
    let i = started.len() as int;
    reveal_strlit(" · ");
    assert(t.skip(i + 3) =~= minutes_text(duration_sec as nat));
    assert(t.take(i) =~= started);
    assert(t.subrange(i, i + 3) =~= " · "@);
    law_minutes_read_back(duration_sec as nat);
}

/// A list that has room left shows everything found that is a directory other than the link to the
/// latest recording and has a description, with what that description says.
pub proof fn law_list_shows_every_recording(
    found: Seq<FoundFolder>,
    limit: usize,
    list: Seq<RecordingEntry>,
    k: int,
)
    requires
        lists(found, limit, list),
        list.len() < limit,
        0 <= k < found.len(),
        found[k].is_dir,
        text::opt_text(found[k].name) != Some("latest"@),
        found[k].meta is Some,
    ensures
        exists|j: int|
            0 <= j < list.len() && (#[trigger] list[j]).folder@ == found[k].path@
                && list[j].started_at == found[k].meta->0.started_at && list[j].duration_sec
                == found[k].meta->0.duration_sec && list[j].status == found[k].meta->0.status,
{
    let wanted = |f: FoundFolder| is_recording(f);
    let recordings = recordings_in(found);
    let times = start_times(recordings);
    let order = choose|order: Seq<int>|
        {
            &&& #[trigger] is_newest_first(times, order)
            &&& list.len() == timeline::smaller(recordings.len() as int, limit as int)
            &&& forall|i: int|
                0 <= i < list.len() ==> is_entry_of(recordings[order[i]], #[trigger] list[i])
        };
    let at = sequences::lemma_filter_positions(found, wanted);
    assert(wanted(found[k]));
    let i = choose|i: int| 0 <= i < at.len() && at[i] == k;
    assert(recordings[i] == found[at[i]]);
    lemma_order_is_complete(times, order, i);
    let j = choose|j: int| 0 <= j < order.len() && order[j] == i;
    assert(is_entry_of(recordings[order[j]], list[j]));
}

/// A list is no longer than asked for and shows nothing but directories other than the link to the
/// latest recording, with what their descriptions say. Of two that started at the same time, the
/// one found first comes first.
pub proof fn law_list_shows_only_recordings(
    found: Seq<FoundFolder>,
    limit: usize,
    list: Seq<RecordingEntry>,
) -> (at: Seq<int>)
    requires
        lists(found, limit, list),
    ensures
        list.len() <= limit,
        at.len() == list.len(),
        forall|i: int|
            0 <= i < list.len() ==> 0 <= #[trigger] at[i] < found.len() && found[at[i]].is_dir
                && text::opt_text(found[at[i]].name) != Some("latest"@) && found[at[i]].meta is Some
                && list[i].folder@ == found[at[i]].path@ && list[i].started_at
                == found[at[i]].meta->0.started_at && list[i].duration_sec
                == found[at[i]].meta->0.duration_sec && list[i].status
                == found[at[i]].meta->0.status,
        forall|i: int, j: int|
            0 <= i < j < list.len() ==> #[trigger] at[i] != #[trigger] at[j] && (
            list[j].started_at.before(list[i].started_at) || at[i] < at[j]),
{
    let wanted = |f: FoundFolder| is_recording(f);
    let recordings = recordings_in(found);
    let times = start_times(recordings);
    let order = choose|order: Seq<int>|
        {
            &&& #[trigger] is_newest_first(times, order)
            &&& list.len() == timeline::smaller(recordings.len() as int, limit as int)
            &&& forall|i: int|
                0 <= i < list.len() ==> is_entry_of(recordings[order[i]], #[trigger] list[i])
        };
    let places = sequences::lemma_filter_positions(found, wanted);
    let at = Seq::new(list.len(), |i: int| places[order[i]]);
    assert forall|i: int| 0 <= i < list.len() implies 0 <= #[trigger] at[i] < found.len()
        && found[at[i]].is_dir && text::opt_text(found[at[i]].name) != Some("latest"@)
        && found[at[i]].meta is Some && list[i].folder@ == found[at[i]].path@ && list[i].started_at
        == found[at[i]].meta->0.started_at && list[i].duration_sec
        == found[at[i]].meta->0.duration_sec && list[i].status == found[at[i]].meta->0.status by {
        let p = order[i];
        assert(0 <= places[p] < found.len());
        assert(is_entry_of(recordings[p], list[i]));
        assert(recordings[p] == found[places[p]]);
    }
    assert forall|i: int, j: int| 0 <= i < j < list.len() implies #[trigger] at[i]
        != #[trigger] at[j] && (list[j].started_at.before(list[i].started_at) || at[i] < at[j]) by {
        assert(is_listed_before(times, order[i], order[j]));
        assert(is_entry_of(recordings[order[i]], list[i]));
        assert(is_entry_of(recordings[order[j]], list[j]));
        let p = order[i];
        let q = order[j];
        if p < q {
            assert(places[p] < places[q]);
        } else {
            assert(places[q] < places[p] || p == q);
        }
    }
    at
}

/// One more folder adds to the number of recordings to be marked exactly if it is a directory
/// whose description says that it is being recorded.
pub proof fn law_stale_recordings_are_counted(found: Seq<FoundFolder>, one_more: FoundFolder)
    ensures
        recording_count(Seq::empty()) == 0,
        recording_count(found.push(one_more)) == recording_count(found) + (if one_more.is_dir
            && one_more.meta is Some && one_more.meta->0.status == RecordingStatus::Recording {
            1int
        } else {
            0int
        }),
{
    assert(found.push(one_more).drop_last() =~= found);
}

/// What is shown of a length in minutes reads back: the number before the unit, below a minute as
/// the seconds themselves, and from there on as the whole minutes, however many they are.
pub proof fn law_shown_minutes_are_whole(sec: u64, shown: String)
    requires
        call_ensures(format_minutes, (sec,), shown),
    ensures
        ({
            let t = shown@;
            let number = t.take(t.len() - 4);
            &&& t.len() > 4
            &&& text::all_digits(number)
            &&& sec < 60 ==> t.skip(t.len() - 4) == " sec"@ && text::digits_value(number) == sec
            &&& sec >= 60 ==> t.skip(t.len() - 4) == " min"@ && 60 * text::digits_value(number)
                <= sec < 60 * (text::digits_value(number) + 1)
        }),
{
}

/// What is shown on a clock reads back as the seconds it was made of.
pub proof fn law_shown_clock_is_exact(sec: u64, shown: String)
    requires
        call_ensures(format_elapsed, (sec,), shown),
    ensures
        ({
            let t = shown@;
            let n = t.len() as int;
            let s = text::digits_value(t.skip(n - 2));
            &&& n >= 4
            &&& t[n - 3] == ':'
            &&& s < 60
            &&& sec < 3600 ==> 60 * text::digits_value(t.take(n - 3)) + s == sec
            &&& sec >= 3600 ==> n >= 7 && t[n - 6] == ':' && text::digits_value(
                t.subrange(n - 5, n - 3),
            ) < 60 && 3600 * text::digits_value(t.take(n - 6)) + 60 * text::digits_value(
                t.subrange(n - 5, n - 3),
            ) + s == sec
        }),
{
}

/// The folder of a failed recording is removed exactly if neither track has audio. If it stays, it
/// says that it failed and why, and all that it said before.
pub proof fn law_failed_recording_with_audio_is_kept(
    mic_len: Option<u64>,
    system_len: Option<u64>,
    loaded: Option<Meta>,
    now: Stamp,
    error: &str,
    kept: Option<Meta>,
)
    requires
        call_ensures(mark_failed, (mic_len, system_len, loaded, now, error), kept),
    ensures
        kept is Some <==> (mic_len is Some && mic_len->0 > 44) || (system_len is Some
            && system_len->0 > 44),
        kept is Some ==> kept->0.status == RecordingStatus::Failed,
        kept is Some ==> kept->0@.warnings.last().skip(8) == error@,
        kept is Some && loaded is Some ==> kept->0.started_at == loaded->0.started_at
            && kept->0.duration_sec == loaded->0.duration_sec && kept->0.sample_rate
            == loaded->0.sample_rate && loaded->0@.warnings.is_prefix_of(kept->0@.warnings),
        kept is Some && loaded is None ==> kept->0.started_at == now && kept->0.duration_sec == 0,
{
    match loaded {
        Some(meta) => {
            law_failure_is_on_record(meta@, error@);
        },
        None => {
            law_failure_is_on_record(just_started(now, 0, ""@, ""@), error@);
        },
    }
}

/// A recording that was marked is not marked again: a second pass finds nothing to mark and changes
/// nothing. A first pass marks exactly what says that it is being recorded.
pub proof fn law_second_mark_changes_nothing(
    meta: &mut Meta,
    mic_len: Option<u64>,
    first: bool,
    later: &mut Meta,
    later_len: Option<u64>,
    second: bool,
)
    requires
        call_ensures(Meta::mark_stale, (meta, mic_len), first),
        *old(later) == *final(meta),
        call_ensures(Meta::mark_stale, (later, later_len), second),
    ensures
        first <==> old(meta).status == RecordingStatus::Recording,
        first ==> final(meta).status == RecordingStatus::Interrupted,
        !first ==> final(meta)@ == old(meta)@,
        !second,
        final(later)@ == final(meta)@,
{
}

/// The label of a recording begins with its start time and ends with its length.
pub proof fn law_label_tells_the_recording(entry: &RecordingEntry, label: String)
    requires
        entry.started_at.valid(),
        call_ensures(RecordingEntry::label, (entry,), label),
    ensures
        ({
            let started = stamp::formatted(
                entry.started_at.secs,
                entry.started_at.nanos,
                entry.started_at.offset,
                stamp::LABEL_FORMAT@,
            );
            let length = label@.skip(started.len() as int + 3);
            let shown = length.take(length.len() - 4);
            &&& label@.take(started.len() as int) == started
            &&& length.len() > 4
            &&& text::all_digits(shown)
            &&& entry.duration_sec < 60 ==> text::digits_value(shown) == entry.duration_sec
            &&& entry.duration_sec >= 60 ==> 60 * text::digits_value(shown) <= entry.duration_sec
                < 60 * (text::digits_value(shown) + 1)
        }),
{
    let started = stamp::formatted(
        entry.started_at.secs,
        entry.started_at.nanos,
        entry.started_at.offset,
        stamp::LABEL_FORMAT@,
    );
    law_label_shows_start_and_length(started, entry.duration_sec);
}

/// The description of a recording lies in its folder.
pub proof fn law_description_lies_in_the_folder(folder: &str, path: String)
    requires
        call_ensures(Meta::path_in, (folder,), path),
    ensures
        folder@.is_prefix_of(path@),
        "meta.json"@.is_suffix_of(path@),
        folder@.len() > 0 && folder@.last() != '/' ==> path@ == folder@ + seq!['/'] + "meta.json"@,
{
    text::law_joined_path_has_both_parts(folder@, "meta.json"@);
}

} // verus!
