//! Crash-safe 16-bit PCM WAV writer.
//!
//! A WAV header carries the data length, so a file whose process died mid-write is normally
//! unreadable. This writer produces a fresh header on every flush, so that at worst the last
//! few seconds are lost, not the whole meeting.
//!
//! The writer holds no file. It hands out the bytes to append and the header to write over the
//! old one; its ghost state is the audio written so far.

use vstd::prelude::*;
use crate::timeline;

verus! {

/// The length of the header in bytes.
pub const HEADER_LEN: u64 = 44;

/// The number of samples at which the length field of a track is exhausted.
pub const MAX_SAMPLES: u64 = 2_147_483_647;

/// The number of samples up to which the header can state the length of a track.
pub const MAX_HEADER_SAMPLES: u64 = 2_147_483_629;

/// Two bytes, least significant first.
pub open spec fn le16(n: int) -> Seq<u8> {
    seq![(n % 256) as u8, (n / 256 % 256) as u8]
}

/// Four bytes, least significant first.
pub open spec fn le32(n: int) -> Seq<u8> {
    seq![
        (n % 256) as u8,
        (n / 256 % 256) as u8,
        (n / 65536 % 256) as u8,
        (n / 16777216 % 256) as u8,
    ]
}

/// The two's complement of a sample, as an unsigned number.
pub open spec fn twos_complement(v: i16) -> int {
    if v < 0 {
        v + 65536
    } else {
        v as int
    }
}

/// The bytes of a run of samples.
pub open spec fn pcm_bytes(audio: Seq<i16>) -> Seq<u8> {
    Seq::new(2 * audio.len(), |k: int| le16(twos_complement(audio[k / 2]))[k % 2])
}

/// The header of a mono 16-bit track with `data_bytes` bytes of audio.
pub open spec fn header_bytes(sample_rate: int, data_bytes: int) -> Seq<u8> {
    seq![82u8, 73, 70, 70] + le32(36 + data_bytes) + seq![87u8, 65, 86, 69] + seq![
        102u8,
        109,
        116,
        32,
    ] + le32(16) + le16(1) + le16(1) + le32(sample_rate) + le32(sample_rate * 2) + le16(2) + le16(
        16,
    ) + seq![100u8, 97, 116, 97] + le32(data_bytes)
}

/// `n` samples of silence.
pub open spec fn silence(n: int) -> Seq<i16> {
    Seq::new(
        if n > 0 {
            n as nat
        } else {
            0
        },
        |k: int| 0i16,
    )
}

/// What a track consists of.
#[verifier::ext_equal]
pub struct Track {
    pub sample_rate: u32,
    /// Every sample written so far.
    pub audio: Seq<i16>,
    /// How many of these samples have been handed out to be stored.
    pub stored: nat,
}

impl Track {
    /// The number of audio bytes, as far as the length field can tell.
    pub open spec fn data_bytes(self) -> int {
        timeline::smaller(2 * self.audio.len() as int, u32::MAX as int)
    }

    /// The number of samples, as far as the length field can tell.
    pub open spec fn samples(self) -> int {
        timeline::smaller(self.audio.len() as int, MAX_SAMPLES as int)
    }

    /// Whether the header can state the length of the track.
    pub open spec fn has_header(self) -> bool {
        36 + self.data_bytes() <= u32::MAX
    }

    /// The file that holds the whole track.
    pub open spec fn file(self) -> Seq<u8> {
        header_bytes(self.sample_rate as int, self.data_bytes()) + pcm_bytes(self.audio)
    }
}

/// What a flush writes: `data` at the end of the file, then `header` over its first bytes. The
/// next bytes go at position `end`.
pub struct FlushPlan {
    pub data: Vec<u8>,
    pub header: Vec<u8>,
    pub end: u64,
}

/// The file after a flush of `data` and `header`.
pub open spec fn after_flush(file: Seq<u8>, data: Seq<u8>, header: Seq<u8>) -> Seq<u8> {
    header + (file + data).skip(HEADER_LEN as int)
}

pub struct WavWriter {
    pending: Vec<u8>,
    data_bytes: u32,
    sample_rate: u32,
    audio: Ghost<Seq<i16>>,
    stored: Ghost<nat>,
}

fn push_le16(out: &mut Vec<u8>, n: u16)
    ensures
        final(out)@ == old(out)@ + le16(n as int),
{
    out.push((n % 256) as u8);
    out.push((n / 256 % 256) as u8);
    assert(out@ =~= old(out)@ + le16(n as int));
}

fn push_le32(out: &mut Vec<u8>, n: u32)
    ensures
        final(out)@ == old(out)@ + le32(n as int),
{
    out.push((n % 256) as u8);
    out.push((n / 256 % 256) as u8);
    out.push((n / 65536 % 256) as u8);
    out.push((n / 16777216 % 256) as u8);
    assert(out@ =~= old(out)@ + le32(n as int));
}

fn push_tag(out: &mut Vec<u8>, a: u8, b: u8, c: u8, d: u8)
    ensures
        final(out)@ == old(out)@ + seq![a, b, c, d],
{
    out.push(a);
    out.push(b);
    out.push(c);
    out.push(d);
    assert(out@ =~= old(out)@ + seq![a, b, c, d]);
}

impl WavWriter {
    pub closed spec fn view(&self) -> Track {
        Track { sample_rate: self.sample_rate, audio: self.audio@, stored: self.stored@ }
    }

    /// What holds of every writer.
    pub closed spec fn wf(&self) -> bool {
        &&& self.sample_rate <= u32::MAX / 2
        &&& self.stored@ <= self.audio@.len()
        &&& self.data_bytes == self@.data_bytes()
        &&& self.pending@ == pcm_bytes(self.audio@.skip(self.stored@ as int))
    }

    /// What a caller may know of every writer.
    pub proof fn lemma_wf(&self)
        requires
            self.wf(),
        ensures
            self@.sample_rate <= u32::MAX / 2,
            self@.stored <= self@.audio.len(),
    {
    }

    /// A writer for an empty track. The rate must leave room for the byte rate, its double.
    pub fn create(sample_rate: u32) -> (w: WavWriter)
        requires
            sample_rate <= u32::MAX / 2,
        ensures
            w.wf(),
            w@ == (Track { sample_rate, audio: Seq::empty(), stored: 0 }),
    {
        let w = WavWriter {
            pending: Vec::new(),
            data_bytes: 0,
            sample_rate,
            audio: Ghost(Seq::empty()),
            stored: Ghost(0),
        };
        assert(w.pending@ =~= pcm_bytes(w.audio@.skip(0)));
        w
    }

    /// Whether the header can state the length of the track.
    pub fn fits_header(&self) -> (r: bool)
        requires
            self.wf(),
        ensures
            r == self@.has_header(),
            r <==> 2 * self@.audio.len() + 36 <= u32::MAX,
    {
        self.data_bytes <= u32::MAX - 36
    }

    /// The header for the audio written so far.
    pub fn write_header(&self) -> (r: Vec<u8>)
        requires
            self.wf(),
            self@.has_header(),
        ensures
            r@ == header_bytes(self@.sample_rate as int, self@.data_bytes()),
            r@.len() == HEADER_LEN,
    {
        let channels: u16 = 1;
        let bits: u16 = 16;
        let block_align: u16 = 2;
        let byte_rate: u32 = self.sample_rate * 2;
        let mut out: Vec<u8> = Vec::new();
        push_tag(&mut out, 82, 73, 70, 70);
        push_le32(&mut out, 36 + self.data_bytes);
        push_tag(&mut out, 87, 65, 86, 69);
        push_tag(&mut out, 102, 109, 116, 32);
        push_le32(&mut out, 16);
        push_le16(&mut out, 1);
        push_le16(&mut out, channels);
        push_le32(&mut out, self.sample_rate);
        push_le32(&mut out, byte_rate);
        push_le16(&mut out, block_align);
        push_le16(&mut out, bits);
        push_tag(&mut out, 100, 97, 116, 97);
        push_le32(&mut out, self.data_bytes);
        assert(out@ =~= header_bytes(self@.sample_rate as int, self@.data_bytes()));
        out
    }

    /// Appends one sample.
    pub fn write_sample(&mut self, v: i16)
        requires
            old(self).wf(),
        ensures
            final(self).wf(),
            final(self)@ == (Track { audio: old(self)@.audio.push(v), ..old(self)@ }),
    {
        let wide: i32 = v as i32;
        let u: u16 = if wide < 0 {
            (wide + 65536) as u16
        } else {
            wide as u16
        };
        push_le16(&mut self.pending, u);
        self.data_bytes = self.data_bytes.saturating_add(2);
        let ghost before = self.audio@;
        self.audio = Ghost(before.push(v));
        assert(self.pending@ =~= pcm_bytes(self.audio@.skip(self.stored@ as int))) by {
            let old_tail = before.skip(self.stored@ as int);
            let new_tail = self.audio@.skip(self.stored@ as int);
            assert(new_tail =~= old_tail.push(v));
            assert forall|k: int| 0 <= k < 2 * new_tail.len() implies self.pending@[k]
                == pcm_bytes(new_tail)[k] by {
                if k < 2 * old_tail.len() {
                    assert(self.pending@[k] == pcm_bytes(old_tail)[k]);
                    assert(old_tail[k / 2] == new_tail[k / 2]);
                }
            }
        }
    }

    /// Number of samples written so far.
    pub fn samples(&self) -> (r: u64)
        requires
            self.wf(),
        ensures
            r == self@.samples(),
            self@.audio.len() <= 2_147_483_647 ==> r == self@.audio.len(),
            self@.audio.len() > 2_147_483_647 ==> r == 2_147_483_647,
    {
        self.data_bytes as u64 / 2
    }

    /// The sample rate of the track.
    pub fn sample_rate(&self) -> (r: u32)
        ensures
            r == self@.sample_rate,
    {
        self.sample_rate
    }

    /// The bytes of the samples that have not been handed out yet, to be stored at the end of
    /// the file.
    pub fn take_pending(&mut self) -> (r: Vec<u8>)
        requires
            old(self).wf(),
        ensures
            final(self).wf(),
            r@ == pcm_bytes(old(self)@.audio.skip(old(self)@.stored as int)),
            final(self)@ == (Track { stored: old(self)@.audio.len(), ..old(self)@ }),
    {
        let mut taken: Vec<u8> = Vec::new();
        core::mem::swap(&mut taken, &mut self.pending);
        self.stored = Ghost(self.audio@.len());
        assert(self.pending@ =~= pcm_bytes(self.audio@.skip(self.stored@ as int)));
        taken
    }

    /// Everything that brings the file up to date: the audio that is still missing, and a header
    /// with the current length.
    pub fn flush(&mut self) -> (r: FlushPlan)
        requires
            old(self).wf(),
            old(self)@.has_header(),
        ensures
            final(self).wf(),
            final(self)@ == (Track { stored: old(self)@.audio.len(), ..old(self)@ }),
            r.data@ == pcm_bytes(old(self)@.audio.skip(old(self)@.stored as int)),
            r.header@ == header_bytes(old(self)@.sample_rate as int, old(self)@.data_bytes()),
            r.end == HEADER_LEN + old(self)@.data_bytes(),
    {
        let end: u64 = HEADER_LEN + self.data_bytes as u64;
        let header = self.write_header();
        let data = self.take_pending();
        FlushPlan { data, header, end }
    }

    /// The last flush of a track. The file is then synced and closed.
    pub fn finalize(self) -> (r: FlushPlan)
        requires
            self.wf(),
            self@.has_header(),
        ensures
            r.data@ == pcm_bytes(self@.audio.skip(self@.stored as int)),
            r.header@ == header_bytes(self@.sample_rate as int, self@.data_bytes()),
            r.end == HEADER_LEN + self@.data_bytes(),
    {
        let mut w = self;
        w.flush()
    }
}

/// Appends silence until the track has `target` samples.
pub fn pad_to_samples(wav: &mut WavWriter, target: u64)
    requires
        old(wav).wf(),
        target <= MAX_SAMPLES,
    ensures
        final(wav).wf(),
        final(wav)@ == (Track {
            audio: old(wav)@.audio + silence(target - old(wav)@.audio.len()),
            ..old(wav)@
        }),
        final(wav)@.audio.len() == timeline::larger(
            old(wav)@.audio.len() as int,
            target as int,
        ),
        old(wav)@.audio.is_prefix_of(final(wav)@.audio),
        forall|k: int|
            old(wav)@.audio.len() <= k < final(wav)@.audio.len()
                ==> #[trigger] final(wav)@.audio[k] == 0,
{
    let ghost start = wav@;
    assert(start.audio =~= start.audio + silence(0));
    while wav.samples() < target
        invariant
            wav.wf(),
            target <= MAX_SAMPLES,
            start == old(wav)@,
            wav@.audio.len() >= start.audio.len(),
            wav@ == (Track {
                audio: start.audio + silence(wav@.audio.len() - start.audio.len()),
                ..start
            }),
            wav@.audio.len() > start.audio.len() ==> wav@.audio.len() <= target,
        decreases target - wav@.audio.len(),
    {
        let ghost before = wav@.audio;
        wav.write_sample(0);
        assert(wav@.audio =~= start.audio + silence(before.len() + 1 - start.audio.len()));
    }
    assert(wav@.audio =~= start.audio + silence(target - start.audio.len()));
}

/// Writes a chunk where its capture time puts it: silence for what is missing before it, and
/// nothing of what overlaps the audio already there.
pub fn write_timed_samples(
    wav: &mut WavWriter,
    rate: u32,
    origin_host_nanos: u64,
    captured_host_nanos: u64,
    samples: &[i16],
)
    requires
        old(wav).wf(),
        timeline::chunk_start(rate, origin_host_nanos, captured_host_nanos) <= MAX_SAMPLES,
    ensures
        final(wav).wf(),
        ({
            let start = timeline::chunk_start(rate, origin_host_nanos, captured_host_nanos);
            let current = old(wav)@.samples();
            final(wav)@ == (Track {
                audio: old(wav)@.audio + silence(timeline::gap_before(current, start)) + samples@.skip(
                    timeline::overlap(current, start, samples@.len() as int),
                ),
                ..old(wav)@
            })
        }),
        old(wav)@.audio.len() <= MAX_SAMPLES ==> ({
            let start = timeline::chunk_start(rate, origin_host_nanos, captured_host_nanos);
            let before = old(wav)@.audio;
            let after = final(wav)@.audio;
            &&& before.is_prefix_of(after)
            &&& after.len() == timeline::larger(before.len() as int, start + samples@.len())
            &&& forall|k: int| before.len() <= k < start ==> #[trigger] after[k] == 0
            &&& forall|i: int|
                0 <= i < samples@.len() && before.len() <= start + i ==> after[start + i]
                    == #[trigger] samples@[i]
        }),
{
    let ghost before = wav@;
    proof {
        if before.audio.len() <= MAX_SAMPLES {
            law_chunk_keeps_its_time(
                before.audio,
                timeline::chunk_start(rate, origin_host_nanos, captured_host_nanos),
                samples@,
            );
        }
    }
    let (padding, skip) = timeline::timeline_placement(
        wav.samples(),
        rate,
        origin_host_nanos,
        captured_host_nanos,
        samples.len(),
    );
    let target: u64 = wav.samples().saturating_add(padding);
    let ghost start = timeline::chunk_start(rate, origin_host_nanos, captured_host_nanos);
    pad_to_samples(wav, target);
    assert(wav@.audio =~= before.audio + silence(timeline::gap_before(before.samples(), start)));
    let ghost padded = wav@;
    let mut i: usize = skip;
    assert(padded.audio =~= padded.audio + samples@.subrange(skip as int, i as int));
    while i < samples.len()
        invariant
            wav.wf(),
            skip <= i <= samples@.len(),
            wav@ == (Track {
                audio: padded.audio + samples@.subrange(skip as int, i as int),
                ..padded
            }),
        decreases samples@.len() - i,
    {
        wav.write_sample(samples[i]);
        i += 1;
        assert(wav@.audio =~= padded.audio + samples@.subrange(skip as int, i as int));
    }
    assert(samples@.subrange(skip as int, i as int) =~= samples@.skip(skip as int));
}

/// The 16-bit number that stands in a file at position `pos`.
pub open spec fn u16_at(file: Seq<u8>, pos: int) -> int {
    file[pos] + 256 * file[pos + 1]
}

/// The 32-bit number that stands in a file at position `pos`.
pub open spec fn u32_at(file: Seq<u8>, pos: int) -> int {
    u16_at(file, pos) + 65536 * u16_at(file, pos + 2)
}

/// The `i`-th sample of a file, as a player reads it.
pub open spec fn sample_at(file: Seq<u8>, i: int) -> int {
    let u = u16_at(file, HEADER_LEN + 2 * i);
    if u < 32768 {
        u
    } else {
        u - 65536
    }
}

/// Whether a player that trusts the header gets exactly `audio`, as mono 16-bit PCM at
/// `sample_rate`, and finds all of it in the file.
pub open spec fn plays(file: Seq<u8>, sample_rate: u32, audio: Seq<i16>) -> bool {
    &&& file.len() >= HEADER_LEN + 2 * audio.len()
    &&& file.subrange(0, 4) == seq![82u8, 73, 70, 70]
    &&& file.subrange(8, 16) == seq![87u8, 65, 86, 69, 102, 109, 116, 32]
    &&& file.subrange(36, 40) == seq![100u8, 97, 116, 97]
    &&& u32_at(file, 4) + 8 == HEADER_LEN + 2 * audio.len()
    &&& u32_at(file, 16) == 16
    &&& u16_at(file, 20) == 1
    &&& u16_at(file, 22) == 1
    &&& u32_at(file, 24) == sample_rate
    &&& u32_at(file, 28) == 2 * sample_rate
    &&& u16_at(file, 32) == 2
    &&& u16_at(file, 34) == 16
    &&& u32_at(file, 40) == 2 * audio.len()
    &&& forall|i: int| 0 <= i < audio.len() ==> #[trigger] sample_at(file, i) == audio[i]
}

proof fn lemma_le16_reads_back(file: Seq<u8>, pos: int, n: int)
    requires
        0 <= pos,
        pos + 2 <= file.len(),
        0 <= n < 65536,
        file.subrange(pos, pos + 2) == le16(n),
    ensures
        u16_at(file, pos) == n,
{
    assert(file[pos] == file.subrange(pos, pos + 2)[0]);
    assert(file[pos + 1] == file.subrange(pos, pos + 2)[1]);
}

proof fn lemma_le32_reads_back(file: Seq<u8>, pos: int, n: int)
    requires
        0 <= pos,
        pos + 4 <= file.len(),
        0 <= n <= u32::MAX,
        file.subrange(pos, pos + 4) == le32(n),
    ensures
        u32_at(file, pos) == n,
{
    assert(file[pos] == file.subrange(pos, pos + 4)[0]);
    assert(file[pos + 1] == file.subrange(pos, pos + 4)[1]);
    assert(file[pos + 2] == file.subrange(pos, pos + 4)[2]);
    assert(file[pos + 3] == file.subrange(pos, pos + 4)[3]);
}

/// What a player finds in the header.
proof fn lemma_header_fields(rate: int, data: int, rest: Seq<u8>)
    requires
        0 <= rate <= u32::MAX / 2,
        0 <= data <= u32::MAX - 36,
    ensures
        ({
            let file = header_bytes(rate, data) + rest;
            &&& header_bytes(rate, data).len() == HEADER_LEN
            &&& file.subrange(0, 4) == seq![82u8, 73, 70, 70]
            &&& file.subrange(8, 16) == seq![87u8, 65, 86, 69, 102, 109, 116, 32]
            &&& file.subrange(36, 40) == seq![100u8, 97, 116, 97]
            &&& u32_at(file, 4) == 36 + data
            &&& u32_at(file, 16) == 16
            &&& u16_at(file, 20) == 1
            &&& u16_at(file, 22) == 1
            &&& u32_at(file, 24) == rate
            &&& u32_at(file, 28) == 2 * rate
            &&& u16_at(file, 32) == 2
            &&& u16_at(file, 34) == 16
            &&& u32_at(file, 40) == data
        }),
{
    let file = header_bytes(rate, data) + rest;
    assert(file.subrange(0, 4) =~= seq![82u8, 73, 70, 70]);
    assert(file.subrange(4, 8) =~= le32(36 + data));
    assert(file.subrange(8, 16) =~= seq![87u8, 65, 86, 69, 102, 109, 116, 32]);
    assert(file.subrange(16, 20) =~= le32(16));
    assert(file.subrange(20, 22) =~= le16(1));
    assert(file.subrange(22, 24) =~= le16(1));
    assert(file.subrange(24, 28) =~= le32(rate));
    assert(file.subrange(28, 32) =~= le32(rate * 2));
    assert(file.subrange(32, 34) =~= le16(2));
    assert(file.subrange(34, 36) =~= le16(16));
    assert(file.subrange(36, 40) =~= seq![100u8, 97, 116, 97]);
    assert(file.subrange(40, 44) =~= le32(data));
    lemma_le32_reads_back(file, 4, 36 + data);
    lemma_le32_reads_back(file, 16, 16);
    lemma_le16_reads_back(file, 20, 1);
    lemma_le16_reads_back(file, 22, 1);
    lemma_le32_reads_back(file, 24, rate);
    lemma_le32_reads_back(file, 28, rate * 2);
    lemma_le16_reads_back(file, 32, 2);
    lemma_le16_reads_back(file, 34, 16);
    lemma_le32_reads_back(file, 40, data);
}

proof fn lemma_samples_read_back(head: Seq<u8>, audio: Seq<i16>)
    requires
        head.len() == HEADER_LEN,
    ensures
        forall|i: int|
            0 <= i < audio.len() ==> #[trigger] sample_at(head + pcm_bytes(audio), i) == audio[i],
{
    let file = head + pcm_bytes(audio);
    assert forall|i: int| 0 <= i < audio.len() implies #[trigger] sample_at(file, i)
        == audio[i] by {
        let k = 2 * i;
        assert(file[44 + k] == pcm_bytes(audio)[k]);
        assert(file[44 + k + 1] == pcm_bytes(audio)[k + 1]);
        assert(k / 2 == i && (k + 1) / 2 == i);
    }
}

/// The file of a track plays back exactly the audio that was written.
pub proof fn law_file_plays_back(t: Track)
    requires
        t.has_header(),
        t.sample_rate <= u32::MAX / 2,
    ensures
        plays(t.file(), t.sample_rate, t.audio),
        t.file().len() == HEADER_LEN + 2 * t.audio.len(),
{
    let head = header_bytes(t.sample_rate as int, t.data_bytes());
    lemma_header_fields(t.sample_rate as int, t.data_bytes(), pcm_bytes(t.audio));
    lemma_samples_read_back(head, t.audio);
}

/// A flush turns the stored part of a track, under whatever header, into the file of the whole
/// track.
pub proof fn law_flush_completes_the_file(file: Seq<u8>, t: Track)
    requires
        file.len() >= HEADER_LEN,
        t.stored <= t.audio.len(),
        file.skip(HEADER_LEN as int) == pcm_bytes(t.audio.take(t.stored as int)),
    ensures
        after_flush(
            file,
            pcm_bytes(t.audio.skip(t.stored as int)),
            header_bytes(t.sample_rate as int, t.data_bytes()),
        ) == t.file(),
{
    law_pending_audio_extends_the_file(file, t);
}

/// What has not been handed out yet belongs at the end of the file: appended there, it makes the
/// audio behind the header complete, and leaves the header alone.
pub proof fn law_pending_audio_extends_the_file(file: Seq<u8>, t: Track)
    requires
        file.len() >= HEADER_LEN,
        t.stored <= t.audio.len(),
        file.skip(HEADER_LEN as int) == pcm_bytes(t.audio.take(t.stored as int)),
    ensures
        ({
            let longer = file + pcm_bytes(t.audio.skip(t.stored as int));
            &&& longer.skip(HEADER_LEN as int) == pcm_bytes(t.audio)
            &&& longer.take(HEADER_LEN as int) == file.take(HEADER_LEN as int)
        }),
{
    let data = pcm_bytes(t.audio.skip(t.stored as int));
    assert((file + data).take(44) =~= file.take(44));
    assert((file + data).skip(44) =~= file.skip(44) + data);
    assert(file.skip(44) + data =~= pcm_bytes(t.audio)) by {
        assert forall|k: int| 0 <= k < 2 * t.audio.len() implies (file.skip(44) + data)[k]
            == pcm_bytes(t.audio)[k] by {
            if k < 2 * t.stored {
                assert(t.audio.take(t.stored as int)[k / 2] == t.audio[k / 2]);
            } else {
                let j = k - 2 * t.stored;
                assert(j / 2 + t.stored == k / 2 && j % 2 == k % 2);
            }
        }
    }
}

/// A recording that is interrupted after a flush stays readable: whatever audio was stored
/// since, the file still plays back everything up to that flush.
pub proof fn law_interrupted_file_still_plays(
    file: Seq<u8>,
    sample_rate: u32,
    audio: Seq<i16>,
    stored_since: Seq<u8>,
)
    requires
        plays(file, sample_rate, audio),
    ensures
        plays(file + stored_since, sample_rate, audio),
{
    let longer = file + stored_since;
    assert(longer.subrange(0, 4) =~= file.subrange(0, 4));
    assert(longer.subrange(8, 16) =~= file.subrange(8, 16));
    assert(longer.subrange(36, 40) =~= file.subrange(36, 40));
    assert forall|i: int| 0 <= i < audio.len() implies #[trigger] sample_at(longer, i)
        == audio[i] by {
        assert(sample_at(file, i) == audio[i]);
    }
}

/// A chunk written on time keeps all earlier audio, fills the gap before it with silence, and
/// puts each of its own samples where its capture time says; only samples whose place was
/// already taken are left out.
pub proof fn law_chunk_keeps_its_time(before: Seq<i16>, start: int, samples: Seq<i16>)
    requires
        before.len() <= MAX_SAMPLES,
    ensures
        ({
            let current = before.len() as int;
            let after = before + silence(timeline::gap_before(current, start)) + samples.skip(
                timeline::overlap(current, start, samples.len() as int),
            );
            &&& after.len() == timeline::larger(current, start + samples.len())
            &&& forall|k: int| 0 <= k < current ==> after[k] == before[k]
            &&& forall|k: int| current <= k < start ==> after[k] == 0
            &&& forall|i: int|
                0 <= i < samples.len() && start + i >= current ==> #[trigger] samples[i]
                    == after[start + i]
        }),
{
}

/// A header can state the length of a track exactly if the length of the whole file but for its
/// first eight bytes fits into 32 bits. What is told of the length of the track is then exact.
pub proof fn law_header_states_the_length(t: Track)
    ensures
        t.has_header() <==> 36 + 2 * t.audio.len() <= u32::MAX,
        t.has_header() ==> t.data_bytes() == 2 * t.audio.len() && t.samples() == t.audio.len(),
        t.samples() <= t.audio.len(),
        t.data_bytes() <= 2 * t.audio.len(),
{
}

/// Bytes and samples stand for each other: a run of samples takes two bytes each, the lower one
/// first, and the next run follows it without a gap.
pub proof fn law_samples_take_two_bytes(a: Seq<i16>, b: Seq<i16>, i: int)
    requires
        0 <= i < a.len(),
    ensures
        pcm_bytes(a).len() == 2 * a.len(),
        pcm_bytes(a + b) == pcm_bytes(a) + pcm_bytes(b),
        pcm_bytes(a)[2 * i] + 256 * pcm_bytes(a)[2 * i + 1] == (if a[i] < 0 {
            a[i] + 65536
        } else {
            a[i] as int
        }),
{
    let n = a.len() as int;
    assert((2 * i) / 2 == i && (2 * i + 1) / 2 == i);
    assert forall|k: int| 0 <= k < 2 * (a.len() + b.len()) implies pcm_bytes(a + b)[k] == (
    pcm_bytes(a) + pcm_bytes(b))[k] by {
        if k >= 2 * n {
            let j = k - 2 * n;
            assert(j / 2 + n == k / 2 && j % 2 == k % 2);
        }
    }
    assert(pcm_bytes(a + b) =~= pcm_bytes(a) + pcm_bytes(b));
}

/// Samples are written one behind the other.
pub proof fn law_sample_is_appended(wav: &mut WavWriter, v: i16)
    requires
        old(wav).wf(),
        call_ensures(WavWriter::write_sample, (wav, v), ()),
    ensures
        final(wav)@.audio.len() == old(wav)@.audio.len() + 1,
        final(wav)@.audio.last() == v,
        old(wav)@.audio.is_prefix_of(final(wav)@.audio),
        final(wav)@.sample_rate == old(wav)@.sample_rate,
        final(wav)@.stored == old(wav)@.stored,
{
}

} // verus!
