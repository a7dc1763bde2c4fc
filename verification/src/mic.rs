//! Microphone capture: the pool of preallocated blocks between the capture callback and the
//! recorder.
//!
//! A block is always in one of two queues: free, or filled and waiting for the recorder. The
//! queues hold the numbers of the blocks.

use vstd::prelude::*;
use vstd::string::*;
use crossbeam_queue::ArrayQueue;
use crate::pcm;
use crate::tap;
use crate::text;
use crate::timeline;

verus! {

pub const MIC_POOL_BLOCKS: usize = 64;

pub const MIC_BLOCK_FRAMES: usize = 8192;

/// A bounded first-in first-out queue of the `crossbeam-queue` crate.
#[verifier::external_type_specification]
#[verifier::external_body]
#[verifier::reject_recursive_types(T)]
pub struct ExArrayQueue<T>(crossbeam_queue::ArrayQueue<T>);

/// The numbers in a queue, the oldest first.
pub uninterp spec fn queue_items(q: ArrayQueue<usize>) -> Seq<usize>;

/// The number of items that a queue was made for.
pub uninterp spec fn queue_room(q: ArrayQueue<usize>) -> nat;

/// `ArrayQueue::new`: an empty queue for `capacity` items. It panics without room, and where the
/// capacity is too large.
#[verifier::external_body]
fn new_queue(capacity: usize) -> (q: ArrayQueue<usize>)
    requires
        0 < capacity <= 65536,
    ensures
        queue_items(q) == Seq::<usize>::empty(),
        queue_room(q) == capacity,
{
    ArrayQueue::new(capacity)
}

/// `ArrayQueue::push`, on a queue that nobody else uses: the item goes to the end of the queue,
/// or comes back if the queue is full.
#[verifier::external_body]
fn push_item(q: &mut ArrayQueue<usize>, item: usize) -> (r: Result<(), usize>)
    ensures
        queue_room(*final(q)) == queue_room(*old(q)),
        match r {
            Ok(_) => queue_items(*old(q)).len() < queue_room(*old(q)) && queue_items(*final(q))
                == queue_items(*old(q)).push(item),
            Err(back) => queue_items(*old(q)).len() >= queue_room(*old(q)) && back == item
                && queue_items(*final(q)) == queue_items(*old(q)),
        },
{
    q.push(item)
}

/// `ArrayQueue::pop`, on a queue that nobody else uses: takes the oldest item, if there is one.
#[verifier::external_body]
fn pop_item(q: &mut ArrayQueue<usize>) -> (r: Option<usize>)
    ensures
        queue_room(*final(q)) == queue_room(*old(q)),
        match r {
            Some(item) => queue_items(*old(q)).len() > 0 && item == queue_items(*old(q))[0]
                && queue_items(*final(q)) == queue_items(*old(q)).drop_first(),
            None => queue_items(*old(q)).len() == 0 && queue_items(*final(q)) == queue_items(
                *old(q),
            ),
        },
{
    q.pop()
}

/// A captured run of mono samples.
#[derive(Debug)]
pub struct AudioChunk<S> {
    pub samples: Vec<S>,
    pub sample_rate: u32,
    pub captured_host_nanos: u64,
}

/// What a chunk consists of.
#[verifier::ext_equal]
pub struct Chunk<S> {
    pub samples: Seq<S>,
    pub sample_rate: u32,
    pub captured_host_nanos: u64,
}

impl<S> AudioChunk<S> {
    pub open spec fn view(self) -> Chunk<S> {
        Chunk {
            samples: self.samples@,
            sample_rate: self.sample_rate,
            captured_host_nanos: self.captured_host_nanos,
        }
    }
}

/// A block of the pool.
pub struct MicBlock<S> {
    samples: Vec<S>,
    len: usize,
    sample_rate: u32,
    captured_host_nanos: u64,
}

impl<S> MicBlock<S> {
    closed spec fn wf(self) -> bool {
        &&& self.samples@.len() == MIC_BLOCK_FRAMES
        &&& self.len <= MIC_BLOCK_FRAMES
    }

    closed spec fn view(self) -> Chunk<S> {
        Chunk {
            samples: self.samples@.take(self.len as int),
            sample_rate: self.sample_rate,
            captured_host_nanos: self.captured_host_nanos,
        }
    }
}

/// What a microphone capture holds: the chunks that wait for the recorder, the oldest first, the
/// frames dropped since last asked, and whether the stream failed.
#[verifier::ext_equal]
pub struct Mic<S> {
    pub name: Seq<char>,
    pub sample_rate: u32,
    pub waiting: Seq<Chunk<S>>,
    pub dropped: u64,
    pub failed: bool,
}

pub struct MicCapture<S> {
    blocks: Vec<MicBlock<S>>,
    free: ArrayQueue<usize>,
    filled: ArrayQueue<usize>,
    dropped: u64,
    failed: bool,
    name: String,
    sample_rate: u32,
}

/// The number of frames in an interleaved buffer. Zero channels count as one.
pub open spec fn frames_in(samples: int, channels: usize) -> int {
    samples / timeline::larger(channels as int, 1)
}

/// Whether `mixed` is the mix of the first frames of an interleaved buffer.
pub open spec fn is_mix_of<T, S, F: Fn(&[T]) -> S>(
    mix: F,
    samples: Seq<T>,
    channels: usize,
    mixed: Seq<S>,
) -> bool {
    forall|i: int|
        0 <= i < mixed.len() ==> pcm::mixes(
            mix,
            pcm::interleaved_frame(samples, timeline::larger(channels as int, 1), i),
            #[trigger] mixed[i],
        )
}

impl<S: Copy> MicCapture<S> {
    /// Every block is in exactly one of the two queues, and each queue has room for all of them.
    pub closed spec fn wf(self) -> bool {
        let free = queue_items(self.free);
        let filled = queue_items(self.filled);
        &&& self.blocks@.len() == MIC_POOL_BLOCKS
        &&& queue_room(self.free) == MIC_POOL_BLOCKS
        &&& queue_room(self.filled) == MIC_POOL_BLOCKS
        &&& free.len() + filled.len() == MIC_POOL_BLOCKS
        &&& (free + filled).no_duplicates()
        &&& forall|i: int| 0 <= i < free.len() ==> (#[trigger] free[i]) < MIC_POOL_BLOCKS
        &&& forall|i: int| 0 <= i < filled.len() ==> (#[trigger] filled[i]) < MIC_POOL_BLOCKS
        &&& forall|i: int| 0 <= i < MIC_POOL_BLOCKS ==> (#[trigger] self.blocks@[i]).wf()
    }

    pub closed spec fn view(self) -> Mic<S> {
        Mic {
            name: self.name@,
            sample_rate: self.sample_rate,
            waiting: Seq::new(
                queue_items(self.filled).len(),
                |i: int| self.blocks@[queue_items(self.filled)[i] as int].view(),
            ),
            dropped: self.dropped,
            failed: self.failed,
        }
    }

    /// What a caller may know of every capture: how many chunks wait at most, and how many samples
    /// a chunk has.
    pub proof fn lemma_wf(self)
        requires
            self.wf(),
        ensures
            self.view().waiting.len() <= MIC_POOL_BLOCKS,
            forall|i: int|
                0 <= i < self.view().waiting.len() ==> (
                #[trigger] self.view().waiting[i]).samples.len() <= MIC_BLOCK_FRAMES,
    {
        assert forall|i: int| 0 <= i < self.view().waiting.len() implies (
        #[trigger] self.view().waiting[i]).samples.len() <= MIC_BLOCK_FRAMES by {
            assert(self.blocks@[queue_items(self.filled)[i] as int].wf());
        }
    }

    /// A capture from the named device, with all blocks allocated and free.
    pub fn open(name: String, sample_rate: u32, silence: S) -> (r: MicCapture<S>)
        ensures
            r.wf(),
            r.view() == (Mic {
                name: name@,
                sample_rate,
                waiting: Seq::<Chunk<S>>::empty(),
                dropped: 0,
                failed: false,
            }),
    {
        let mut free = new_queue(MIC_POOL_BLOCKS);
        let filled = new_queue(MIC_POOL_BLOCKS);
        let mut blocks: Vec<MicBlock<S>> = Vec::new();
        let mut i: usize = 0;
        while i < MIC_POOL_BLOCKS
            invariant
                i <= MIC_POOL_BLOCKS,
                blocks@.len() == i,
                queue_room(free) == MIC_POOL_BLOCKS,
                queue_items(free).len() == i,
                forall|k: int| 0 <= k < i ==> #[trigger] queue_items(free)[k] == k,
                forall|k: int| 0 <= k < i ==> (#[trigger] blocks@[k]).wf(),
            decreases MIC_POOL_BLOCKS - i,
        {
            let mut samples: Vec<S> = Vec::new();
            let mut k: usize = 0;
            while k < MIC_BLOCK_FRAMES
                invariant
                    k <= MIC_BLOCK_FRAMES,
                    samples@.len() == k,
                decreases MIC_BLOCK_FRAMES - k,
            {
                samples.push(silence);
                k += 1;
            }
            blocks.push(MicBlock { samples, len: 0, sample_rate, captured_host_nanos: 0 });
            let pushed = push_item(&mut free, i);
            assert(pushed is Ok);
            i += 1;
        }
        let r = MicCapture { blocks, free, filled, dropped: 0, failed: false, name, sample_rate };
        assert(r.view().waiting =~= Seq::<Chunk<S>>::empty());
        assert(queue_items(r.free) + queue_items(r.filled) =~= queue_items(r.free));
        r
    }

    fn count_dropped(&mut self, frames: usize)
        requires
            old(self).wf(),
        ensures
            final(self).wf(),
            final(self).view() == (Mic {
                dropped: tap::wrapped(old(self).view().dropped + frames),
                ..old(self).view()
            }),
    {
        self.dropped = self.dropped.wrapping_add(frames as u64);
        assert(self.view().waiting =~= old(self).view().waiting);
    }

    /// Takes in what the callback is given: the frames are mixed into a free block and queued.
    /// Frames beyond the size of a block are dropped, and all of them if no block is free.
    pub fn on_input<T: Copy, F: Fn(&[T]) -> S>(
        &mut self,
        samples: &[T],
        channels: usize,
        captured_host_nanos: u64,
        mix: F,
    )
        requires
            old(self).wf(),
            pcm::mixes_frames_of(mix, timeline::larger(channels as int, 1)),
        ensures
            final(self).wf(),
            takes_in(
                old(self).view(),
                frames_in(samples@.len() as int, channels),
                final(self).view(),
            ),
            final(self).view().waiting.len() > old(self).view().waiting.len() ==> is_mix_of(
                mix,
                samples@,
                channels,
                final(self).view().waiting.last().samples,
            ) && final(self).view().waiting.last().captured_host_nanos == captured_host_nanos,
    {
        let width: usize = if channels == 0 {
            1
        } else {
            channels
        };
        let total_frames: usize = samples.len() / width;
        let ghost before = self.view();
        let ghost free0 = queue_items(self.free);
        let ghost filled0 = queue_items(self.filled);
        let block = match pop_item(&mut self.free) {
            Some(block) => block,
            None => {
                assert(self.view().waiting =~= before.waiting);
                assert(queue_items(self.free) + queue_items(self.filled) =~= free0 + filled0);
                self.count_dropped(total_frames);
                return;
            },
        };
        assert(block == (free0 + filled0)[0]);
        proof {
            assert forall|i: int| 0 <= i < filled0.len() implies #[trigger] filled0[i] != block by {
                assert((free0 + filled0)[free0.len() + i] == filled0[i]);
            }
        }
        let ghost blocks0 = self.blocks@;
        assert(blocks0[block as int].wf());
        let written = pcm::downmix_interleaved_into(
            samples,
            channels,
            &mut self.blocks[block].samples,
            mix,
        );
        assert(forall|i: int|
            0 <= i < MIC_POOL_BLOCKS && i != block ==> #[trigger] self.blocks@[i] == blocks0[i]);
        if written == 0 {
            let pushed = push_item(&mut self.free, block);
            assert(pushed is Ok);
            proof {
                lemma_rotated(free0, filled0);
            }
            assert forall|i: int| 0 <= i < MIC_POOL_BLOCKS implies (#[trigger] self.blocks@[i]).wf() by {
                assert(blocks0[i].wf());
            }
            assert(self.view().waiting =~= before.waiting);
            return;
        }
        self.blocks[block].len = written;
        self.blocks[block].sample_rate = self.sample_rate;
        self.blocks[block].captured_host_nanos = captured_host_nanos;
        let ghost mixed = self.blocks@[block as int].view().samples;
        assert(is_mix_of(mix, samples@, channels, mixed));
        assert forall|i: int| 0 <= i < MIC_POOL_BLOCKS implies (#[trigger] self.blocks@[i]).wf() by {
            assert(blocks0[i].wf());
        }
        let pushed = push_item(&mut self.filled, block);
        assert(pushed is Ok);
        proof {
            lemma_moved(free0, filled0);
        }
        assert(self.view().waiting.drop_last() =~= before.waiting);
        assert(self.view().waiting.last() == self.blocks@[block as int].view());
        if total_frames > written {
            self.count_dropped(total_frames - written);
        }
    }

    /// The stream reported an error.
    pub fn on_stream_error(&mut self)
        requires
            old(self).wf(),
        ensures
            final(self).wf(),
            final(self).view() == (Mic { failed: true, ..old(self).view() }),
    {
        self.failed = true;
        assert(self.view().waiting =~= old(self).view().waiting);
    }

    pub fn name(&self) -> (r: &str)
        ensures
            r@ == self.view().name,
    {
        self.name.as_str()
    }

    pub fn sample_rate(&self) -> (r: u32)
        ensures
            r == self.view().sample_rate,
    {
        self.sample_rate
    }

    /// Takes the oldest chunk. Its block is free again.
    pub fn pop_chunk(&mut self) -> (r: Option<AudioChunk<S>>)
        requires
            old(self).wf(),
        ensures
            final(self).wf(),
            match r {
                None => old(self).view().waiting.len() == 0 && final(self).view()
                    == old(self).view(),
                Some(chunk) => {
                    &&& old(self).view().waiting.len() > 0
                    &&& chunk.view() == old(self).view().waiting[0]
                    &&& final(self).view() == (Mic {
                        waiting: old(self).view().waiting.drop_first(),
                        ..old(self).view()
                    })
                },
            },
    {
        let ghost free0 = queue_items(self.free);
        let ghost filled0 = queue_items(self.filled);
        let ghost blocks0 = self.blocks@;
        let block = match pop_item(&mut self.filled) {
            Some(block) => block,
            None => {
                assert(self.view().waiting =~= old(self).view().waiting);
                assert(queue_items(self.free) + queue_items(self.filled) =~= free0 + filled0);
                return None;
            },
        };
        assert(blocks0[block as int].wf());
        let len: usize = self.blocks[block].len;
        let mut samples: Vec<S> = Vec::with_capacity(len);
        let mut i: usize = 0;
        while i < len
            invariant
                i <= len <= MIC_BLOCK_FRAMES,
                block < MIC_POOL_BLOCKS,
                self.blocks@ == blocks0,
                blocks0.len() == MIC_POOL_BLOCKS,
                blocks0[block as int].samples@.len() == MIC_BLOCK_FRAMES,
                samples@ == blocks0[block as int].samples@.take(i as int),
            decreases len - i,
        {
            samples.push(self.blocks[block].samples[i]);
            i += 1;
            assert(samples@ =~= blocks0[block as int].samples@.take(i as int));
        }
        let chunk = AudioChunk {
            samples,
            sample_rate: self.blocks[block].sample_rate,
            captured_host_nanos: self.blocks[block].captured_host_nanos,
        };
        self.blocks[block].len = 0;
        assert(block == filled0[0]);
        assert forall|i: int| 0 <= i < MIC_POOL_BLOCKS implies (#[trigger] self.blocks@[i]).wf() by {
            assert(blocks0[i].wf());
        }
        let pushed = push_item(&mut self.free, block);
        assert(pushed is Ok);
        proof {
            lemma_returned(free0, filled0);
            assert forall|i: int| 1 <= i < filled0.len() implies #[trigger] filled0[i] != block by {
                assert((free0 + filled0)[free0.len() + i] == filled0[i]);
                assert((free0 + filled0)[free0.len() as int] == filled0[0]);
            }
        }
        assert(self.view().waiting =~= old(self).view().waiting.drop_first());
        Some(chunk)
    }

    /// The number of frames dropped since the last call.
    pub fn take_dropped(&mut self) -> (r: u64)
        requires
            old(self).wf(),
        ensures
            final(self).wf(),
            r == old(self).view().dropped,
            final(self).view() == (Mic { dropped: 0, ..old(self).view() }),
    {
        let dropped = self.dropped;
        self.dropped = 0;
        assert(self.view().waiting =~= old(self).view().waiting);
        dropped
    }

    /// Whether the stream reported an error.
    pub fn failed(&self) -> (r: bool)
        ensures
            r == self.view().failed,
    {
        self.failed
    }
}

/// Moving the first free block to the end of the free queue keeps the blocks apart.
proof fn lemma_rotated(free: Seq<usize>, filled: Seq<usize>)
    requires
        free.len() > 0,
        (free + filled).no_duplicates(),
    ensures
        (free.drop_first().push(free[0]) + filled).no_duplicates(),
{
    let before = free + filled;
    let after = free.drop_first().push(free[0]) + filled;
    let n = free.len() as int;
    assert forall|i: int, j: int| 0 <= i < after.len() && 0 <= j < after.len() && i != j implies after[i]
        != after[j] by {
        let i0 = if i < n - 1 { i + 1 } else if i == n - 1 { 0 } else { i };
        let j0 = if j < n - 1 { j + 1 } else if j == n - 1 { 0 } else { j };
        assert(after[i] == before[i0]);
        assert(after[j] == before[j0]);
    }
}

/// Moving the first free block to the end of the filled queue keeps the blocks apart.
proof fn lemma_moved(free: Seq<usize>, filled: Seq<usize>)
    requires
        free.len() > 0,
        (free + filled).no_duplicates(),
    ensures
        (free.drop_first() + filled.push(free[0])).no_duplicates(),
{
    let before = free + filled;
    let after = free.drop_first() + filled.push(free[0]);
    let n = after.len() as int;
    assert forall|i: int, j: int| 0 <= i < after.len() && 0 <= j < after.len() && i != j implies after[i]
        != after[j] by {
        let i0 = if i < n - 1 { i + 1 } else { 0 };
        let j0 = if j < n - 1 { j + 1 } else { 0 };
        assert(after[i] == before[i0]);
        assert(after[j] == before[j0]);
    }
}

/// Moving the first filled block to the end of the free queue keeps the blocks apart.
proof fn lemma_returned(free: Seq<usize>, filled: Seq<usize>)
    requires
        filled.len() > 0,
        (free + filled).no_duplicates(),
    ensures
        (free.push(filled[0]) + filled.drop_first()).no_duplicates(),
{
    assert(free.push(filled[0]) + filled.drop_first() =~= free + filled);
}

/// The sample formats that a microphone may deliver.
#[derive(Clone, Copy, Debug, PartialEq, Eq, Structural)]
pub enum SampleFormat {
    F32,
    F64,
    I16,
    I32,
    U16,
    U32,
    Other,
}

/// Refuses the formats that cannot be read. `shown` is the format as a text.
pub fn check_format(format: SampleFormat, shown: &str) -> (r: Result<(), String>)
    ensures
        match r {
            Ok(_) => format != SampleFormat::Other,
            Err(e) => format == SampleFormat::Other && e@
                == "unsupported microphone sample format: "@ + shown@,
        },
{
    match format {
        SampleFormat::Other => {
            let mut e = "unsupported microphone sample format: ".to_owned();
            e.append(shown);
            Err(e)
        },
        _ => Ok(()),
    }
}

/// Whether the device at a position is the first with a name. A device may have no name.
pub open spec fn is_first_named(names: Seq<Option<String>>, name: Seq<char>, i: int) -> bool {
    &&& 0 <= i < names.len()
    &&& text::opt_text(names[i]) == Some(name)
    &&& forall|k: int| 0 <= k < i ==> text::opt_text(#[trigger] names[k]) != Some(name)
}

/// What is said of a microphone that is not there.
pub open spec fn not_found_text(name: Seq<char>) -> Seq<char> {
    "microphone not found: "@ + name
}

/// What is said of a microphone that is not there.
pub fn not_found(name: &str) -> (r: String)
    ensures
        r@ == not_found_text(name@),
{
    let mut e = "microphone not found: ".to_owned();
    e.append(name);
    e
}

/// The first device with the requested name.
pub fn find_device(names: &Vec<Option<String>>, requested: &str) -> (r: Result<usize, String>)
    ensures
        match r {
            Ok(i) => is_first_named(names@, requested@, i as int),
            Err(e) => e@ == not_found_text(requested@) && forall|k: int|
                0 <= k < names@.len() ==> text::opt_text(#[trigger] names@[k]) != Some(requested@),
        },
        r matches Ok(i) ==> i < names@.len() && text::opt_text(names@[i as int]) == Some(requested@)
            && forall|k: int|
            0 <= k < i ==> text::opt_text(#[trigger] names@[k]) != Some(requested@),
{
    let mut i: usize = 0;
    while i < names.len()
        invariant
            i <= names@.len(),
            forall|k: int|
                0 <= k < i ==> text::opt_text(#[trigger] names@[k]) != Some(requested@),
        decreases names@.len() - i,
    {
        match &names[i] {
            Some(name) => {
                if text::same(name.as_str(), requested) {
                    return Ok(i);
                }
            },
            None => {},
        }
        i += 1;
    }
    Err(not_found(requested))
}

/// When a buffer was captured, in nanoseconds of the host clock: the time that the stream gives
/// for it, or else the present less the length of the buffer.
pub fn capture_time(stream_nanos: Option<u128>, host_now: u64, buffer_nanos: u128) -> (r: u64)
    ensures
        match stream_nanos {
            Some(t) => r == timeline::at_most_u64(t as int),
            None => r == timeline::larger(
                host_now - timeline::at_most_u64(buffer_nanos as int),
                0,
            ),
        },
        stream_nanos matches Some(t) ==> (t <= u64::MAX ==> r == t) && (t > u64::MAX ==> r
            == u64::MAX),
        stream_nanos is None ==> (buffer_nanos <= host_now ==> r + buffer_nanos == host_now) && (
        buffer_nanos > host_now ==> r == 0),
{
    match stream_nanos {
        Some(t) => {
            if t > u64::MAX as u128 {
                u64::MAX
            } else {
                t as u64
            }
        },
        None => {
            let length: u64 = if buffer_nanos > u64::MAX as u128 {
                u64::MAX
            } else {
                buffer_nanos as u64
            };
            host_now.saturating_sub(length)
        },
    }
}

/// The number of samples in some chunks.
pub open spec fn samples_waiting<S>(chunks: Seq<Chunk<S>>) -> int
    decreases chunks.len(),
{
    if chunks.len() == 0 {
        0
    } else {
        samples_waiting(chunks.drop_last()) + chunks.last().samples.len()
    }
}

/// What taking in a buffer does to a capture, but for the mixed samples themselves.
pub open spec fn takes_in<S>(before: Mic<S>, frames: int, after: Mic<S>) -> bool {
    if before.waiting.len() == MIC_POOL_BLOCKS {
        after == (Mic { dropped: tap::wrapped(before.dropped + frames), ..before })
    } else if frames == 0 {
        after == before
    } else {
        let written = timeline::smaller(frames, MIC_BLOCK_FRAMES as int);
        &&& after.waiting.len() == before.waiting.len() + 1
        &&& after.waiting.drop_last() == before.waiting
        &&& after.waiting.last().samples.len() == written
        &&& after.waiting.last().sample_rate == before.sample_rate
        &&& after == (Mic {
            waiting: after.waiting,
            dropped: tap::wrapped(before.dropped + frames - written),
            ..before
        })
    }
}

/// Every captured frame either waits for the recorder or is counted as dropped, and what waited
/// before still waits, unchanged and in order.
pub proof fn law_every_frame_waits_or_is_counted<S>(before: Mic<S>, frames: int, after: Mic<S>)
    requires
        frames >= 0,
        takes_in(before, frames, after),
    ensures
        ({
            let lost = frames - (samples_waiting(after.waiting) - samples_waiting(before.waiting));
            &&& 0 <= lost <= frames
            &&& after.dropped == tap::wrapped(before.dropped + lost)
        }),
        before.waiting.is_prefix_of(after.waiting),
{
    if before.waiting.len() != MIC_POOL_BLOCKS && frames != 0 {
        assert(after.waiting.take(before.waiting.len() as int) =~= before.waiting);
    } else {
        assert(after.waiting =~= before.waiting);
        assert(tap::wrapped(before.dropped as int) == before.dropped);
    }
}

/// A buffer is kept as one chunk behind those that wait, at the rate of the capture. Frames are
/// lost only where sixty-four chunks wait already or where a block is too short, and exactly those
/// are counted. Nothing else changes.
pub proof fn law_frames_are_lost_only_without_room<S>(before: Mic<S>, frames: int, after: Mic<S>)
    requires
        frames >= 0,
        before.waiting.len() <= 64,
        takes_in(before, frames, after),
    ensures
        ({
            let kept = if before.waiting.len() == 64 {
                0
            } else if frames > 8192 {
                8192
            } else {
                frames
            };
            &&& kept == 0 ==> after.waiting == before.waiting
            &&& kept > 0 ==> after.waiting.len() == before.waiting.len() + 1
                && before.waiting.is_prefix_of(after.waiting) && after.waiting.last().samples.len()
                == kept && after.waiting.last().sample_rate == before.sample_rate
            &&& before.dropped + (frames - kept) <= u64::MAX ==> after.dropped == before.dropped + (
            frames - kept)
            &&& after.name == before.name
            &&& after.sample_rate == before.sample_rate
            &&& after.failed == before.failed
        }),
{
    if before.waiting.len() < 64 && frames > 0 {
        assert(after.waiting.take(before.waiting.len() as int) =~= before.waiting);
    } else {
        assert(after.waiting =~= before.waiting);
    }
}

/// A buffer has as many frames as it has samples for all channels. Without channels every sample
/// is a frame.
pub proof fn law_buffer_has_whole_frames(samples: int, channels: usize)
    requires
        samples >= 0,
    ensures
        channels == 0 ==> frames_in(samples, channels) == samples,
        channels > 0 ==> frames_in(samples, channels) * channels <= samples < (frames_in(
            samples,
            channels,
        ) + 1) * channels,
{
    if channels > 0 {
        let n = channels as int;
        let q = samples / n;
        vstd::arithmetic::div_mod::lemma_fundamental_div_mod(samples, n);
        assert(0 <= samples % n < n) by (nonlinear_arith)
            requires
                n > 0,
        ;
        assert(n * q == q * n && (q + 1) * n == q * n + n) by (nonlinear_arith);
    } else {
        let one = timeline::larger(channels as int, 1);
        assert(samples / one == samples) by (nonlinear_arith)
            requires
                one == 1,
        ;
    }
}

/// The samples of a chunk are the first frames of the buffer in their order, each mixed from the
/// samples of all channels at its place.
pub proof fn law_mic_frames_are_mixed_in_order<T, S, F: Fn(&[T]) -> S>(
    mix: F,
    samples: Seq<T>,
    channels: usize,
    mixed: Seq<S>,
    i: int,
)
    requires
        is_mix_of(mix, samples, channels, mixed),
        0 <= i < mixed.len() <= frames_in(samples.len() as int, channels),
    ensures
        exists|f: &[T]|
            {
                let n = if channels == 0 {
                    1
                } else {
                    channels as int
                };
                &&& call_ensures(mix, (f,), mixed[i])
                &&& #[trigger] f@.len() == n
                &&& forall|c: int| 0 <= c < n ==> #[trigger] f@[c] == samples[n * i + c]
            },
{
    let n = timeline::larger(channels as int, 1);
    law_buffer_has_whole_frames(samples.len() as int, channels);
    let q = frames_in(samples.len() as int, channels);
    assert((i + 1) * n <= q * n) by (nonlinear_arith)
        requires
            i + 1 <= q,
            n >= 0,
    ;
    if channels == 0 {
        assert(q * n == q) by (nonlinear_arith)
            requires
                n == 1,
        ;
    }
    let frame = pcm::interleaved_frame(samples, n, i);
    assert(pcm::mixes(mix, frame, mixed[i]));
    let f = choose|f: &[T]| #[trigger] f@ == frame && call_ensures(mix, (f,), mixed[i]);
    pcm::law_interleaved_frames_follow_each_other(samples, n, i, 0);
    assert forall|c: int| 0 <= c < n implies #[trigger] f@[c] == samples[n * i + c] by {
        pcm::law_interleaved_frames_follow_each_other(samples, n, i, c);
    }
    assert(f@.len() == n);
}

/// What is said of a microphone that is not there ends with its name.
pub proof fn law_missing_mic_is_named(name: Seq<char>)
    ensures
        not_found_text(name).take(22) == "microphone not found: "@,
        not_found_text(name).skip(22) == name,
{
    reveal_strlit("microphone not found: ");
    assert(not_found_text(name).take(22) =~= "microphone not found: "@);
    assert(not_found_text(name).skip(22) =~= name);
}

/// A buffer was captured when the stream says, or else before now by as long as it lasts. A time
/// that does not fit is as early or as late as there is one.
pub proof fn law_buffer_ends_now(
    stream_nanos: Option<u128>,
    host_now: u64,
    buffer_nanos: u128,
    captured: u64,
)
    requires
        call_ensures(capture_time, (stream_nanos, host_now, buffer_nanos), captured),
    ensures
        stream_nanos matches Some(t) ==> (t <= u64::MAX ==> captured == t) && (t > u64::MAX
            ==> captured == u64::MAX),
        stream_nanos is None ==> captured <= host_now && (captured > 0 ==> captured + buffer_nanos
            == host_now) && (captured == 0 ==> buffer_nanos >= host_now),
{
}

/// What the callback is given comes out again: of a capture with nothing waiting, a buffer with
/// frames comes out as one chunk with its time and its first frames.
pub proof fn law_captured_frames_come_out<S: Copy, T: Copy, F: Fn(&[T]) -> S>(
    capture: &mut MicCapture<S>,
    samples: &[T],
    channels: usize,
    captured_host_nanos: u64,
    mix: F,
    later: &mut MicCapture<S>,
    popped: Option<AudioChunk<S>>,
)
    requires
        old(capture).wf(),
        old(capture).view().waiting.len() == 0,
        pcm::mixes_frames_of(mix, timeline::larger(channels as int, 1)),
        call_ensures(
            MicCapture::<S>::on_input::<T, F>,
            (capture, samples, channels, captured_host_nanos, mix),
            (),
        ),
        *old(later) == *final(capture),
        call_ensures(MicCapture::<S>::pop_chunk, (later,), popped),
    ensures
        ({
            let frames = frames_in(samples@.len() as int, channels);
            &&& popped is Some <==> frames > 0
            &&& frames > 0 ==> popped->0.samples@.len() == timeline::smaller(frames, 8192)
                && popped->0.captured_host_nanos == captured_host_nanos && popped->0.sample_rate
                == old(capture).view().sample_rate
            &&& final(later).view().waiting.len() == 0
        }),
{
    law_buffer_has_whole_frames(samples@.len() as int, channels);
    assert(frames_in(samples@.len() as int, channels) >= 0) by {
        let n = timeline::larger(channels as int, 1);
        vstd::arithmetic::div_mod::lemma_div_pos_is_pos(samples@.len() as int, n);
    }
}

/// Every sample format is read but for those that are not known.
pub proof fn law_known_formats_are_read(
    format: SampleFormat,
    shown: &str,
    result: Result<(), String>,
)
    requires
        call_ensures(check_format, (format, shown), result),
    ensures
        result is Err <==> format == SampleFormat::Other,
        result is Err ==> shown@.is_suffix_of(result->Err_0@),
{
    if result is Err {
        let t = result->Err_0@;
        assert(shown@ =~= t.subrange(t.len() - shown@.len(), t.len() as int));
    }
}

/// The device that is found for a name has that name, and no earlier one does. None is found
/// exactly if no device has the name.
pub proof fn law_first_device_of_a_name_is_found(
    names: &Vec<Option<String>>,
    requested: &str,
    found: Result<usize, String>,
    k: int,
)
    requires
        call_ensures(find_device, (names, requested), found),
        0 <= k < names@.len(),
        names@[k] is Some,
        names@[k]->0@ == requested@,
    ensures
        found is Ok,
        found->Ok_0 <= k,
        names@[found->Ok_0 as int] is Some,
        names@[found->Ok_0 as int]->0@ == requested@,
{
    assert(text::opt_text(names@[k]) == Some(requested@));
}

} // verus!
