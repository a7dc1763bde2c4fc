//! Capture of the system output through a process tap: what the capture callback accepts, drops
//! and reports, and the order in which the objects of the audio system are created and released.

use vstd::prelude::*;
use vstd::string::*;
use crate::osstatus;
use crate::pcm;
use crate::pcm::{Format, PcmLayout, StreamDescription};
use crate::ring;
use crate::ring::{Block, BlockRing, CapturedChunk, BLOCK_CAPACITY, BLOCK_FRAMES};
use crate::text;
use crate::timeline;

verus! {

pub const CALLBACK_ERROR_NONE: u32 = 0;

pub const CALLBACK_ERROR_TIMESTAMP: u32 = 1;

pub const CALLBACK_ERROR_BUFFER_LAYOUT: u32 = 2;

pub const CALLBACK_ERROR_NULL_DATA: u32 = 3;

pub const CALLBACK_ERROR_FORMAT_CHANGED: u32 = 4;

/// The property whose change means that the format of the tap changed, the characters `tfmt`.
pub const TAP_PROPERTY_FORMAT: u32 = 0x7466_6d74;

/// The number of frames that the queue can hold.
pub const RING_FRAMES: usize = 126_976;

/// The shape of one buffer that the callback is given.
#[derive(Clone, Copy, Debug)]
pub struct BufferShape {
    pub channels: u32,
    pub bytes: u32,
}

/// What the callback is given, without the samples. `buffers` describes the first of the
/// `number_buffers` buffers, at least as many of them as the format has channels.
#[derive(Clone, Copy)]
pub struct InputList<'a> {
    pub number_buffers: u32,
    pub buffers: &'a [BufferShape],
    pub host_time_valid: bool,
    pub host_time: u64,
}

impl<'a> InputList<'a> {
    /// Whether every buffer is described that the check of the layout looks at.
    pub open spec fn describes(self, layout: PcmLayout) -> bool {
        match layout {
            PcmLayout::Interleaved { .. } => self.number_buffers == 1 ==> self.buffers@.len() >= 1,
            PcmLayout::Planar { channels } => self.number_buffers == channels
                ==> self.buffers@.len() >= channels,
        }
    }
}

/// The verdict on a callback.
#[derive(Clone, Copy, Debug, PartialEq, Eq, Structural)]
pub enum InputCheck {
    /// Nothing happens.
    Ignore,
    /// The error is reported and the frames count as dropped.
    Reject { code: u32, dropped: usize },
    /// The frames are queued.
    Accept { frames: usize },
}

/// The number of frames in a buffer list, or the verdict that rejects its layout.
pub open spec fn layout_frames(layout: PcmLayout, list: InputList) -> Result<int, InputCheck> {
    let mismatch = InputCheck::Reject { code: CALLBACK_ERROR_BUFFER_LAYOUT, dropped: 0 };
    match layout {
        PcmLayout::Interleaved { channels } => {
            if list.number_buffers != 1 {
                Err(mismatch)
            } else {
                let b = list.buffers@[0];
                if b.channels != channels || b.bytes % 4 != 0 || (b.bytes / 4) as int
                    % channels as int != 0 {
                    Err(mismatch)
                } else {
                    Ok((b.bytes / 4) as int / channels as int)
                }
            }
        },
        PcmLayout::Planar { channels } => {
            if list.number_buffers != channels || list.buffers@[0].bytes % 4 != 0 {
                Err(mismatch)
            } else if exists|c: int|
                0 <= c < channels && !is_plane(
                    #[trigger] list.buffers@[c],
                    list.buffers@[0].bytes,
                ) {
                Err(
                    InputCheck::Reject {
                        code: CALLBACK_ERROR_BUFFER_LAYOUT,
                        dropped: (list.buffers@[0].bytes / 4) as usize,
                    },
                )
            } else {
                Ok((list.buffers@[0].bytes / 4) as int)
            }
        },
    }
}

/// Whether a buffer holds one channel of `bytes` bytes.
pub open spec fn is_plane(b: BufferShape, bytes: u32) -> bool {
    b.channels == 1 && b.bytes == bytes
}

/// The verdict on a callback: after a format change nothing is delivered any more, a buffer list
/// that does not match the format is rejected, and so are frames without a valid time.
pub open spec fn input_check(format: Format, format_changed: bool, list: InputList) -> InputCheck {
    if format_changed {
        InputCheck::Ignore
    } else if format.layout.spec_channels() == 0 {
        InputCheck::Reject { code: CALLBACK_ERROR_BUFFER_LAYOUT, dropped: 0 }
    } else {
        match layout_frames(format.layout, list) {
            Err(verdict) => verdict,
            Ok(frames) => if frames == 0 {
                InputCheck::Ignore
            } else if !list.host_time_valid {
                InputCheck::Reject { code: CALLBACK_ERROR_TIMESTAMP, dropped: frames as usize }
            } else {
                InputCheck::Accept { frames: frames as usize }
            },
        }
    }
}

/// How many of `frames` frames find room in a queue that already holds `queued` blocks.
pub open spec fn frames_with_room(frames: int, queued: int) -> int {
    timeline::smaller(frames, BLOCK_FRAMES * (BLOCK_CAPACITY - queued))
}

/// The blocks into which the first `frames` frames of a callback are cut.
pub open spec fn blocks_of<S>(mono: Seq<S>, frames: int, host_ticks: u64) -> Seq<Block<S>> {
    Seq::new(
        timeline::ceil_div(frames, BLOCK_FRAMES as int) as nat,
        |b: int|
            Block {
                samples: mono.subrange(
                    BLOCK_FRAMES * b,
                    timeline::smaller(BLOCK_FRAMES * (b + 1), frames),
                ),
                host_ticks,
                frame_offset: (BLOCK_FRAMES * b) as u64,
            },
    )
}

/// A counter that wraps around at `2^64`.
pub open spec fn wrapped(n: int) -> u64 {
    (n % 0x1_0000_0000_0000_0000) as u64
}

/// What the callback and the consumer share.
#[verifier::ext_equal]
pub struct Callback<S> {
    pub format: Format,
    pub queue: Seq<Block<S>>,
    pub dropped: u64,
    pub error: u32,
    pub format_changed: bool,
}

impl<S> Callback<S> {
    /// An error is only kept if none was reported before; the frames count as dropped.
    pub open spec fn after_error(self, code: u32, frames: int) -> Callback<S> {
        Callback {
            error: if self.error == CALLBACK_ERROR_NONE {
                code
            } else {
                self.error
            },
            dropped: wrapped(self.dropped + frames),
            ..self
        }
    }

    /// The state after a callback that delivers `mono`, or no data at all: what has room is
    /// queued, the rest is counted as dropped.
    pub open spec fn after_input(self, list: InputList, mono: Option<Seq<S>>) -> Callback<S> {
        match input_check(self.format, self.format_changed, list) {
            InputCheck::Ignore => self,
            InputCheck::Reject { code, dropped } => self.after_error(code, dropped as int),
            InputCheck::Accept { frames } => {
                let room = frames_with_room(frames as int, self.queue.len() as int);
                match mono {
                    None => if room > 0 {
                        self.after_error(CALLBACK_ERROR_NULL_DATA, frames as int)
                    } else {
                        Callback { dropped: wrapped(self.dropped + frames), ..self }
                    },
                    Some(mono) => Callback {
                        queue: self.queue + blocks_of(mono, room, list.host_time),
                        dropped: wrapped(self.dropped + frames - room),
                        ..self
                    },
                }
            },
        }
    }
}

/// The samples that the callback is given: one buffer with whole frames, or one buffer for each
/// channel. A buffer may have no data.
pub enum Source<'a, T> {
    Interleaved(Option<&'a [T]>),
    Planar(&'a [Option<&'a [T]>]),
}

impl<'a, T> Source<'a, T> {
    /// Whether there is data in every buffer.
    pub open spec fn is_present(self, channels: int) -> bool {
        match self {
            Source::Interleaved(data) => data is Some,
            Source::Planar(planes) => pcm::all_planes_present(planes@, channels),
        }
    }

    /// Whether the buffers are those of a layout, and those with data hold this many frames.
    pub open spec fn holds(self, layout: PcmLayout, frames: int) -> bool {
        match (self, layout) {
            (Source::Interleaved(data), PcmLayout::Interleaved { channels }) => data matches Some(
                samples,
            ) ==> frames * channels <= samples@.len(),
            (Source::Planar(planes), PcmLayout::Planar { channels }) => {
                &&& channels <= planes@.len()
                &&& forall|c: int|
                    0 <= c < channels ==> (#[trigger] planes@[c] matches Some(plane) ==> frames
                        <= plane@.len())
            },
            _ => false,
        }
    }

    /// The samples of a frame, one from each channel.
    pub open spec fn frame(self, channels: int, i: int) -> Seq<T> {
        match self {
            Source::Interleaved(data) => pcm::interleaved_frame(data->0@, channels, i),
            Source::Planar(planes) => pcm::planar_frame(planes@, channels, i),
        }
    }
}

/// Whether the first samples of `mono` are the first frames of a source, mixed.
pub open spec fn is_mono_of<T, S, F: Fn(&[T]) -> S>(
    source: Source<T>,
    channels: int,
    frames: int,
    mix: F,
    mono: Seq<S>,
) -> bool {
    mono.len() >= frames && forall|i: int|
        0 <= i < frames ==> pcm::mixes(mix, source.frame(channels, i), #[trigger] mono[i])
}

/// Whether a callback leads from one state to another: what has room is mixed and queued, the
/// rest is counted as dropped.
pub open spec fn takes_in<T, S, F: Fn(&[T]) -> S>(
    before: Callback<S>,
    list: InputList,
    source: Source<T>,
    mix: F,
    after: Callback<S>,
) -> bool {
    let channels = before.format.layout.spec_channels() as int;
    match input_check(before.format, before.format_changed, list) {
        InputCheck::Accept { frames } => if source.is_present(channels) {
            exists|mono: Seq<S>|
                {
                    &&& #[trigger] is_mono_of(
                        source,
                        channels,
                        timeline::smaller(frames as int, RING_FRAMES as int),
                        mix,
                        mono,
                    )
                    &&& after == before.after_input(list, Some(mono))
                }
        } else {
            after == before.after_input(list, None)
        },
        _ => after == before.after_input(list, None),
    }
}

pub struct CallbackState<S> {
    format: Format,
    ring: BlockRing<S>,
    dropped: u64,
    error: u32,
    format_changed: bool,
}

impl<S: Copy> CallbackState<S> {
    pub closed spec fn wf(self) -> bool {
        self.ring.wf()
    }

    pub closed spec fn view(self) -> Callback<S> {
        Callback {
            format: self.format,
            queue: self.ring.view(),
            dropped: self.dropped,
            error: self.error,
            format_changed: self.format_changed,
        }
    }

    /// What a caller may know of every state: the queue is bounded.
    pub proof fn lemma_wf(self)
        requires
            self.wf(),
        ensures
            ring::is_bounded(self.view().queue),
    {
        self.ring.lemma_wf();
    }

    pub fn new(format: Format, silence: S) -> (r: CallbackState<S>)
        ensures
            r.wf(),
            r.view() == (Callback {
                format,
                queue: Seq::<Block<S>>::empty(),
                dropped: 0,
                error: CALLBACK_ERROR_NONE,
                format_changed: false,
            }),
    {
        CallbackState {
            format,
            ring: BlockRing::new(silence),
            dropped: 0,
            error: CALLBACK_ERROR_NONE,
            format_changed: false,
        }
    }

    /// The format that the callback expects.
    pub fn format(&self) -> (r: Format)
        ensures
            r == self.view().format,
    {
        self.format
    }

    /// Counts dropped frames.
    fn count_dropped(&mut self, frames: usize)
        requires
            old(self).wf(),
        ensures
            final(self).wf(),
            final(self).view() == (Callback {
                dropped: wrapped(old(self).view().dropped + frames),
                ..old(self).view()
            }),
    {
        self.dropped = self.dropped.wrapping_add(frames as u64);
    }

    /// Reports an error, unless one was reported before, and counts the frames it cost.
    fn report_error(&mut self, code: u32, dropped_frames: usize)
        requires
            old(self).wf(),
        ensures
            final(self).wf(),
            final(self).view() == old(self).view().after_error(code, dropped_frames as int),
    {
        if self.error == CALLBACK_ERROR_NONE {
            self.error = code;
        }
        self.count_dropped(dropped_frames);
    }

    /// Judges what the callback is given.
    pub fn check_input(&self, list: InputList) -> (r: InputCheck)
        requires
            list.describes(self.view().format.layout),
        ensures
            r == input_check(self.view().format, self.view().format_changed, list),
    {
        if self.format_changed {
            return InputCheck::Ignore;
        }
        let mismatch = InputCheck::Reject { code: CALLBACK_ERROR_BUFFER_LAYOUT, dropped: 0 };
        if self.format.layout.channels() == 0 {
            return mismatch;
        }
        let frames: usize = match self.format.layout {
            PcmLayout::Interleaved { channels } => {
                if list.number_buffers != 1 {
                    return mismatch;
                }
                let buffer = list.buffers[0];
                let samples: usize = (buffer.bytes / 4) as usize;
                if buffer.channels as usize != channels || buffer.bytes % 4 != 0 || samples
                    % channels != 0 {
                    return mismatch;
                }
                samples / channels
            },
            PcmLayout::Planar { channels } => {
                if list.number_buffers as usize != channels {
                    return mismatch;
                }
                let bytes: u32 = list.buffers[0].bytes;
                if bytes % 4 != 0 {
                    return mismatch;
                }
                let frames: usize = (bytes / 4) as usize;
                let mut channel: usize = 0;
                while channel < channels
                    invariant
                        channel <= channels <= list.buffers@.len(),
                        bytes == list.buffers@[0].bytes,
                        bytes % 4 == 0,
                        frames == bytes / 4,
                        list.number_buffers == channels,
                        channels > 0,
                        !self.view().format_changed,
                        self.view().format.layout == (PcmLayout::Planar { channels }),
                        forall|c: int| 0 <= c < channel ==> is_plane(#[trigger] list.buffers@[c], bytes),
                    decreases channels - channel,
                {
                    let buffer = list.buffers[channel];
                    if buffer.channels != 1 || buffer.bytes != bytes {
                        assert(!is_plane(list.buffers@[channel as int], bytes));
                        return InputCheck::Reject {
                            code: CALLBACK_ERROR_BUFFER_LAYOUT,
                            dropped: frames,
                        };
                    }
                    channel += 1;
                }
                frames
            },
        };
        if frames == 0 {
            InputCheck::Ignore
        } else if !list.host_time_valid {
            InputCheck::Reject { code: CALLBACK_ERROR_TIMESTAMP, dropped: frames }
        } else {
            InputCheck::Accept { frames }
        }
    }

    /// Takes in what the callback is given: its frames are mixed to mono, cut into blocks and
    /// queued. `scratch` and `frame` are working space, so that nothing is allocated here.
    pub fn process_input<T: Copy, F: Fn(&[T]) -> S>(
        &mut self,
        list: InputList,
        source: Source<T>,
        scratch: &mut Vec<S>,
        frame: &mut Vec<T>,
        mix: F,
    )
        requires
            old(self).wf(),
            list.describes(old(self).view().format.layout),
            old(scratch)@.len() >= RING_FRAMES,
            pcm::mixes_frames_of(mix, old(self).view().format.layout.spec_channels() as int),
            input_check(
                old(self).view().format,
                old(self).view().format_changed,
                list,
            ) matches InputCheck::Accept { frames } ==> source.holds(
                old(self).view().format.layout,
                frames as int,
            ),
        ensures
            final(self).wf(),
            final(scratch)@.len() == old(scratch)@.len(),
            takes_in(old(self).view(), list, source, mix, final(self).view()),
    {
        let layout = self.format.layout;
        let channels = layout.channels();
        let frames: usize = match self.check_input(list) {
            InputCheck::Accept { frames } => frames,
            _ => {
                self.deliver(list, None);
                return;
            },
        };
        let used: usize = if frames < RING_FRAMES {
            frames
        } else {
            RING_FRAMES
        };
        let copied = match &source {
            Source::Interleaved(data) => {
                assert(used * channels <= frames * channels) by (nonlinear_arith)
                    requires
                        0 <= used <= frames,
                        channels >= 0,
                ;
                pcm::copy_interleaved_mono(scratch, used, 0, channels, *data, mix)
            },
            Source::Planar(planes) => pcm::copy_planar_mono(
                scratch,
                used,
                0,
                channels,
                planes,
                frame,
                mix,
            ),
        };
        assert(copied == source.is_present(channels as int));
        if copied {
            let ghost mono = scratch@;
            assert forall|i: int| 0 <= i < used implies pcm::mixes(
                mix,
                source.frame(channels as int, i),
                #[trigger] mono[i],
            ) by {}
            assert(is_mono_of(
                source,
                channels as int,
                timeline::smaller(frames as int, RING_FRAMES as int),
                mix,
                mono,
            ));
            self.deliver(list, Some(scratch.as_slice()));
            assert(self.view() == old(self).view().after_input(list, Some(mono)));
        } else {
            self.deliver(list, None);
        }
    }

    /// Takes in frames that are already mixed to mono, as many as the queue could hold; `mono` is
    /// absent when a buffer has no data.
    fn deliver(&mut self, list: InputList, mono: Option<&[S]>)
        requires
            old(self).wf(),
            list.describes(old(self).view().format.layout),
            match (
                input_check(old(self).view().format, old(self).view().format_changed, list),
                mono,
            ) {
                (InputCheck::Accept { frames }, Some(m)) => m@.len() >= timeline::smaller(
                    frames as int,
                    RING_FRAMES as int,
                ),
                _ => true,
            },
        ensures
            final(self).wf(),
            final(self).view() == old(self).view().after_input(
                list,
                match mono {
                    Some(m) => Some(m@),
                    None => None,
                },
            ),
    {
        match self.check_input(list) {
            InputCheck::Ignore => {},
            InputCheck::Reject { code, dropped } => {
                self.report_error(code, dropped);
            },
            InputCheck::Accept { frames } => {
                match mono {
                    None => self.lose_input(frames),
                    Some(mono) => self.queue_input(frames, mono, list.host_time),
                }
            },
        }
    }

    /// Accounts for a callback without data.
    fn lose_input(&mut self, frames: usize)
        requires
            old(self).wf(),
            frames > 0,
        ensures
            final(self).wf(),
            final(self).view() == (if frames_with_room(
                frames as int,
                old(self).view().queue.len() as int,
            ) > 0 {
                old(self).view().after_error(CALLBACK_ERROR_NULL_DATA, frames as int)
            } else {
                Callback {
                    dropped: wrapped(old(self).view().dropped + frames),
                    ..old(self).view()
                }
            }),
    {
        proof {
            self.ring.lemma_wf();
        }
        if self.ring.is_full() {
            self.count_dropped(frames);
        } else {
            self.report_error(CALLBACK_ERROR_NULL_DATA, frames);
        }
    }

    /// Cuts the frames of a callback into blocks and queues them as long as there is room.
    #[verifier::spinoff_prover]
    #[verifier::rlimit(40)]
    fn queue_input(&mut self, frames: usize, mono: &[S], host_time: u64)
        requires
            old(self).wf(),
            mono@.len() >= timeline::smaller(frames as int, RING_FRAMES as int),
        ensures
            final(self).wf(),
            ({
                let room = frames_with_room(frames as int, old(self).view().queue.len() as int);
                final(self).view() == (Callback {
                    queue: old(self).view().queue + blocks_of(mono@, room, host_time),
                    dropped: wrapped(old(self).view().dropped + frames - room),
                    ..old(self).view()
                })
            }),
    {
        let ghost before = self.view();
        let ghost free = BLOCK_CAPACITY - before.queue.len();
        let ghost mut blocks: int = 0;
        let mut offset: usize = 0;
        proof {
            self.ring.lemma_wf();
        }
        assert(self.view().queue =~= before.queue + blocks_of(mono@, 0, host_time));
        while offset < frames
            invariant
                self.wf(),
                before == old(self).view(),
                free == BLOCK_CAPACITY - before.queue.len(),
                free >= 0,
                0 <= blocks,
                offset == timeline::smaller(BLOCK_FRAMES * blocks, frames as int),
                mono@.len() >= timeline::smaller(frames as int, RING_FRAMES as int),
                self.view() == (Callback {
                    queue: before.queue + blocks_of(
                        mono@,
                        frames_with_room(offset as int, before.queue.len() as int),
                        host_time,
                    ),
                    dropped: wrapped(
                        before.dropped + offset - frames_with_room(
                            offset as int,
                            before.queue.len() as int,
                        ),
                    ),
                    ..before
                }),
            decreases frames - offset,
        {
            let rest: usize = frames - offset;
            let chunk_len: usize = if rest < BLOCK_FRAMES {
                rest
            } else {
                BLOCK_FRAMES
            };
            let ghost here = self.view();
            assert(offset == BLOCK_FRAMES * blocks);
            assert(here.queue.len() == before.queue.len() + timeline::smaller(blocks, free));
            if self.ring.is_full() {
                self.count_dropped(chunk_len);
            } else {
                self.ring.push(mono, offset, chunk_len, host_time, offset as u64);
                assert(self.view().queue =~= before.queue + blocks_of(
                    mono@,
                    offset + chunk_len,
                    host_time,
                ));
            }
            offset += chunk_len;
            proof {
                blocks = blocks + 1;
            }
        }
    }

    /// Notes the properties that changed. A change of the format ends delivery and replaces any
    /// error reported before.
    pub fn tap_format_changed(&mut self, selectors: &[u32])
        requires
            old(self).wf(),
        ensures
            final(self).wf(),
            final(self).view() == (if selectors@.contains(TAP_PROPERTY_FORMAT) {
                Callback {
                    format_changed: true,
                    error: CALLBACK_ERROR_FORMAT_CHANGED,
                    ..old(self).view()
                }
            } else {
                old(self).view()
            }),
    {
        let mut index: usize = 0;
        while index < selectors.len()
            invariant
                index <= selectors@.len(),
                *self == *old(self),
                self.wf(),
                forall|k: int| 0 <= k < index ==> selectors@[k] != TAP_PROPERTY_FORMAT,
            decreases selectors@.len() - index,
        {
            if selectors[index] == TAP_PROPERTY_FORMAT {
                self.format_changed = true;
                self.error = CALLBACK_ERROR_FORMAT_CHANGED;
                return;
            }
            index += 1;
        }
    }

    /// Takes the oldest block.
    pub fn pop<F: Fn(u64) -> u64>(&mut self, to_nanos: F) -> (r: Option<CapturedChunk<S>>)
        requires
            old(self).wf(),
            forall|ticks: u64| call_requires(to_nanos, (ticks,)),
        ensures
            final(self).wf(),
            match r {
                None => old(self).view().queue.len() == 0 && final(self).view()
                    == old(self).view(),
                Some(chunk) => {
                    &&& old(self).view().queue.len() > 0
                    &&& final(self).view() == (Callback {
                        queue: old(self).view().queue.drop_first(),
                        ..old(self).view()
                    })
                    &&& ring::is_chunk_of(
                        chunk,
                        old(self).view().queue[0],
                        old(self).view().format.sample_rate,
                        to_nanos,
                    )
                },
            },
    {
        self.ring.pop(self.format.sample_rate, to_nanos)
    }

    /// The number of frames dropped since the last call.
    pub fn take_dropped(&mut self) -> (r: u64)
        requires
            old(self).wf(),
        ensures
            final(self).wf(),
            r == old(self).view().dropped,
            final(self).view() == (Callback { dropped: 0, ..old(self).view() }),
    {
        let dropped = self.dropped;
        self.dropped = 0;
        dropped
    }

    /// The error reported since the last call.
    pub fn take_error(&mut self) -> (r: u32)
        requires
            old(self).wf(),
        ensures
            final(self).wf(),
            r == old(self).view().error,
            final(self).view() == (Callback { error: CALLBACK_ERROR_NONE, ..old(self).view() }),
    {
        let error = self.error;
        self.error = CALLBACK_ERROR_NONE;
        error
    }
}

/// No frame is lost unseen: of an accepted callback, every frame is either in a new block of the
/// queue, in its place, or counted as dropped.
pub proof fn law_every_frame_is_queued_or_counted<S>(
    state: Callback<S>,
    list: InputList,
    mono: Seq<S>,
    frames: usize,
)
    requires
        state.queue.len() <= BLOCK_CAPACITY,
        input_check(state.format, state.format_changed, list) == (InputCheck::Accept { frames }),
        mono.len() >= timeline::smaller(frames as int, RING_FRAMES as int),
    ensures
        ({
            let after = state.after_input(list, Some(mono));
            let room = frames_with_room(frames as int, state.queue.len() as int);
            &&& 0 <= room <= frames
            &&& after.queue.len() <= BLOCK_CAPACITY
            &&& after.queue.take(state.queue.len() as int) == state.queue
            &&& queued_samples(after.queue.skip(state.queue.len() as int)) == mono.take(room)
            &&& after.dropped == wrapped(state.dropped + (frames - room))
            &&& after.error == state.error
        }),
{
    let room = frames_with_room(frames as int, state.queue.len() as int);
    let after = state.after_input(list, Some(mono));
    assert(after.queue.take(state.queue.len() as int) =~= state.queue);
    assert(after.queue.skip(state.queue.len() as int) =~= blocks_of(mono, room, list.host_time));
    lemma_blocks_hold_all(mono, room, list.host_time, blocks_of(mono, room, list.host_time).len() as int);
    assert(blocks_of(mono, room, list.host_time).take(
        blocks_of(mono, room, list.host_time).len() as int,
    ) =~= blocks_of(mono, room, list.host_time));
}

/// The samples of all blocks, in order.
pub open spec fn queued_samples<S>(blocks: Seq<Block<S>>) -> Seq<S>
    decreases blocks.len(),
{
    if blocks.len() == 0 {
        Seq::empty()
    } else {
        queued_samples(blocks.drop_last()) + blocks.last().samples
    }
}

proof fn lemma_blocks_hold_all<S>(mono: Seq<S>, frames: int, host_ticks: u64, n: int)
    requires
        0 <= frames <= mono.len(),
        0 <= n <= blocks_of(mono, frames, host_ticks).len(),
    ensures
        queued_samples(blocks_of(mono, frames, host_ticks).take(n)) == mono.take(
            timeline::smaller(BLOCK_FRAMES * n, frames),
        ),
    decreases n,
{
    let blocks = blocks_of(mono, frames, host_ticks);
    if n == 0 {
        assert(mono.take(0) =~= Seq::<S>::empty());
    } else {
        lemma_blocks_hold_all(mono, frames, host_ticks, n - 1);
        assert(blocks.take(n).drop_last() =~= blocks.take(n - 1));
        assert(queued_samples(blocks.take(n)) =~= mono.take(
            timeline::smaller(BLOCK_FRAMES * n, frames),
        ));
    }
}

/// Once the format has changed, nothing is delivered any more and the error stays until it is
/// taken.
pub proof fn law_format_change_ends_delivery<S>(
    state: Callback<S>,
    list: InputList,
    mono: Option<Seq<S>>,
)
    requires
        state.format_changed,
    ensures
        state.after_input(list, mono) == state,
{
}

/// An error is not overwritten by a later error of a callback.
pub proof fn law_first_error_is_kept<S>(state: Callback<S>, list: InputList, mono: Option<Seq<S>>)
    requires
        state.error != CALLBACK_ERROR_NONE,
    ensures
        state.after_input(list, mono).error == state.error,
{
}

/// One operation of the audio system that releases what a capture holds.
#[derive(Clone, Copy, Debug, PartialEq, Eq, Structural)]
pub enum Teardown {
    StopDevice { aggregate_id: u32 },
    DestroyIoProc { aggregate_id: u32 },
    RemoveFormatListener { tap_id: u32 },
    DestroyAggregate { aggregate_id: u32 },
    DestroyTap { tap_id: u32 },
}

impl Teardown {
    /// The name under which a failure is reported.
    pub open spec fn spec_operation(self) -> Seq<char> {
        match self {
            Teardown::StopDevice { .. } => "AudioDeviceStop"@,
            Teardown::DestroyIoProc { .. } => "AudioDeviceDestroyIOProcID"@,
            Teardown::RemoveFormatListener { .. } =>
                "AudioObjectRemovePropertyListener(kAudioTapPropertyFormat)"@,
            Teardown::DestroyAggregate { .. } => "AudioHardwareDestroyAggregateDevice"@,
            Teardown::DestroyTap { .. } => "AudioHardwareDestroyProcessTap"@,
        }
    }

    fn operation(self) -> (r: &'static str)
        ensures
            r@ == self.spec_operation(),
    {
        match self {
            Teardown::StopDevice { .. } => "AudioDeviceStop",
            Teardown::DestroyIoProc { .. } => "AudioDeviceDestroyIOProcID",
            Teardown::RemoveFormatListener { .. } =>
                "AudioObjectRemovePropertyListener(kAudioTapPropertyFormat)",
            Teardown::DestroyAggregate { .. } => "AudioHardwareDestroyAggregateDevice",
            Teardown::DestroyTap { .. } => "AudioHardwareDestroyProcessTap",
        }
    }

    /// Whether the audio system may go on using the callback if this operation fails.
    pub open spec fn detaches_callback(self) -> bool {
        self is DestroyIoProc || self is RemoveFormatListener
    }
}

/// What is released, in which order: first the callback is stopped and detached, then the
/// listener, and only then the objects that they belong to.
pub open spec fn teardown_plan(
    aggregate_id: u32,
    io_proc: bool,
    tap_id: u32,
    listener: bool,
) -> Seq<Teardown> {
    (if aggregate_id != 0 && io_proc {
        seq![Teardown::StopDevice { aggregate_id }, Teardown::DestroyIoProc { aggregate_id }]
    } else {
        Seq::empty()
    }) + (if tap_id != 0 && listener {
        seq![Teardown::RemoveFormatListener { tap_id }]
    } else {
        Seq::empty()
    }) + (if aggregate_id != 0 {
        seq![Teardown::DestroyAggregate { aggregate_id }]
    } else {
        Seq::empty()
    }) + (if tap_id != 0 {
        seq![Teardown::DestroyTap { tap_id }]
    } else {
        Seq::empty()
    })
}

/// The failures of the first `n` operations, joined into one report.
pub open spec fn teardown_report(ops: Seq<Teardown>, codes: Seq<i32>, n: int) -> Option<Seq<char>>
    decreases n,
{
    if n <= 0 {
        None
    } else {
        osstatus::collected(
            teardown_report(ops, codes, n - 1),
            codes[n - 1],
            ops[n - 1].spec_operation(),
        )
    }
}

/// Whether an operation failed after which the callback may still be called.
pub open spec fn callback_may_run(ops: Seq<Teardown>, codes: Seq<i32>) -> bool {
    exists|i: int|
        0 <= i < ops.len() && (#[trigger] ops[i]).detaches_callback() && codes[i] != 0
}

/// What a capture holds of the audio system.
#[verifier::ext_equal]
pub struct Capture<S> {
    pub sample_rate: u32,
    pub aggregate_id: u32,
    pub tap_id: u32,
    pub io_proc: bool,
    pub listener: bool,
    pub callback: Option<Callback<S>>,
    pub stopped: bool,
}

impl<S> Capture<S> {
    pub open spec fn nothing() -> Capture<S> {
        Capture {
            sample_rate: 0,
            aggregate_id: 0,
            tap_id: 0,
            io_proc: false,
            listener: false,
            callback: None,
            stopped: false,
        }
    }
}

/// A capture of the system output. Identifiers are zero as long as the object does not exist.
pub struct SystemCapture<S> {
    sample_rate: u32,
    aggregate_id: u32,
    tap_id: u32,
    io_proc: bool,
    format_listener_registered: bool,
    callback: Option<CallbackState<S>>,
    stopped: bool,
}

impl<S: Copy> SystemCapture<S> {
    pub closed spec fn wf(self) -> bool {
        self.callback matches Some(callback) ==> callback.wf()
    }

    pub closed spec fn view(self) -> Capture<S> {
        Capture {
            sample_rate: self.sample_rate,
            aggregate_id: self.aggregate_id,
            tap_id: self.tap_id,
            io_proc: self.io_proc,
            listener: self.format_listener_registered,
            callback: match self.callback {
                Some(callback) => Some(callback.view()),
                None => None,
            },
            stopped: self.stopped,
        }
    }

    /// What a caller may know of every capture: its queue is bounded.
    pub proof fn lemma_wf(self)
        requires
            self.wf(),
        ensures
            self.view().callback matches Some(c) ==> ring::is_bounded(c.queue),
    {
        if let Some(callback) = self.callback {
            callback.lemma_wf();
        }
    }

    /// A capture that holds nothing yet.
    pub fn new() -> (r: SystemCapture<S>)
        ensures
            r.wf(),
            r.view() == Capture::<S>::nothing(),
    {
        SystemCapture {
            sample_rate: 0,
            aggregate_id: 0,
            tap_id: 0,
            io_proc: false,
            format_listener_registered: false,
            callback: None,
            stopped: false,
        }
    }

    /// The tap was created, or could not be.
    pub fn on_tap_created(&mut self, code: i32, tap_id: u32) -> (r: Result<(), String>)
        requires
            old(self).wf(),
        ensures
            final(self).wf(),
            match r {
                Ok(_) => code == 0 && final(self).view() == (Capture { tap_id, ..old(self).view() }),
                Err(e) => {
                    &&& code != 0
                    &&& e@ == osstatus::status_text(code, "AudioHardwareCreateProcessTap"@)
                    &&& final(self).view() == old(self).view()
                },
            },
    {
        match osstatus::status(code, "AudioHardwareCreateProcessTap") {
            Ok(_) => {},
            Err(e) => return Err(e),
        }
        self.tap_id = tap_id;
        Ok(())
    }

    /// The tap told its format. The callback gets ready for it.
    pub fn on_format(&mut self, description: &StreamDescription, silence: S) -> (r: Result<
        (),
        String,
    >)
        requires
            old(self).wf(),
        ensures
            final(self).wf(),
            match r {
                Ok(_) => {
                    let format = pcm::stream_format(*description);
                    &&& pcm::format_error(*description) is None
                    &&& final(self).view() == (Capture {
                        sample_rate: format.sample_rate,
                        callback: Some(
                            Callback {
                                format,
                                queue: Seq::<Block<S>>::empty(),
                                dropped: 0,
                                error: CALLBACK_ERROR_NONE,
                                format_changed: false,
                            },
                        ),
                        ..old(self).view()
                    })
                },
                Err(e) => {
                    &&& pcm::format_error(*description) is Some
                    &&& e@ == "unsupported tap PCM format"@
                    &&& final(self).view() == old(self).view()
                },
            },
    {
        match pcm::validate_asbd(description) {
            Ok(format) => {
                self.sample_rate = format.sample_rate;
                self.callback = Some(CallbackState::new(format, silence));
                Ok(())
            },
            Err(_) => Err("unsupported tap PCM format".to_owned()),
        }
    }

    /// The aggregate device was created, or could not be.
    pub fn on_aggregate_created(&mut self, code: i32, aggregate_id: u32) -> (r: Result<
        (),
        String,
    >)
        requires
            old(self).wf(),
        ensures
            final(self).wf(),
            match r {
                Ok(_) => code == 0 && final(self).view() == (Capture {
                    aggregate_id,
                    ..old(self).view()
                }),
                Err(e) => {
                    &&& code != 0
                    &&& e@ == osstatus::status_text(code, "AudioHardwareCreateAggregateDevice"@)
                    &&& final(self).view() == old(self).view()
                },
            },
    {
        match osstatus::status(code, "AudioHardwareCreateAggregateDevice") {
            Ok(_) => {},
            Err(e) => return Err(e),
        }
        self.aggregate_id = aggregate_id;
        Ok(())
    }

    /// The callback was attached to the aggregate device, or could not be.
    pub fn on_io_proc_created(&mut self, code: i32, present: bool) -> (r: Result<(), String>)
        requires
            old(self).wf(),
        ensures
            final(self).wf(),
            match r {
                Ok(_) => code == 0 && present && final(self).view() == (Capture {
                    io_proc: true,
                    ..old(self).view()
                }),
                Err(e) => {
                    &&& code != 0 || !present
                    &&& e@ == if code != 0 {
                        osstatus::status_text(code, "AudioDeviceCreateIOProcID"@)
                    } else {
                        "AudioDeviceCreateIOProcID returned a null IOProc ID"@
                    }
                    &&& final(self).view() == old(self).view()
                },
            },
    {
        match osstatus::status(code, "AudioDeviceCreateIOProcID") {
            Ok(_) => {},
            Err(e) => return Err(e),
        }
        if !present {
            return Err("AudioDeviceCreateIOProcID returned a null IOProc ID".to_owned());
        }
        self.io_proc = true;
        Ok(())
    }

    /// The device was started, or could not be. Success is the readiness boundary; silence is
    /// not a failure.
    pub fn on_started(&self, code: i32) -> (r: Result<(), String>)
        ensures
            match r {
                Ok(_) => code == 0,
                Err(e) => code != 0 && e@ == osstatus::status_text(code, "AudioDeviceStart"@),
            },
    {
        osstatus::status(code, "AudioDeviceStart")
    }

    /// The listener for format changes was registered, or could not be.
    pub fn on_listener_added(&mut self, code: i32) -> (r: Result<(), String>)
        requires
            old(self).wf(),
        ensures
            final(self).wf(),
            match r {
                Ok(_) => code == 0 && final(self).view() == (Capture {
                    listener: true,
                    ..old(self).view()
                }),
                Err(e) => {
                    &&& code != 0
                    &&& e@ == osstatus::status_text(
                        code,
                        "AudioObjectAddPropertyListener(kAudioTapPropertyFormat)"@,
                    )
                    &&& final(self).view() == old(self).view()
                },
            },
    {
        match osstatus::status(code, "AudioObjectAddPropertyListener(kAudioTapPropertyFormat)") {
            Ok(_) => {},
            Err(e) => return Err(e),
        }
        self.format_listener_registered = true;
        Ok(())
    }

    /// The tap told its format once more, after the start. It must not have changed.
    pub fn on_format_confirmed(&self, description: &StreamDescription) -> (r: Result<(), String>)
        requires
            self.wf(),
            self.view().callback is Some,
        ensures
            match r {
                Ok(_) => {
                    &&& pcm::format_error(*description) is None
                    &&& pcm::stream_format(*description) == self.view().callback->0.format
                },
                Err(e) => if pcm::format_error(*description) is Some {
                    e@ == "unsupported tap PCM format"@
                } else {
                    &&& pcm::stream_format(*description) != self.view().callback->0.format
                    &&& e@ == "system audio format changed while capture was starting"@
                },
            },
    {
        match pcm::validate_asbd(description) {
            Ok(format) => {
                match &self.callback {
                    Some(callback) => {
                        if callback.format == format {
                            Ok(())
                        } else {
                            Err("system audio format changed while capture was starting".to_owned())
                        }
                    },
                    None => Ok(()),
                }
            },
            Err(_) => Err("unsupported tap PCM format".to_owned()),
        }
    }

    /// The sample rate of the capture.
    pub fn sample_rate(&self) -> (r: u32)
        ensures
            r == self.view().sample_rate,
    {
        self.sample_rate
    }

    /// What the callback works on, as long as the capture has it.
    pub fn callback(&mut self) -> (r: Option<&mut CallbackState<S>>)
        requires
            old(self).wf(),
        ensures
            match r {
                Some(state) => {
                    &&& old(self).view().callback == Some(state.view())
                    &&& state.wf()
                    &&& final(state).wf() ==> final(self).wf()
                    &&& final(self).view() == (Capture {
                        callback: Some(final(state).view()),
                        ..old(self).view()
                    })
                },
                None => old(self).view().callback is None && *final(self) == *old(self),
            },
    {
        match &mut self.callback {
            Some(state) => Some(state),
            None => None,
        }
    }

    /// Takes the oldest captured block.
    pub fn pop_chunk<F: Fn(u64) -> u64>(&mut self, to_nanos: F) -> (r: Option<CapturedChunk<S>>)
        requires
            old(self).wf(),
            forall|ticks: u64| call_requires(to_nanos, (ticks,)),
        ensures
            final(self).wf(),
            match r {
                None => {
                    &&& old(self).view().callback matches Some(c) ==> c.queue.len() == 0
                    &&& final(self).view() == old(self).view()
                },
                Some(chunk) => {
                    &&& old(self).view().callback matches Some(c)
                    &&& c.queue.len() > 0
                    &&& final(self).view() == (Capture {
                        callback: Some(Callback { queue: c.queue.drop_first(), ..c }),
                        ..old(self).view()
                    })
                    &&& ring::is_chunk_of(chunk, c.queue[0], c.format.sample_rate, to_nanos)
                },
            },
    {
        match &mut self.callback {
            Some(callback) => callback.pop(to_nanos),
            None => None,
        }
    }

    /// The number of frames dropped since the last call.
    pub fn take_dropped(&mut self) -> (r: u64)
        requires
            old(self).wf(),
        ensures
            final(self).wf(),
            match old(self).view().callback {
                Some(c) => {
                    &&& r == c.dropped
                    &&& final(self).view() == (Capture {
                        callback: Some(Callback { dropped: 0, ..c }),
                        ..old(self).view()
                    })
                },
                None => r == 0 && final(self).view() == old(self).view(),
            },
    {
        match &mut self.callback {
            Some(callback) => callback.take_dropped(),
            None => 0,
        }
    }

    /// The error reported since the last call, in words.
    pub fn take_error(&mut self) -> (r: Option<String>)
        requires
            old(self).wf(),
        ensures
            final(self).wf(),
            match old(self).view().callback {
                Some(c) => {
                    &&& text::opt_text(r) == error_text(c.error)
                    &&& final(self).view() == (Capture {
                        callback: Some(Callback { error: CALLBACK_ERROR_NONE, ..c }),
                        ..old(self).view()
                    })
                },
                None => r is None && final(self).view() == old(self).view(),
            },
    {
        let code: u32 = match &mut self.callback {
            Some(callback) => callback.take_error(),
            None => CALLBACK_ERROR_NONE,
        };
        if code == CALLBACK_ERROR_NONE {
            None
        } else if code == CALLBACK_ERROR_TIMESTAMP {
            Some("CoreAudio input timestamp did not contain valid host time".to_owned())
        } else if code == CALLBACK_ERROR_BUFFER_LAYOUT {
            Some("CoreAudio buffer list did not match the tap ASBD".to_owned())
        } else if code == CALLBACK_ERROR_NULL_DATA {
            Some("CoreAudio supplied a null input buffer".to_owned())
        } else if code == CALLBACK_ERROR_FORMAT_CHANGED {
            Some("System audio format changed during recording; start a new recording".to_owned())
        } else {
            Some("unknown CoreAudio callback error".to_owned())
        }
    }

    /// Begins to stop the capture: what has to be released, in the order that keeps the callback
    /// safe. A second stop releases nothing.
    pub fn stop(&mut self) -> (r: Vec<Teardown>)
        requires
            old(self).wf(),
        ensures
            final(self).wf(),
            old(self).view().stopped ==> r@ == Seq::<Teardown>::empty() && final(self).view()
                == old(self).view(),
            !old(self).view().stopped ==> {
                &&& r@ == teardown_plan(
                    old(self).view().aggregate_id,
                    old(self).view().io_proc,
                    old(self).view().tap_id,
                    old(self).view().listener,
                )
                &&& final(self).view() == (Capture {
                    stopped: true,
                    aggregate_id: 0,
                    io_proc: false,
                    tap_id: 0,
                    listener: old(self).view().listener && old(self).view().tap_id == 0,
                    ..old(self).view()
                })
            },
    {
        let mut ops: Vec<Teardown> = Vec::new();
        if self.stopped {
            return ops;
        }
        self.stopped = true;
        let aggregate_id = self.aggregate_id;
        let io_proc = self.io_proc;
        let tap_id = self.tap_id;
        self.aggregate_id = 0;
        self.io_proc = false;
        self.tap_id = 0;
        let listener = self.format_listener_registered;
        if aggregate_id != 0 && io_proc {
            ops.push(Teardown::StopDevice { aggregate_id });
            ops.push(Teardown::DestroyIoProc { aggregate_id });
        }
        if tap_id != 0 && listener {
            self.format_listener_registered = false;
            ops.push(Teardown::RemoveFormatListener { tap_id });
        }
        if aggregate_id != 0 {
            ops.push(Teardown::DestroyAggregate { aggregate_id });
        }
        if tap_id != 0 {
            ops.push(Teardown::DestroyTap { tap_id });
        }
        assert(ops@ =~= teardown_plan(aggregate_id, io_proc, tap_id, listener));
        ops
    }

    /// Ends a stop with the status codes of its operations: the report of all failures, and
    /// whether the callback must outlive the capture because it may still be called.
    pub fn finish_stop(&mut self, ops: &[Teardown], codes: &[i32]) -> (r: (Result<(), String>, bool))
        requires
            old(self).wf(),
            ops@.len() == codes@.len(),
        ensures
            final(self).wf(),
            match r.0 {
                Ok(_) => teardown_report(ops@, codes@, ops@.len() as int) is None,
                Err(e) => teardown_report(ops@, codes@, ops@.len() as int) == Some(e@),
            },
            r.1 == callback_may_run(ops@, codes@),
            r.0 is Ok <==> forall|i: int| 0 <= i < codes@.len() ==> #[trigger] codes@[i] == 0,
            r.1 <==> exists|i: int|
                0 <= i < ops@.len() && #[trigger] codes@[i] != 0 && (ops@[i] is DestroyIoProc
                    || ops@[i] is RemoveFormatListener),
            final(self).view() == (if r.1 {
                Capture { callback: None, ..old(self).view() }
            } else {
                old(self).view()
            }),
    {
        let mut errors: Option<String> = None;
        let mut leak = false;
        let mut i: usize = 0;
        while i < ops.len()
            invariant
                i <= ops@.len(),
                ops@.len() == codes@.len(),
                *self == *old(self),
                self.wf(),
                text::opt_text(errors) == teardown_report(ops@, codes@, i as int),
                leak == exists|k: int|
                    0 <= k < i && (#[trigger] ops@[k]).detaches_callback() && codes@[k] != 0,
            decreases ops@.len() - i,
        {
            let op = ops[i];
            let code = codes[i];
            osstatus::collect_status(code, op.operation(), &mut errors);
            if code != 0 {
                match op {
                    Teardown::DestroyIoProc { .. } => {
                        assert(ops@[i as int].detaches_callback());
                        leak = true;
                    },
                    Teardown::RemoveFormatListener { .. } => {
                        assert(ops@[i as int].detaches_callback());
                        leak = true;
                    },
                    _ => {},
                }
            }
            i += 1;
        }
        proof {
            law_report_tells_every_failure(ops@, codes@, ops@.len() as int);
            if leak {
                let k = choose|k: int|
                    0 <= k < ops@.len() && (#[trigger] ops@[k]).detaches_callback() && codes@[k]
                        != 0;
                assert(codes@[k] != 0);
            }
            if exists|i: int|
                0 <= i < ops@.len() && #[trigger] codes@[i] != 0 && (ops@[i] is DestroyIoProc
                    || ops@[i] is RemoveFormatListener) {
                let i = choose|i: int|
                    0 <= i < ops@.len() && #[trigger] codes@[i] != 0 && (ops@[i] is DestroyIoProc
                        || ops@[i] is RemoveFormatListener);
                assert(ops@[i].detaches_callback());
            }
        }
        if leak {
            self.callback = None;
        }
        match errors {
            Some(message) => (Err(message), leak),
            None => (Ok(()), leak),
        }
    }
}

/// The words for an error code of the callback.
pub open spec fn error_text(code: u32) -> Option<Seq<char>> {
    if code == CALLBACK_ERROR_NONE {
        None
    } else if code == CALLBACK_ERROR_TIMESTAMP {
        Some("CoreAudio input timestamp did not contain valid host time"@)
    } else if code == CALLBACK_ERROR_BUFFER_LAYOUT {
        Some("CoreAudio buffer list did not match the tap ASBD"@)
    } else if code == CALLBACK_ERROR_NULL_DATA {
        Some("CoreAudio supplied a null input buffer"@)
    } else if code == CALLBACK_ERROR_FORMAT_CHANGED {
        Some("System audio format changed during recording; start a new recording"@)
    } else {
        Some("unknown CoreAudio callback error"@)
    }
}

/// The callback is stopped and detached before anything is destroyed that it depends on: in the
/// order of release, no device or tap goes before the callback and the listener on it.
pub proof fn law_callback_is_detached_first(
    aggregate_id: u32,
    io_proc: bool,
    tap_id: u32,
    listener: bool,
    i: int,
    j: int,
)
    requires
        ({
            let plan = teardown_plan(aggregate_id, io_proc, tap_id, listener);
            &&& 0 <= i < plan.len()
            &&& 0 <= j < plan.len()
            &&& plan[i].detaches_callback()
            &&& plan[j] is DestroyAggregate || plan[j] is DestroyTap
        }),
    ensures
        i < j,
{
}

/// What the user is told when the capture could not be opened: a missing permission shows as the
/// code `'nope'`.
pub open spec fn open_error_text(message: Seq<char>) -> Seq<char> {
    if text::is_substring("'nope'"@, message) {
        "System Audio Recording permission is required: "@ + message
    } else {
        "could not start system audio capture: "@ + message
    }
}

/// What the user is told when the capture could not be opened.
pub fn open_error(message: &str) -> (r: String)
    ensures
        r@ == open_error_text(message@),
{
    let mut r = if text::contains(message, "'nope'") {
        "System Audio Recording permission is required: ".to_owned()
    } else {
        "could not start system audio capture: ".to_owned()
    };
    r.append(message);
    r
}

/// A callback is accepted exactly if the format has not changed, its time is valid, and its
/// buffers hold whole frames of the format: one buffer with all channels, or one for each.
pub proof fn law_accepted_input_has_the_format(
    format: Format,
    format_changed: bool,
    list: InputList,
    frames: usize,
)
    requires
        list.describes(format.layout),
    ensures
        input_check(format, format_changed, list) == (InputCheck::Accept { frames }) <==> {
            &&& !format_changed
            &&& list.host_time_valid
            &&& frames > 0
            &&& match format.layout {
                PcmLayout::Interleaved { channels } => {
                    &&& channels > 0
                    &&& list.number_buffers == 1
                    &&& list.buffers@[0].channels == channels
                    &&& list.buffers@[0].bytes == 4 * (channels * frames)
                },
                PcmLayout::Planar { channels } => {
                    &&& channels > 0
                    &&& list.number_buffers == channels
                    &&& forall|c: int|
                        0 <= c < channels ==> (#[trigger] list.buffers@[c]).channels == 1
                            && list.buffers@[c].bytes == 4 * frames
                },
            }
        },
{
    match format.layout {
        PcmLayout::Interleaved { channels } => {
            if channels > 0 && list.number_buffers == 1 {
                let bytes = list.buffers@[0].bytes;
                let samples = (bytes / 4) as int;
                let n = channels as int;
                vstd::arithmetic::div_mod::lemma_fundamental_div_mod(samples, n);
                if bytes == 4 * (channels * frames) {
                    assert(samples == n * frames);
                    assert((n * frames) % n == 0 && (n * frames) / n == frames) by (nonlinear_arith)
                        requires
                            n > 0,
                    ;
                }
                if bytes % 4 == 0 && samples % n == 0 {
                    let q = samples / n;
                    assert(samples == n * q);
                    assert(0 <= q <= samples) by (nonlinear_arith)
                        requires
                            n > 0,
                            samples >= 0,
                            q == samples / n,
                    ;
                }
            }
        },
        PcmLayout::Planar { channels } => {
            if channels > 0 && list.number_buffers == channels {
                let bytes = list.buffers@[0].bytes;
                if forall|c: int|
                    0 <= c < channels ==> (#[trigger] list.buffers@[c]).channels == 1
                        && list.buffers@[c].bytes == 4 * frames {
                    assert(bytes == 4 * frames);
                    assert forall|c: int| 0 <= c < channels implies is_plane(
                        #[trigger] list.buffers@[c],
                        bytes,
                    ) by {}
                }
                if input_check(format, format_changed, list) == (InputCheck::Accept { frames }) {
                    assert forall|c: int| 0 <= c < channels implies (
                    #[trigger] list.buffers@[c]).channels == 1 && list.buffers@[c].bytes == 4
                        * frames by {
                        assert(is_plane(list.buffers@[c], bytes));
                    }
                }
            }
        },
    }
}

/// After a change of the format every callback is ignored. Without a valid time, what would have
/// been accepted is rejected for that reason and counted as dropped, and every other verdict stays
/// as it is. A callback with a valid time is ignored only if it is empty; what does not have the
/// format is rejected for that reason.
pub proof fn law_rejected_input_is_told_why(format: Format, format_changed: bool, list: InputList)
    requires
        list.describes(format.layout),
    ensures
        ({
            let verdict = input_check(format, format_changed, list);
            let timed = input_check(
                format,
                format_changed,
                InputList { host_time_valid: true, ..list },
            );
            &&& format_changed ==> verdict is Ignore
            &&& !list.host_time_valid ==> verdict == (match timed {
                InputCheck::Accept { frames } => InputCheck::Reject { code: 1, dropped: frames },
                _ => timed,
            })
            &&& !format_changed && timed is Ignore ==> list.buffers@[0].bytes == 0
                && list.number_buffers == (if format.layout is Planar {
                format.layout.spec_channels() as int
            } else {
                1
            })
            &&& timed matches InputCheck::Reject { code, dropped } ==> code == 2 && (dropped == 0
                || (format.layout is Planar && 4 * dropped == list.buffers@[0].bytes))
        }),
{
    if let PcmLayout::Interleaved { channels } = format.layout {
        if channels > 0 && list.number_buffers == 1 {
            let samples = (list.buffers@[0].bytes / 4) as int;
            let n = channels as int;
            vstd::arithmetic::div_mod::lemma_fundamental_div_mod(samples, n);
            assert(n * (samples / n) == 0 || samples / n != 0) by (nonlinear_arith);
        }
    }
}

/// The frames of a callback are cut into blocks that follow one another without gaps. Each has the
/// time of the callback and knows how many frames lie before it, and all but the last are full.
pub proof fn law_blocks_follow_each_other<S>(mono: Seq<S>, frames: int, host_ticks: u64, b: int)
    requires
        0 <= frames <= mono.len(),
        frames <= RING_FRAMES,
        0 <= b < blocks_of(mono, frames, host_ticks).len(),
    ensures
        ({
            let blocks = blocks_of(mono, frames, host_ticks);
            let at = blocks[b].frame_offset as int;
            let n = blocks[b].samples.len() as int;
            &&& blocks[b].host_ticks == host_ticks
            &&& at == queued_samples(blocks.take(b)).len()
            &&& 0 < n <= 4096
            &&& at + n <= frames
            &&& blocks[b].samples == mono.subrange(at, at + n)
            &&& b + 1 < blocks.len() ==> n == 4096 && blocks[b + 1].frame_offset == at + n
            &&& b + 1 == blocks.len() ==> at + n == frames
            &&& blocks[0].frame_offset == 0
        }),
{
    let blocks = blocks_of(mono, frames, host_ticks);
    lemma_blocks_hold_all(mono, frames, host_ticks, b);
    let at = BLOCK_FRAMES * b;
    assert(at < frames);
    assert(blocks[b].samples =~= mono.subrange(at, timeline::smaller(at + BLOCK_FRAMES, frames)));
}

/// Frames are dropped for want of room only when the queue is full: after a callback that loses
/// some, no more blocks fit, and while there is room for a block none is lost.
pub proof fn law_frames_are_dropped_only_when_full<S>(
    state: Callback<S>,
    list: InputList,
    mono: Seq<S>,
    frames: usize,
)
    requires
        state.queue.len() <= 31,
        input_check(state.format, state.format_changed, list) == (InputCheck::Accept { frames }),
        mono.len() >= timeline::smaller(frames as int, RING_FRAMES as int),
    ensures
        ({
            let after = state.after_input(list, Some(mono));
            let taken = queued_samples(after.queue.skip(state.queue.len() as int)).len();
            &&& taken <= frames
            &&& taken < frames ==> after.queue.len() == 31
            &&& state.dropped + (frames - taken) <= u64::MAX ==> after.dropped == state.dropped + (
            frames - taken)
            &&& after.format == state.format
            &&& after.format_changed == state.format_changed
        }),
{
    law_every_frame_is_queued_or_counted(state, list, mono, frames);
}

/// An error is told unless one is told already, and costs the frames that it says. The queue and
/// the format stay as they are.
pub proof fn law_error_costs_its_frames<S>(state: Callback<S>, code: u32, frames: int)
    requires
        frames >= 0,
    ensures
        ({
            let after = state.after_error(code, frames);
            &&& state.error == 0 ==> after.error == code
            &&& state.error != 0 ==> after.error == state.error
            &&& state.dropped + frames <= u64::MAX ==> after.dropped == state.dropped + frames
            &&& after.queue == state.queue
            &&& after.format == state.format
            &&& after.format_changed == state.format_changed
        }),
{
}

/// A callback without data costs its frames. That there was no data is told if there was room for
/// any of them, and nothing is queued.
pub proof fn law_missing_data_is_told<S>(state: Callback<S>, list: InputList, frames: usize)
    requires
        state.queue.len() <= 31,
        input_check(state.format, state.format_changed, list) == (InputCheck::Accept { frames }),
        frames > 0,
    ensures
        ({
            let after = state.after_input(list, None);
            &&& after.queue == state.queue
            &&& state.dropped + frames <= u64::MAX ==> after.dropped == state.dropped + frames
            &&& state.error == 0 && state.queue.len() < 31 ==> after.error == 3
            &&& state.queue.len() == 31 ==> after.error == state.error
        }),
{
}

/// What is queued of a callback are its first frames, mixed one by one in their order: each from
/// the samples of all channels at its place.
pub proof fn law_queued_frames_are_mixed_in_order<T, S, F: Fn(&[T]) -> S>(
    before: Callback<S>,
    list: InputList,
    source: Source<T>,
    mix: F,
    after: Callback<S>,
    frames: usize,
    k: int,
)
    requires
        before.queue.len() <= BLOCK_CAPACITY,
        takes_in(before, list, source, mix, after),
        input_check(before.format, before.format_changed, list) == (InputCheck::Accept { frames }),
        source.is_present(before.format.layout.spec_channels() as int),
        source.holds(before.format.layout, frames as int),
        0 <= k < queued_samples(after.queue.skip(before.queue.len() as int)).len(),
    ensures
        after.queue.take(before.queue.len() as int) == before.queue,
        exists|f: &[T]|
            {
                let channels = before.format.layout.spec_channels() as int;
                &&& call_ensures(
                    mix,
                    (f,),
                    queued_samples(after.queue.skip(before.queue.len() as int))[k],
                )
                &&& #[trigger] f@.len() == channels
                &&& forall|c: int|
                    0 <= c < channels ==> #[trigger] f@[c] == (match source {
                        Source::Interleaved(data) => data->0@[channels * k + c],
                        Source::Planar(planes) => planes@[c]->0@[k],
                    })
            },
{
    let channels = before.format.layout.spec_channels() as int;
    let most = timeline::smaller(frames as int, RING_FRAMES as int);
    let mono = choose|mono: Seq<S>|
        {
            &&& #[trigger] is_mono_of(source, channels, most, mix, mono)
            &&& after == before.after_input(list, Some(mono))
        };
    law_every_frame_is_queued_or_counted(before, list, mono, frames);
    let q = queued_samples(after.queue.skip(before.queue.len() as int));
    assert(q[k] == mono[k]);
    assert(pcm::mixes(mix, source.frame(channels, k), mono[k]));
    let f = choose|f: &[T]| #[trigger]
        f@ == source.frame(channels, k) && call_ensures(mix, (f,), mono[k]);
    if let Source::Interleaved(data) = source {
        assert((k + 1) * channels <= frames * channels) by (nonlinear_arith)
            requires
                k + 1 <= frames,
                channels >= 0,
        ;
        assert forall|c: int| 0 <= c < channels implies #[trigger] f@[c] == data->0@[channels * k
            + c] by {
            pcm::law_interleaved_frames_follow_each_other(data->0@, channels, k, c);
        }
        if channels > 0 {
            pcm::law_interleaved_frames_follow_each_other(data->0@, channels, k, 0);
        } else {
            assert(k * channels == 0) by (nonlinear_arith)
                requires
                    channels == 0,
            ;
        }
    }
    assert(f@.len() == channels);
}

/// Everything that a capture holds is released, once, and nothing else: the callback is stopped
/// and detached if there is one, the listener is removed if there is one, and the device and the
/// tap are destroyed if they exist.
pub proof fn law_everything_held_is_released(
    aggregate_id: u32,
    io_proc: bool,
    tap_id: u32,
    listener: bool,
    op: Teardown,
)
    ensures
        ({
            let plan = teardown_plan(aggregate_id, io_proc, tap_id, listener);
            &&& plan.contains(op) <==> match op {
                Teardown::StopDevice { aggregate_id: id } => id == aggregate_id && id != 0
                    && io_proc,
                Teardown::DestroyIoProc { aggregate_id: id } => id == aggregate_id && id != 0
                    && io_proc,
                Teardown::RemoveFormatListener { tap_id: id } => id == tap_id && id != 0
                    && listener,
                Teardown::DestroyAggregate { aggregate_id: id } => id == aggregate_id && id != 0,
                Teardown::DestroyTap { tap_id: id } => id == tap_id && id != 0,
            }
            &&& plan.no_duplicates()
            &&& forall|i: int|
                0 <= i < plan.len() && (#[trigger] plan[i]) is DestroyIoProc ==> i > 0
                    && plan[i - 1] is StopDevice
        }),
{
    let plan = teardown_plan(aggregate_id, io_proc, tap_id, listener);
    let attached = aggregate_id != 0 && io_proc;
    let listens = tap_id != 0 && listener;
    let first = if attached {
        2int
    } else {
        0
    };
    let second = first + if listens {
        1int
    } else {
        0
    };
    if attached {
        assert(plan[0] == (Teardown::StopDevice { aggregate_id }));
        assert(plan[1] == (Teardown::DestroyIoProc { aggregate_id }));
    }
    if listens {
        assert(plan[first] == (Teardown::RemoveFormatListener { tap_id }));
    }
    if aggregate_id != 0 {
        assert(plan[second] == (Teardown::DestroyAggregate { aggregate_id }));
    }
    if tap_id != 0 {
        assert(plan[plan.len() - 1] == (Teardown::DestroyTap { tap_id }));
    }
}

/// A report is there exactly if an operation failed, and tells every operation that did.
pub proof fn law_report_tells_every_failure(ops: Seq<Teardown>, codes: Seq<i32>, n: int)
    requires
        0 <= n <= ops.len(),
        ops.len() == codes.len(),
    ensures
        teardown_report(ops, codes, n) is None <==> forall|i: int|
            0 <= i < n ==> #[trigger] codes[i] == 0,
        forall|i: int|
            0 <= i < n && #[trigger] codes[i] != 0 ==> text::is_substring(
                osstatus::status_text(codes[i], ops[i].spec_operation()),
                teardown_report(ops, codes, n)->0,
            ),
    decreases n,
{
    if n > 0 {
        law_report_tells_every_failure(ops, codes, n - 1);
        let before = teardown_report(ops, codes, n - 1);
        let code = codes[n - 1];
        let operation = ops[n - 1].spec_operation();
        let after = teardown_report(ops, codes, n);
        osstatus::law_report_keeps_every_failure(before, code, operation);
        assert forall|i: int| 0 <= i < n && #[trigger] codes[i] != 0 implies text::is_substring(
            osstatus::status_text(codes[i], ops[i].spec_operation()),
            after->0,
        ) by {
            let needle = osstatus::status_text(codes[i], ops[i].spec_operation());
            if i == n - 1 {
                let at = after->0.len() - needle.len();
                assert(after->0.subrange(at, at + needle.len()) =~= needle);
                assert(text::occurs_at(needle, after->0, at));
            } else {
                assert(before is Some);
                let at = choose|at: int| #[trigger] text::occurs_at(needle, before->0, at);
                if code != 0 {
                    let head = before->0 + "; "@;
                    assert(head.is_prefix_of(after->0));
                    assert forall|j: int| 0 <= j < before->0.len() implies before->0[j]
                        == after->0[j] by {
                        assert(head[j] == after->0.subrange(0, head.len() as int)[j]);
                    }
                }
                assert(after->0.len() >= before->0.len());
                assert(after->0.subrange(at, at + needle.len()) =~= before->0.subrange(
                    at,
                    at + needle.len(),
                ));
                assert(text::occurs_at(needle, after->0, at));
            }
        }
    }
}

/// Every operation of a release and every error of the callback has a name of its own.
pub proof fn law_operations_and_errors_are_named(id: u32, code: u32)
    ensures
        (Teardown::StopDevice { aggregate_id: id }).spec_operation() == "AudioDeviceStop"@,
        (Teardown::DestroyIoProc { aggregate_id: id }).spec_operation()
            == "AudioDeviceDestroyIOProcID"@,
        (Teardown::RemoveFormatListener { tap_id: id }).spec_operation()
            == "AudioObjectRemovePropertyListener(kAudioTapPropertyFormat)"@,
        (Teardown::DestroyAggregate { aggregate_id: id }).spec_operation()
            == "AudioHardwareDestroyAggregateDevice"@,
        (Teardown::DestroyTap { tap_id: id }).spec_operation()
            == "AudioHardwareDestroyProcessTap"@,
        error_text(code) is None <==> code == 0,
        error_text(1) == Some("CoreAudio input timestamp did not contain valid host time"@),
        error_text(2) == Some("CoreAudio buffer list did not match the tap ASBD"@),
        error_text(3) == Some("CoreAudio supplied a null input buffer"@),
        error_text(4) == Some(
            "System audio format changed during recording; start a new recording"@,
        ),
        code > 4 ==> error_text(code) == Some("unknown CoreAudio callback error"@),
{
}

/// What the user is told ends with the error itself. It speaks of the permission exactly if the
/// error holds the code of a missing permission.
pub proof fn law_missing_permission_is_named(message: Seq<char>)
    ensures
        message.is_suffix_of(open_error_text(message)),
        text::is_substring("'nope'"@, message) ==> open_error_text(message).take(47)
            == "System Audio Recording permission is required: "@ && open_error_text(message).len()
            == 47 + message.len(),
        !text::is_substring("'nope'"@, message) ==> open_error_text(message).take(38)
            == "could not start system audio capture: "@ && open_error_text(message).len() == 38
            + message.len(),
{
    reveal_strlit("System Audio Recording permission is required: ");
    reveal_strlit("could not start system audio capture: ");
    let t = open_error_text(message);
    assert(message =~= t.subrange(t.len() - message.len(), t.len() as int));
    if text::is_substring("'nope'"@, message) {
        assert(t.take(47) =~= "System Audio Recording permission is required: "@);
    } else {
        assert(t.take(38) =~= "could not start system audio capture: "@);
    }
}

/// After the property of the format changed, every callback is ignored and the change is the error
/// that is told next. A change of anything else changes nothing.
pub proof fn law_format_change_is_told_next<S: Copy>(
    state: &mut CallbackState<S>,
    selectors: &[u32],
    later: &mut CallbackState<S>,
    told: u32,
    list: InputList,
)
    requires
        old(state).wf(),
        call_ensures(CallbackState::<S>::tap_format_changed, (state, selectors), ()),
        *old(later) == *final(state),
        call_ensures(CallbackState::<S>::take_error, (later,), told),
    ensures
        selectors@.contains(0x7466_6d74u32) ==> told == 4 && input_check(
            final(later).view().format,
            final(later).view().format_changed,
            list,
        ) is Ignore,
        !selectors@.contains(0x7466_6d74u32) ==> told == old(state).view().error
            && final(state).view() == old(state).view(),
        final(later).view().error == 0,
        final(later).view().queue == old(state).view().queue,
{
}

/// A capture is stopped once: what it holds is released by the first stop, and nothing by a second
/// one.
pub proof fn law_second_stop_releases_nothing<S: Copy>(
    capture: &mut SystemCapture<S>,
    first: Vec<Teardown>,
    later: &mut SystemCapture<S>,
    second: Vec<Teardown>,
)
    requires
        old(capture).wf(),
        call_ensures(SystemCapture::<S>::stop, (capture,), first),
        *old(later) == *final(capture),
        call_ensures(SystemCapture::<S>::stop, (later,), second),
    ensures
        second@.len() == 0,
        !old(capture).view().stopped && old(capture).view().tap_id != 0 ==> first@.contains(
            Teardown::DestroyTap { tap_id: old(capture).view().tap_id },
        ),
        !old(capture).view().stopped && old(capture).view().aggregate_id != 0 ==> first@.contains(
            Teardown::DestroyAggregate { aggregate_id: old(capture).view().aggregate_id },
        ),
        final(capture).view().callback == old(capture).view().callback,
        final(capture).view().stopped,
{
    let before = old(capture).view();
    law_everything_held_is_released(
        before.aggregate_id,
        before.io_proc,
        before.tap_id,
        before.listener,
        Teardown::DestroyTap { tap_id: before.tap_id },
    );
    law_everything_held_is_released(
        before.aggregate_id,
        before.io_proc,
        before.tap_id,
        before.listener,
        Teardown::DestroyAggregate { aggregate_id: before.aggregate_id },
    );
}

/// A capture that was opened step by step holds everything that was created, and a stop releases
/// all of it: the callback is stopped and detached, the listener removed, and the device and the
/// tap destroyed.
pub proof fn law_opened_capture_is_released_whole<S: Copy>(
    tap: &mut SystemCapture<S>,
    tap_id: u32,
    tap_created: Result<(), String>,
    format: &mut SystemCapture<S>,
    description: &StreamDescription,
    silence: S,
    format_told: Result<(), String>,
    device: &mut SystemCapture<S>,
    aggregate_id: u32,
    device_created: Result<(), String>,
    io_proc: &mut SystemCapture<S>,
    io_proc_created: Result<(), String>,
    listener: &mut SystemCapture<S>,
    listener_added: Result<(), String>,
    stopping: &mut SystemCapture<S>,
    released: Vec<Teardown>,
)
    requires
        old(tap).wf(),
        old(tap).view() == Capture::<S>::nothing(),
        tap_id != 0,
        aggregate_id != 0,
        call_ensures(SystemCapture::<S>::on_tap_created, (tap, 0i32, tap_id), tap_created),
        *old(format) == *final(tap),
        call_ensures(SystemCapture::<S>::on_format, (format, description, silence), format_told),
        format_told is Ok,
        *old(device) == *final(format),
        call_ensures(
            SystemCapture::<S>::on_aggregate_created,
            (device, 0i32, aggregate_id),
            device_created,
        ),
        *old(io_proc) == *final(device),
        call_ensures(
            SystemCapture::<S>::on_io_proc_created,
            (io_proc, 0i32, true),
            io_proc_created,
        ),
        *old(listener) == *final(io_proc),
        call_ensures(SystemCapture::<S>::on_listener_added, (listener, 0i32), listener_added),
        *old(stopping) == *final(listener),
        call_ensures(SystemCapture::<S>::stop, (stopping,), released),
    ensures
        tap_created is Ok,
        device_created is Ok,
        io_proc_created is Ok,
        listener_added is Ok,
        Some(final(listener).view().sample_rate) == pcm::whole_rate(description.sample_rate_bits),
        final(listener).view().callback is Some,
        final(listener).view().callback->0.queue.len() == 0,
        final(listener).view().callback->0.error == 0,
        released@ == seq![
            Teardown::StopDevice { aggregate_id },
            Teardown::DestroyIoProc { aggregate_id },
            Teardown::RemoveFormatListener { tap_id },
            Teardown::DestroyAggregate { aggregate_id },
            Teardown::DestroyTap { tap_id },
        ],
        final(stopping).view().stopped,
        final(stopping).view().tap_id == 0,
        final(stopping).view().aggregate_id == 0,
{
    pcm::law_accepted_streams_are_packed_floats(*description);
    assert(released@ =~= seq![
        Teardown::StopDevice { aggregate_id },
        Teardown::DestroyIoProc { aggregate_id },
        Teardown::RemoveFormatListener { tap_id },
        Teardown::DestroyAggregate { aggregate_id },
        Teardown::DestroyTap { tap_id },
    ]);
}

/// A counter starts again at zero once it has reached the end, and counts on as if nothing had
/// happened.
pub proof fn law_counter_wraps_around(n: int)
    ensures
        0 <= n <= u64::MAX ==> wrapped(n) == n,
        wrapped(n + u64::MAX + 1) == wrapped(n),
        wrapped(wrapped(n) + 1) == wrapped(n + 1),
        wrapped(u64::MAX + 1) == 0,
{
}

/// Dropped frames and errors are told once: what was told is not told again.
pub proof fn law_losses_are_told_once<S: Copy>(
    capture: &mut SystemCapture<S>,
    dropped: u64,
    later: &mut SystemCapture<S>,
    dropped_later: u64,
    failing: &mut SystemCapture<S>,
    error: Option<String>,
    last: &mut SystemCapture<S>,
    error_later: Option<String>,
)
    requires
        old(capture).wf(),
        call_ensures(SystemCapture::<S>::take_dropped, (capture,), dropped),
        *old(later) == *final(capture),
        call_ensures(SystemCapture::<S>::take_dropped, (later,), dropped_later),
        *old(failing) == *final(later),
        call_ensures(SystemCapture::<S>::take_error, (failing,), error),
        *old(last) == *final(failing),
        call_ensures(SystemCapture::<S>::take_error, (last,), error_later),
    ensures
        dropped_later == 0,
        error_later is None,
        old(capture).view().callback matches Some(c) ==> dropped == c.dropped && (error is Some
            <==> c.error != 0),
        old(capture).view().callback is None ==> dropped == 0 && error is None,
        old(capture).view().callback matches Some(c) ==> final(last).view().callback is Some
            && final(last).view().callback->0.queue == c.queue,
{
}

/// A format that a capture was opened with is confirmed if it is told again, and another one is
/// not.
pub proof fn law_same_format_is_confirmed<S: Copy>(
    capture: &mut SystemCapture<S>,
    first: &StreamDescription,
    silence: S,
    told: Result<(), String>,
    later: &SystemCapture<S>,
    second: &StreamDescription,
    confirmed: Result<(), String>,
)
    requires
        old(capture).wf(),
        call_ensures(SystemCapture::<S>::on_format, (capture, first, silence), told),
        told is Ok,
        *later == *final(capture),
        call_ensures(SystemCapture::<S>::on_format_confirmed, (later, second), confirmed),
    ensures
        *second == *first ==> confirmed is Ok,
        confirmed is Ok ==> pcm::whole_rate(second.sample_rate_bits) == pcm::whole_rate(
            first.sample_rate_bits,
        ) && second.channels_per_frame == first.channels_per_frame && (second.format_flags & 32
            != 0 <==> first.format_flags & 32 != 0),
{
    pcm::law_accepted_streams_are_packed_floats(*first);
    pcm::law_accepted_streams_are_packed_floats(*second);
}

} // verus!
