//! The bounded queue of audio blocks between the capture callback and its consumer.

use vstd::prelude::*;
use crate::pcm;

verus! {

/// The number of mono frames that a block can hold.
pub const BLOCK_FRAMES: usize = 4096;

/// The number of slots. One of them always stays free, so that a full queue can be told from an
/// empty one.
pub const BLOCK_SLOTS: usize = 32;

/// The number of blocks that can wait in the queue.
pub const BLOCK_CAPACITY: usize = 31;

/// A captured mono PCM block.
pub struct CapturedChunk<S> {
    pub samples: Vec<S>,
    pub sample_rate: u32,
    pub captured_host_nanos: u64,
}

/// What a queued block consists of: its samples, the host time of the callback that delivered
/// it, and its position in frames within that callback.
#[verifier::ext_equal]
pub struct Block<S> {
    pub samples: Seq<S>,
    pub host_ticks: u64,
    pub frame_offset: u64,
}

/// A slot of the queue.
pub struct AudioBlock<S> {
    samples: Vec<S>,
    len: usize,
    host_ticks: u64,
    callback_frame_offset: u64,
}

impl<S: Copy> AudioBlock<S> {
    closed spec fn wf(self) -> bool {
        &&& self.samples@.len() == BLOCK_FRAMES
        &&& self.len <= BLOCK_FRAMES
    }

    closed spec fn view(self) -> Block<S> {
        Block {
            samples: self.samples@.take(self.len as int),
            host_ticks: self.host_ticks,
            frame_offset: self.callback_frame_offset,
        }
    }

    /// A slot without samples. All memory is allocated here.
    fn empty(silence: S) -> (r: AudioBlock<S>)
        ensures
            r.wf(),
    {
        let mut samples: Vec<S> = Vec::new();
        let mut i: usize = 0;
        while i < BLOCK_FRAMES
            invariant
                i <= BLOCK_FRAMES,
                samples@.len() == i,
            decreases BLOCK_FRAMES - i,
        {
            samples.push(silence);
            i += 1;
        }
        AudioBlock { samples, len: 0, host_ticks: 0, callback_frame_offset: 0 }
    }
}

/// A first-in first-out queue of at most 31 blocks in preallocated slots.
pub struct BlockRing<S> {
    slots: Vec<AudioBlock<S>>,
    producer: usize,
    consumer: usize,
}

/// The slot that lies `i` places after `from` in the ring.
spec fn ring_slot(from: int, i: int) -> int {
    if from + i < BLOCK_SLOTS {
        from + i
    } else {
        from + i - BLOCK_SLOTS
    }
}

/// How many slots are in use between two ring positions.
spec fn ring_len(producer: int, consumer: int) -> int {
    if producer >= consumer {
        producer - consumer
    } else {
        producer + BLOCK_SLOTS - consumer
    }
}

/// Whether some blocks fit into a queue: not too many of them, and none with too many frames.
pub open spec fn is_bounded<S>(blocks: Seq<Block<S>>) -> bool {
    &&& blocks.len() <= BLOCK_CAPACITY
    &&& forall|i: int| 0 <= i < blocks.len() ==> (#[trigger] blocks[i]).samples.len() <= BLOCK_FRAMES
}

impl<S: Copy> BlockRing<S> {
    pub closed spec fn wf(self) -> bool {
        &&& self.slots@.len() == BLOCK_SLOTS
        &&& self.producer < BLOCK_SLOTS
        &&& self.consumer < BLOCK_SLOTS
        &&& forall|i: int| 0 <= i < BLOCK_SLOTS ==> (#[trigger] self.slots@[i]).wf()
    }

    /// The blocks that wait in the queue, the oldest first.
    pub closed spec fn view(self) -> Seq<Block<S>> {
        Seq::new(
            ring_len(self.producer as int, self.consumer as int) as nat,
            |i: int| self.slots@[ring_slot(self.consumer as int, i)].view(),
        )
    }

    /// What a caller may know of every queue: how many blocks it holds at most, and how many
    /// frames a block holds.
    pub proof fn lemma_wf(self)
        requires
            self.wf(),
        ensures
            is_bounded(self.view()),
    {
        assert forall|i: int| 0 <= i < self.view().len() implies (
        #[trigger] self.view()[i]).samples.len() <= BLOCK_FRAMES by {
            assert(self.slots@[ring_slot(self.consumer as int, i)].wf());
        }
    }

    /// An empty queue.
    pub fn new(silence: S) -> (r: BlockRing<S>)
        ensures
            r.wf(),
            r.view() == Seq::<Block<S>>::empty(),
    {
        let mut slots: Vec<AudioBlock<S>> = Vec::new();
        let mut i: usize = 0;
        while i < BLOCK_SLOTS
            invariant
                i <= BLOCK_SLOTS,
                slots@.len() == i,
                forall|k: int| 0 <= k < i ==> (#[trigger] slots@[k]).wf(),
            decreases BLOCK_SLOTS - i,
        {
            slots.push(AudioBlock::empty(silence));
            i += 1;
        }
        let r = BlockRing { slots, producer: 0, consumer: 0 };
        assert(r.view() =~= Seq::<Block<S>>::empty());
        r
    }

    /// The ring position behind the slot that the next block goes to, unless the queue is full.
    fn try_begin_push(&self) -> (r: Option<usize>)
        requires
            self.wf(),
        ensures
            match r {
                Some(next) => {
                    &&& self.view().len() < BLOCK_CAPACITY
                    &&& next == ring_slot(self.producer as int, 1)
                },
                None => self.view().len() == BLOCK_CAPACITY,
            },
    {
        let next: usize = (self.producer + 1) % BLOCK_SLOTS;
        if next == self.consumer {
            None
        } else {
            Some(next)
        }
    }

    /// Puts the block in the free slot into the queue.
    fn finish_push(&mut self, next: usize)
        requires
            old(self).wf(),
            old(self).view().len() < BLOCK_CAPACITY,
            next == ring_slot(old(self).producer as int, 1),
        ensures
            final(self).wf(),
            final(self).view() == old(self).view().push(
                old(self).slots@[old(self).producer as int].view(),
            ),
    {
        self.producer = next;
        assert(self.view() =~= old(self).view().push(
            old(self).slots@[old(self).producer as int].view(),
        ));
    }

    /// Copies a block into the free slot, without queueing it.
    fn fill(&mut self, samples: &[S], from: usize, len: usize, host_ticks: u64, frame_offset: u64)
        requires
            old(self).wf(),
            len <= BLOCK_FRAMES,
            from + len <= samples@.len(),
        ensures
            final(self).wf(),
            final(self).view() == old(self).view(),
            final(self).producer == old(self).producer,
            final(self).slots@[final(self).producer as int].view() == (Block {
                samples: samples@.subrange(from as int, from + len),
                host_ticks,
                frame_offset,
            }),
    {
        let p: usize = self.producer;
        let total: usize = samples.len();
        let mut i: usize = 0;
        while i < len
            invariant
                total == samples@.len(),
                i <= len <= BLOCK_FRAMES,
                from + len <= samples@.len(),
                p < BLOCK_SLOTS,
                p == self.producer,
                p == old(self).producer,
                self.consumer == old(self).consumer,
                self.slots@.len() == BLOCK_SLOTS,
                old(self).wf(),
                self.slots@[p as int].samples@.len() == BLOCK_FRAMES,
                forall|k: int|
                    0 <= k < BLOCK_SLOTS && k != p ==> #[trigger] self.slots@[k]
                        == old(self).slots@[k],
                forall|k: int|
                    0 <= k < i ==> #[trigger] self.slots@[p as int].samples@[k]
                        == samples@[from + k],
            decreases len - i,
        {
            self.slots[p].samples[i] = samples[from + i];
            i += 1;
        }
        self.slots[p].len = len;
        self.slots[p].host_ticks = host_ticks;
        self.slots[p].callback_frame_offset = frame_offset;
        assert(self.slots@[p as int].samples@.take(len as int) =~= samples@.subrange(
            from as int,
            from + len,
        ));
        assert forall|i: int| 0 <= i < BLOCK_SLOTS implies (#[trigger] self.slots@[i]).wf() by {
            if i != p {
                assert(old(self).slots@[i].wf());
            }
        }
        assert(self.view() =~= old(self).view());
    }

    /// Queues a block, unless the queue is full.
    pub fn push(
        &mut self,
        samples: &[S],
        from: usize,
        len: usize,
        host_ticks: u64,
        frame_offset: u64,
    ) -> (pushed: bool)
        requires
            old(self).wf(),
            len <= BLOCK_FRAMES,
            from + len <= samples@.len(),
        ensures
            final(self).wf(),
            pushed == (old(self).view().len() < BLOCK_CAPACITY),
            final(self).view() == (if pushed {
                old(self).view().push(
                    Block {
                        samples: samples@.subrange(from as int, from + len),
                        host_ticks,
                        frame_offset,
                    },
                )
            } else {
                old(self).view()
            }),
    {
        match self.try_begin_push() {
            None => false,
            Some(next) => {
                self.fill(samples, from, len, host_ticks, frame_offset);
                self.finish_push(next);
                true
            },
        }
    }

    /// Whether the queue has no room for another block.
    pub fn is_full(&self) -> (r: bool)
        requires
            self.wf(),
        ensures
            r == (self.view().len() == BLOCK_CAPACITY),
    {
        self.try_begin_push().is_none()
    }

    /// Takes the oldest block. `to_nanos` converts host time to nanoseconds.
    pub fn pop<F: Fn(u64) -> u64>(&mut self, sample_rate: u32, to_nanos: F) -> (r: Option<
        CapturedChunk<S>,
    >)
        requires
            old(self).wf(),
            forall|ticks: u64| call_requires(to_nanos, (ticks,)),
        ensures
            final(self).wf(),
            match r {
                None => old(self).view().len() == 0 && final(self).view() == old(self).view(),
                Some(chunk) => {
                    &&& old(self).view().len() > 0
                    &&& final(self).view() == old(self).view().drop_first()
                    &&& is_chunk_of(chunk, old(self).view()[0], sample_rate, to_nanos)
                },
            },
    {
        let c: usize = self.consumer;
        if c == self.producer {
            return None;
        }
        let len: usize = self.slots[c].len;
        let ghost front = self.view()[0];
        assert(front == self.slots@[c as int].view());
        let mut samples: Vec<S> = Vec::with_capacity(len);
        let mut i: usize = 0;
        while i < len
            invariant
                i <= len,
                c < BLOCK_SLOTS,
                self.wf(),
                len == self.slots@[c as int].len,
                samples@ == self.slots@[c as int].samples@.take(i as int),
            decreases len - i,
        {
            assert(self.slots@[c as int].wf());
            samples.push(self.slots[c].samples[i]);
            i += 1;
            assert(samples@ =~= self.slots@[c as int].samples@.take(i as int));
        }
        let base_nanos = to_nanos(self.slots[c].host_ticks);
        let captured_host_nanos = pcm::timestamp_for_frame(
            base_nanos,
            self.slots[c].callback_frame_offset,
            sample_rate,
        );
        self.consumer = (c + 1) % BLOCK_SLOTS;
        assert(self.view() =~= old(self).view().drop_first());
        let chunk = CapturedChunk { samples, sample_rate, captured_host_nanos };
        assert(call_ensures(to_nanos, (front.host_ticks,), base_nanos));
        assert(is_chunk_of(chunk, front, sample_rate, to_nanos));
        Some(chunk)
    }
}

/// Whether a chunk is what the consumer gets of a queued block: the same samples, timed by the
/// host time of the callback and the position of the block within it.
pub open spec fn is_chunk_of<S, F: Fn(u64) -> u64>(
    chunk: CapturedChunk<S>,
    block: Block<S>,
    sample_rate: u32,
    to_nanos: F,
) -> bool {
    &&& chunk.samples@ == block.samples
    &&& chunk.sample_rate == sample_rate
    &&& exists|base: u64| #[trigger]
        call_ensures(to_nanos, (block.host_ticks,), base) && chunk.captured_host_nanos
            == pcm::frame_time(base, block.frame_offset, sample_rate)
}

/// A chunk has the samples of its block, and its time is that of the callback plus as long as the
/// frames before the block last.
pub proof fn law_chunk_is_timed_within_its_callback<S, F: Fn(u64) -> u64>(
    chunk: CapturedChunk<S>,
    block: Block<S>,
    sample_rate: u32,
    to_nanos: F,
)
    requires
        is_chunk_of(chunk, block, sample_rate, to_nanos),
    ensures
        chunk.samples@ == block.samples,
        chunk.sample_rate == sample_rate,
        exists|base: u64|
            {
                let t = chunk.captured_host_nanos;
                &&& #[trigger] call_ensures(to_nanos, (block.host_ticks,), base)
                &&& t >= base
                &&& block.frame_offset == 0 ==> t == base
                &&& sample_rate > 0 && t < u64::MAX ==> (t - base) * sample_rate
                    <= block.frame_offset * 1_000_000_000 < (t - base + 1) * sample_rate
            },
{
    let base = choose|base: u64| #[trigger]
        call_ensures(to_nanos, (block.host_ticks,), base) && chunk.captured_host_nanos
            == pcm::frame_time(base, block.frame_offset, sample_rate);
    pcm::law_frames_are_timed_by_the_rate(base, block.frame_offset, sample_rate);
}

/// What is queued comes out again: a block that is put into an empty queue is queued, is taken out
/// with the samples it was made of, and leaves the queue empty.
pub proof fn law_queued_block_comes_out<S: Copy, F: Fn(u64) -> u64>(
    ring: &mut BlockRing<S>,
    samples: &[S],
    from: usize,
    len: usize,
    host_ticks: u64,
    frame_offset: u64,
    pushed: bool,
    later: &mut BlockRing<S>,
    sample_rate: u32,
    to_nanos: F,
    popped: Option<CapturedChunk<S>>,
)
    requires
        old(ring).wf(),
        old(ring).view().len() == 0,
        len <= BLOCK_FRAMES,
        from + len <= samples@.len(),
        call_ensures(
            BlockRing::<S>::push,
            (ring, samples, from, len, host_ticks, frame_offset),
            pushed,
        ),
        *old(later) == *final(ring),
        forall|ticks: u64| call_requires(to_nanos, (ticks,)),
        call_ensures(BlockRing::<S>::pop::<F>, (later, sample_rate, to_nanos), popped),
    ensures
        pushed,
        popped is Some,
        popped->0.samples@ == samples@.subrange(from as int, from + len),
        popped->0.sample_rate == sample_rate,
        final(later).view().len() == 0,
{
}

/// A queue with a block in it hands out the older block first, whatever is queued behind it, and
/// takes no more than thirty-one blocks.
pub proof fn law_older_block_comes_first<S: Copy>(
    ring: &mut BlockRing<S>,
    samples: &[S],
    from: usize,
    len: usize,
    host_ticks: u64,
    frame_offset: u64,
    pushed: bool,
)
    requires
        old(ring).wf(),
        len <= BLOCK_FRAMES,
        from + len <= samples@.len(),
        call_ensures(
            BlockRing::<S>::push,
            (ring, samples, from, len, host_ticks, frame_offset),
            pushed,
        ),
    ensures
        pushed <==> old(ring).view().len() < 31,
        old(ring).view().is_prefix_of(final(ring).view()),
        old(ring).view().len() > 0 ==> final(ring).view()[0] == old(ring).view()[0],
        pushed ==> final(ring).view().len() == old(ring).view().len() + 1
            && final(ring).view().last().samples == samples@.subrange(from as int, from + len)
            && final(ring).view().last().host_ticks == host_ticks
            && final(ring).view().last().frame_offset == frame_offset,
        !pushed ==> final(ring).view() == old(ring).view(),
{
    old(ring).lemma_wf();
}

} // verus!
