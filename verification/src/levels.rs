//! Audio levels.
//!
//! A level is a 32-bit floating-point amplitude, held as its bit pattern. Patterns without a
//! sign are ordered as the amplitudes they stand for.

use vstd::prelude::*;
use std::collections::VecDeque;

verus! {

/// The pattern of the amplitude 0.01: a microphone that reaches it is not silent.
pub const LEVEL_OK_THRESHOLD: u32 = 0x3c23_d70a;

/// The pattern of infinity. Larger patterns without a sign are no numbers.
pub const INFINITE: u32 = 0x7f80_0000;

/// The pattern of a negative zero.
pub const SIGN: u32 = 0x8000_0000;

/// How many levels are kept.
pub const KEPT_LEVELS: usize = 4;

/// The pattern of the absolute value.
pub open spec fn magnitude(bits: u32) -> u32 {
    bits % SIGN
}

/// Whether a pattern is that of a number, finite or not.
pub open spec fn is_number(bits: u32) -> bool {
    magnitude(bits) <= INFINITE
}

/// Whether a level reaches the threshold.
pub open spec fn is_audible(bits: u32) -> bool {
    LEVEL_OK_THRESHOLD <= bits <= INFINITE
}

/// The louder of a peak and a sample. What is no number is ignored.
pub open spec fn louder(peak: u32, sample: u32) -> u32 {
    if is_number(sample) && magnitude(sample) > peak {
        magnitude(sample)
    } else {
        peak
    }
}

/// The peak after a run of samples.
pub open spec fn loudest(peak: u32, samples: Seq<u32>) -> u32
    decreases samples.len(),
{
    if samples.len() == 0 {
        peak
    } else {
        louder(loudest(peak, samples.drop_last()), samples.last())
    }
}

/// Whether a level reaches the threshold.
pub fn audible(bits: u32) -> (r: bool)
    ensures
        r == is_audible(bits),
{
    LEVEL_OK_THRESHOLD <= bits && bits <= INFINITE
}

/// The peak after a run of samples.
pub fn peak_of(peak: u32, samples: &[u32]) -> (r: u32)
    ensures
        r == loudest(peak, samples@),
        peak <= r,
        forall|i: int|
            0 <= i < samples@.len() && (#[trigger] samples@[i]) % 0x8000_0000 <= 0x7f80_0000
                ==> samples@[i] % 0x8000_0000 <= r,
        r == peak || exists|i: int|
            0 <= i < samples@.len() && r == (#[trigger] samples@[i]) % 0x8000_0000 && r
                <= 0x7f80_0000,
{
    proof {
        law_peak_is_the_loudest(peak, samples@);
    }
    let len: usize = samples.len();
    let mut r: u32 = peak;
    let mut i: usize = 0;
    assert(samples@.take(0) =~= Seq::empty());
    while i < len
        invariant
            len == samples@.len(),
            i <= len,
            r == loudest(peak, samples@.take(i as int)),
        decreases len - i,
    {
        let a: u32 = samples[i] % SIGN;
        assert(samples@.take(i + 1).drop_last() =~= samples@.take(i as int));
        assert(samples@.take(i + 1).last() == samples@[i as int]);
        if a <= INFINITE && a > r {
            r = a;
        }
        i += 1;
    }
    assert(samples@.take(len as int) =~= samples@);
    r
}

/// The newest levels after another one.
pub open spec fn newest(levels: Seq<u32>, value: u32) -> Seq<u32> {
    let all = levels.push(value);
    if all.len() > KEPT_LEVELS {
        all.skip(all.len() - KEPT_LEVELS)
    } else {
        all
    }
}

/// Adds a level and forgets the oldest ones.
pub fn push_level(levels: &mut VecDeque<u32>, value: u32)
    ensures
        final(levels)@ == newest(old(levels)@, value),
        final(levels)@.len() == (if old(levels)@.len() < 4 {
            old(levels)@.len() + 1
        } else {
            4
        }),
        final(levels)@.last() == value,
        final(levels)@.is_suffix_of(old(levels)@.push(value)),
{
    proof {
        law_newest_levels_are_kept(levels@, value);
    }
    levels.push_back(value);
    let ghost all = levels@;
    while levels.len() > KEPT_LEVELS
        invariant
            all == old(levels)@.push(value),
            levels@.len() <= all.len(),
            levels@ == all.skip(all.len() - levels@.len()),
            levels@.len() < KEPT_LEVELS ==> levels@.len() == all.len(),
        decreases levels@.len(),
    {
        let ghost before = levels@;
        let _ = levels.pop_front();
        assert(levels@ =~= before.skip(1));
        assert(levels@ =~= all.skip(all.len() - levels@.len()));
    }
    assert(levels@ =~= newest(old(levels)@, value));
}

/// Whether a microphone with these levels is not silent. Without any level, nothing is known
/// against it.
pub open spec fn is_level_ok(levels: Seq<u32>) -> bool {
    levels.len() == 0 || exists|i: int| 0 <= i < levels.len() && is_audible(#[trigger] levels[i])
}

/// Whether a microphone with these levels is not silent.
pub fn level_ok(levels: &VecDeque<u32>) -> (r: bool)
    ensures
        r == is_level_ok(levels@),
        r <==> levels@.len() == 0 || exists|i: int|
            0 <= i < levels@.len() && LEVEL_OK_THRESHOLD <= #[trigger] levels@[i] <= INFINITE,
{
    let len: usize = levels.len();
    if len == 0 {
        return true;
    }
    let mut i: usize = 0;
    while i < len
        invariant
            len == levels@.len(),
            i <= len,
            forall|k: int| 0 <= k < i ==> !is_audible(#[trigger] levels@[k]),
        decreases len - i,
    {
        if audible(levels[i]) {
            return true;
        }
        i += 1;
    }
    false
}

/// The newest level, or that of silence.
pub open spec fn last_level(levels: Seq<u32>) -> u32 {
    if levels.len() == 0 {
        0
    } else {
        levels.last()
    }
}

/// The newest level, or that of silence.
pub fn newest_level(levels: &VecDeque<u32>) -> (r: u32)
    ensures
        r == last_level(levels@),
        levels@.len() == 0 ==> r == 0,
        levels@.len() > 0 ==> r == levels@[levels@.len() - 1],
{
    let len: usize = levels.len();
    if len == 0 {
        0
    } else {
        levels[len - 1]
    }
}

/// A peak is at least as loud as what it was before and as every sample that is a number, and
/// it is one of these.
pub proof fn law_peak_is_the_loudest(peak: u32, samples: Seq<u32>)
    ensures
        peak <= loudest(peak, samples),
        forall|i: int|
            0 <= i < samples.len() && is_number(#[trigger] samples[i]) ==> magnitude(samples[i])
                <= loudest(peak, samples),
        loudest(peak, samples) == peak || exists|i: int|
            0 <= i < samples.len() && is_number(samples[i]) && loudest(peak, samples) == magnitude(
                #[trigger] samples[i],
            ),
    decreases samples.len(),
{
    if samples.len() > 0 {
        let init = samples.drop_last();
        law_peak_is_the_loudest(peak, init);
        assert forall|i: int|
            0 <= i < samples.len() && is_number(#[trigger] samples[i]) implies magnitude(samples[i])
            <= loudest(peak, samples) by {
            if i < init.len() {
                assert(init[i] == samples[i]);
            }
        }
        let now = loudest(peak, samples);
        if now != peak {
            if now == loudest(peak, init) {
                let i = choose|i: int|
                    0 <= i < init.len() && is_number(init[i]) && now == magnitude(
                        #[trigger] init[i],
                    );
                assert(samples[i] == init[i]);
            } else {
                assert(now == magnitude(samples[samples.len() - 1]));
            }
        }
    }
}

/// A microphone is not silent if any of its levels reaches the threshold, wherever it stands, and
/// in particular the newest one. It is silent if it has levels and none of them does.
pub proof fn law_one_audible_level_is_enough(levels: Seq<u32>, i: int)
    ensures
        levels.len() == 0 ==> is_level_ok(levels),
        0 <= i < levels.len() && LEVEL_OK_THRESHOLD <= levels[i] <= INFINITE ==> is_level_ok(
            levels,
        ),
        levels.len() > 0 && (forall|k: int|
            0 <= k < levels.len() ==> !(LEVEL_OK_THRESHOLD <= #[trigger] levels[k] <= INFINITE))
            ==> !is_level_ok(levels),
{
}

/// The four newest levels are kept, the latest one behind the others and none of them changed.
pub proof fn law_newest_levels_are_kept(levels: Seq<u32>, value: u32)
    ensures
        newest(levels, value).len() == (if levels.len() < 4 {
            levels.len() + 1
        } else {
            4
        }),
        newest(levels, value).last() == value,
        newest(levels, value).is_suffix_of(levels.push(value)),
        last_level(newest(levels, value)) == value,
        LEVEL_OK_THRESHOLD <= value <= INFINITE ==> is_level_ok(newest(levels, value)),
{
    let kept = newest(levels, value);
    let all = levels.push(value);
    assert(kept =~= all.subrange(all.len() - kept.len(), all.len() as int));
    assert(kept[kept.len() - 1] == value);
}

/// What is said of some levels: the microphone is not silent if there are none or if any of them
/// reaches the threshold, wherever it stands, and it is silent otherwise.
pub proof fn law_silence_needs_every_level(levels: &VecDeque<u32>, ok: bool, i: int)
    requires
        call_ensures(level_ok, (levels,), ok),
    ensures
        0 <= i < levels@.len() && LEVEL_OK_THRESHOLD <= levels@[i] <= INFINITE ==> ok,
        levels@.len() == 0 ==> ok,
        levels@.len() > 0 && (forall|k: int|
            0 <= k < levels@.len() ==> !(LEVEL_OK_THRESHOLD <= #[trigger] levels@[k] <= INFINITE))
            ==> !ok,
{
}

/// The level that was added last is the newest one.
pub proof fn law_added_level_is_the_newest(
    levels: &mut VecDeque<u32>,
    value: u32,
    later: &VecDeque<u32>,
    told: u32,
)
    requires
        call_ensures(push_level, (levels, value), ()),
        *later == *final(levels),
        call_ensures(newest_level, (later,), told),
    ensures
        told == value,
{
}

} // verus!
