//! Placement of captured chunks on the shared recording timeline.
//!
//! Both tracks are timed on one host clock in nanoseconds. A chunk belongs at the
//! sample position that its capture time gives; what is missing before it is filled
//! with silence, and what overlaps audio already written is dropped.

use vstd::prelude::*;

verus! {

pub const NANOS_PER_SEC: u64 = 1_000_000_000;

/// The smallest integer that is not below `a / b`.
pub open spec fn ceil_div(a: int, b: int) -> int {
    (a + b - 1) / b
}

/// `n`, but at most the largest 64-bit number.
pub open spec fn at_most_u64(n: int) -> int {
    if n > u64::MAX {
        u64::MAX as int
    } else {
        n
    }
}

pub open spec fn larger(a: int, b: int) -> int {
    if a >= b {
        a
    } else {
        b
    }
}

pub open spec fn smaller(a: int, b: int) -> int {
    if a <= b {
        a
    } else {
        b
    }
}

/// How many sample periods at `rate` it takes to cover `nanos` nanoseconds.
pub open spec fn samples_in(rate: u32, nanos: int) -> int {
    at_most_u64(ceil_div(nanos * rate, NANOS_PER_SEC as int))
}

/// How many nanoseconds it takes to play `samples` samples at `rate`.
pub open spec fn nanos_of(samples: int, rate: u32) -> int {
    ceil_div(samples * NANOS_PER_SEC, rate as int)
}

/// `a / b`, rounded up.
fn div_up(a: u128, b: u128) -> (r: u128)
    requires
        0 < b,
        a + b <= u128::MAX,
    ensures
        r == ceil_div(a as int, b as int),
{
    (a + b - 1) / b
}

/// The number of samples at `rate` that cover `nanos` nanoseconds.
pub fn samples_for_nanos(rate: u32, nanos: u64) -> (r: u64)
    ensures
        r == samples_in(rate, nanos as int),
        r < u64::MAX ==> nanos * rate <= r * 1_000_000_000 < nanos * rate + 1_000_000_000,
        r == u64::MAX ==> nanos * rate > (u64::MAX - 1) * 1_000_000_000,
{
    proof {
        law_samples_cover_the_time(rate, nanos);
    }
    assert(nanos * rate <= u64::MAX * u32::MAX) by (nonlinear_arith)
        requires
            0 <= nanos <= u64::MAX,
            0 <= rate <= u32::MAX,
    ;
    let numerator: u128 = nanos as u128 * rate as u128;
    let samples = div_up(numerator, NANOS_PER_SEC as u128);
    if samples > u64::MAX as u128 {
        u64::MAX
    } else {
        samples as u64
    }
}

/// The number of samples at `rate` that cover a duration given in nanoseconds.
pub fn samples_for_duration(rate: u32, nanos: u128) -> (r: u64)
    ensures
        r == samples_in(rate, at_most_u64(nanos as int)),
{
    let capped: u64 = if nanos > u64::MAX as u128 {
        u64::MAX
    } else {
        nanos as u64
    };
    samples_for_nanos(rate, capped)
}

/// The time it takes to play `samples` samples at `rate`, in nanoseconds.
fn playing_nanos(samples: u64, rate: u32) -> (r: u128)
    requires
        rate > 0,
    ensures
        r == nanos_of(samples as int, rate),
{
    div_up(samples as u128 * 1_000_000_000u128, rate as u128)
}

/// The sample position at which a chunk captured at `captured` belongs on a timeline that
/// starts at `origin`. It is negative for a chunk captured before the start.
pub open spec fn chunk_start(rate: u32, origin: u64, captured: u64) -> int {
    if captured >= origin {
        samples_in(rate, captured - origin)
    } else {
        -samples_in(rate, origin - captured)
    }
}

/// How many samples of silence are missing before a chunk that belongs at `start`, when
/// `current` samples are there.
pub open spec fn gap_before(current: int, start: int) -> int {
    if start > current {
        start - current
    } else {
        0
    }
}

/// How many samples at the head of a chunk of `len` samples overlap what is there.
pub open spec fn overlap(current: int, start: int, len: int) -> int {
    if start > current {
        0
    } else {
        smaller(current - start, len)
    }
}

/// Where a chunk goes: the silence to insert first and the number of its samples to skip.
pub fn timeline_placement(
    current_samples: u64,
    rate: u32,
    origin_host_nanos: u64,
    captured_host_nanos: u64,
    chunk_len: usize,
) -> (r: (u64, usize))
    ensures
        r.0 == gap_before(
            current_samples as int,
            chunk_start(rate, origin_host_nanos, captured_host_nanos),
        ),
        r.1 == overlap(
            current_samples as int,
            chunk_start(rate, origin_host_nanos, captured_host_nanos),
            chunk_len as int,
        ),
        r.1 <= chunk_len,
        r.0 > 0 ==> r.1 == 0 && current_samples + r.0 == chunk_start(
            rate,
            origin_host_nanos,
            captured_host_nanos,
        ),
        r.1 < chunk_len ==> current_samples + r.0 - r.1 == chunk_start(
            rate,
            origin_host_nanos,
            captured_host_nanos,
        ),
        r.1 == chunk_len ==> chunk_start(rate, origin_host_nanos, captured_host_nanos) + chunk_len
            <= current_samples + r.0,
{
    let signed_start: i128 = if captured_host_nanos >= origin_host_nanos {
        samples_for_nanos(rate, captured_host_nanos - origin_host_nanos) as i128
    } else {
        -(samples_for_nanos(rate, origin_host_nanos - captured_host_nanos) as i128)
    };
    let current: i128 = current_samples as i128;
    if signed_start > current {
        ((signed_start - current) as u64, 0)
    } else {
        let behind: i128 = current - signed_start;
        let skip: usize = if behind < chunk_len as i128 {
            behind as usize
        } else {
            chunk_len
        };
        (0, skip)
    }
}

/// The common length of both tracks in nanoseconds: no less than the time elapsed and than
/// what either track holds.
pub open spec fn common_nanos(
    mic_samples: int,
    mic_rate: u32,
    system_samples: int,
    system_rate: u32,
    elapsed_nanos: int,
) -> int {
    larger(
        larger(elapsed_nanos, nanos_of(mic_samples, mic_rate)),
        nanos_of(system_samples, system_rate),
    )
}

/// The lengths, in samples, to which the microphone track and the system track are padded so
/// that both cover the same time.
pub fn aligned_target_samples(
    mic_samples: u64,
    mic_rate: u32,
    system_samples: u64,
    system_rate: u32,
    elapsed_nanos: u128,
) -> (r: (u64, u64))
    requires
        mic_rate > 0,
        system_rate > 0,
    ensures
        r.0 == samples_in(
            mic_rate,
            at_most_u64(
                common_nanos(
                    mic_samples as int,
                    mic_rate,
                    system_samples as int,
                    system_rate,
                    elapsed_nanos as int,
                ),
            ),
        ),
        r.1 == samples_in(
            system_rate,
            at_most_u64(
                common_nanos(
                    mic_samples as int,
                    mic_rate,
                    system_samples as int,
                    system_rate,
                    elapsed_nanos as int,
                ),
            ),
        ),
{
    let mic_ns = playing_nanos(mic_samples, mic_rate);
    let system_ns = playing_nanos(system_samples, system_rate);
    let mut target = elapsed_nanos;
    if mic_ns > target {
        target = mic_ns;
    }
    if system_ns > target {
        target = system_ns;
    }
    (samples_for_duration(mic_rate, target), samples_for_duration(system_rate, target))
}

/// A number of samples covers a time: it is the least that lasts as long, unless it is the largest
/// number there is.
pub proof fn law_samples_cover_the_time(rate: u32, nanos: u64)
    ensures
        0 <= samples_in(rate, nanos as int) <= u64::MAX,
        samples_in(rate, nanos as int) < u64::MAX ==> nanos * rate <= samples_in(rate, nanos as int)
            * 1_000_000_000 < nanos * rate + 1_000_000_000,
        samples_in(rate, nanos as int) == u64::MAX ==> nanos * rate > (u64::MAX - 1)
            * 1_000_000_000,
{
    assert(nanos * rate >= 0) by (nonlinear_arith)
        requires
            0 <= nanos,
            0 <= rate,
    ;
    lemma_ceil_div(nanos * rate, NANOS_PER_SEC as int);
}

/// The position of a chunk is its capture time in sample periods after the start of the timeline,
/// rounded up, and that of a chunk from before the start lies as far before it. A position that
/// is the largest number there is says nothing.
pub proof fn law_position_is_the_capture_time(rate: u32, origin: u64, captured: u64)
    ensures
        ({
            let p = chunk_start(rate, origin, captured);
            let late = captured - origin;
            &&& late >= 0 && p < u64::MAX ==> 0 <= p && late * rate <= p * 1_000_000_000 < late
                * rate + 1_000_000_000
            &&& late < 0 && -p < u64::MAX ==> p <= 0 && -late * rate <= -p * 1_000_000_000 < -late
                * rate + 1_000_000_000
            &&& late >= 0 && p >= u64::MAX ==> late * rate > (u64::MAX - 1) * 1_000_000_000
        }),
{
    if captured >= origin {
        law_samples_cover_the_time(rate, (captured - origin) as u64);
    } else {
        law_samples_cover_the_time(rate, (origin - captured) as u64);
    }
}

/// A later chunk of a track never belongs before an earlier one, and one that is captured when
/// the timeline starts belongs at its head.
pub proof fn law_later_chunks_come_later(rate: u32, origin: u64, captured: u64, later: u64)
    requires
        captured <= later,
    ensures
        chunk_start(rate, origin, captured) <= chunk_start(rate, origin, later),
        chunk_start(rate, origin, origin) == 0,
{
    let p = chunk_start(rate, origin, captured);
    let q = chunk_start(rate, origin, later);
    law_position_is_the_capture_time(rate, origin, origin);
    law_position_is_the_capture_time(rate, origin, captured);
    law_position_is_the_capture_time(rate, origin, later);
    let a = captured - origin;
    let b = later - origin;
    assert(a * rate <= b * rate) by (nonlinear_arith)
        requires
            a <= b,
            0 <= rate,
    ;
    assert(-b * rate <= -a * rate) by (nonlinear_arith)
        requires
            a <= b,
            0 <= rate,
    ;
    if a < 0 {
        law_samples_cover_the_time(rate, (origin - captured) as u64);
    }
    if b < 0 {
        law_samples_cover_the_time(rate, (origin - later) as u64);
    }
}

/// The common length is no longer than it has to be: it is the time elapsed, or a nanosecond less
/// would not hold one of the tracks. It is no shorter either.
pub proof fn law_common_length_is_the_least(
    mic_samples: u64,
    mic_rate: u32,
    system_samples: u64,
    system_rate: u32,
    elapsed_nanos: u128,
)
    requires
        mic_rate > 0,
        system_rate > 0,
    ensures
        ({
            let t = common_nanos(
                mic_samples as int,
                mic_rate,
                system_samples as int,
                system_rate,
                elapsed_nanos as int,
            );
            &&& t >= elapsed_nanos
            &&& t * mic_rate >= mic_samples * 1_000_000_000
            &&& t * system_rate >= system_samples * 1_000_000_000
            &&& t == elapsed_nanos || (t - 1) * mic_rate < mic_samples * 1_000_000_000 || (t - 1)
                * system_rate < system_samples * 1_000_000_000
        }),
{
    let t = common_nanos(
        mic_samples as int,
        mic_rate,
        system_samples as int,
        system_rate,
        elapsed_nanos as int,
    );
    lemma_nanos_are_enough(mic_samples as int, mic_rate, t);
    lemma_nanos_are_enough(system_samples as int, system_rate, t);
}

proof fn lemma_nanos_are_enough(samples: int, rate: u32, t: int)
    requires
        rate > 0,
        samples >= 0,
        nanos_of(samples, rate) <= t,
    ensures
        t * rate >= samples * 1_000_000_000,
        nanos_of(samples, rate) == t ==> (t - 1) * rate < samples * 1_000_000_000,
{
    let n = nanos_of(samples, rate);
    lemma_ceil_div(samples * NANOS_PER_SEC, rate as int);
    assert(n * rate <= t * rate) by (nonlinear_arith)
        requires
            n <= t,
            rate > 0,
    ;
    assert((n - 1) * rate == n * rate - rate) by (nonlinear_arith);
}

/// Every sample of a chunk that is kept lands at the position that its capture time gives it,
/// whether silence was inserted before the chunk or its head was dropped. The track then
/// reaches to the end of the chunk, and never gets shorter.
pub proof fn law_samples_land_at_their_time(current: int, start: int, len: int, i: int)
    requires
        0 <= current,
        0 <= len,
    ensures
        overlap(current, start, len) <= i < len ==> current + gap_before(current, start) + (i
            - overlap(current, start, len)) == start + i,
        current + gap_before(current, start) + (len - overlap(current, start, len)) == larger(
            current,
            start + len,
        ),
        gap_before(current, start) > 0 ==> overlap(current, start, len) == 0,
{
}

proof fn lemma_ceil_div(a: int, b: int)
    requires
        a >= 0,
        b > 0,
    ensures
        ceil_div(a, b) >= 0,
        a <= ceil_div(a, b) * b < a + b,
{
    let q = (a + b - 1) / b;
    vstd::arithmetic::div_mod::lemma_fundamental_div_mod(a + b - 1, b);
    assert(q * b == b * q) by (nonlinear_arith);
    assert(0 <= (a + b - 1) % b < b) by (nonlinear_arith)
        requires
            b > 0,
    ;
    vstd::arithmetic::div_mod::lemma_div_pos_is_pos(a + b - 1, b);
}

/// Both tracks are padded to one common length in time, to within a sample period of each.
/// The common length is no less than the time elapsed, and neither track is cut short.
pub proof fn law_tracks_end_together(
    mic_samples: u64,
    mic_rate: u32,
    system_samples: u64,
    system_rate: u32,
    elapsed_nanos: u128,
)
    requires
        mic_rate > 0,
        system_rate > 0,
        ({
            let t = common_nanos(
                mic_samples as int,
                mic_rate,
                system_samples as int,
                system_rate,
                elapsed_nanos as int,
            );
            &&& t <= u64::MAX
            &&& ceil_div(t * mic_rate, NANOS_PER_SEC as int) <= u64::MAX
            &&& ceil_div(t * system_rate, NANOS_PER_SEC as int) <= u64::MAX
        }),
    ensures
        ({
            let t = common_nanos(
                mic_samples as int,
                mic_rate,
                system_samples as int,
                system_rate,
                elapsed_nanos as int,
            );
            let mic_target = samples_in(mic_rate, at_most_u64(t));
            let system_target = samples_in(system_rate, at_most_u64(t));
            &&& t >= elapsed_nanos
            &&& t * mic_rate <= mic_target * NANOS_PER_SEC < t * mic_rate + NANOS_PER_SEC
            &&& t * system_rate <= system_target * NANOS_PER_SEC < t * system_rate + NANOS_PER_SEC
            &&& mic_target >= mic_samples
            &&& system_target >= system_samples
            &&& mic_rate == system_rate ==> mic_target == system_target
        }),
{
    let t = common_nanos(
        mic_samples as int,
        mic_rate,
        system_samples as int,
        system_rate,
        elapsed_nanos as int,
    );
    lemma_target_covers(mic_samples as int, mic_rate, t);
    lemma_target_covers(system_samples as int, system_rate, t);
}

proof fn lemma_target_covers(samples: int, rate: u32, t: int)
    requires
        rate > 0,
        samples >= 0,
        nanos_of(samples, rate) <= t,
    ensures
        t * rate <= ceil_div(t * rate, NANOS_PER_SEC as int) * NANOS_PER_SEC < t * rate
            + NANOS_PER_SEC,
        ceil_div(t * rate, NANOS_PER_SEC as int) >= samples,
{
    let k = NANOS_PER_SEC as int;
    lemma_ceil_div(samples * k, rate as int);
    let n = nanos_of(samples, rate);
    assert(n * rate <= t * rate) by (nonlinear_arith)
        requires
            n <= t,
            rate > 0,
    ;
    assert(t * rate >= 0) by (nonlinear_arith)
        requires
            0 <= n <= t,
            rate > 0,
    ;
    lemma_ceil_div(t * rate, k);
    let c = ceil_div(t * rate, k);
    assert(samples * k <= c * k);
    assert(samples <= c) by (nonlinear_arith)
        requires
            samples * k <= c * k,
            k > 0,
    ;
}

/// The targets of both tracks last equally long, to within a sample period of each, unless one of
/// them is the largest number there is: for as long as the time elapsed and both tracks need.
pub proof fn law_targets_last_equally_long(
    mic_samples: u64,
    mic_rate: u32,
    system_samples: u64,
    system_rate: u32,
    elapsed_nanos: u128,
    targets: (u64, u64),
)
    requires
        mic_rate > 0,
        system_rate > 0,
        call_ensures(
            aligned_target_samples,
            (mic_samples, mic_rate, system_samples, system_rate, elapsed_nanos),
            targets,
        ),
        targets.0 < u64::MAX,
        targets.1 < u64::MAX,
    ensures
        targets.0 >= mic_samples || mic_samples * 1_000_000_000 > u64::MAX * mic_rate,
        targets.1 >= system_samples || system_samples * 1_000_000_000 > u64::MAX * system_rate,
        exists|t: u64|
            {
                &&& #[trigger] samples_in(mic_rate, t as int) == targets.0
                &&& t * mic_rate <= targets.0 * 1_000_000_000 < t * mic_rate + 1_000_000_000
                &&& t * system_rate <= targets.1 * 1_000_000_000 < t * system_rate + 1_000_000_000
                &&& t >= elapsed_nanos || t == u64::MAX
            },
        mic_rate == system_rate ==> targets.0 == targets.1,
{
    let common = common_nanos(
        mic_samples as int,
        mic_rate,
        system_samples as int,
        system_rate,
        elapsed_nanos as int,
    );
    law_common_length_is_the_least(
        mic_samples,
        mic_rate,
        system_samples,
        system_rate,
        elapsed_nanos,
    );
    let t = at_most_u64(common) as u64;
    law_samples_cover_the_time(mic_rate, t);
    law_samples_cover_the_time(system_rate, t);
    assert(samples_in(mic_rate, t as int) == targets.0);
    lemma_target_reaches(mic_samples as int, mic_rate as int, common, t as int, targets.0 as int);
    lemma_target_reaches(
        system_samples as int,
        system_rate as int,
        common,
        t as int,
        targets.1 as int,
    );
}

proof fn lemma_target_reaches(samples: int, rate: int, common: int, t: int, target: int)
    requires
        rate > 0,
        common * rate >= samples * 1_000_000_000,
        t == at_most_u64(common),
        t * rate <= target * 1_000_000_000,
    ensures
        target >= samples || samples * 1_000_000_000 > u64::MAX * rate,
{
}

} // verus!
