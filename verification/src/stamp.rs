//! Points in time, with the offset of the local clock.

use vstd::prelude::*;
use chrono::{DateTime, FixedOffset, SecondsFormat};

verus! {

/// The first second that the calendar covers.
pub const FIRST_SECOND: i64 = -8_334_601_228_800;

/// The last second that the calendar covers.
pub const LAST_SECOND: i64 = 8_210_266_876_799;

/// The format of the name of a recording folder.
pub const FOLDER_FORMAT: &'static str = "%Y-%m-%d-%H%M";

/// The format of the start time in the label of a recording.
pub const LABEL_FORMAT: &'static str = "%b %-d, %H:%M";

/// A point in time: seconds and nanoseconds since 1970, and by how many seconds the local clock
/// is ahead of UTC. A leap second is told by a billion nanoseconds or more.
#[derive(Clone, Copy, Debug, PartialEq, Eq, Structural)]
pub struct Stamp {
    pub secs: i64,
    pub nanos: u32,
    pub offset: i32,
}

impl Stamp {
    /// Whether the calendar covers this point in time, in UTC and on the local clock.
    pub open spec fn valid(self) -> bool {
        &&& FIRST_SECOND <= self.secs <= LAST_SECOND
        &&& FIRST_SECOND <= self.secs + self.offset <= LAST_SECOND
        &&& self.nanos < 1_000_000_000 || (self.nanos < 2_000_000_000 && self.secs as int % 60 == 59)
        &&& -86_400 < self.offset < 86_400
    }

    /// Whether this is a leap second.
    pub open spec fn is_leap(self) -> bool {
        self.nanos >= 1_000_000_000
    }

    /// Whether this point in time comes before another one. The offsets do not matter.
    pub open spec fn before(self, other: Stamp) -> bool {
        self.secs < other.secs || (self.secs == other.secs && self.nanos < other.nanos)
    }

    /// Whether the calendar covers this point in time.
    pub fn is_valid(&self) -> (r: bool)
        ensures
            r == self.valid(),
    {
        let local: i128 = self.secs as i128 + self.offset as i128;
        if !(FIRST_SECOND <= self.secs && self.secs <= LAST_SECOND && FIRST_SECOND as i128 <= local
            && local <= LAST_SECOND as i128 && -86_400 < self.offset && self.offset < 86_400) {
            return false;
        }
        let shifted: i64 = self.secs - FIRST_SECOND;
        self.nanos < 1_000_000_000 || (self.nanos < 2_000_000_000 && shifted % 60 == 59)
    }

    /// Whether this point in time comes before another one.
    pub fn is_before(&self, other: &Stamp) -> (r: bool)
        ensures
            r == self.before(*other),
    {
        self.secs < other.secs || (self.secs == other.secs && self.nanos < other.nanos)
    }
}

/// How `chrono` writes a point in time in a given format.
pub uninterp spec fn formatted(secs: i64, nanos: u32, offset: i32, format: Seq<char>) -> Seq<char>;

/// `DateTime::format` of chrono, on a point in time at a fixed offset.
///
/// The text is a function of the point in time, the offset and the format. In the format of
/// folder names it is not empty and has no slash: a year, a month, a day, hours and minutes, with
/// hyphens between them.
#[verifier::external_body]
pub(crate) fn format_stamp(at: &Stamp, format: &str) -> (r: String)
    requires
        at.valid(),
        format@ == FOLDER_FORMAT@ || format@ == LABEL_FORMAT@,
    ensures
        r@ == formatted(at.secs, at.nanos, at.offset, format@),
        format@ == FOLDER_FORMAT@ ==> r@.len() > 2 && !r@.contains('/'),
{
    let offset = FixedOffset::east_opt(at.offset).unwrap();
    let utc = DateTime::from_timestamp(at.secs, at.nanos).unwrap();
    utc.with_timezone(&offset).format(format).to_string()
}

/// How `chrono` writes a point in time as the text of a JSON document.
pub uninterp spec fn rfc3339_text(secs: i64, nanos: u32, offset: i32) -> Seq<char>;

/// `DateTime::to_rfc3339_opts` of chrono, with as many digits of the second as are needed and
/// `Z` for UTC. The text is a function of the point in time and the offset.
#[verifier::external_body]
pub(crate) fn rfc3339(at: &Stamp) -> (r: String)
    requires
        at.valid(),
    ensures
        r@ == rfc3339_text(at.secs, at.nanos, at.offset),
{
    let offset = FixedOffset::east_opt(at.offset).unwrap();
    let utc = DateTime::from_timestamp(at.secs, at.nanos).unwrap();
    utc.with_timezone(&offset).to_rfc3339_opts(SecondsFormat::AutoSi, true)
}

/// A number of nanoseconds in whole seconds, rounded towards zero.
pub open spec fn seconds_in(nanos: int) -> int {
    if nanos < 0 {
        -((-nanos) / 1_000_000_000)
    } else {
        nanos / 1_000_000_000
    }
}

/// The leap second that is counted between two points in time: one that the earlier time of day
/// falls into, if the other time of day is later.
pub open spec fn leap_seconds_between(to: Stamp, from: Stamp) -> int {
    let to_second = to.secs as int % 86_400;
    let from_second = from.secs as int % 86_400;
    if to_second > from_second && from.is_leap() {
        1
    } else if to_second < from_second && to.is_leap() {
        -1
    } else {
        0
    }
}

/// The whole seconds from one point in time to another, negative if `to` comes first.
pub open spec fn whole_seconds(to: Stamp, from: Stamp) -> int {
    seconds_in(
        (to.secs - from.secs + leap_seconds_between(to, from)) * 1_000_000_000 + (to.nanos
            - from.nanos),
    )
}

/// `DateTime::signed_duration_since` and `TimeDelta::num_seconds` of chrono.
///
/// The distance of the two points in time, rounded towards zero. A leap second counts where the
/// times of day lie on both sides of it.
#[verifier::external_body]
fn seconds_since(to: &Stamp, from: &Stamp) -> (r: i64)
    requires
        to.valid(),
        from.valid(),
    ensures
        r == whole_seconds(*to, *from),
{
    let to = DateTime::from_timestamp(to.secs, to.nanos).unwrap();
    let from = DateTime::from_timestamp(from.secs, from.nanos).unwrap();
    to.signed_duration_since(from).num_seconds()
}

/// The time from `from` to `to` in whole seconds, or zero if `to` comes first.
pub open spec fn elapsed(from: Stamp, to: Stamp) -> int {
    if whole_seconds(to, from) < 0 {
        0
    } else {
        whole_seconds(to, from)
    }
}

/// The time from `from` to `to` in whole seconds, or zero if `to` comes first.
pub fn elapsed_seconds(from: &Stamp, to: &Stamp) -> (r: u64)
    requires
        from.valid(),
        to.valid(),
    ensures
        r == elapsed(*from, *to),
        from.nanos < 1_000_000_000 && to.nanos < 1_000_000_000 ==> ({
            let apart = (to.secs - from.secs) * 1_000_000_000 + (to.nanos - from.nanos);
            if apart < 0 {
                r == 0
            } else {
                r * 1_000_000_000 <= apart < (r + 1) * 1_000_000_000
            }
        }),
{
    proof {
        law_elapsed_time_is_whole_seconds(*from, *to);
    }
    let seconds = seconds_since(to, from);
    if seconds < 0 {
        0
    } else {
        seconds as u64
    }
}

/// The time from one point to another is told in whole seconds: a second less is not enough, a
/// second more is too much. It is zero if the other point comes first. Leap seconds are left
/// aside.
pub proof fn law_elapsed_time_is_whole_seconds(from: Stamp, to: Stamp)
    requires
        from.valid(),
        to.valid(),
    ensures
        from.nanos < 1_000_000_000 && to.nanos < 1_000_000_000 ==> ({
            let apart = (to.secs - from.secs) * 1_000_000_000 + (to.nanos - from.nanos);
            if apart < 0 {
                elapsed(from, to) == 0
            } else {
                elapsed(from, to) * 1_000_000_000 <= apart < (elapsed(from, to) + 1)
                    * 1_000_000_000
            }
        }),
        elapsed(from, to) >= 0,
        elapsed(from, from) == 0,
{
}

/// Points in time are ordered by seconds and then by nanoseconds, whatever the offsets: of two
/// different ones exactly one comes first.
pub proof fn law_points_in_time_are_ordered(a: Stamp, b: Stamp)
    ensures
        a.before(b) <==> a.secs * 0x1_0000_0000 + a.nanos < b.secs * 0x1_0000_0000 + b.nanos,
        a.before(b) ==> !b.before(a),
        !a.before(b) && !b.before(a) <==> a.secs == b.secs && a.nanos == b.nanos,
{
}

/// The calendar covers a point in time exactly if its second lies between the first and the last
/// one, in UTC and on the local clock, which is less than a day off. Only the last second of a
/// minute may be a leap second.
pub proof fn law_calendar_covers(at: &Stamp, covered: bool)
    requires
        call_ensures(Stamp::is_valid, (at,), covered),
    ensures
        covered ==> -8_334_601_228_800 <= at.secs <= 8_210_266_876_799,
        covered ==> -8_334_601_228_800 <= at.secs + at.offset <= 8_210_266_876_799,
        covered ==> -86_400 < at.offset < 86_400,
        covered ==> at.nanos < 2_000_000_000,
        covered && at.nanos >= 1_000_000_000 ==> (at.secs + 1) % 60 == 0,
        -8_334_601_142_400 <= at.secs <= 8_210_266_790_399 && -86_400 < at.offset < 86_400
            && at.nanos < 1_000_000_000 ==> covered,
{
}

} // verus!
