use vstd::prelude::*;

use crate::level_map::{is_next_level, no_next_level, LevelMap};
use crate::text::{i64_to_string, int_to_decimal};

verus! {

/// The earliest Unix second that a date of the years -9999 to 9999 has.
pub open spec fn min_unix_seconds() -> int {
    -377705116800
}

/// The latest Unix second that a date of the years -9999 to 9999 has.
pub open spec fn max_unix_seconds() -> int {
    253402300799
}

/// A point in time: whole Unix seconds and the nanoseconds within the second.
#[derive(Debug, Clone, Copy, PartialEq, Eq, Structural)]
pub struct Timestamp {
    pub unix_seconds: i64,
    pub nanosecond: u32,
}

impl Timestamp {
    /// The timestamp lies in the years -9999 to 9999 and the nanoseconds are
    /// within a second.
    pub open spec fn valid(&self) -> bool {
        &&& min_unix_seconds() <= self.unix_seconds <= max_unix_seconds()
        &&& self.nanosecond < 1_000_000_000
    }

    /// The time in nanoseconds since the Unix epoch.
    pub open spec fn nanos(&self) -> int {
        self.unix_seconds * 1_000_000_000 + self.nanosecond
    }

    /// Whether the timestamp lies in the years -9999 to 9999 with the
    /// nanoseconds within a second.
    pub fn is_valid(&self) -> (res: bool)
        ensures
            res == self.valid(),
    {
        -377705116800 <= self.unix_seconds && self.unix_seconds <= 253402300799 && self.nanosecond < 1_000_000_000
    }

    /// The Unix epoch.
    pub fn epoch() -> (res: Timestamp)
        ensures
            res.unix_seconds == 0,
            res.nanosecond == 0,
            res.valid(),
    {
        Timestamp { unix_seconds: 0, nanosecond: 0 }
    }

    /// The whole seconds since the Unix epoch.
    pub fn unix_timestamp(&self) -> (res: i64)
        ensures
            res == self.unix_seconds,
    {
        self.unix_seconds
    }

    /// The nanoseconds since the Unix epoch.
    pub fn unix_timestamp_nanos(&self) -> (res: i128)
        requires
            self.valid(),
        ensures
            res as int == self.nanos(),
    {
        assert(self.unix_seconds * 1_000_000_000 <= 253402300799 * 1_000_000_000) by (nonlinear_arith)
            requires
                self.unix_seconds <= 253402300799,
        ;
        assert(self.unix_seconds * 1_000_000_000 >= -377705116800 * 1_000_000_000) by (nonlinear_arith)
            requires
                self.unix_seconds >= -377705116800,
        ;
        (self.unix_seconds as i128) * 1_000_000_000 + (self.nanosecond as i128)
    }
}

/// `t` moved on by `seconds`, held to the years -9999 to 9999: below them the
/// first moment of -9999, above them the last nanosecond of 9999.
pub open spec fn saturated_later(t: Timestamp, seconds: int) -> Timestamp {
    let u = t.unix_seconds + seconds;
    if u < min_unix_seconds() {
        Timestamp { unix_seconds: min_unix_seconds() as i64, nanosecond: 0 }
    } else if u > max_unix_seconds() {
        Timestamp { unix_seconds: max_unix_seconds() as i64, nanosecond: 999_999_999 }
    } else {
        Timestamp { unix_seconds: u as i64, nanosecond: t.nanosecond }
    }
}

impl Timestamp {
    /// The timestamp `seconds` later, saturating at the ends of the years
    /// -9999 to 9999.
    pub fn saturating_add_seconds(&self, seconds: i32) -> (res: Timestamp)
        requires
            self.valid(),
        ensures
            res == saturated_later(*self, seconds as int),
            res.valid(),
    {
        let u = self.unix_seconds + seconds as i64;
        if u < -377705116800 {
            Timestamp { unix_seconds: -377705116800, nanosecond: 0 }
        } else if u > 253402300799 {
            Timestamp { unix_seconds: 253402300799, nanosecond: 999_999_999 }
        } else {
            Timestamp { unix_seconds: u, nanosecond: self.nanosecond }
        }
    }
}

/// Calls `time::OffsetDateTime::now_utc` and takes its Unix timestamp. Which
/// second the clock gives is left open; it lies in the years -9999 to 9999,
/// which the `time` crate holds.
#[verifier::external_body]
pub(crate) fn now_unix_seconds() -> (res: i64)
    ensures
        min_unix_seconds() <= res <= max_unix_seconds(),
{
    time::OffsetDateTime::now_utc().unix_timestamp()
}

/// Division that rounds toward zero, as `/` of Rust's integers does.
pub open spec fn div_trunc(a: int, b: int) -> int {
    if a >= 0 {
        a / b
    } else {
        -((-a) / b)
    }
}

/// How long until a moment `secs` seconds away, in its largest whole unit:
/// days, hours, minutes or (when positive) seconds; `now` otherwise.
pub open spec fn until_text(secs: int) -> Seq<char> {
    if div_trunc(secs, 86400) != 0 {
        int_to_decimal(div_trunc(secs, 86400)) + " days"@
    } else if div_trunc(secs, 3600) != 0 {
        int_to_decimal(div_trunc(secs, 3600)) + " hours"@
    } else if div_trunc(secs, 60) != 0 {
        int_to_decimal(div_trunc(secs, 60)) + " minutes"@
    } else if secs != 0 && secs > 0 {
        int_to_decimal(secs) + " seconds"@
    } else {
        "now"@
    }
}

/// `q` whole units of `unit` seconds lie in `secs`, counted toward zero: what
/// is left over is less than one unit and on the side of `secs`.
pub open spec fn whole_units(secs: int, unit: int, q: int) -> bool {
    let r = secs - q * unit;
    &&& secs >= 0 ==> 0 <= r < unit
    &&& secs < 0 ==> -unit < r <= 0
}

/// Rounding toward zero is the one count of whole units.
proof fn lemma_div_trunc_whole_units(secs: int, unit: int, q: int)
    requires
        unit > 0,
        whole_units(secs, unit, q),
    ensures
        div_trunc(secs, unit) == q,
{
    let r = secs - q * unit;
    if secs >= 0 {
        vstd::arithmetic::div_mod::lemma_fundamental_div_mod_converse(secs, unit, q, r);
    } else {
        assert(-secs == (-q) * unit + (-r)) by (nonlinear_arith)
            requires
                r == secs - q * unit,
        ;
        vstd::arithmetic::div_mod::lemma_fundamental_div_mod_converse(-secs, unit, -q, -r);
    }
}

/// How long until a moment is told in its largest whole unit, counted toward
/// zero: in days where it is a day or more away, before or after; else in
/// hours where an hour or more; else in minutes where a minute or more; else
/// in seconds where it is still ahead; and as `now` otherwise.
pub proof fn lemma_countdown_uses_the_largest_whole_unit(secs: int, q: int)
    ensures
        (secs >= 86400 || secs <= -86400) && whole_units(secs, 86400, q)
            ==> until_text(secs) == int_to_decimal(q) + " days"@,
        -86400 < secs < 86400 && (secs >= 3600 || secs <= -3600) && whole_units(secs, 3600, q)
            ==> until_text(secs) == int_to_decimal(q) + " hours"@,
        -3600 < secs < 3600 && (secs >= 60 || secs <= -60) && whole_units(secs, 60, q)
            ==> until_text(secs) == int_to_decimal(q) + " minutes"@,
        0 < secs < 60 ==> until_text(secs) == int_to_decimal(secs) + " seconds"@,
        -60 < secs <= 0 ==> until_text(secs) == "now"@,
{
    if -86400 < secs < 86400 {
        lemma_div_trunc_whole_units(secs, 86400, 0);
    }
    if -3600 < secs < 3600 {
        lemma_div_trunc_whole_units(secs, 3600, 0);
    }
    if -60 < secs < 60 {
        lemma_div_trunc_whole_units(secs, 60, 0);
    }
    if (secs >= 86400 || secs <= -86400) && whole_units(secs, 86400, q) {
        lemma_div_trunc_whole_units(secs, 86400, q);
        assert(q != 0);
    }
    if -86400 < secs < 86400 && (secs >= 3600 || secs <= -3600) && whole_units(secs, 3600, q) {
        lemma_div_trunc_whole_units(secs, 3600, q);
        assert(q != 0);
    }
    if -3600 < secs < 3600 && (secs >= 60 || secs <= -60) && whole_units(secs, 60, q) {
        lemma_div_trunc_whole_units(secs, 60, q);
        assert(q != 0);
    }
}

/// How long from the second `now` until the block at `target_level`, when
/// blocks follow each other `block_delay` seconds apart from the block of
/// `level` made at `block_seconds`.
pub open spec fn countdown(block_seconds: int, target_level: int, level: int, block_delay: int, now: int) -> Seq<char> {
    until_text(block_seconds + (target_level - level) * block_delay - now)
}

/// A countdown to the head's own level runs to the head's timestamp, and
/// each level further away adds one block delay to it.
pub proof fn lemma_countdown_adds_a_delay_per_level(block_seconds: int, target_level: int, level: int, block_delay: int, now: int)
    ensures
        countdown(block_seconds, level, level, block_delay, now) == until_text(block_seconds - now),
        countdown(block_seconds, target_level + 1, level, block_delay, now)
            == countdown(block_seconds + block_delay, target_level, level, block_delay, now),
{
    assert((target_level + 1 - level) * block_delay == (target_level - level) * block_delay + block_delay) by (nonlinear_arith);
}

/// `a / b` for a positive `b`, rounding toward zero.
pub fn div_toward_zero(a: i64, b: i64) -> (res: i64)
    requires
        b >= 2,
    ensures
        res as int == div_trunc(a as int, b as int),
{
    if a >= 0 {
        a / b
    } else {
        let q = if a == i64::MIN {
            // -(i64::MIN) does not fit, so split off one divisor first
            let r = (-(a + b)) / b + 1;
            assert((-(a as int)) / (b as int) == (-(a as int + b as int)) / (b as int) + 1) by (nonlinear_arith)
                requires
                    b > 0,
                    a < 0,
                    -(a as int) >= b,
            ;
            r
        } else {
            (-a) / b
        };
        assert(q <= (-(a as int)) / 2) by (nonlinear_arith)
            requires
                b >= 2,
                a < 0,
                q == (-(a as int)) / (b as int),
        ;
        -q
    }
}

/// The text of how long until a moment `secs` seconds away.
pub fn until_string(secs: i64) -> (res: String)
    ensures
        res@ == until_text(secs as int),
{
    let days = div_toward_zero(secs, 86400);
    let hours = div_toward_zero(secs, 3600);
    let minutes = div_toward_zero(secs, 60);
    if days != 0 {
        let mut s = i64_to_string(days);
        s.append(" days");
        s
    } else if hours != 0 {
        let mut s = i64_to_string(hours);
        s.append(" hours");
        s
    } else if minutes != 0 {
        let mut s = i64_to_string(minutes);
        s.append(" minutes");
        s
    } else if secs != 0 && secs > 0 {
        let mut s = i64_to_string(secs);
        s.append(" seconds");
        s
    } else {
        String::from_str("now")
    }
}

/// The first level at or after `level` that has a right, where its time is
/// known, lies within reach of an `i32` from `level`, also counted in seconds
/// of `block_delay` per level.
pub open spec fn countdown_fits(rights: Map<int, Option<Timestamp>>, level: int, block_delay: int) -> bool {
    forall|k: int| #[trigger] is_next_level(rights, level, k) && rights[k] is Some ==>
        k - level <= i32::MAX && i32::MIN <= (k - level) * block_delay <= i32::MAX
}

/// Whether the countdown to the first right at or after `level` can be
/// counted in `i32` levels and seconds.
pub fn check_countdown(rights: &LevelMap<Option<Timestamp>>, level: i32, block_delay: i32) -> (res: bool)
    ensures
        res == countdown_fits(rights@, level as int, block_delay as int),
{
    match rights.next_from(level) {
        Some(e) => {
            proof {
                lemma_next_level_unique(rights@, level as int, e.0 as int);
            }
            if e.1.is_none() {
                return true;
            }
            let k = e.0;
            let delta = (k as i64) - (level as i64);
            if delta > i32::MAX as i64 {
                return false;
            }
            let d = block_delay as i64;
            assert(-0x8000_0000_0000_0000 < delta * d < 0x8000_0000_0000_0000) by (nonlinear_arith)
                requires
                    0 <= delta <= 0x7fff_ffff,
                    -0x8000_0000 <= d <= 0x7fff_ffff,
            ;
            let seconds = delta * d;
            !(seconds < i32::MIN as i64 || seconds > i32::MAX as i64)
        },
        None => true,
    }
}

/// A map has at most one next level after a given one.
proof fn lemma_next_level_unique(rights: Map<int, Option<Timestamp>>, level: int, k: int)
    requires
        is_next_level(rights, level, k),
    ensures
        forall|k2: int| #[trigger] is_next_level(rights, level, k2) ==> k2 == k,
{
}

/// `res` is the first level at or after `level` that has a right, with the
/// countdown to it seen at `now` where its time is known and an empty text
/// where it is not; `None` where no such level exists.
pub open spec fn is_next_right(
    rights: Map<int, Option<Timestamp>>,
    level: int,
    block_timestamp: Timestamp,
    block_delay: int,
    now: int,
    res: Option<(i32, String)>,
) -> bool {
    match res {
        Some(r) => {
            &&& is_next_level(rights, level, r.0 as int)
            &&& rights[r.0 as int] is None ==> r.1@ == Seq::<char>::empty()
            &&& rights[r.0 as int] is Some ==> r.1@ == countdown(
                block_timestamp.unix_seconds as int, r.0 as int, level, block_delay, now)
        },
        None => no_next_level(rights, level),
    }
}

/// The first level at or after `level` that has a right, with how long until
/// then as seen at the Unix second `now`, counting `block_delay` seconds per
/// level from the block timestamp.
pub fn next_right_at(rights: &LevelMap<Option<Timestamp>>, level: i32, block_timestamp: &Timestamp, block_delay: i32, now: i64) -> (res: Option<(i32, String)>)
    requires
        block_timestamp.valid(),
        min_unix_seconds() <= now <= max_unix_seconds(),
        countdown_fits(rights@, level as int, block_delay as int),
    ensures
        is_next_right(rights@, level as int, *block_timestamp, block_delay as int, now as int, res),
{
    match rights.next_from(level) {
        Some(e) => {
            let target_level = e.0;
            assert(is_next_level(rights@, level as int, target_level as int));
            if e.1.is_some() {
                let level_delta = target_level - level;
                assert(i32::MIN <= level_delta * block_delay <= i32::MAX);
                let until = block_timestamp.unix_seconds + ((level_delta * block_delay) as i64) - now;
                Some((target_level, until_string(until)))
            } else {
                Some((target_level, String::new()))
            }
        },
        None => None,
    }
}

/// As `next_right_at`, with the clock read for now.
pub fn next_right(rights: &LevelMap<Option<Timestamp>>, level: i32, block_timestamp: &Timestamp, block_delay: i32) -> (res: Option<(i32, String)>)
    requires
        block_timestamp.valid(),
        countdown_fits(rights@, level as int, block_delay as int),
    ensures
        exists|now: int| min_unix_seconds() <= now <= max_unix_seconds()
            && #[trigger] is_next_right(rights@, level as int, *block_timestamp, block_delay as int, now, res),
{
    let now = now_unix_seconds();
    let res = next_right_at(rights, level, block_timestamp, block_delay, now);
    assert(is_next_right(rights@, level as int, *block_timestamp, block_delay as int, now as int, res));
    res
}

} // verus!
