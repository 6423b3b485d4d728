//! Wall-clock model: UTC instants as whole seconds since the Unix epoch and
//! local calendar readings as (day number, seconds since midnight).
//!
//! The local time zone is part of the environment: the conversions between
//! the two views are made by the operating system's zone rules and are not
//! predicted here. What the library decides from them is verified for every
//! answer the zone rules can give.

use chrono::{Datelike, TimeZone, Timelike};
use vstd::prelude::*;

verus! {

/// Seconds in a calendar day.
pub const SECS_PER_DAY: i64 = 86400;

/// First representable day (-262143-01-01), counted from 1970-01-01.
pub const MIN_DAY: i64 = -96465293;

/// Last representable day (+262142-12-31), counted from 1970-01-01.
pub const MAX_DAY: i64 = 95026236;

/// Earliest representable UTC instant, in seconds since the epoch.
pub const MIN_UTC: i64 = -8334601315200;

/// Latest representable UTC instant (whole seconds), since the epoch.
pub const MAX_UTC: i64 = 8210266876799;

/// Largest number of seconds a duration may span.
pub const MAX_DELTA_SECS: i64 = 9223372036854775;

/// A reading of the local calendar: `day` counts days from 1970-01-01 and
/// `secs` counts seconds since local midnight.
#[derive(Clone, Copy, Debug, PartialEq, Eq, Structural)]
pub struct WallTime {
    pub day: i64,
    pub secs: u32,
}

/// The moment the library was asked about: the UTC instant and the local
/// wall-clock reading of that same moment.
#[derive(Clone, Copy, Debug, PartialEq, Eq, Structural)]
pub struct Clock {
    pub utc: i64,
    pub local: WallTime,
}

/// A time of day to the minute.
#[derive(Clone, Copy, Debug, PartialEq, Eq, Structural)]
pub struct TimeOfDay {
    pub hour: u32,
    pub minute: u32,
}

/// What the local zone rules say about a wall-clock reading.
#[derive(Clone, Copy, Debug, PartialEq, Eq, Structural)]
pub enum LocalLookup {
    /// The reading names exactly one instant.
    Single(i64),
    /// The reading occurs twice (clocks turned back); earliest first.
    Ambiguous(i64, i64),
    /// The reading never occurs (clocks jumped forward).
    Gap,
}

pub open spec fn wall_ok(w: WallTime) -> bool {
    MIN_DAY <= w.day <= MAX_DAY && w.secs < SECS_PER_DAY
}

pub open spec fn time_ok(t: TimeOfDay) -> bool {
    t.hour < 24 && t.minute < 60
}

pub open spec fn utc_ok(t: int) -> bool {
    MIN_UTC <= t <= MAX_UTC
}

/// A clock far enough from both ends of the calendar for the week-ahead
/// and hour-ahead arithmetic the library performs.
pub open spec fn clock_ok(c: Clock) -> bool {
    &&& wall_ok(c.local)
    &&& c.local.day + 8 <= MAX_DAY
    &&& MIN_DAY <= c.local.day
    &&& utc_ok(c.utc as int)
    &&& c.utc + SECS_PER_DAY <= MAX_UTC
}

pub open spec fn tod_secs(t: TimeOfDay) -> int {
    t.hour * 3600 + t.minute * 60
}

/// Seconds since midnight of a time of day.
pub fn tod_seconds(t: TimeOfDay) -> (s: u32)
    requires
        time_ok(t),
    ensures
        s == tod_secs(t),
        s < SECS_PER_DAY,
{
    t.hour * 3600 + t.minute * 60
}

/// The wall-clock reading at time `t` on day `day`.
pub open spec fn at_time(day: int, t: TimeOfDay) -> WallTime {
    WallTime { day: day as i64, secs: tod_secs(t) as u32 }
}

/// Day of the week of a day number, Monday = 0 ... Sunday = 6
/// (1970-01-01 was a Thursday).
pub open spec fn weekday_of(day: int) -> int {
    (day + 3) % 7
}

pub fn weekday_of_day(day: i64) -> (w: u32)
    requires
        MIN_DAY <= day <= MAX_DAY,
    ensures
        w == weekday_of(day as int),
        w < 7,
{
    let r = (day + 3) % 7;
    let r = if r < 0 { r + 7 } else { r };
    r as u32
}

/// The wall-clock reading `delta` seconds after `w`.
pub open spec fn wall_add(w: WallTime, delta: int) -> WallTime {
    let total = w.day * SECS_PER_DAY + w.secs + delta;
    WallTime { day: (total / (SECS_PER_DAY as int)) as i64, secs: (total % (SECS_PER_DAY as int)) as u32 }
}

/// Reads a wall-clock reading as if it were UTC.
pub open spec fn wall_as_utc(w: WallTime) -> int {
    w.day * SECS_PER_DAY + w.secs
}

/// Moving a valid reading forward moves its UTC reading by the same
/// amount.
proof fn lemma_wall_add_utc(w: WallTime, delta: int)
    requires
        wall_ok(w),
        0 <= delta <= SECS_PER_DAY,
    ensures
        wall_as_utc(wall_add(w, delta)) == wall_as_utc(w) + delta,
{
    let total = w.day * SECS_PER_DAY + w.secs + delta;
    vstd::arithmetic::div_mod::lemma_fundamental_div_mod(total, SECS_PER_DAY as int);
    let q = total / (SECS_PER_DAY as int);
    let m = total % (SECS_PER_DAY as int);
    vstd::arithmetic::div_mod::lemma_mod_bound(total, SECS_PER_DAY as int);
    assert(MIN_DAY <= q <= MAX_DAY + 2);
    assert(wall_add(w, delta).day == q);
    assert(wall_add(w, delta).secs == m);
    assert(q * SECS_PER_DAY == SECS_PER_DAY * q) by (nonlinear_arith);
}

pub fn wall_add_secs(w: WallTime, delta: u32) -> (r: WallTime)
    requires
        wall_ok(w),
        delta <= SECS_PER_DAY,
        w.day < MAX_DAY,
    ensures
        r == wall_add(w, delta as int),
        wall_ok(r),
{
    let s = w.secs as u64 + delta as u64;
    if s >= 86400 {
        let r = WallTime { day: w.day + 1, secs: (s - 86400) as u32 };
        proof {
            let total = w.day * SECS_PER_DAY + w.secs + delta;
            assert(total == (w.day + 1) * SECS_PER_DAY + (s - 86400));
            vstd::arithmetic::div_mod::lemma_fundamental_div_mod_converse(
                total,
                SECS_PER_DAY as int,
                w.day + 1,
                s - 86400,
            );
        }
        r
    } else {
        let r = WallTime { day: w.day, secs: s as u32 };
        proof {
            let total = w.day * SECS_PER_DAY + w.secs + delta;
            vstd::arithmetic::div_mod::lemma_fundamental_div_mod_converse(
                total,
                SECS_PER_DAY as int,
                w.day as int,
                s as int,
            );
        }
        r
    }
}

/// Chooses the instant for a wall-clock reading from what the zone rules
/// answered for it and for the readings one, two and three hours later:
/// a single instant is taken as is, an ambiguous reading resolves to its
/// earlier instant, and a reading in a gap moves forward an hour at a time
/// (up to three hours) to the first reading that names a single instant;
/// failing that, the reading is taken as UTC.
pub open spec fn resolve_spec(
    w: WallTime,
    at: LocalLookup,
    plus1: LocalLookup,
    plus2: LocalLookup,
    plus3: LocalLookup,
) -> int {
    match at {
        LocalLookup::Single(t) => t as int,
        LocalLookup::Ambiguous(e, _) => e as int,
        LocalLookup::Gap => match plus1 {
            LocalLookup::Single(t) => t as int,
            _ => match plus2 {
                LocalLookup::Single(t) => t as int,
                _ => match plus3 {
                    LocalLookup::Single(t) => t as int,
                    _ => wall_as_utc(w),
                },
            },
        },
    }
}

pub fn resolve_local(
    w: WallTime,
    at: LocalLookup,
    plus1: LocalLookup,
    plus2: LocalLookup,
    plus3: LocalLookup,
) -> (r: i64)
    requires
        wall_ok(w),
    ensures
        r == resolve_spec(w, at, plus1, plus2, plus3),
{
    match at {
        LocalLookup::Single(t) => t,
        LocalLookup::Ambiguous(e, _) => e,
        LocalLookup::Gap => match plus1 {
            LocalLookup::Single(t) => t,
            _ => match plus2 {
                LocalLookup::Single(t) => t,
                _ => match plus3 {
                    LocalLookup::Single(t) => t,
                    _ => w.day * SECS_PER_DAY + w.secs as i64,
                },
            },
        },
    }
}

/// Chrono's day number (`num_days_from_ce`, 0001-01-01 being day 1) of
/// 1970-01-01.
pub const EPOCH_CE_DAY: i64 = 719163;

/// A chrono day number within the representable days.
pub open spec fn ce_ok(ce: int) -> bool {
    MIN_DAY + EPOCH_CE_DAY <= ce <= MAX_DAY + EPOCH_CE_DAY
}

/// The wall-clock reading on chrono day `ce`, `secs` seconds past midnight.
pub open spec fn wall_of_ce(ce: int, secs: u32) -> WallTime {
    WallTime { day: (ce - EPOCH_CE_DAY) as i64, secs }
}

/// Chrono's day number of a day counted from 1970-01-01.
pub(crate) fn ce_of(day: i64) -> (ce: i32)
    requires
        MIN_DAY <= day <= MAX_DAY,
    ensures
        ce == day + EPOCH_CE_DAY,
        ce_ok(ce as int),
{
    (day + EPOCH_CE_DAY) as i32
}

/// The day counted from 1970-01-01 of a chrono day number.
pub(crate) fn day_of_ce(ce: i32) -> (day: i64)
    requires
        ce_ok(ce as int),
    ensures
        day == ce - EPOCH_CE_DAY,
        MIN_DAY <= day <= MAX_DAY,
{
    ce as i64 - EPOCH_CE_DAY
}

/// The current moment from `chrono::Local::now`: its instant, its local
/// date's chrono day number and its local seconds past midnight. Nothing
/// is promised of the reading beyond the ranges every `chrono` date-time
/// lies in.
#[verifier::external_body]
fn read_clock() -> (r: (i64, i32, u32))
    ensures
        utc_ok(r.0 as int),
        ce_ok(r.1 as int),
        r.2 < SECS_PER_DAY,
{
    let now = chrono::Local::now();
    (now.timestamp(), now.date_naive().num_days_from_ce(), now.num_seconds_from_midnight())
}

/// The current moment, read from the system clock and the local zone.
pub(crate) fn clock_now() -> (c: Clock)
    ensures
        c.local.secs < SECS_PER_DAY,
        MIN_DAY <= c.local.day <= MAX_DAY,
        utc_ok(c.utc as int),
{
    let (u, ce, secs) = read_clock();
    Clock { utc: u, local: WallTime { day: day_of_ce(ce), secs } }
}

/// `t` is a representable instant less than a day away from the wall-clock
/// reading `w` read as UTC: the relation between a local reading and an
/// instant it names, since every zone offset `chrono` represents (a
/// `FixedOffset`) is strictly between -86400 and 86400 seconds.
pub open spec fn near_offset(w: WallTime, t: int) -> bool {
    &&& utc_ok(t)
    &&& wall_as_utc(w) - SECS_PER_DAY < t
    &&& t < wall_as_utc(w) + SECS_PER_DAY
}

/// A zone answer for `w` that every answer of the local zone meets: each
/// instant it names lies within a day of `w`.
pub open spec fn lookup_fits(w: WallTime, l: LocalLookup) -> bool {
    match l {
        LocalLookup::Single(t) => near_offset(w, t as int),
        LocalLookup::Ambiguous(a, b) => near_offset(w, a as int) && near_offset(w, b as int),
        LocalLookup::Gap => true,
    }
}

/// `r` is what [`resolve_spec`] chooses for `w` from some zone answers for
/// `w` and the readings one, two and three hours later.
pub open spec fn local_resolution(w: WallTime, r: int) -> bool {
    exists|at: LocalLookup, p1: LocalLookup, p2: LocalLookup, p3: LocalLookup|
        #![trigger resolve_spec(w, at, p1, p2, p3)]
        {
            &&& lookup_fits(w, at)
            &&& lookup_fits(wall_add(w, 3600), p1)
            &&& lookup_fits(wall_add(w, 7200), p2)
            &&& lookup_fits(wall_add(w, 10800), p3)
            &&& r == resolve_spec(w, at, p1, p2, p3)
        }
}

/// An instant at least a day away from both ends of chrono's range, so
/// that its local reading is representable in every zone.
pub open spec fn local_ok(t: int) -> bool {
    MIN_UTC + SECS_PER_DAY <= t <= MAX_UTC - SECS_PER_DAY
}

/// What the local zone says about the wall-clock reading on chrono day
/// `ce` at `secs` past midnight (`chrono::Local.from_local_datetime`).
/// Which answer comes rests on the zone rules of the machine and is not
/// stated. Stated: every instant in it is representable (chrono checks
/// the subtraction of the offset) and lies less than a day from the
/// reading, as the reading minus a `FixedOffset`, whose size chrono keeps
/// under 86400 seconds.
#[verifier::external_body]
fn zone_lookup(ce: i32, secs: u32) -> (r: LocalLookup)
    requires
        ce_ok(ce as int),
        secs < SECS_PER_DAY,
    ensures
        lookup_fits(wall_of_ce(ce as int, secs), r),
{
    let date = chrono::NaiveDate::from_num_days_from_ce_opt(ce).unwrap();
    let time = chrono::NaiveTime::from_num_seconds_from_midnight_opt(secs, 0).unwrap();
    match chrono::Local.from_local_datetime(&date.and_time(time)) {
        chrono::LocalResult::Single(t) => LocalLookup::Single(t.timestamp()),
        chrono::LocalResult::Ambiguous(a, b) => LocalLookup::Ambiguous(a.timestamp(), b.timestamp()),
        chrono::LocalResult::None => LocalLookup::Gap,
    }
}

/// What the local zone says about a wall-clock reading; see
/// [`lookup_fits`] for what every answer meets.
pub(crate) fn lookup_local(w: WallTime) -> (r: LocalLookup)
    requires
        wall_ok(w),
    ensures
        lookup_fits(w, r),
{
    let ce = ce_of(w.day);
    proof {
        assert(wall_of_ce(ce as int, w.secs) == w);
    }
    zone_lookup(ce, w.secs)
}

/// The local reading of a UTC instant (`DateTime::with_timezone` to
/// `chrono::Local`): its chrono day number and seconds past midnight. The
/// reading rests on the machine's zone rules. Stated: it is a valid
/// reading (chrono's `naive_local` panics rather than leave its range,
/// which the bound on `t` rules out) and it is the instant plus an offset
/// of less than a day.
#[verifier::external_body]
fn local_reading(t: i64) -> (r: (i32, u32))
    requires
        local_ok(t as int),
    ensures
        ce_ok(r.0 as int),
        r.1 < SECS_PER_DAY,
        near_offset(wall_of_ce(r.0 as int, r.1), t as int),
{
    let local = chrono::DateTime::from_timestamp(t, 0).unwrap().with_timezone(&chrono::Local);
    (local.date_naive().num_days_from_ce(), local.num_seconds_from_midnight())
}

/// The local wall-clock reading of a UTC instant; see [`local_reading`].
pub(crate) fn utc_to_local(t: i64) -> (w: WallTime)
    requires
        local_ok(t as int),
    ensures
        wall_ok(w),
        near_offset(w, t as int),
{
    let (ce, secs) = local_reading(t);
    WallTime { day: day_of_ce(ce), secs }
}

/// Resolves a local wall-clock reading to a UTC instant without failing on
/// daylight-saving transitions; see [`resolve_spec`] for the rule applied
/// to the zone's answers.
pub fn local_naive_to_utc(w: WallTime) -> (r: i64)
    requires
        wall_ok(w),
        w.day < MAX_DAY,
    ensures
        utc_ok(r as int),
        local_resolution(w, r as int),
        wall_as_utc(w) - SECS_PER_DAY < r < wall_as_utc(w) + 10800 + SECS_PER_DAY,
{
    let at = lookup_local(w);
    let p1 = wall_add_secs(w, 3600);
    let p2 = wall_add_secs(w, 7200);
    let p3 = wall_add_secs(w, 10800);
    let l1 = lookup_local(p1);
    let l2 = lookup_local(p2);
    let l3 = lookup_local(p3);
    let r = resolve_local(w, at, l1, l2, l3);
    proof {
        assert(utc_ok(wall_as_utc(w))) by (nonlinear_arith)
            requires
                wall_ok(w),
                wall_as_utc(w) == w.day * SECS_PER_DAY + w.secs,
        ;
        lemma_wall_add_utc(w, 3600);
        lemma_wall_add_utc(w, 7200);
        lemma_wall_add_utc(w, 10800);
        assert(wall_as_utc(p1) == wall_as_utc(w) + 3600);
        assert(wall_as_utc(p2) == wall_as_utc(w) + 7200);
        assert(wall_as_utc(p3) == wall_as_utc(w) + 10800);
        assert(r as int == resolve_spec(w, at, l1, l2, l3));
    }
    r
}

/// `%Y-%m-%d %H:%M:%S` of the wall-clock reading on chrono day `ce` at
/// `secs` seconds past midnight, as chrono formats a `NaiveDateTime`.
pub uninterp spec fn dashed_text(ce: i32, secs: u32) -> Seq<char>;

/// `%Y-%m-%d %H:%M:%S` of a wall-clock reading.
pub open spec fn wall_text(w: WallTime) -> Seq<char> {
    dashed_text((w.day + EPOCH_CE_DAY) as i32, w.secs)
}

/// `%Y%m%dT%H%M%SZ` of a UTC instant (seconds since the epoch), as chrono
/// formats a `DateTime<Utc>`.
pub uninterp spec fn compact_utc_text(t: i64) -> Seq<char>;

/// Formats the wall-clock reading on chrono day `ce` with chrono's
/// `NaiveDateTime::format("%Y-%m-%d %H:%M:%S")`; the text is named
/// [`dashed_text`]. The day is in chrono's date range, so building the
/// `NaiveDateTime` does not fail.
#[verifier::external_body]
fn format_wall(ce: i32, secs: u32) -> (r: String)
    requires
        ce_ok(ce as int),
        secs < SECS_PER_DAY,
    ensures
        r@ == dashed_text(ce, secs),
{
    let date = chrono::NaiveDate::from_num_days_from_ce_opt(ce).unwrap();
    let time = chrono::NaiveTime::from_num_seconds_from_midnight_opt(secs, 0).unwrap();
    date.and_time(time).format("%Y-%m-%d %H:%M:%S").to_string()
}

/// The `%Y-%m-%d %H:%M:%S` text of a wall-clock reading.
pub(crate) fn dashed_text_exec(w: WallTime) -> (r: String)
    requires
        wall_ok(w),
    ensures
        r@ == wall_text(w),
{
    format_wall(ce_of(w.day), w.secs)
}

/// Formats a UTC instant with chrono's
/// `DateTime::<Utc>::format("%Y%m%dT%H%M%SZ")`; the text is named
/// [`compact_utc_text`]. The instant is in chrono's range, so
/// `from_timestamp` does not fail.
#[verifier::external_body]
pub(crate) fn compact_utc_text_exec(t: i64) -> (r: String)
    requires
        utc_ok(t as int),
    ensures
        r@ == compact_utc_text(t),
{
    chrono::DateTime::from_timestamp(t, 0).unwrap().format("%Y%m%dT%H%M%SZ").to_string()
}

} // verus!
