//! Reminder scheduling: which reminders still fire, when a recurring
//! reminder comes round next, and the systemd user-timer commands that
//! carry a schedule out.

use crate::clock::{
    at_time, clock_now, clock_ok, wall_text, dashed_text_exec, local_ok, lookup_local,
    near_offset, tod_seconds,
    tod_secs, utc_ok, utc_to_local, wall_ok, weekday_of, weekday_of_day, Clock, LocalLookup,
    TimeOfDay, WallTime, MAX_DAY, MAX_DELTA_SECS, SECS_PER_DAY,
};
use crate::text::{
    chars_of, find, find_from_exec, lemma_find, parse_u32, parse_u32_spec, push_str,
    slice_vec, split_char, split_char_exec, string_from, string_of, trim, trim_vec,
};
use crate::types::{effective_time_spec, utc_now, Note, NoteModel};
use vstd::prelude::*;

verus! {

/// Name of the transient timer unit of a reminder.
pub open spec fn timer_unit_spec(id: Seq<char>) -> Seq<char> {
    "breadpad-reminder-"@ + id + ".timer"@
}

/// Name of the transient service unit of a reminder.
pub open spec fn service_unit_spec(id: Seq<char>) -> Seq<char> {
    "breadpad-reminder-"@ + id + ".service"@
}

/// Unit base name (the timer name without `.timer`).
pub open spec fn unit_base_spec(id: Seq<char>) -> Seq<char> {
    "breadpad-reminder-"@ + id
}

pub fn timer_unit_name(id: &str) -> (r: String)
    ensures
        r@ == timer_unit_spec(id@),
{
    let mut v: Vec<char> = Vec::new();
    push_str(&mut v, "breadpad-reminder-");
    push_str(&mut v, id);
    push_str(&mut v, ".timer");
    string_of(&v)
}

pub fn service_unit_name(id: &str) -> (r: String)
    ensures
        r@ == service_unit_spec(id@),
{
    let mut v: Vec<char> = Vec::new();
    push_str(&mut v, "breadpad-reminder-");
    push_str(&mut v, id);
    push_str(&mut v, ".service");
    string_of(&v)
}

/// Arguments of the `systemctl` calls that cancel a reminder, in order:
/// stop the timer, disable it, stop the service.
pub open spec fn cancel_spec(id: Seq<char>) -> Seq<Seq<Seq<char>>> {
    seq![
        seq!["--user"@, "stop"@, timer_unit_spec(id)],
        seq!["--user"@, "disable"@, "--now"@, timer_unit_spec(id)],
        seq!["--user"@, "stop"@, service_unit_spec(id)],
    ]
}

/// Arguments of the `systemd-run` call that schedules a reminder to fire
/// at the local calendar time `on_calendar`.
pub open spec fn timer_args_spec(id: Seq<char>, on_calendar: Seq<char>) -> Seq<Seq<char>> {
    seq![
        "--user"@, "--unit"@, unit_base_spec(id), "--timer-property"@, "OnCalendar="@
            + on_calendar, "--timer-property"@, "Persistent=true"@, "--"@, "breadpad"@,
        "fire"@, id,
    ]
}

pub open spec fn argv_view(v: Vec<String>) -> Seq<Seq<char>> {
    v@.map_values(|s: String| s@)
}

pub open spec fn argvs_view(v: Vec<Vec<String>>) -> Seq<Seq<Seq<char>>> {
    v@.map_values(|a: Vec<String>| argv_view(a))
}

fn s(lit: &str) -> (r: String)
    ensures
        r@ == lit@,
{
    string_from(lit)
}

/// Why a reminder could not be scheduled.
#[derive(Debug, PartialEq, Eq, Structural)]
pub enum ScheduleError {
    /// The note has neither a time nor a snooze time.
    NoTime,
}

/// A reminder timer to create: the note's id and the instant it fires.
#[derive(Debug)]
pub struct TimerRequest {
    pub id: String,
    pub fire_time: i64,
}

/// What firing a reminder leads to.
#[derive(Debug)]
pub struct FirePlan {
    /// The reminder is still within its grace period and is shown.
    pub due: bool,
    /// For a recurring reminder with a next occurrence: the note moved to
    /// that occurrence (and unsnoozed), to be stored and scheduled.
    pub reschedule: Option<Note>,
}

pub struct Scheduler;

impl Scheduler {
    /// The timer a note needs: it fires at its effective time; a note
    /// without one cannot be scheduled.
    pub fn schedule(note: &Note) -> (r: Result<TimerRequest, ScheduleError>)
        ensures
            match r {
                Ok(req) => effective_time_spec(note@) == Some(req.fire_time) && req.id@ == note.id@,
                Err(e) => effective_time_spec(note@) is None && e == ScheduleError::NoTime,
            },
    {
        match note.effective_time() {
            Some(t) => Ok(TimerRequest { id: note.id.clone(), fire_time: t }),
            None => Err(ScheduleError::NoTime),
        }
    }

    /// The `systemctl` calls (arguments after `systemctl`) that cancel a
    /// reminder's timer and service, in the order they are run.
    pub fn cancel(note_id: &str) -> (r: Vec<Vec<String>>)
        ensures
            argvs_view(r) == cancel_spec(note_id@),
    {
        let timer = timer_unit_name(note_id);
        let service = service_unit_name(note_id);
        let mut a: Vec<String> = Vec::new();
        a.push(s("--user"));
        a.push(s("stop"));
        a.push(timer.clone());
        let mut b: Vec<String> = Vec::new();
        b.push(s("--user"));
        b.push(s("disable"));
        b.push(s("--now"));
        b.push(timer);
        let mut c: Vec<String> = Vec::new();
        c.push(s("--user"));
        c.push(s("stop"));
        c.push(service);
        let mut r: Vec<Vec<String>> = Vec::new();
        r.push(a);
        r.push(b);
        r.push(c);
        proof {
            assert(argv_view(r@[0]) =~= cancel_spec(note_id@)[0]);
            assert(argv_view(r@[1]) =~= cancel_spec(note_id@)[1]);
            assert(argv_view(r@[2]) =~= cancel_spec(note_id@)[2]);
            assert(argvs_view(r) =~= cancel_spec(note_id@));
        }
        r
    }

    /// Snoozes a reminder until `snooze_until`: the note records the snooze
    /// time, and the returned timer fires then (the old timer is cancelled
    /// first with [`Scheduler::cancel`]).
    pub fn snooze(note: &mut Note, snooze_until: i64) -> (r: TimerRequest)
        ensures
            final(note)@ == (NoteModel { snoozed_until: Some(snooze_until), ..old(note)@ }),
            r.id@ == old(note).id@,
            r.fire_time == snooze_until,
    {
        note.snoozed_until = Some(snooze_until);
        TimerRequest { id: note.id.clone(), fire_time: snooze_until }
    }

    /// Whether a reminder still fires at instant `now`: it does unless its
    /// effective time lies more than `missed_grace_minutes` in the past.
    pub fn fire_at(note: &Note, missed_grace_minutes: i64, now: i64) -> (r: bool)
        requires
            -MAX_DELTA_SECS <= missed_grace_minutes * 60 <= MAX_DELTA_SECS,
            utc_ok(now as int),
            effective_time_spec(note@) matches Some(t) ==> utc_ok(t as int),
        ensures
            r == fire_spec(effective_time_spec(note@), missed_grace_minutes as int, now as int),
    {
        match note.effective_time() {
            Some(t) => !(now - t > missed_grace_minutes * 60),
            None => true,
        }
    }

    /// [`Scheduler::fire_at`] at the current instant.
    pub fn fire(note: &Note, missed_grace_minutes: i64) -> (r: bool)
        requires
            -MAX_DELTA_SECS <= missed_grace_minutes * 60 <= MAX_DELTA_SECS,
            effective_time_spec(note@) matches Some(t) ==> utc_ok(t as int),
        ensures
            effective_time_spec(note@) is None ==> r,
            exists|now: int|
                utc_ok(now) && r == fire_spec(
                    effective_time_spec(note@),
                    missed_grace_minutes as int,
                    now,
                ),
    {
        let now = utc_now();
        Self::fire_at(note, missed_grace_minutes, now)
    }

    /// The next occurrence of a note's recurrence rule after the current
    /// moment; `None` for a note without a rule.
    pub fn next_recurrence(note: &Note, default_morning: &str) -> (r: Option<i64>)
        ensures
            note.rrule is None ==> r is None,
            note.rrule matches Some(rule) ==> (rrule_schedule_spec(rule.0@, default_morning@)
                is None ==> r is None),
            r matches Some(t) ==> utc_ok(t as int),
            r matches Some(t) ==> (note.rrule matches Some(rule) && exists|c: Clock|
                #![trigger rrule_target_spec(rule.0@, default_morning@, c)]
                clock_ok(c) && (rrule_target_spec(rule.0@, default_morning@, c) matches Some(w)
                    && near_offset(w, t as int))),
    {
        match &note.rrule {
            Some(rule) => parse_next_from_rrule(rule.as_str(), default_morning),
            None => None,
        }
    }

    /// What firing `note` leads to, given whether it is due and the next
    /// occurrence of its rule.
    pub fn fire_plan(note: &Note, due: bool, next: Option<i64>) -> (r: FirePlan)
        ensures
            r.due == due,
            match r.reschedule {
                Some(n) => due && note.rrule is Some && next is Some && n@ == (NoteModel {
                    time: next,
                    snoozed_until: None,
                    ..note@
                }),
                None => !(due && note.rrule is Some && next is Some),
            },
    {
        if due && note.rrule.is_some() && next.is_some() {
            let mut n = note.copy();
            n.time = next;
            n.snoozed_until = None;
            FirePlan { due, reschedule: Some(n) }
        } else {
            FirePlan { due, reschedule: None }
        }
    }
}

/// A reminder fires unless its time lies more than the grace period ago.
pub open spec fn fire_spec(t: Option<i64>, grace_minutes: int, now: int) -> bool {
    match t {
        Some(t) => !(now - t > grace_minutes * 60),
        None => true,
    }
}

/// Missed reminders: with a grace period that is not negative, a reminder
/// that is due now or later always fires, one missed by at most the grace
/// period still fires, and one missed by more is skipped.
pub proof fn law_missed_reminders(t: i64, grace_minutes: int, now: int)
    requires
        grace_minutes >= 0,
    ensures
        t >= now ==> fire_spec(Some(t), grace_minutes, now),
        now - t <= grace_minutes * 60 ==> fire_spec(Some(t), grace_minutes, now),
        now - t > grace_minutes * 60 ==> !fire_spec(Some(t), grace_minutes, now),
{
}

/// The `systemd-run` arguments that create a reminder's timer firing at
/// the local calendar time `on_calendar` (`%Y-%m-%d %H:%M:%S`).
pub fn timer_command(id: &str, on_calendar: &str) -> (r: Vec<String>)
    ensures
        argv_view(r) == timer_args_spec(id@, on_calendar@),
{
    let mut base: Vec<char> = Vec::new();
    push_str(&mut base, "breadpad-reminder-");
    push_str(&mut base, id);
    let mut cal: Vec<char> = Vec::new();
    push_str(&mut cal, "OnCalendar=");
    push_str(&mut cal, on_calendar);
    let mut r: Vec<String> = Vec::new();
    r.push(s("--user"));
    r.push(s("--unit"));
    r.push(string_of(&base));
    r.push(s("--timer-property"));
    r.push(string_of(&cal));
    r.push(s("--timer-property"));
    r.push(s("Persistent=true"));
    r.push(s("--"));
    r.push(s("breadpad"));
    r.push(s("fire"));
    r.push(string_from(id));
    proof { assert(argv_view(r) =~= timer_args_spec(id@, on_calendar@)); }
    r
}

/// The `OnCalendar` text of a fire instant: its local wall-clock reading
/// as `%Y-%m-%d %H:%M:%S`. The reading rests on the local zone; the text
/// is the formatting of the zone's reading, which lies less than a day
/// from the instant. `None` exactly for an instant within a day of the
/// ends of the representable range, where a local reading may not exist.
pub fn on_calendar_text(fire_time: i64) -> (r: Option<String>)
    requires
        utc_ok(fire_time as int),
    ensures
        r is Some <==> local_ok(fire_time as int),
        r matches Some(t) ==> exists|w: WallTime|
            wall_ok(w) && near_offset(w, fire_time as int) && t@ == wall_text(w),
{
    if fire_time < crate::clock::MIN_UTC + SECS_PER_DAY || fire_time > crate::clock::MAX_UTC
        - SECS_PER_DAY {
        return None;
    }
    let w = utc_to_local(fire_time);
    Some(dashed_text_exec(w))
}

// ---------------------------------------------------------------------------
// RRULE reading

/// `s` with the prefix `p` removed as long as it is there
/// (`str::trim_start_matches` with a string pattern).
pub open spec fn strip_all_prefix(s: Seq<char>, p: Seq<char>) -> Seq<char>
    decreases s.len(),
{
    if p.len() > 0 && crate::text::starts_with(s, p) {
        strip_all_prefix(s.subrange(p.len() as int, s.len() as int), p)
    } else {
        s
    }
}

/// `key=value` split at the first `=`; `None` without an `=`.
pub open spec fn kv_spec(part: Seq<char>) -> Option<(Seq<char>, Seq<char>)> {
    match find(part, seq!['=']) {
        Some(i) => Some((part.subrange(0, i), part.subrange(i + 1, part.len() as int))),
        None => None,
    }
}

/// The value of the last `key=value` part with the given key (later
/// parts override earlier ones).
pub open spec fn lookup_spec(parts: Seq<Seq<char>>, key: Seq<char>) -> Option<Seq<char>>
    decreases parts.len(),
{
    if parts.len() == 0 {
        None
    } else {
        match kv_spec(parts.last()) {
            Some(kv) => if kv.0 == key {
                Some(kv.1)
            } else {
                lookup_spec(parts.drop_last(), key)
            },
            None => lookup_spec(parts.drop_last(), key),
        }
    }
}

/// The `;`-separated parts of a rule, with any leading `RRULE:` removed.
pub open spec fn rule_parts(rule: Seq<char>) -> Seq<Seq<char>> {
    split_char(strip_all_prefix(rule, "RRULE:"@), ';')
}

/// Hour and minute of the configured morning: the text before the first
/// `:` and the text after it, each parsed on its own (8 and 0 when they
/// do not parse).
pub open spec fn default_hm(m: Seq<char>) -> (int, int) {
    match find(m, seq![':']) {
        Some(i) => (
            match parse_u32_spec(m.subrange(0, i)) {
                Some(h) => h as int,
                None => 8,
            },
            match parse_u32_spec(m.subrange(i + 1, m.len() as int)) {
                Some(v) => v as int,
                None => 0,
            },
        ),
        None => (
            match parse_u32_spec(m) {
                Some(h) => h as int,
                None => 8,
            },
            0,
        ),
    }
}

/// The weekdays a weekly rule repeats on.
#[derive(Clone, Copy, Debug, PartialEq, Eq, Structural)]
pub struct WeekDays {
    pub mo: bool,
    pub tu: bool,
    pub we: bool,
    pub th: bool,
    pub fr: bool,
    pub sa: bool,
    pub su: bool,
}

/// How often a rule repeats.
#[derive(Clone, Copy, Debug, PartialEq, Eq, Structural)]
pub enum Freq {
    Daily,
    /// Weekly, on the listed weekdays.
    Weekly(WeekDays),
}

/// Whether weekday `wd` (Monday = 0) is among `d`.
pub open spec fn has_day(d: WeekDays, wd: int) -> bool {
    if wd == 0 {
        d.mo
    } else if wd == 1 {
        d.tu
    } else if wd == 2 {
        d.we
    } else if wd == 3 {
        d.th
    } else if wd == 4 {
        d.fr
    } else if wd == 5 {
        d.sa
    } else {
        d.su
    }
}

/// `d` with weekday `wd` added.
pub open spec fn with_day(d: WeekDays, wd: int) -> WeekDays {
    if wd == 0 {
        WeekDays { mo: true, ..d }
    } else if wd == 1 {
        WeekDays { tu: true, ..d }
    } else if wd == 2 {
        WeekDays { we: true, ..d }
    } else if wd == 3 {
        WeekDays { th: true, ..d }
    } else if wd == 4 {
        WeekDays { fr: true, ..d }
    } else if wd == 5 {
        WeekDays { sa: true, ..d }
    } else {
        WeekDays { su: true, ..d }
    }
}

pub open spec fn no_days() -> WeekDays {
    WeekDays { mo: false, tu: false, we: false, th: false, fr: false, sa: false, su: false }
}

/// The weekdays a list of two-letter codes names (see [`byday_spec`]).
pub open spec fn days_of(codes: Seq<Seq<char>>) -> WeekDays
    decreases codes.len(),
{
    if codes.len() == 0 {
        no_days()
    } else {
        with_day(days_of(codes.drop_last()), byday_spec(codes.last()))
    }
}

/// The weekdays of a `BYDAY` value: its comma-separated codes.
pub open spec fn byday_set(v: Seq<char>) -> WeekDays {
    days_of(split_char(v, ','))
}

/// Whether `d` names any weekday.
pub open spec fn some_day(d: WeekDays) -> bool {
    d.mo || d.tu || d.we || d.th || d.fr || d.sa || d.su
}

/// A rule's repetition and time of day: `FREQ` must be `DAILY` or
/// `WEEKLY`; `BYHOUR`/`BYMINUTE` (or the morning default) must name a time
/// of day; a weekly rule repeats on the weekdays its `BYDAY` lists,
/// comma-separated (Monday when absent; a code other than the seven
/// two-letter codes means Sunday).
pub open spec fn rrule_schedule_spec(rule: Seq<char>, morning: Seq<char>) -> Option<(Freq, TimeOfDay)> {
    if trim(rule).len() == 0 {
        None
    } else {
        let parts = rule_parts(rule);
        match lookup_spec(parts, "FREQ"@) {
            None => None,
            Some(freq) => {
                let dm = default_hm(morning);
                let h: int = match lookup_spec(parts, "BYHOUR"@) {
                    Some(v) => match parse_u32_spec(v) {
                        Some(x) => x as int,
                        None => dm.0,
                    },
                    None => dm.0,
                };
                let m: int = match lookup_spec(parts, "BYMINUTE"@) {
                    Some(v) => match parse_u32_spec(v) {
                        Some(x) => x as int,
                        None => dm.1,
                    },
                    None => dm.1,
                };
                if !(0 <= h < 24 && 0 <= m < 60) {
                    None
                } else {
                    let t = TimeOfDay { hour: h as u32, minute: m as u32 };
                    if freq == "DAILY"@ {
                        Some((Freq::Daily, t))
                    } else if freq == "WEEKLY"@ {
                        let d = match lookup_spec(parts, "BYDAY"@) {
                            Some(v) => v,
                            None => "MO"@,
                        };
                        Some((Freq::Weekly(byday_set(d)), t))
                    } else {
                        None
                    }
                }
            },
        }
    }
}

/// Weekday number of a two-letter iCalendar code; anything else is Sunday.
pub open spec fn byday_spec(d: Seq<char>) -> int {
    if d == "MO"@ {
        0
    } else if d == "TU"@ {
        1
    } else if d == "WE"@ {
        2
    } else if d == "TH"@ {
        3
    } else if d == "FR"@ {
        4
    } else if d == "SA"@ {
        5
    } else {
        6
    }
}

/// Whether `k` days after the clock's local day, at time `t`, is an
/// occurrence of a weekly rule on `d` after the moment `c`: its weekday is
/// listed, and on the clock's own day the time is still ahead.
pub open spec fn weekly_hit(d: WeekDays, t: TimeOfDay, c: Clock, k: int) -> bool {
    has_day(d, weekday_of(c.local.day + k)) && (k > 0 || c.local.secs < tod_secs(t))
}

/// The first `j` from `k` to 6 that is a [`weekly_hit`], else 7.
pub open spec fn first_hit_from(d: WeekDays, t: TimeOfDay, c: Clock, k: int) -> int
    decreases 7 - k,
{
    if k >= 7 {
        7
    } else if weekly_hit(d, t, c, k) {
        k
    } else {
        first_hit_from(d, t, c, k + 1)
    }
}

/// Days from the clock's local day to the next occurrence of a weekly rule
/// on `d` at time `t`.
pub open spec fn weekly_days_until(d: WeekDays, t: TimeOfDay, c: Clock) -> int {
    first_hit_from(d, t, c, 0)
}

/// The local reading of the next occurrence at clock `c`: for a daily rule
/// today's time if still ahead, else tomorrow's; for a weekly rule the
/// earliest day ahead whose weekday it lists, at that time.
pub open spec fn rrule_target_spec(rule: Seq<char>, morning: Seq<char>, c: Clock) -> Option<WallTime> {
    match rrule_schedule_spec(rule, morning) {
        None => None,
        Some((Freq::Daily, t)) => Some(
            if c.local.secs < tod_secs(t) {
                at_time(c.local.day as int, t)
            } else {
                at_time(c.local.day + 1, t)
            },
        ),
        Some((Freq::Weekly(d), t)) => Some(at_time(c.local.day + weekly_days_until(d, t, c), t)),
    }
}

fn strip_all_prefix_exec(v: &Vec<char>, p: &str) -> (r: Vec<char>)
    ensures
        r@ == strip_all_prefix(v@, p@),
    decreases v.len(),
{
    let pv = chars_of(p);
    if pv.len() > 0 && crate::text::starts_with_exec(v, p) {
        let rest = slice_vec(v, pv.len(), v.len());
        strip_all_prefix_exec(&rest, p)
    } else {
        v.clone()
    }
}

fn kv_exec(part: &Vec<char>) -> (r: Option<(Vec<char>, Vec<char>)>)
    ensures
        match r {
            Some(kv) => kv_spec(part@) == Some((kv.0@, kv.1@)),
            None => kv_spec(part@) is None,
        },
{
    let mut eq: Vec<char> = Vec::new();
    eq.push('=');
    proof { assert(eq@ =~= seq!['=']); }
    match find_from_exec(part, &eq, 0) {
        Some(i) => {
            proof {
                lemma_find(part@, eq@);
                assert(crate::text::occurs_at(part@, eq@, i as int));
                assert(i + 1 <= part@.len());
            }
            let n = part.len();
            let k = slice_vec(part, 0, i);
            let val = slice_vec(part, i + 1, n);
            Some((k, val))
        },
        None => None,
    }
}

fn eq_str(v: &Vec<char>, lit: &str) -> (b: bool)
    ensures
        b == (v@ == lit@),
{
    crate::types::vec_eq_str(v, lit)
}

fn lookup_exec(parts: &Vec<Vec<char>>, key: &str) -> (r: Option<Vec<char>>)
    ensures
        match r {
            Some(v) => lookup_spec(parts@.map_values(|p: Vec<char>| p@), key@) == Some(v@),
            None => lookup_spec(parts@.map_values(|p: Vec<char>| p@), key@) is None,
        },
{
    let ghost ps = parts@.map_values(|p: Vec<char>| p@);
    let mut i = parts.len();
    proof { assert(ps.take(i as int) =~= ps); }
    while i > 0
        invariant
            i <= parts.len(),
            ps == parts@.map_values(|p: Vec<char>| p@),
            lookup_spec(ps, key@) == lookup_spec(ps.take(i as int), key@),
        decreases i,
    {
        let ghost t = ps.take(i as int);
        proof {
            assert(t.last() == parts@[i - 1]@);
            assert(t.drop_last() =~= ps.take(i - 1));
        }
        match kv_exec(&parts[i - 1]) {
            Some(kv) => {
                if eq_str(&kv.0, key) {
                    return Some(kv.1);
                }
            },
            None => {},
        }
        i = i - 1;
    }
    None
}

fn default_hm_exec(m: &Vec<char>) -> (r: (u32, u32))
    ensures
        r.0 == default_hm(m@).0,
        r.1 == default_hm(m@).1,
{
    let mut colon: Vec<char> = Vec::new();
    colon.push(':');
    proof { assert(colon@ =~= seq![':']); }
    match find_from_exec(m, &colon, 0) {
        Some(i) => {
            proof {
                lemma_find(m@, colon@);
                assert(crate::text::occurs_at(m@, colon@, i as int));
                assert(i + 1 <= m@.len());
            }
            let h = match parse_u32(&slice_vec(m, 0, i)) {
                Some(h) => h,
                None => 8,
            };
            let n = m.len();
            let mm = match parse_u32(&slice_vec(m, i + 1, n)) {
                Some(v) => v,
                None => 0,
            };
            (h, mm)
        },
        None => {
            let h = match parse_u32(m) {
                Some(h) => h,
                None => 8,
            };
            (h, 0)
        },
    }
}

fn byday_exec(d: &Vec<char>) -> (r: u32)
    ensures
        r == byday_spec(d@),
{
    if eq_str(d, "MO") {
        0
    } else if eq_str(d, "TU") {
        1
    } else if eq_str(d, "WE") {
        2
    } else if eq_str(d, "TH") {
        3
    } else if eq_str(d, "FR") {
        4
    } else if eq_str(d, "SA") {
        5
    } else {
        6
    }
}

/// `d` with weekday `wd` added; see [`with_day`].
fn add_day_exec(d: WeekDays, wd: u32) -> (r: WeekDays)
    ensures
        r == with_day(d, wd as int),
{
    if wd == 0 {
        WeekDays { mo: true, ..d }
    } else if wd == 1 {
        WeekDays { tu: true, ..d }
    } else if wd == 2 {
        WeekDays { we: true, ..d }
    } else if wd == 3 {
        WeekDays { th: true, ..d }
    } else if wd == 4 {
        WeekDays { fr: true, ..d }
    } else if wd == 5 {
        WeekDays { sa: true, ..d }
    } else {
        WeekDays { su: true, ..d }
    }
}

fn has_day_exec(d: WeekDays, wd: i64) -> (b: bool)
    ensures
        b == has_day(d, wd as int),
{
    if wd == 0 {
        d.mo
    } else if wd == 1 {
        d.tu
    } else if wd == 2 {
        d.we
    } else if wd == 3 {
        d.th
    } else if wd == 4 {
        d.fr
    } else if wd == 5 {
        d.sa
    } else {
        d.su
    }
}

/// Adding a day to any set names some weekday.
proof fn lemma_with_day_some(d: WeekDays, wd: int)
    ensures
        some_day(with_day(d, wd)),
        has_day(with_day(d, wd), if 0 <= wd < 6 { wd } else { 6 }),
{
}

proof fn lemma_split_nonempty(s: Seq<char>, c: char)
    ensures
        split_char(s, c).len() >= 1,
    decreases s.len(),
{
    if s.len() > 0 {
        lemma_split_nonempty(s.drop_last(), c);
    }
}

/// The weekdays a `BYDAY` value lists; see [`byday_set`].
fn byday_set_exec(v: &Vec<char>) -> (r: WeekDays)
    ensures
        r == byday_set(v@),
        some_day(r),
{
    let codes = split_char_exec(v, ',');
    let ghost cs = split_char(v@, ',');
    proof {
        lemma_split_nonempty(v@, ',');
        assert(codes@.map_values(|p: Vec<char>| p@) =~= cs);
    }
    let mut r = WeekDays { mo: false, tu: false, we: false, th: false, fr: false, sa: false, su: false };
    let mut i: usize = 0;
    while i < codes.len()
        invariant
            i <= codes.len(),
            codes@.len() == cs.len(),
            forall|k: int| 0 <= k < codes@.len() ==> #[trigger] codes@[k]@ == cs[k],
            r == days_of(cs.take(i as int)),
            i > 0 ==> some_day(r),
        decreases codes.len() - i,
    {
        let wd = byday_exec(&codes[i]);
        proof {
            assert(cs.take(i + 1).drop_last() =~= cs.take(i as int));
            assert(cs.take(i + 1).last() == codes@[i as int]@);
            lemma_with_day_some(r, wd as int);
        }
        r = add_day_exec(r, wd);
        i = i + 1;
    }
    proof {
        assert(cs.take(codes.len() as int) =~= cs);
    }
    r
}

/// Reads a rule's repetition and time of day; see [`rrule_schedule_spec`].
pub fn rrule_schedule(rule: &str, morning: &str) -> (r: Option<(Freq, TimeOfDay)>)
    ensures
        r == rrule_schedule_spec(rule@, morning@),
        r matches Some((f, t)) ==> crate::clock::time_ok(t) && (f matches Freq::Weekly(d)
            ==> some_day(d)),
{
    let rv = chars_of(rule);
    let tr = trim_vec(&rv);
    if tr.len() == 0 {
        return None;
    }
    let stripped = strip_all_prefix_exec(&rv, "RRULE:");
    let parts = split_char_exec(&stripped, ';');
    proof {
        assert(parts@.map_values(|p: Vec<char>| p@) =~= rule_parts(rule@));
    }
    let freq = match lookup_exec(&parts, "FREQ") {
        Some(f) => f,
        None => return None,
    };
    let mv = chars_of(morning);
    let dm = default_hm_exec(&mv);
    let h: u32 = match lookup_exec(&parts, "BYHOUR") {
        Some(v) => match parse_u32(&v) {
            Some(x) => x,
            None => dm.0,
        },
        None => dm.0,
    };
    let m: u32 = match lookup_exec(&parts, "BYMINUTE") {
        Some(v) => match parse_u32(&v) {
            Some(x) => x,
            None => dm.1,
        },
        None => dm.1,
    };
    if !(h < 24 && m < 60) {
        return None;
    }
    let t = TimeOfDay { hour: h, minute: m };
    if eq_str(&freq, "DAILY") {
        Some((Freq::Daily, t))
    } else if eq_str(&freq, "WEEKLY") {
        let days = match lookup_exec(&parts, "BYDAY") {
            Some(v) => byday_set_exec(&v),
            None => {
                let mo = chars_of("MO");
                byday_set_exec(&mo)
            },
        };
        Some((Freq::Weekly(days), t))
    } else {
        None
    }
}

/// The local reading of a rule's next occurrence at clock `c`.
pub fn rrule_target(rule: &str, morning: &str, c: Clock) -> (r: Option<WallTime>)
    requires
        clock_ok(c),
    ensures
        r == rrule_target_spec(rule@, morning@, c),
        r matches Some(w) ==> wall_ok(w) && w.day < MAX_DAY,
{
    match rrule_schedule(rule, morning) {
        None => None,
        Some((Freq::Daily, t)) => {
            let ts = tod_seconds(t);
            if c.local.secs < ts {
                Some(WallTime { day: c.local.day, secs: ts })
            } else {
                Some(WallTime { day: c.local.day + 1, secs: ts })
            }
        },
        Some((Freq::Weekly(d), t)) => {
            let k = weekly_days_until_exec(d, t, c);
            Some(WallTime { day: c.local.day + k, secs: tod_seconds(t) })
        },
    }
}

/// Days to the next occurrence of a weekly rule on `d`; see
/// [`weekly_days_until`].
fn weekly_days_until_exec(d: WeekDays, t: TimeOfDay, c: Clock) -> (k: i64)
    requires
        clock_ok(c),
        crate::clock::time_ok(t),
    ensures
        k == weekly_days_until(d, t, c),
        0 <= k <= 7,
{
    let cur = weekday_of_day(c.local.day);
    let ts = tod_seconds(t);
    let mut k: i64 = 0;
    while k < 7
        invariant
            0 <= k <= 7,
            cur == weekday_of(c.local.day as int),
            ts == tod_secs(t),
            first_hit_from(d, t, c, 0) == first_hit_from(d, t, c, k as int),
        decreases 7 - k,
    {
        let wd: i64 = (cur as i64 + k) % 7;
        proof {
            vstd::arithmetic::div_mod::lemma_add_mod_noop(c.local.day + 3, k as int, 7);
            vstd::arithmetic::div_mod::lemma_small_mod(k as nat, 7);
            assert(wd == weekday_of(c.local.day + k));
        }
        if has_day_exec(d, wd) && (k > 0 || c.local.secs < ts) {
            return k;
        }
        k = k + 1;
    }
    k
}

/// The next occurrence of a weekly rule is the first day ahead that it
/// lists: no earlier day within the week is an occurrence, and the day it
/// gives is one (a week on when only today's weekday is listed and its
/// time has passed).
pub proof fn law_weekly_next_is_first(d: WeekDays, t: TimeOfDay, c: Clock)
    requires
        some_day(d),
    ensures
        0 <= weekly_days_until(d, t, c) <= 7,
        weekly_hit(d, t, c, weekly_days_until(d, t, c)),
        forall|j: int| 0 <= j < weekly_days_until(d, t, c) ==> !weekly_hit(d, t, c, j),
{
    lemma_first_hit(d, t, c, 0);
    let k = weekly_days_until(d, t, c);
    if k == 7 {
        // Some listed weekday; the day within the week that has it is no
        // hit, so it is today with its time passed, and a week on is one.
        let wd: int = if d.mo { 0 } else if d.tu { 1 } else if d.we { 2 } else if d.th { 3 } else if d.fr {
            4
        } else if d.sa {
            5
        } else {
            6
        };
        assert(has_day(d, wd));
        let today = weekday_of(c.local.day as int);
        let j: int = (wd - today) % 7;
        assert(0 <= j < 7);
        assert(weekday_of(c.local.day + j) == wd) by {
            vstd::arithmetic::div_mod::lemma_add_mod_noop(c.local.day + 3, wd - today, 7);
            vstd::arithmetic::div_mod::lemma_mod_twice(c.local.day + 3, 7);
            vstd::arithmetic::div_mod::lemma_small_mod(wd as nat, 7);
            assert((c.local.day + 3) % 7 + (wd - today) == wd);
        }
        assert(!weekly_hit(d, t, c, j));
        assert(j == 0);
        assert(weekday_of(c.local.day + 7) == weekday_of(c.local.day as int)) by {
            vstd::arithmetic::div_mod::lemma_mod_add_multiples_vanish(c.local.day + 3, 7);
        }
    }
}

/// A `BYDAY` value always names some weekday.
proof fn lemma_byday_some(v: Seq<char>)
    ensures
        some_day(byday_set(v)),
{
    let codes = split_char(v, ',');
    lemma_split_nonempty(v, ',');
    lemma_with_day_some(days_of(codes.drop_last()), byday_spec(codes.last()));
}

/// The next occurrence of a rule is after the moment it is asked at, at
/// the rule's time of day: for a daily rule within a day, for a weekly
/// rule on a listed weekday within a week, with no listed day before it.
pub proof fn law_next_occurrence_after_now(
    rule: Seq<char>,
    morning: Seq<char>,
    c: Clock,
    f: Freq,
    t: TimeOfDay,
)
    requires
        clock_ok(c),
        rrule_schedule_spec(rule, morning) == Some((f, t)),
    ensures
        rrule_target_spec(rule, morning, c) matches Some(w) && {
            &&& w.secs == tod_secs(t)
            &&& crate::clock::wall_as_utc(c.local) < crate::clock::wall_as_utc(w)
            &&& (f is Daily ==> crate::clock::wall_as_utc(w) <= crate::clock::wall_as_utc(c.local)
                + SECS_PER_DAY)
            &&& (f matches Freq::Weekly(d) ==> {
                &&& has_day(d, weekday_of(w.day as int))
                &&& crate::clock::wall_as_utc(w) <= crate::clock::wall_as_utc(c.local) + 7
                    * SECS_PER_DAY
                &&& forall|j: int| 0 <= j < w.day - c.local.day ==> !weekly_hit(d, t, c, j)
            })
        },
{
    assert(tod_secs(t) < SECS_PER_DAY);
    if let Freq::Weekly(d) = f {
        let parts = rule_parts(rule);
        let v = match lookup_spec(parts, "BYDAY"@) {
            Some(v) => v,
            None => "MO"@,
        };
        lemma_byday_some(v);
        assert(d == byday_set(v));
        law_weekly_next_is_first(d, t, c);
    }
}

proof fn lemma_first_hit(d: WeekDays, t: TimeOfDay, c: Clock, k: int)
    requires
        0 <= k <= 7,
    ensures
        k <= first_hit_from(d, t, c, k) <= 7,
        first_hit_from(d, t, c, k) < 7 ==> weekly_hit(d, t, c, first_hit_from(d, t, c, k)),
        forall|j: int| k <= j < first_hit_from(d, t, c, k) ==> !weekly_hit(d, t, c, j),
    decreases 7 - k,
{
    if k < 7 && !weekly_hit(d, t, c, k) {
        lemma_first_hit(d, t, c, k + 1);
    }
}

/// The instant of a rule's next occurrence after the current moment. The
/// local reading of [`rrule_target`] is resolved through the local zone;
/// `None` when the rule names no schedule, when the moment lies at the
/// ends of the calendar, or when the reading does not name exactly one
/// instant (a daylight-saving gap or overlap). Whether the zone names one
/// instant, and which, rests on the machine; a returned instant is the
/// one the zone names for the rule's next reading at the moment taken, so
/// it lies less than a day from that reading.
pub fn parse_next_from_rrule(rrule_str: &str, default_morning: &str) -> (r: Option<i64>)
    ensures
        rrule_schedule_spec(rrule_str@, default_morning@) is None ==> r is None,
        r matches Some(t) ==> utc_ok(t as int) && exists|c: Clock|
            #![trigger rrule_target_spec(rrule_str@, default_morning@, c)]
            clock_ok(c) && (rrule_target_spec(rrule_str@, default_morning@, c) matches Some(w)
                && near_offset(w, t as int)),
{
    let c = clock_now();
    if !(c.local.day <= MAX_DAY - 8 && c.utc <= crate::clock::MAX_UTC - SECS_PER_DAY) {
        return None;
    }
    match rrule_target(rrule_str, default_morning, c) {
        Some(w) => match lookup_local(w) {
            LocalLookup::Single(t) => Some(t),
            _ => None,
        },
        None => None,
    }
}


/// A `BYDAY` value of no comma splits into itself.
proof fn lemma_split_no_comma(v: Seq<char>)
    requires
        forall|i: int| 0 <= i < v.len() ==> v[i] != ',',
    ensures
        split_char(v, ',') == seq![v],
    decreases v.len(),
{
    if v.len() > 0 {
        lemma_split_no_comma(v.drop_last());
        assert(v.drop_last().push(v.last()) =~= v);
    } else {
        assert(v =~= Seq::<char>::empty());
    }
}

/// Each weekday's two-letter code, as the parser writes it, reads back as
/// that weekday alone: a weekly rule whose `BYDAY` is the code for weekday
/// `k` repeats on weekday `k` and on no other.
pub proof fn law_day_code_round_trip(k: int, j: int)
    requires
        0 <= k < 7,
        0 <= j < 7,
    ensures
        byday_spec(crate::parser::rrule_day_spec(k)) == k,
        has_day(byday_set(crate::parser::rrule_day_spec(k)), j) <==> j == k,
{
    reveal_strlit("MO");
    reveal_strlit("TU");
    reveal_strlit("WE");
    reveal_strlit("TH");
    reveal_strlit("FR");
    reveal_strlit("SA");
    reveal_strlit("SU");
    let code = crate::parser::rrule_day_spec(k);
    assert("TU"@[0] != "MO"@[0]);
    assert("WE"@[0] != "MO"@[0] && "WE"@[0] != "TU"@[0]);
    assert("TH"@[0] != "MO"@[0] && "TH"@[1] != "TU"@[1] && "TH"@[0] != "WE"@[0]);
    assert("FR"@[0] != "MO"@[0] && "FR"@[0] != "TU"@[0] && "FR"@[0] != "WE"@[0] && "FR"@[0]
        != "TH"@[0]);
    assert("SA"@[0] != "MO"@[0] && "SA"@[0] != "TU"@[0] && "SA"@[0] != "WE"@[0] && "SA"@[0]
        != "TH"@[0] && "SA"@[0] != "FR"@[0]);
    assert(code.len() == 2 && code[0] != ',' && code[1] != ',');
    lemma_split_no_comma(code);
    let codes = split_char(code, ',');
    assert(codes.drop_last() =~= Seq::<Seq<char>>::empty());
    assert(codes.last() == code);
    assert(codes.len() == 1);
    assert(days_of(codes.drop_last()) == no_days());
    assert(byday_set(code) == with_day(no_days(), byday_spec(code)));
}

} // verus!
