//! Rule-based classification of captured text: time and recurrence
//! extraction, body cleaning and note-type inference.
//!
//! Phrases are found with the `regex` crate; what a pattern matches in a
//! text is named by [`regex_captures`] and [`regex_removed`], and the
//! contracts below are stated over those names.

use crate::clock::{
    at_time, clock_now, clock_ok, local_naive_to_utc, tod_seconds, tod_secs, time_ok,
    weekday_of, weekday_of_day, Clock, TimeOfDay, WallTime, MAX_DAY, MAX_DELTA_SECS, MAX_UTC,
    MIN_UTC, SECS_PER_DAY,
};
use crate::text::{
    chars_of, contains, contains_exec, dec, dec_u64, ends_with, ends_with_exec, parse_i64,
    parse_i64_spec, parse_u32, parse_u32_spec, push_all, push_str, replace_first,
    replace_first_exec, split_char, split_char_exec, starts_with, starts_with_exec, string_of,
    trim, trim_by, trim_vec,
};
use crate::types::{
    ascii_lower_char, lowercase, to_lowercase, ClassificationResult, NoteKind, NoteType,
    RecurrenceRule,
};
use vstd::prelude::*;

verus! {

// ---------------------------------------------------------------------------
// Patterns

pub const AT_TIME: &'static str = r"(?i)\bat\s+(\d{1,2})(?::(\d{2}))?\s*(am|pm)?";
pub const IN_DURATION: &'static str = r"(?i)\bin\s+(\d+)\s+(second|minute|hour|day|week)s?";
pub const IN_DURATION_WORD: &'static str = r"(?i)\bin\s+(?:an?\s+hour|a\s+couple\s+of\s+hours?|a\s+few\s+hours?|half\s+an?\s+hour|an?\s+minutes?|a\s+couple\s+of\s+minutes?)";
pub const TOMORROW: &'static str = r"(?i)\btomorrow(?:\s+morning|\s+evening|\s+afternoon)?";
pub const NEXT_WEEKDAY: &'static str = r"(?i)\bnext\s+(monday|tuesday|wednesday|thursday|friday|saturday|sunday)";
pub const TONIGHT: &'static str = r"(?i)\b(?:tonight|this\s+evening)\b";
pub const EVERY_WEEKDAYS: &'static str = r"(?i)\bevery\s+weekday(?:\s+(?:at\s+(\d{1,2})(?::(\d{2}))?\s*(am|pm)?|(morning|afternoon|evening)))?";
pub const EVERY_WEEKDAY: &'static str = r"(?i)\bevery\s+(monday|tuesday|wednesday|thursday|friday|saturday|sunday)(?:\s+at\s+(\d{1,2})(?::(\d{2}))?\s*(am|pm)?)?";
pub const EVERY_WEEK: &'static str = r"(?i)\bevery\s+week\b(?:\s+at\s+(\d{1,2})(?::(\d{2}))?\s*(am|pm)?)?";
pub const EVERY_DAY: &'static str = r"(?i)\bevery\s+day(?:\s+at\s+(\d{1,2})(?::(\d{2}))?\s*(am|pm)?)?";
pub const MORNING_EVENING: &'static str = r"(?i)\b(?:this\s+(?:morning|evening|afternoon|night)|tonight|morning|evening|afternoon|night)\b";

/// What the `regex` crate finds for `pattern` in `haystack`: `None` when
/// nothing matches (or the pattern does not compile), otherwise the text
/// of every capture group of the leftmost-first match, group 0 being the
/// whole match and absent groups `None`.
pub uninterp spec fn regex_captures(pattern: Seq<char>, haystack: Seq<char>) -> Option<
    Seq<Option<Seq<char>>>,
>;

/// `haystack` with every non-overlapping match of `pattern` removed
/// (`Regex::replace_all` with an empty replacement); `haystack` itself when
/// the pattern does not compile.
pub uninterp spec fn regex_removed(pattern: Seq<char>, haystack: Seq<char>) -> Seq<char>;

pub open spec fn groups_view(v: Vec<Option<String>>) -> Seq<Option<Seq<char>>> {
    v@.map_values(|g: Option<String>| match g {
        Some(s) => Some(s@),
        None => None,
    })
}

pub open spec fn captures_view(r: Option<Vec<Option<String>>>) -> Option<Seq<Option<Seq<char>>>> {
    match r {
        Some(v) => Some(groups_view(v)),
        None => None,
    }
}

/// Runs `regex::Regex::captures` for `pattern` on `haystack` and hands back
/// the text of each group.
#[verifier::external_body]
fn captures(pattern: &str, haystack: &str) -> (r: Option<Vec<Option<String>>>)
    ensures
        captures_view(r) == regex_captures(pattern@, haystack@),
{
    let re = regex::Regex::new(pattern).ok()?;
    let caps = re.captures(haystack)?;
    let mut out = Vec::new();
    for m in caps.iter() {
        out.push(m.map(|m| m.as_str().to_string()));
    }
    Some(out)
}

/// Runs `regex::Regex::replace_all` for `pattern` on `haystack` with an
/// empty replacement.
#[verifier::external_body]
fn remove_matches(pattern: &str, haystack: &str) -> (r: String)
    ensures
        r@ == regex_removed(pattern@, haystack@),
{
    match regex::Regex::new(pattern) {
        Ok(re) => re.replace_all(haystack, "").into_owned(),
        Err(_) => haystack.to_string(),
    }
}

/// Group `i` of a capture list, `None` when absent.
pub open spec fn grp(c: Seq<Option<Seq<char>>>, i: int) -> Option<Seq<char>> {
    if 0 <= i < c.len() {
        c[i]
    } else {
        None
    }
}

/// Group `i` as text, empty when absent.
pub open spec fn grp_text(c: Seq<Option<Seq<char>>>, i: int) -> Seq<char> {
    match grp(c, i) {
        Some(s) => s,
        None => seq![],
    }
}

fn group(c: &Vec<Option<String>>, i: usize) -> (r: Option<Vec<char>>)
    ensures
        match r {
            Some(v) => grp(groups_view(*c), i as int) == Some(v@),
            None => grp(groups_view(*c), i as int) is None,
        },
{
    if i < c.len() {
        match &c[i] {
            Some(s) => Some(chars_of(s.as_str())),
            None => None,
        }
    } else {
        None
    }
}

fn group_text(c: &Vec<Option<String>>, i: usize) -> (r: Vec<char>)
    ensures
        r@ == grp_text(groups_view(*c), i as int),
{
    match group(c, i) {
        Some(v) => v,
        None => Vec::new(),
    }
}

// ---------------------------------------------------------------------------
// Times of day and weekdays

/// ASCII case-insensitive equality (`str::eq_ignore_ascii_case`).
pub open spec fn eq_ignore_ascii_case(a: Seq<char>, b: Seq<char>) -> bool {
    a.len() == b.len() && forall|i: int|
        0 <= i < a.len() ==> ascii_lower_char(#[trigger] a[i]) == ascii_lower_char(b[i])
}

fn lower_ascii(c: char) -> (r: char)
    ensures
        r == ascii_lower_char(c),
{
    if 'A' <= c && c <= 'Z' {
        ((c as u8) + 32) as char
    } else {
        c
    }
}

fn eq_ignore_ascii_case_exec(a: &Vec<char>, b: &str) -> (r: bool)
    ensures
        r == eq_ignore_ascii_case(a@, b@),
{
    let bv = chars_of(b);
    if a.len() != bv.len() {
        return false;
    }
    let mut i: usize = 0;
    while i < a.len()
        invariant
            i <= a.len(),
            a.len() == bv.len(),
            bv@ == b@,
            forall|k: int| 0 <= k < i ==> ascii_lower_char(#[trigger] a@[k]) == ascii_lower_char(bv@[k]),
        decreases a.len() - i,
    {
        if lower_ascii(a[i]) != lower_ascii(bv[i]) {
            return false;
        }
        i = i + 1;
    }
    true
}

/// The time named by an hour, optional minutes and optional am/pm marker:
/// the hour defaults to 9 and the minutes to 0 when they do not parse;
/// `pm` adds 12 to hours below 12 and `am` maps 12 to 0; a result outside
/// the day falls back to 09:00.
pub open spec fn hour_minute(
    hour: Seq<char>,
    min: Option<Seq<char>>,
    ampm: Option<Seq<char>>,
) -> TimeOfDay {
    let h0: int = match parse_u32_spec(hour) {
        Some(h) => h as int,
        None => 9,
    };
    let m: int = match min {
        Some(s) => match parse_u32_spec(s) {
            Some(v) => v as int,
            None => 0,
        },
        None => 0,
    };
    let h: int = match ampm {
        Some(a) => if eq_ignore_ascii_case(a, "pm"@) && h0 < 12 {
            h0 + 12
        } else if eq_ignore_ascii_case(a, "am"@) && h0 == 12 {
            0
        } else {
            h0
        },
        None => h0,
    };
    if h < 24 && m < 60 {
        TimeOfDay { hour: h as u32, minute: m as u32 }
    } else {
        TimeOfDay { hour: 9, minute: 0 }
    }
}

pub fn parse_time_of_day(hour: &Vec<char>, min: Option<Vec<char>>, ampm: Option<Vec<char>>) -> (t:
    TimeOfDay)
    ensures
        t == hour_minute(
            hour@,
            match min {
                Some(v) => Some(v@),
                None => None,
            },
            match ampm {
                Some(v) => Some(v@),
                None => None,
            },
        ),
        time_ok(t),
{
    let mut h: u32 = match parse_u32(hour) {
        Some(h) => h,
        None => 9,
    };
    let m: u32 = match &min {
        Some(s) => match parse_u32(s) {
            Some(v) => v,
            None => 0,
        },
        None => 0,
    };
    match &ampm {
        Some(a) => {
            if eq_ignore_ascii_case_exec(a, "pm") && h < 12 {
                h = h + 12;
            } else if eq_ignore_ascii_case_exec(a, "am") && h == 12 {
                h = 0;
            }
        },
        None => {},
    }
    if h < 24 && m < 60 {
        TimeOfDay { hour: h, minute: m }
    } else {
        TimeOfDay { hour: 9, minute: 0 }
    }
}

/// The configured morning time `"HH:MM"`: the first two `:`-separated
/// fields as hour and minute when both parse and name a time of day,
/// 08:00 otherwise.
pub open spec fn morning_spec(s: Seq<char>) -> TimeOfDay {
    let parts = split_char(s, ':');
    if parts.len() >= 2 {
        match (parse_u32_spec(parts[0]), parse_u32_spec(parts[1])) {
            (Some(h), Some(m)) => if h < 24 && m < 60 {
                TimeOfDay { hour: h, minute: m }
            } else {
                TimeOfDay { hour: 8, minute: 0 }
            },
            _ => TimeOfDay { hour: 8, minute: 0 },
        }
    } else {
        TimeOfDay { hour: 8, minute: 0 }
    }
}

pub fn morning_time(s: &str) -> (t: TimeOfDay)
    ensures
        t == morning_spec(s@),
        time_ok(t),
{
    let v = chars_of(s);
    let parts = split_char_exec(&v, ':');
    if parts.len() >= 2 {
        match (parse_u32(&parts[0]), parse_u32(&parts[1])) {
            (Some(h), Some(m)) => if h < 24 && m < 60 {
                TimeOfDay { hour: h, minute: m }
            } else {
                TimeOfDay { hour: 8, minute: 0 }
            },
            _ => TimeOfDay { hour: 8, minute: 0 },
        }
    } else {
        TimeOfDay { hour: 8, minute: 0 }
    }
}

/// Weekday number (Monday = 0) of an English day name, compared after
/// lowercasing; anything unrecognised is Sunday.
pub open spec fn weekday_spec(s: Seq<char>) -> int {
    let l = lowercase(s);
    if l == "monday"@ {
        0
    } else if l == "tuesday"@ {
        1
    } else if l == "wednesday"@ {
        2
    } else if l == "thursday"@ {
        3
    } else if l == "friday"@ {
        4
    } else if l == "saturday"@ {
        5
    } else {
        6
    }
}

fn eq_str(v: &Vec<char>, s: &str) -> (b: bool)
    ensures
        b == (v@ == s@),
{
    crate::types::vec_eq_str(v, s)
}

pub fn weekday_from_str(s: &Vec<char>) -> (w: u32)
    ensures
        w == weekday_spec(s@),
        w < 7,
{
    let st = string_of(s);
    let l = to_lowercase(st.as_str());
    let lv = chars_of(l.as_str());
    if eq_str(&lv, "monday") {
        0
    } else if eq_str(&lv, "tuesday") {
        1
    } else if eq_str(&lv, "wednesday") {
        2
    } else if eq_str(&lv, "thursday") {
        3
    } else if eq_str(&lv, "friday") {
        4
    } else if eq_str(&lv, "saturday") {
        5
    } else {
        6
    }
}

/// The two-letter iCalendar code of a weekday number.
pub open spec fn rrule_day_spec(wd: int) -> Seq<char> {
    if wd == 0 {
        "MO"@
    } else if wd == 1 {
        "TU"@
    } else if wd == 2 {
        "WE"@
    } else if wd == 3 {
        "TH"@
    } else if wd == 4 {
        "FR"@
    } else if wd == 5 {
        "SA"@
    } else {
        "SU"@
    }
}

pub fn rrule_weekday(wd: u32) -> (r: &'static str)
    ensures
        r@ == rrule_day_spec(wd as int),
{
    if wd == 0 {
        "MO"
    } else if wd == 1 {
        "TU"
    } else if wd == 2 {
        "WE"
    } else if wd == 3 {
        "TH"
    } else if wd == 4 {
        "FR"
    } else if wd == 5 {
        "SA"
    } else {
        "SU"
    }
}

/// Days from the clock's local day to the next day with weekday `wd` at
/// time `t`: today if that time is still ahead, otherwise a week on.
pub open spec fn days_until(wd: int, t: TimeOfDay, c: Clock) -> int {
    let d = (wd - weekday_of(c.local.day as int)) % 7;
    if d == 0 {
        if c.local.secs < tod_secs(t) {
            0
        } else {
            7
        }
    } else {
        d
    }
}

/// The next local reading on weekday `wd` at time `t`.
pub open spec fn next_weekday_spec(wd: int, t: TimeOfDay, c: Clock) -> WallTime {
    at_time(c.local.day + days_until(wd, t, c), t)
}

pub fn next_occurrence_of_weekday(wd: u32, t: TimeOfDay, c: Clock) -> (w: WallTime)
    requires
        wd < 7,
        time_ok(t),
        clock_ok(c),
    ensures
        w == next_weekday_spec(wd as int, t, c),
        crate::clock::wall_ok(w),
        w.day < MAX_DAY,
{
    let cur = weekday_of_day(c.local.day);
    let diff: i64 = wd as i64 - cur as i64;
    let d: i64 = if diff < 0 { diff + 7 } else { diff };
    let ts = tod_seconds(t);
    let d = if d == 0 {
        if c.local.secs < ts {
            0
        } else {
            7
        }
    } else {
        d
    };
    WallTime { day: c.local.day + d, secs: ts }
}

// ---------------------------------------------------------------------------
// Recurrence rule text

pub open spec fn hm_fields(t: TimeOfDay) -> Seq<char> {
    "BYHOUR="@ + dec(t.hour as nat) + ";BYMINUTE="@ + dec(t.minute as nat) + ";BYSECOND=0"@
}

/// `RRULE:FREQ=DAILY;BYHOUR=h;BYMINUTE=m;BYSECOND=0`.
pub open spec fn daily_rule(t: TimeOfDay) -> Seq<char> {
    "RRULE:FREQ=DAILY;"@ + hm_fields(t)
}

/// `RRULE:FREQ=WEEKLY;BYDAY=d;BYHOUR=h;BYMINUTE=m;BYSECOND=0`.
pub open spec fn weekly_rule(day: Seq<char>, t: TimeOfDay) -> Seq<char> {
    "RRULE:FREQ=WEEKLY;BYDAY="@ + day + ";"@ + hm_fields(t)
}

/// Monday-to-Friday rule at time `t`.
pub open spec fn weekdays_rule(t: TimeOfDay) -> Seq<char> {
    "RRULE:FREQ=WEEKLY;BYDAY=MO,TU,WE,TH,FR;"@ + hm_fields(t)
}

fn push_hm_fields(v: &mut Vec<char>, t: TimeOfDay)
    ensures
        final(v)@ == old(v)@ + hm_fields(t),
{
    push_str(v, "BYHOUR=");
    let h = dec_u64(t.hour as u64);
    push_all(v, &h);
    push_str(v, ";BYMINUTE=");
    let m = dec_u64(t.minute as u64);
    push_all(v, &m);
    push_str(v, ";BYSECOND=0");
    proof {
        assert(final(v)@ =~= old(v)@ + hm_fields(t));
    }
}

fn daily_rule_exec(t: TimeOfDay) -> (r: Vec<char>)
    ensures
        r@ == daily_rule(t),
{
    let mut v: Vec<char> = Vec::new();
    push_str(&mut v, "RRULE:FREQ=DAILY;");
    push_hm_fields(&mut v, t);
    proof { assert(v@ =~= daily_rule(t)); }
    v
}

fn weekly_rule_exec(day: &str, t: TimeOfDay) -> (r: Vec<char>)
    ensures
        r@ == weekly_rule(day@, t),
{
    let mut v: Vec<char> = Vec::new();
    push_str(&mut v, "RRULE:FREQ=WEEKLY;BYDAY=");
    push_str(&mut v, day);
    push_str(&mut v, ";");
    push_hm_fields(&mut v, t);
    proof { assert(v@ =~= weekly_rule(day@, t)); }
    v
}

fn weekdays_rule_exec(t: TimeOfDay) -> (r: Vec<char>)
    ensures
        r@ == weekdays_rule(t),
{
    let mut v: Vec<char> = Vec::new();
    push_str(&mut v, "RRULE:FREQ=WEEKLY;BYDAY=MO,TU,WE,TH,FR;");
    push_hm_fields(&mut v, t);
    proof { assert(v@ =~= weekdays_rule(t)); }
    v
}

// ---------------------------------------------------------------------------
// Note type inference

/// Phrases anywhere in a lowercased text that mark an action item.
pub open spec fn todo_anywhere() -> Seq<Seq<char>> {
    seq!["buy "@, "pick up"@, "clean "@]
}

/// Leading verbs of a lowercased text that mark an action item.
pub open spec fn todo_leading() -> Seq<Seq<char>> {
    seq![
        "call "@, "email "@, "fix "@, "check "@, "finish "@, "write "@, "update "@,
        "prepare "@, "schedule "@, "organize "@, "deploy "@, "install "@, "send "@,
        "submit "@, "create "@, "setup "@, "restore "@, "archive "@, "export "@,
        "import "@, "approve "@, "configure "@, "refactor "@, "review "@,
    ]
}

/// Leading words of a lowercased text that mark a question (besides a
/// leading "what " that is not "what if ").
pub open spec fn question_leading() -> Seq<Seq<char>> {
    seq![
        "why "@, "how "@, "when "@, "where "@, "who "@, "will "@, "is "@, "are "@,
        "did "@, "does "@,
    ]
}

pub open spec fn any_contains(l: Seq<char>, ps: Seq<Seq<char>>) -> bool {
    exists|i: int| 0 <= i < ps.len() && contains(l, #[trigger] ps[i])
}

pub open spec fn any_starts(l: Seq<char>, ps: Seq<Seq<char>>) -> bool {
    exists|i: int| 0 <= i < ps.len() && starts_with(l, #[trigger] ps[i])
}

pub open spec fn is_todo_text(l: Seq<char>) -> bool {
    any_contains(l, todo_anywhere()) || any_starts(l, todo_leading())
}

pub open spec fn is_idea_text(l: Seq<char>) -> bool {
    ||| starts_with(l, "what if "@)
    ||| starts_with(l, "idea:"@)
    ||| contains(l, "could "@)
    ||| contains(l, "maybe "@)
    ||| starts_with(l, "should we "@)
}

pub open spec fn is_question_text(l: Seq<char>) -> bool {
    ||| any_starts(l, question_leading())
    ||| (starts_with(l, "what "@) && !starts_with(l, "what if "@))
    ||| ends_with(l, "?"@)
}

/// The inferred type: a reminder whenever a time or recurrence was found;
/// otherwise, judged on the lowercased text, a todo, an idea, a question,
/// or a plain note, in that order of precedence.
pub open spec fn infer_spec(text: Seq<char>, has_time: bool, has_rrule: bool) -> NoteKind {
    let l = lowercase(text);
    if has_rrule || has_time {
        NoteKind::Reminder
    } else if is_todo_text(l) {
        NoteKind::Todo
    } else if is_idea_text(l) {
        NoteKind::Idea
    } else if is_question_text(l) {
        NoteKind::Question
    } else {
        NoteKind::Note
    }
}

fn todo_anywhere_list() -> (v: Vec<&'static str>)
    ensures
        v@.len() == todo_anywhere().len(),
        forall|i: int| 0 <= i < v@.len() ==> (#[trigger] v@[i])@ == todo_anywhere()[i],
{
    let mut v: Vec<&'static str> = Vec::new();
    v.push("buy ");
    v.push("pick up");
    v.push("clean ");
    v
}

fn todo_leading_list() -> (v: Vec<&'static str>)
    ensures
        v@.len() == todo_leading().len(),
        forall|i: int| 0 <= i < v@.len() ==> (#[trigger] v@[i])@ == todo_leading()[i],
{
    let mut v: Vec<&'static str> = Vec::new();
    v.push("call ");
    v.push("email ");
    v.push("fix ");
    v.push("check ");
    v.push("finish ");
    v.push("write ");
    v.push("update ");
    v.push("prepare ");
    v.push("schedule ");
    v.push("organize ");
    v.push("deploy ");
    v.push("install ");
    v.push("send ");
    v.push("submit ");
    v.push("create ");
    v.push("setup ");
    v.push("restore ");
    v.push("archive ");
    v.push("export ");
    v.push("import ");
    v.push("approve ");
    v.push("configure ");
    v.push("refactor ");
    v.push("review ");
    v
}

fn question_leading_list() -> (v: Vec<&'static str>)
    ensures
        v@.len() == question_leading().len(),
        forall|i: int| 0 <= i < v@.len() ==> (#[trigger] v@[i])@ == question_leading()[i],
{
    let mut v: Vec<&'static str> = Vec::new();
    v.push("why ");
    v.push("how ");
    v.push("when ");
    v.push("where ");
    v.push("who ");
    v.push("will ");
    v.push("is ");
    v.push("are ");
    v.push("did ");
    v.push("does ");
    v
}

fn any_contains_exec(l: &Vec<char>, ps: &Vec<&'static str>, spec_ps: Ghost<Seq<Seq<char>>>) -> (b: bool)
    requires
        ps@.len() == spec_ps@.len(),
        forall|i: int| 0 <= i < ps@.len() ==> (#[trigger] ps@[i])@ == spec_ps@[i],
    ensures
        b == any_contains(l@, spec_ps@),
{
    let mut i: usize = 0;
    while i < ps.len()
        invariant
            i <= ps.len(),
            ps@.len() == spec_ps@.len(),
            forall|k: int| 0 <= k < ps@.len() ==> (#[trigger] ps@[k])@ == spec_ps@[k],
            forall|k: int| 0 <= k < i ==> !contains(l@, #[trigger] spec_ps@[k]),
        decreases ps.len() - i,
    {
        if contains_exec(l, ps[i]) {
            return true;
        }
        i = i + 1;
    }
    false
}

fn any_starts_exec(l: &Vec<char>, ps: &Vec<&'static str>, spec_ps: Ghost<Seq<Seq<char>>>) -> (b: bool)
    requires
        ps@.len() == spec_ps@.len(),
        forall|i: int| 0 <= i < ps@.len() ==> (#[trigger] ps@[i])@ == spec_ps@[i],
    ensures
        b == any_starts(l@, spec_ps@),
{
    let mut i: usize = 0;
    while i < ps.len()
        invariant
            i <= ps.len(),
            ps@.len() == spec_ps@.len(),
            forall|k: int| 0 <= k < ps@.len() ==> (#[trigger] ps@[k])@ == spec_ps@[k],
            forall|k: int| 0 <= k < i ==> !starts_with(l@, #[trigger] spec_ps@[k]),
        decreases ps.len() - i,
    {
        if starts_with_exec(l, ps[i]) {
            return true;
        }
        i = i + 1;
    }
    false
}

/// Infers a note's type from its text and from whether a time or a
/// recurrence was extracted from it.
pub fn infer_type(text: &str, has_time: bool, has_rrule: bool) -> (r: NoteType)
    ensures
        r@ == infer_spec(text@, has_time, has_rrule),
{
    let lower = to_lowercase(text);
    let l = chars_of(lower.as_str());
    if has_rrule || has_time {
        return NoteType::Reminder;
    }
    let anywhere = todo_anywhere_list();
    let leading = todo_leading_list();
    if any_contains_exec(&l, &anywhere, Ghost(todo_anywhere())) || any_starts_exec(
        &l,
        &leading,
        Ghost(todo_leading()),
    ) {
        return NoteType::Todo;
    }
    if starts_with_exec(&l, "what if ") || starts_with_exec(&l, "idea:") || contains_exec(
        &l,
        "could ",
    ) || contains_exec(&l, "maybe ") || starts_with_exec(&l, "should we ") {
        return NoteType::Idea;
    }
    let qs = question_leading_list();
    if any_starts_exec(&l, &qs, Ghost(question_leading())) || (starts_with_exec(&l, "what ")
        && !starts_with_exec(&l, "what if ")) || ends_with_exec(&l, "?") {
        return NoteType::Question;
    }
    NoteType::Note
}

// ---------------------------------------------------------------------------
// Extraction

/// Where an extracted time points: a local wall-clock reading still to be
/// resolved through the local zone, or an instant already in UTC.
#[derive(Clone, Copy, Debug, PartialEq, Eq, Structural)]
pub enum Target {
    Local(WallTime),
    Utc(i64),
}

/// The state of extraction after a stage: the recurrence rule found, the
/// time found, and the text left once the recognised phrases are removed.
pub struct Stage {
    pub rrule: Option<Seq<char>>,
    pub when: Option<Target>,
    pub cleaned: Seq<char>,
}

/// `text` with the first occurrence of the matched phrase removed, trimmed.
pub open spec fn strip_phrase(text: Seq<char>, g: Seq<Option<Seq<char>>>) -> Seq<char> {
    trim(replace_first(text, grp_text(g, 0), seq![]))
}

/// The time named after "every ... at": the explicit time when group `h`
/// is present, the morning time otherwise.
pub open spec fn at_or_morning(g: Seq<Option<Seq<char>>>, h: int, mt: TimeOfDay) -> TimeOfDay {
    match grp(g, h) {
        Some(hs) => hour_minute(hs, grp(g, h + 1), grp(g, h + 2)),
        None => mt,
    }
}

/// "morning" / "afternoon" / "evening" after "every weekday".
pub open spec fn part_of_day(o: Option<Seq<char>>, mt: TimeOfDay) -> TimeOfDay {
    match o {
        Some(x) => {
            let l = lowercase(x);
            if l == "afternoon"@ {
                TimeOfDay { hour: 14, minute: 0 }
            } else if l == "evening"@ {
                TimeOfDay { hour: 18, minute: 0 }
            } else {
                mt
            }
        },
        None => mt,
    }
}

/// Recurrence phrases, tried in order: "every day", "every week",
/// "every weekday", "every <day name>". Only the last also sets a time
/// (the next occurrence).
pub open spec fn recurrence_spec(text: Seq<char>, mt: TimeOfDay, c: Clock) -> Stage {
    match regex_captures(EVERY_DAY@, text) {
        Some(g) => Stage {
            rrule: Some(daily_rule(at_or_morning(g, 1, mt))),
            when: None,
            cleaned: strip_phrase(text, g),
        },
        None => match regex_captures(EVERY_WEEK@, text) {
            Some(g) => Stage {
                rrule: Some(
                    weekly_rule(rrule_day_spec(weekday_of(c.local.day as int)), at_or_morning(g, 1, mt)),
                ),
                when: None,
                cleaned: strip_phrase(text, g),
            },
            None => match regex_captures(EVERY_WEEKDAYS@, text) {
                Some(g) => Stage {
                    rrule: Some(
                        weekdays_rule(
                            match grp(g, 1) {
                                Some(_) => at_or_morning(g, 1, mt),
                                None => part_of_day(grp(g, 4), mt),
                            },
                        ),
                    ),
                    when: None,
                    cleaned: strip_phrase(text, g),
                },
                None => match regex_captures(EVERY_WEEKDAY@, text) {
                    Some(g) => {
                        let wd = weekday_spec(grp_text(g, 1));
                        let t = at_or_morning(g, 2, mt);
                        Stage {
                            rrule: Some(weekly_rule(rrule_day_spec(wd), t)),
                            when: Some(Target::Local(next_weekday_spec(wd, t, c))),
                            cleaned: strip_phrase(text, g),
                        }
                    },
                    None => Stage { rrule: None, when: None, cleaned: text },
                },
            },
        },
    }
}

/// Whether the recurrence stage already fixes a time ("every <day name>").
pub open spec fn recurrence_sets_time(text: Seq<char>) -> bool {
    &&& regex_captures(EVERY_DAY@, text) is None
    &&& regex_captures(EVERY_WEEK@, text) is None
    &&& regex_captures(EVERY_WEEKDAYS@, text) is None
    &&& regex_captures(EVERY_WEEKDAY@, text) is Some
}

/// Seconds in one unit named by a lowercased unit word (minutes when the
/// word is not one of the five units).
pub open spec fn unit_secs(u: Seq<char>) -> int {
    if u == "second"@ {
        1
    } else if u == "minute"@ {
        60
    } else if u == "hour"@ {
        3600
    } else if u == "day"@ {
        86400
    } else if u == "week"@ {
        604800
    } else {
        60
    }
}

/// Length of an "in <n> <unit>" phrase: `n` (1 when it does not parse as
/// an `i64`) times the unit.
pub open spec fn duration_secs(g: Seq<Option<Seq<char>>>) -> int {
    let n: int = match parse_i64_spec(grp_text(g, 1)) {
        Some(n) => n as int,
        None => 1,
    };
    n * unit_secs(lowercase(grp_text(g, 2)))
}

/// Length of a worded duration ("in an hour", "in half an hour", ...)
/// judged from its lowercased text.
pub open spec fn word_secs(l: Seq<char>) -> int {
    if contains(l, "half"@) {
        1800
    } else if contains(l, "couple"@) {
        if contains(l, "hour"@) {
            7200
        } else {
            120
        }
    } else if contains(l, "few"@) {
        10800
    } else if contains(l, "hour"@) {
        3600
    } else {
        60
    }
}

/// The day a time of day next comes round on: today if still ahead,
/// tomorrow otherwise.
pub open spec fn today_or_tomorrow(t: TimeOfDay, c: Clock) -> WallTime {
    if c.local.secs < tod_secs(t) {
        at_time(c.local.day as int, t)
    } else {
        at_time(c.local.day + 1, t)
    }
}

/// One-off time phrases, tried in order when no time is known yet: "at
/// <time>", "in <n> <unit>", worded durations, "tomorrow [...]", "next
/// <day name>", "tonight" / "this evening" (21:00). Phrases are looked
/// for in the original text and removed from the text cleaned so far.
pub open spec fn oneoff_spec(text: Seq<char>, cleaned: Seq<char>, mt: TimeOfDay, c: Clock) -> Stage {
    match regex_captures(AT_TIME@, text) {
        Some(g) => Stage {
            rrule: None,
            when: Some(
                Target::Local(
                    today_or_tomorrow(hour_minute(grp_text(g, 1), grp(g, 2), grp(g, 3)), c),
                ),
            ),
            cleaned: strip_phrase(cleaned, g),
        },
        None => match regex_captures(IN_DURATION@, text) {
            Some(g) => Stage {
                rrule: None,
                when: Some(Target::Utc((c.utc + duration_secs(g)) as i64)),
                cleaned: strip_phrase(cleaned, g),
            },
            None => match regex_captures(IN_DURATION_WORD@, text) {
                Some(g) => Stage {
                    rrule: None,
                    when: Some(Target::Utc((c.utc + word_secs(lowercase(grp_text(g, 0)))) as i64)),
                    cleaned: strip_phrase(cleaned, g),
                },
                None => match regex_captures(TOMORROW@, text) {
                    Some(g) => {
                        let l = lowercase(grp_text(g, 0));
                        let t = if contains(l, "evening"@) || contains(l, "afternoon"@) {
                            TimeOfDay { hour: 18, minute: 0 }
                        } else {
                            mt
                        };
                        Stage {
                            rrule: None,
                            when: Some(Target::Local(at_time(c.local.day + 1, t))),
                            cleaned: strip_phrase(cleaned, g),
                        }
                    },
                    None => match regex_captures(NEXT_WEEKDAY@, text) {
                        Some(g) => Stage {
                            rrule: None,
                            when: Some(
                                Target::Local(
                                    next_weekday_spec(weekday_spec(grp_text(g, 1)), mt, c),
                                ),
                            ),
                            cleaned: strip_phrase(cleaned, g),
                        },
                        None => match regex_captures(TONIGHT@, text) {
                            Some(g) => Stage {
                                rrule: None,
                                when: Some(
                                    Target::Local(
                                        today_or_tomorrow(TimeOfDay { hour: 21, minute: 0 }, c),
                                    ),
                                ),
                                cleaned: strip_phrase(cleaned, g),
                            },
                            None => Stage { rrule: None, when: None, cleaned },
                        },
                    },
                },
            },
        },
    }
}

/// A duration is representable, and so is the instant it leads to.
pub open spec fn delta_ok(d: int, utc: int) -> bool {
    -MAX_DELTA_SECS <= d <= MAX_DELTA_SECS && MIN_UTC <= utc + d <= MAX_UTC
}

/// The "in <n> <unit>" phrase, when it is the one that decides the time,
/// names a representable duration leading to a representable instant.
pub open spec fn duration_fits(text: Seq<char>, c: Clock) -> bool {
    (!recurrence_sets_time(text) && regex_captures(AT_TIME@, text) is None) ==> match regex_captures(
        IN_DURATION@,
        text,
    ) {
        Some(g) => delta_ok(duration_secs(g), c.utc as int),
        None => true,
    }
}

pub open spec fn ws_or_comma() -> spec_fn(char) -> bool {
    |ch: char| crate::text::is_ws(ch) || ch == ','
}

/// The rule-based reading of a text, with times still as targets.
pub struct RuleModel {
    pub note_type: NoteKind,
    pub when: Option<Target>,
    pub rrule: Option<Seq<char>>,
    pub body: Seq<char>,
    pub confidence: u32,
}

/// Confidence (in hundredths) of a rule-based reading.
pub open spec fn confidence_spec(found: bool, k: NoteKind) -> u32 {
    if found {
        95
    } else {
        match k {
            NoteKind::Todo => 88,
            NoteKind::Question => 88,
            NoteKind::Idea => 84,
            NoteKind::Reminder => 95,
            NoteKind::Note => 45,
            NoteKind::Tag(_) => 60,
        }
    }
}

/// The body left after extraction: once a time or recurrence was found,
/// stray time-of-day words are removed; then surrounding whitespace and
/// commas are trimmed; an empty result falls back to the original text.
pub open spec fn body_spec(text: Seq<char>, cleaned: Seq<char>, found: bool) -> Seq<char> {
    let c2 = if found {
        trim(regex_removed(MORNING_EVENING@, cleaned))
    } else {
        cleaned
    };
    let c3 = trim_by(c2, ws_or_comma());
    if c3.len() == 0 {
        text
    } else {
        c3
    }
}

/// The full rule-based reading of `text` at clock `c`, with the morning
/// time taken from `morning`.
pub open spec fn rule_parse_spec(text: Seq<char>, morning: Seq<char>, c: Clock) -> RuleModel {
    let mt = morning_spec(morning);
    let s1 = recurrence_spec(text, mt, c);
    let s2 = if s1.when is None {
        oneoff_spec(text, s1.cleaned, mt, c)
    } else {
        Stage { rrule: None, when: s1.when, cleaned: s1.cleaned }
    };
    let found = s2.when is Some || s1.rrule is Some;
    let kind = infer_spec(text, s2.when is Some, s1.rrule is Some);
    RuleModel {
        note_type: kind,
        when: s2.when,
        rrule: s1.rrule,
        body: body_spec(text, s2.cleaned, found),
        confidence: confidence_spec(found, kind),
    }
}

pub struct StageExec {
    pub rrule: Option<Vec<char>>,
    pub when: Option<Target>,
    pub cleaned: Vec<char>,
}

pub open spec fn opt_chars(o: Option<Vec<char>>) -> Option<Seq<char>> {
    match o {
        Some(v) => Some(v@),
        None => None,
    }
}

impl View for StageExec {
    type V = Stage;

    open spec fn view(&self) -> Stage {
        Stage { rrule: opt_chars(self.rrule), when: self.when, cleaned: self.cleaned@ }
    }
}

fn lower_vec(v: &Vec<char>) -> (r: Vec<char>)
    ensures
        r@ == lowercase(v@),
{
    let s = string_of(v);
    let l = to_lowercase(s.as_str());
    chars_of(l.as_str())
}

fn strip_phrase_exec(text: &Vec<char>, g: &Vec<Option<String>>) -> (r: Vec<char>)
    ensures
        r@ == strip_phrase(text@, groups_view(*g)),
{
    let m = group_text(g, 0);
    let empty: Vec<char> = Vec::new();
    let replaced = replace_first_exec(text, &m, &empty);
    proof { assert(empty@ =~= seq![]); }
    trim_vec(&replaced)
}

fn at_or_morning_exec(g: &Vec<Option<String>>, h: usize, mt: TimeOfDay) -> (t: TimeOfDay)
    requires
        h <= 2,
        time_ok(mt),
    ensures
        t == at_or_morning(groups_view(*g), h as int, mt),
        time_ok(t),
{
    match group(g, h) {
        Some(hs) => {
            let m = group(g, h + 1);
            let ap = group(g, h + 2);
            parse_time_of_day(&hs, m, ap)
        },
        None => mt,
    }
}

fn part_of_day_exec(o: Option<Vec<char>>, mt: TimeOfDay) -> (t: TimeOfDay)
    requires
        time_ok(mt),
    ensures
        t == part_of_day(opt_chars(o), mt),
        time_ok(t),
{
    match o {
        Some(x) => {
            let l = lower_vec(&x);
            if eq_str(&l, "afternoon") {
                TimeOfDay { hour: 14, minute: 0 }
            } else if eq_str(&l, "evening") {
                TimeOfDay { hour: 18, minute: 0 }
            } else {
                mt
            }
        },
        None => mt,
    }
}

/// The recurrence stage of [`parse_rule_based_at`].
pub fn recurrence_stage(text: &str, mt: TimeOfDay, c: Clock) -> (r: StageExec)
    requires
        time_ok(mt),
        clock_ok(c),
    ensures
        r@ == recurrence_spec(text@, mt, c),
        r.when matches Some(Target::Local(w)) ==> crate::clock::wall_ok(w) && w.day < MAX_DAY,
        r.when matches Some(t) ==> t is Local,
{
    let tv = chars_of(text);
    if let Some(g) = captures(EVERY_DAY, text) {
        let t = at_or_morning_exec(&g, 1, mt);
        return StageExec {
            rrule: Some(daily_rule_exec(t)),
            when: None,
            cleaned: strip_phrase_exec(&tv, &g),
        };
    }
    if let Some(g) = captures(EVERY_WEEK, text) {
        let t = at_or_morning_exec(&g, 1, mt);
        let wd = weekday_of_day(c.local.day);
        return StageExec {
            rrule: Some(weekly_rule_exec(rrule_weekday(wd), t)),
            when: None,
            cleaned: strip_phrase_exec(&tv, &g),
        };
    }
    if let Some(g) = captures(EVERY_WEEKDAYS, text) {
        let t = match group(&g, 1) {
            Some(_) => at_or_morning_exec(&g, 1, mt),
            None => part_of_day_exec(group(&g, 4), mt),
        };
        return StageExec {
            rrule: Some(weekdays_rule_exec(t)),
            when: None,
            cleaned: strip_phrase_exec(&tv, &g),
        };
    }
    if let Some(g) = captures(EVERY_WEEKDAY, text) {
        let wd = weekday_from_str(&group_text(&g, 1));
        let t = at_or_morning_exec(&g, 2, mt);
        let w = next_occurrence_of_weekday(wd, t, c);
        return StageExec {
            rrule: Some(weekly_rule_exec(rrule_weekday(wd), t)),
            when: Some(Target::Local(w)),
            cleaned: strip_phrase_exec(&tv, &g),
        };
    }
    StageExec { rrule: None, when: None, cleaned: tv }
}

fn today_or_tomorrow_exec(t: TimeOfDay, c: Clock) -> (w: WallTime)
    requires
        time_ok(t),
        clock_ok(c),
    ensures
        w == today_or_tomorrow(t, c),
        crate::clock::wall_ok(w),
        w.day < MAX_DAY,
{
    let ts = tod_seconds(t);
    if c.local.secs < ts {
        WallTime { day: c.local.day, secs: ts }
    } else {
        WallTime { day: c.local.day + 1, secs: ts }
    }
}

fn unit_secs_exec(u: &Vec<char>) -> (r: i64)
    ensures
        r == unit_secs(u@),
{
    if eq_str(u, "second") {
        1
    } else if eq_str(u, "minute") {
        60
    } else if eq_str(u, "hour") {
        3600
    } else if eq_str(u, "day") {
        86400
    } else if eq_str(u, "week") {
        604800
    } else {
        60
    }
}

fn word_secs_exec(l: &Vec<char>) -> (r: i64)
    ensures
        r == word_secs(l@),
{
    if contains_exec(l, "half") {
        1800
    } else if contains_exec(l, "couple") {
        if contains_exec(l, "hour") {
            7200
        } else {
            120
        }
    } else if contains_exec(l, "few") {
        10800
    } else if contains_exec(l, "hour") {
        3600
    } else {
        60
    }
}

/// The length of an "in <n> <unit>" phrase, when representable.
fn duration_secs_exec(g: &Vec<Option<String>>) -> (r: Option<i64>)
    ensures
        r matches Some(d) ==> d == duration_secs(groups_view(*g)) && -MAX_DELTA_SECS <= d
            <= MAX_DELTA_SECS,
        r is None ==> !(-MAX_DELTA_SECS <= duration_secs(groups_view(*g)) <= MAX_DELTA_SECS),
{
    let n: i64 = match parse_i64(&group_text(g, 1)) {
        Some(n) => n,
        None => 1,
    };
    let u = lower_vec(&group_text(g, 2));
    let us = unit_secs_exec(&u);
    let prod: i128 = (n as i128) * (us as i128);
    if -(MAX_DELTA_SECS as i128) <= prod && prod <= MAX_DELTA_SECS as i128 {
        Some(prod as i64)
    } else {
        None
    }
}

/// The one-off stage of [`parse_rule_based_at`].
pub fn oneoff_stage(text: &str, cleaned: Vec<char>, mt: TimeOfDay, c: Clock) -> (r: StageExec)
    requires
        time_ok(mt),
        clock_ok(c),
        regex_captures(AT_TIME@, text@) is None ==> match regex_captures(IN_DURATION@, text@) {
            Some(g) => delta_ok(duration_secs(g), c.utc as int),
            None => true,
        },
    ensures
        r@ == oneoff_spec(text@, cleaned@, mt, c),
        r.when matches Some(Target::Local(w)) ==> crate::clock::wall_ok(w) && w.day < MAX_DAY,
        r.when matches Some(Target::Utc(u)) ==> crate::clock::utc_ok(u as int),
{
    if let Some(g) = captures(AT_TIME, text) {
        let t = parse_time_of_day(&group_text(&g, 1), group(&g, 2), group(&g, 3));
        let w = today_or_tomorrow_exec(t, c);
        return StageExec {
            rrule: None,
            when: Some(Target::Local(w)),
            cleaned: strip_phrase_exec(&cleaned, &g),
        };
    }
    if let Some(g) = captures(IN_DURATION, text) {
        let d = duration_secs_exec(&g);
        let d = match d {
            Some(d) => d,
            None => 0,
        };
        return StageExec {
            rrule: None,
            when: Some(Target::Utc(c.utc + d)),
            cleaned: strip_phrase_exec(&cleaned, &g),
        };
    }
    if let Some(g) = captures(IN_DURATION_WORD, text) {
        let l = lower_vec(&group_text(&g, 0));
        let d = word_secs_exec(&l);
        return StageExec {
            rrule: None,
            when: Some(Target::Utc(c.utc + d)),
            cleaned: strip_phrase_exec(&cleaned, &g),
        };
    }
    if let Some(g) = captures(TOMORROW, text) {
        let l = lower_vec(&group_text(&g, 0));
        let t = if contains_exec(&l, "evening") || contains_exec(&l, "afternoon") {
            TimeOfDay { hour: 18, minute: 0 }
        } else {
            mt
        };
        let ts = tod_seconds(t);
        return StageExec {
            rrule: None,
            when: Some(Target::Local(WallTime { day: c.local.day + 1, secs: ts })),
            cleaned: strip_phrase_exec(&cleaned, &g),
        };
    }
    if let Some(g) = captures(NEXT_WEEKDAY, text) {
        let wd = weekday_from_str(&group_text(&g, 1));
        let w = next_occurrence_of_weekday(wd, mt, c);
        return StageExec {
            rrule: None,
            when: Some(Target::Local(w)),
            cleaned: strip_phrase_exec(&cleaned, &g),
        };
    }
    if let Some(g) = captures(TONIGHT, text) {
        let w = today_or_tomorrow_exec(TimeOfDay { hour: 21, minute: 0 }, c);
        return StageExec {
            rrule: None,
            when: Some(Target::Local(w)),
            cleaned: strip_phrase_exec(&cleaned, &g),
        };
    }
    StageExec { rrule: None, when: None, cleaned }
}

fn is_ws_or_comma(ch: char) -> (b: bool)
    ensures
        b == (ws_or_comma())(ch),
{
    crate::text::is_whitespace(ch) || ch == ','
}

/// `str::trim_matches(|c| c.is_whitespace() || c == ',')`.
fn trim_ws_comma(v: &Vec<char>) -> (r: Vec<char>)
    ensures
        r@ == trim_by(v@, ws_or_comma()),
{
    let ghost p = ws_or_comma();
    let mut a: usize = 0;
    while a < v.len() && is_ws_or_comma(v[a])
        invariant
            a <= v.len(),
            p == ws_or_comma(),
            forall|i: int| 0 <= i < a ==> p(#[trigger] v@[i]),
        decreases v.len() - a,
    {
        a = a + 1;
    }
    let mut b = v.len();
    while b > a && is_ws_or_comma(v[b - 1])
        invariant
            a <= b <= v.len(),
            p == ws_or_comma(),
            forall|i: int| b <= i < v.len() ==> p(#[trigger] v@[i]),
        decreases b,
    {
        b = b - 1;
    }
    let r = crate::text::slice_vec(v, a, b);
    proof {
        let s = v@;
        crate::text::lemma_lead_count_unique(s, p, a as int);
        let rest = s.subrange(a as int, s.len() as int);
        let k = v.len() - b;
        assert forall|i: int| rest.len() - k <= i < rest.len() implies p(#[trigger] rest[i]) by {
            assert(rest[i] == s[i + a]);
        }
        if k < rest.len() {
            assert(rest[rest.len() - k - 1] == s[b - 1]);
        }
        crate::text::lemma_trail_count_unique(rest, p, k as int);
        assert(r@ == rest.subrange(0, rest.len() - k));
    }
    r
}

fn body_exec(text: &str, cleaned: &Vec<char>, found: bool) -> (r: Vec<char>)
    ensures
        r@ == body_spec(text@, cleaned@, found),
{
    let c2 = if found {
        let cs = string_of(cleaned);
        let removed = remove_matches(MORNING_EVENING, cs.as_str());
        let rv = chars_of(removed.as_str());
        trim_vec(&rv)
    } else {
        cleaned.clone()
    };
    let c3 = trim_ws_comma(&c2);
    if c3.len() == 0 {
        chars_of(text)
    } else {
        c3
    }
}

/// A rule-based reading with its time still a target.
#[derive(Debug)]
pub struct RuleParse {
    pub note_type: NoteType,
    pub when: Option<Target>,
    pub rrule: Option<RecurrenceRule>,
    pub body: String,
    pub confidence: u32,
}

impl View for RuleParse {
    type V = RuleModel;

    open spec fn view(&self) -> RuleModel {
        RuleModel {
            note_type: self.note_type@,
            when: self.when,
            rrule: crate::types::rrule_view(self.rrule),
            body: self.body@,
            confidence: self.confidence,
        }
    }
}

fn confidence_exec(found: bool, k: &NoteType) -> (r: u32)
    ensures
        r == confidence_spec(found, k@),
{
    if found {
        95
    } else {
        match k {
            NoteType::Todo => 88,
            NoteType::Question => 88,
            NoteType::Idea => 84,
            NoteType::Reminder => 95,
            NoteType::Note => 45,
            NoteType::Tag(_) => 60,
        }
    }
}

/// Rule-based reading of `text` at clock `c`: recurrence, then (if no time
/// yet) a one-off time, then body cleaning, type inference and confidence,
/// exactly as [`rule_parse_spec`] states. Times are returned as targets.
pub fn parse_rule_based_at(text: &str, default_morning: &str, c: Clock) -> (r: RuleParse)
    requires
        clock_ok(c),
        duration_fits(text@, c),
    ensures
        r@ == rule_parse_spec(text@, default_morning@, c),
        r.when matches Some(Target::Local(w)) ==> crate::clock::wall_ok(w) && w.day < MAX_DAY,
        r.when matches Some(Target::Utc(u)) ==> crate::clock::utc_ok(u as int),
{
    let mt = morning_time(default_morning);
    let s1 = recurrence_stage(text, mt, c);
    let has_rrule = s1.rrule.is_some();
    let (when, cleaned) = if s1.when.is_none() {
        let s2 = oneoff_stage(text, s1.cleaned, mt, c);
        (s2.when, s2.cleaned)
    } else {
        (s1.when, s1.cleaned)
    };
    let found = when.is_some() || has_rrule;
    let kind = infer_type(text, when.is_some(), has_rrule);
    let body = body_exec(text, &cleaned, found);
    let confidence = confidence_exec(found, &kind);
    RuleParse {
        note_type: kind,
        when,
        rrule: match s1.rrule {
            Some(v) => Some(RecurrenceRule(string_of(&v))),
            None => None,
        },
        body: string_of(&body),
        confidence,
    }
}

/// Decides [`duration_fits`] for a text and clock.
pub fn duration_fits_exec(text: &str, c: Clock) -> (b: bool)
    ensures
        b == duration_fits(text@, c),
{
    let sets_time = captures(EVERY_DAY, text).is_none() && captures(EVERY_WEEK, text).is_none()
        && captures(EVERY_WEEKDAYS, text).is_none() && captures(EVERY_WEEKDAY, text).is_some();
    if sets_time || captures(AT_TIME, text).is_some() {
        return true;
    }
    match captures(IN_DURATION, text) {
        Some(g) => match duration_secs_exec(&g) {
            Some(d) => {
                let total: i128 = c.utc as i128 + d as i128;
                MIN_UTC as i128 <= total && total <= MAX_UTC as i128
            },
            None => false,
        },
        None => true,
    }
}

/// Whether `parse_rule_based` can read `text` at clock `c`: the clock is
/// away from the ends of the calendar and any deciding "in <n> <unit>"
/// phrase stays representable.
pub open spec fn readable_at(text: Seq<char>, c: Clock) -> bool {
    clock_ok(c) && duration_fits(text, c)
}

fn clock_ok_exec(c: Clock) -> (b: bool)
    requires
        c.local.secs < SECS_PER_DAY,
        crate::clock::MIN_DAY <= c.local.day <= MAX_DAY,
        crate::clock::utc_ok(c.utc as int),
    ensures
        b == clock_ok(c),
{
    c.local.day <= MAX_DAY - 8 && c.utc <= MAX_UTC - SECS_PER_DAY
}

/// The instant `t` a reading's target gives: none without a target, a UTC
/// target as is, a local reading resolved through the local zone (see
/// [`crate::clock::local_resolution`]).
pub open spec fn time_of_reading(when: Option<Target>, t: Option<i64>) -> bool {
    match when {
        None => t is None,
        Some(Target::Utc(u)) => t == Some(u),
        Some(Target::Local(w)) => t matches Some(x) && crate::clock::local_resolution(w, x as int),
    }
}

/// `res` is the classification a rule-based reading `m` gives.
pub open spec fn result_of_reading(m: RuleModel, res: ClassificationResult) -> bool {
    &&& m.note_type == res.note_type@
    &&& m.rrule == crate::types::rrule_view(res.rrule)
    &&& m.body == res.body@
    &&& m.confidence == res.confidence
    &&& time_of_reading(m.when, res.time)
}

/// A reading of the system clock: a valid local reading and instant.
pub open spec fn clock_reading(c: Clock) -> bool {
    crate::clock::wall_ok(c.local) && crate::clock::utc_ok(c.utc as int)
}

/// Tier-1 classification of captured text at the current moment: for the
/// clock reading taken, `None` exactly where the text cannot be read then
/// (see [`readable_at`]), otherwise the reading of
/// [`parse_rule_based_at`] with local targets resolved through the local
/// zone.
pub fn parse_rule_based(text: &str, default_morning: &str) -> (r: Option<ClassificationResult>)
    ensures
        exists|c: Clock|
            #![trigger rule_parse_spec(text@, default_morning@, c)]
            {
                &&& clock_reading(c)
                &&& (r is None <==> !readable_at(text@, c))
                &&& (r matches Some(res) ==> result_of_reading(
                    rule_parse_spec(text@, default_morning@, c),
                    res,
                ))
            },
        r matches Some(res) ==> (res.time matches Some(t) ==> crate::clock::utc_ok(t as int)),
{
    let c = clock_now();
    if !clock_ok_exec(c) || !duration_fits_exec(text, c) {
        proof {
            let _m = rule_parse_spec(text@, default_morning@, c);
            assert(!readable_at(text@, c));
        }
        return None;
    }
    let p = parse_rule_based_at(text, default_morning, c);
    let time = match p.when {
        Some(Target::Local(w)) => Some(local_naive_to_utc(w)),
        Some(Target::Utc(u)) => Some(u),
        None => None,
    };
    let r = ClassificationResult {
        note_type: p.note_type,
        time,
        rrule: p.rrule,
        body: p.body,
        confidence: p.confidence,
    };
    proof {
        let m = rule_parse_spec(text@, default_morning@, c);
        assert(readable_at(text@, c));
        assert(result_of_reading(m, r));
    }
    Some(r)
}

/// What every rule-based reading keeps: the body of a non-empty text is
/// never empty, the confidence is at most 1 (100 hundredths), and a
/// reading that found a time or a recurrence is a reminder with confidence
/// 0.95, enough to settle the classification.
pub proof fn law_rule_reading(text: Seq<char>, morning: Seq<char>, c: Clock)
    ensures
        text.len() > 0 ==> rule_parse_spec(text, morning, c).body.len() > 0,
        rule_parse_spec(text, morning, c).confidence <= 100,
        (rule_parse_spec(text, morning, c).when is Some || rule_parse_spec(text, morning, c).rrule
            is Some) ==> rule_parse_spec(text, morning, c).note_type == NoteKind::Reminder
            && rule_parse_spec(text, morning, c).confidence == 95,
{
}


// ---------------------------------------------------------------------------
// Laws on the word tables

/// The English day names in calendar order, Monday first.
pub open spec fn day_names() -> Seq<Seq<char>> {
    seq!["monday"@, "tuesday"@, "wednesday"@, "thursday"@, "friday"@, "saturday"@, "sunday"@]
}

/// An English day name, in any case, is read as its own weekday: the
/// names in calendar order are the weekday numbers in order, the one for
/// 1970-01-01 (day 0) being "thursday", and the day after each name's day
/// is the next name's.
pub proof fn law_day_names_in_calendar_order(s: Seq<char>, k: int)
    requires
        0 <= k < 7,
        lowercase(s) == day_names()[k],
    ensures
        weekday_spec(s) == k,
        day_names()[weekday_of(0)] == "thursday"@,
        forall|d: int| #[trigger] weekday_of(d + 1) == (weekday_of(d) + 1) % 7,
{
    reveal_strlit("monday");
    reveal_strlit("tuesday");
    reveal_strlit("wednesday");
    reveal_strlit("thursday");
    reveal_strlit("friday");
    reveal_strlit("saturday");
    reveal_strlit("sunday");
    // Distinct names differ in their first two letters.
    assert("tuesday"@[0] != "monday"@[0]);
    assert("wednesday"@[0] != "monday"@[0] && "wednesday"@[0] != "tuesday"@[0]);
    assert("thursday"@[0] != "monday"@[0] && "thursday"@[1] != "tuesday"@[1]
        && "thursday"@[0] != "wednesday"@[0]);
    assert("friday"@[0] != "monday"@[0] && "friday"@[0] != "tuesday"@[0] && "friday"@[0]
        != "wednesday"@[0] && "friday"@[0] != "thursday"@[0]);
    assert("saturday"@[0] != "monday"@[0] && "saturday"@[0] != "tuesday"@[0] && "saturday"@[0]
        != "wednesday"@[0] && "saturday"@[0] != "thursday"@[0] && "saturday"@[0] != "friday"@[0]);
    assert("sunday"@[0] != "monday"@[0] && "sunday"@[0] != "tuesday"@[0] && "sunday"@[0]
        != "wednesday"@[0] && "sunday"@[0] != "thursday"@[0] && "sunday"@[0] != "friday"@[0]
        && "sunday"@[1] != "saturday"@[1]);
    assert forall|d: int| #[trigger] weekday_of(d + 1) == (weekday_of(d) + 1) % 7 by {
        vstd::arithmetic::div_mod::lemma_add_mod_noop(d + 3, 1, 7);
    }
}

/// The two-letter iCalendar code written for a weekday is the first two
/// letters of its English name, upper-cased.
pub proof fn law_day_code_is_name_prefix(k: int)
    requires
        0 <= k < 7,
    ensures
        rrule_day_spec(k).len() == 2,
        rrule_day_spec(k)[0] as int == day_names()[k][0] as int - 32,
        rrule_day_spec(k)[1] as int == day_names()[k][1] as int - 32,
{
    reveal_strlit("monday");
    reveal_strlit("tuesday");
    reveal_strlit("wednesday");
    reveal_strlit("thursday");
    reveal_strlit("friday");
    reveal_strlit("saturday");
    reveal_strlit("sunday");
    reveal_strlit("MO");
    reveal_strlit("TU");
    reveal_strlit("WE");
    reveal_strlit("TH");
    reveal_strlit("FR");
    reveal_strlit("SA");
    reveal_strlit("SU");
}

/// The verbs that open an action item. A text whose lower-cased form
/// starts with one of them, with no time or recurrence found, is a todo.
pub proof fn law_action_verbs_are_todos(text: Seq<char>, verb: Seq<char>)
    requires
        seq![
            "call "@, "email "@, "fix "@, "check "@, "finish "@, "write "@, "update "@,
            "prepare "@, "schedule "@, "organize "@, "deploy "@, "install "@, "send "@,
            "submit "@, "create "@, "setup "@, "restore "@, "archive "@, "export "@,
            "import "@, "approve "@, "configure "@, "refactor "@, "review "@,
        ].contains(verb),
        starts_with(lowercase(text), verb),
    ensures
        infer_spec(text, false, false) == NoteKind::Todo,
{
    let vs = seq![
        "call "@, "email "@, "fix "@, "check "@, "finish "@, "write "@, "update "@,
        "prepare "@, "schedule "@, "organize "@, "deploy "@, "install "@, "send "@,
        "submit "@, "create "@, "setup "@, "restore "@, "archive "@, "export "@,
        "import "@, "approve "@, "configure "@, "refactor "@, "review "@,
    ];
    let j = choose|j: int| 0 <= j < vs.len() && vs[j] == verb;
    assert(todo_leading()[j] == verb);
    assert(any_starts(lowercase(text), todo_leading()));
}

/// "in <n> <unit>" phrases with the same count: a week lasts seven days,
/// a day 24 hours (the clock's day), an hour 60 minutes, a minute 60
/// seconds, and a second is one second.
pub proof fn law_duration_units(g: Seq<Option<Seq<char>>>, h: Seq<Option<Seq<char>>>)
    requires
        grp_text(g, 1) == grp_text(h, 1),
    ensures
        lowercase(grp_text(g, 2)) == "week"@ && lowercase(grp_text(h, 2)) == "day"@
            ==> duration_secs(g) == 7 * duration_secs(h),
        lowercase(grp_text(g, 2)) == "day"@ && lowercase(grp_text(h, 2)) == "hour"@
            ==> duration_secs(g) == 24 * duration_secs(h),
        lowercase(grp_text(g, 2)) == "hour"@ && lowercase(grp_text(h, 2)) == "minute"@
            ==> duration_secs(g) == 60 * duration_secs(h),
        lowercase(grp_text(g, 2)) == "minute"@ && lowercase(grp_text(h, 2)) == "second"@
            ==> duration_secs(g) == 60 * duration_secs(h),
        lowercase(grp_text(g, 2)) == "second"@ ==> duration_secs(g) == match parse_i64_spec(
            grp_text(g, 1),
        ) {
            Some(n) => n as int,
            None => 1,
        },
        lowercase(grp_text(g, 2)) == "day"@ && parse_i64_spec(grp_text(g, 1)) == Some(1i64)
            ==> duration_secs(g) == SECS_PER_DAY,
{
    reveal_strlit("week");
    reveal_strlit("day");
    reveal_strlit("hour");
    reveal_strlit("minute");
    reveal_strlit("second");
    assert("week"@.len() != "day"@.len() && "week"@.len() != "minute"@.len() && "week"@.len()
        != "second"@.len() && "week"@[0] != "hour"@[0]);
    assert("day"@.len() != "hour"@.len() && "day"@.len() != "minute"@.len() && "day"@.len()
        != "second"@.len());
    assert("hour"@.len() != "minute"@.len() && "hour"@.len() != "second"@.len());
    assert("minute"@[0] != "second"@[0]);
    let n: int = match parse_i64_spec(grp_text(g, 1)) {
        Some(n) => n as int,
        None => 1,
    };
    assert(n * 604800 == 7 * (n * 86400)) by (nonlinear_arith);
    assert(n * 86400 == 24 * (n * 3600)) by (nonlinear_arith);
    assert(n * 3600 == 60 * (n * 60)) by (nonlinear_arith);
    assert(n * 60 == 60 * (n * 1)) by (nonlinear_arith);
}

} // verus!
