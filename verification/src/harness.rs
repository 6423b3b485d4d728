//! Decisions of the classification test harness: which checks a corpus
//! entry passes, how its failures are reported, and where an entry sits in
//! the corpus file.

use crate::calendar::{fit_count, fit_count_exec, octets, octets_exec};
use crate::clock::{
    local_ok, near_offset, utc_to_local, wall_ok, WallTime, MAX_UTC, MIN_UTC, SECS_PER_DAY,
};
use crate::pad_cli::strings_view;
use crate::text::{
    chars_of, contains, contains_vec, dec2, dec2_exec, push_all, push_str, slice_vec, split_char,
    split_char_exec, string_of, trim, trim_start, trim_start_vec, trim_vec,
};
use crate::types::{
    kind_name, lowercase, opt_view, rrule_view, to_lowercase, vec_eq_str, ClassificationResult,
};
use vstd::prelude::*;

verus! {

/// Which classification tiers a run invokes.
#[derive(Debug, Clone, Copy, PartialEq, Eq, Structural)]
pub enum TierArg {
    One,
    Two,
    Three,
    All,
}

impl TierArg {
    pub open spec fn label_spec(self) -> Seq<char> {
        match self {
            TierArg::One => "1"@,
            TierArg::Two => "2"@,
            TierArg::Three => "3"@,
            TierArg::All => "all"@,
        }
    }

    /// The name the tier is given on the command line and in reports.
    pub fn label(&self) -> (r: &'static str)
        ensures
            r@ == self.label_spec(),
    {
        match self {
            TierArg::One => "1",
            TierArg::Two => "2",
            TierArg::Three => "3",
            TierArg::All => "all",
        }
    }
}

/// One case of the corpus: an input and what is expected of it.
#[derive(Debug)]
pub struct CorpusEntry {
    pub input: String,
    pub expected_type: Option<String>,
    /// Expected local time as `HH:MM`; the date is not compared.
    pub expected_time: Option<String>,
    /// Expected to occur in the body, compared in lowercase.
    pub expected_body: Option<String>,
    /// Expected to occur in the recurrence rule.
    pub expected_rrule: Option<String>,
    pub notes: Option<String>,
}

pub struct EntryModel {
    pub input: Seq<char>,
    pub expected_type: Option<Seq<char>>,
    pub expected_time: Option<Seq<char>>,
    pub expected_body: Option<Seq<char>>,
    pub expected_rrule: Option<Seq<char>>,
    pub notes: Option<Seq<char>>,
}

impl View for CorpusEntry {
    type V = EntryModel;

    open spec fn view(&self) -> EntryModel {
        EntryModel {
            input: self.input@,
            expected_type: opt_view(self.expected_type),
            expected_time: opt_view(self.expected_time),
            expected_body: opt_view(self.expected_body),
            expected_rrule: opt_view(self.expected_rrule),
            notes: opt_view(self.notes),
        }
    }
}

/// The outcome of one corpus entry.
#[derive(Debug)]
pub struct TestResult {
    pub index: usize,
    pub input: String,
    pub tier_used: String,
    pub actual_type: String,
    pub actual_time: Option<String>,
    pub actual_rrule: Option<String>,
    pub actual_body: String,
    pub type_pass: Option<bool>,
    pub time_pass: Option<bool>,
    pub rrule_pass: Option<bool>,
    pub body_pass: Option<bool>,
    pub pass: bool,
    pub failure_reason: Option<String>,
}

pub struct ResultModel {
    pub index: int,
    pub input: Seq<char>,
    pub tier_used: Seq<char>,
    pub actual_type: Seq<char>,
    pub actual_time: Option<Seq<char>>,
    pub actual_rrule: Option<Seq<char>>,
    pub actual_body: Seq<char>,
    pub type_pass: Option<bool>,
    pub time_pass: Option<bool>,
    pub rrule_pass: Option<bool>,
    pub body_pass: Option<bool>,
    pub pass: bool,
    pub failure_reason: Option<Seq<char>>,
}

impl View for TestResult {
    type V = ResultModel;

    open spec fn view(&self) -> ResultModel {
        ResultModel {
            index: self.index as int,
            input: self.input@,
            tier_used: self.tier_used@,
            actual_type: self.actual_type@,
            actual_time: opt_view(self.actual_time),
            actual_rrule: opt_view(self.actual_rrule),
            actual_body: self.actual_body@,
            type_pass: self.type_pass,
            time_pass: self.time_pass,
            rrule_pass: self.rrule_pass,
            body_pass: self.body_pass,
            pass: self.pass,
            failure_reason: opt_view(self.failure_reason),
        }
    }
}

/// `format!("{:?}", s)`: the debug text of a string (quoted, with escapes).
pub uninterp spec fn debug_text(s: Seq<char>) -> Seq<char>;

/// Debug-formats a string with `format!("{:?}", ..)`; the result is named,
/// not described.
#[verifier::external_body]
fn debug_quoted(s: &str) -> (r: String)
    ensures
        r@ == debug_text(s@),
{
    format!("{:?}", s)
}

pub open spec fn or_text(o: Option<Seq<char>>, d: Seq<char>) -> Seq<char> {
    match o {
        Some(s) => s,
        None => d,
    }
}

/// The type check: the expected type, lowercased, is the actual one.
pub open spec fn type_check(expected: Option<Seq<char>>, actual: Seq<char>) -> Option<bool> {
    match expected {
        Some(et) => Some(lowercase(et) == actual),
        None => None,
    }
}

/// The time check: there is an actual time and it is the expected one.
pub open spec fn time_check(expected: Option<Seq<char>>, actual: Option<Seq<char>>) -> Option<bool> {
    match expected {
        Some(et) => Some(actual == Some(et)),
        None => None,
    }
}

/// The rule check: there is an actual rule and the expected text occurs in
/// it.
pub open spec fn rrule_check(expected: Option<Seq<char>>, actual: Option<Seq<char>>) -> Option<
    bool,
> {
    match expected {
        Some(er) => Some(
            match actual {
                Some(ar) => contains(ar, er),
                None => false,
            },
        ),
        None => None,
    }
}

/// The body check: the expected text occurs in the body, both lowercased.
pub open spec fn body_check(expected: Option<Seq<char>>, actual: Seq<char>) -> Option<bool> {
    match expected {
        Some(eb) => Some(contains(lowercase(actual), lowercase(eb))),
        None => None,
    }
}

/// What each failed check reports, in check order.
pub open spec fn failure_parts(
    e: EntryModel,
    actual_type: Seq<char>,
    actual_time: Option<Seq<char>>,
    actual_rrule: Option<Seq<char>>,
    actual_body: Seq<char>,
) -> Seq<Seq<char>> {
    let p0: Seq<Seq<char>> = seq![];
    let p1 = if type_check(e.expected_type, actual_type) == Some(false) {
        p0.push("type: expected "@ + or_text(e.expected_type, "?"@) + ", got "@ + actual_type)
    } else {
        p0
    };
    let p2 = if time_check(e.expected_time, actual_time) == Some(false) {
        p1.push(
            "time: expected "@ + or_text(e.expected_time, "none"@) + ", got "@ + or_text(
                actual_time,
                "none"@,
            ),
        )
    } else {
        p1
    };
    let p3 = if rrule_check(e.expected_rrule, actual_rrule) == Some(false) {
        p2.push("rrule: expected to contain "@ + debug_text(or_text(e.expected_rrule, ""@)))
    } else {
        p2
    };
    if body_check(e.expected_body, actual_body) == Some(false) {
        p3.push(
            "body: "@ + debug_text(or_text(e.expected_body, ""@)) + " not found in "@ + debug_text(
                actual_body,
            ),
        )
    } else {
        p3
    }
}

/// Pieces joined with a separator.
pub open spec fn join_sep(p: Seq<Seq<char>>, sep: Seq<char>) -> Seq<char>
    decreases p.len(),
{
    if p.len() == 0 {
        seq![]
    } else if p.len() == 1 {
        p[0]
    } else {
        join_sep(p.drop_last(), sep) + sep + p.last()
    }
}

/// The outcome of the entry at position `index` (counted from 0), given what
/// the pipeline produced for it and the local time text of its instant.
pub open spec fn evaluate_spec(
    index: int,
    e: EntryModel,
    tier: Seq<char>,
    actual_type: Seq<char>,
    actual_time: Option<Seq<char>>,
    actual_rrule: Option<Seq<char>>,
    actual_body: Seq<char>,
) -> ResultModel {
    let parts = failure_parts(e, actual_type, actual_time, actual_rrule, actual_body);
    ResultModel {
        index: index + 1,
        input: e.input,
        tier_used: tier,
        actual_type,
        actual_time,
        actual_rrule,
        actual_body,
        type_pass: type_check(e.expected_type, actual_type),
        time_pass: time_check(e.expected_time, actual_time),
        rrule_pass: rrule_check(e.expected_rrule, actual_rrule),
        body_pass: body_check(e.expected_body, actual_body),
        pass: parts.len() == 0,
        failure_reason: if parts.len() == 0 {
            None
        } else {
            Some(join_sep(parts, "; "@))
        },
    }
}

pub(crate) fn join_exec(parts: &Vec<String>, sep: &str) -> (r: String)
    ensures
        r@ == join_sep(strings_view(*parts), sep@),
{
    let ghost pv = strings_view(*parts);
    let mut out: Vec<char> = Vec::new();
    let mut i: usize = 0;
    while i < parts.len()
        invariant
            i <= parts.len(),
            pv == strings_view(*parts),
            out@ == join_sep(pv.take(i as int), sep@),
        decreases parts.len() - i,
    {
        proof {
            assert(pv.take(i + 1).drop_last() =~= pv.take(i as int));
            assert(pv.take(i + 1).last() == parts@[i as int]@);
        }
        if i > 0 {
            push_str(&mut out, sep);
        } else {
            proof {
                assert(pv.take(1) =~= seq![parts@[0]@]);
            }
        }
        push_str(&mut out, parts[i].as_str());
        i = i + 1;
    }
    proof {
        assert(pv.take(parts.len() as int) =~= pv);
    }
    string_of(&out)
}

fn text_or(o: &Option<String>, d: &str) -> (r: Vec<char>)
    ensures
        r@ == or_text(opt_view(*o), d@),
{
    match o {
        Some(s) => chars_of(s.as_str()),
        None => chars_of(d),
    }
}

/// Judges one corpus entry (at position `index`, counted from 0) against
/// what the pipeline produced for it; `actual_time` is the local `HH:MM`
/// text of the result's instant.
pub fn evaluate(
    index: usize,
    entry: &CorpusEntry,
    tier: &TierArg,
    result: &ClassificationResult,
    actual_time: Option<String>,
) -> (r: TestResult)
    requires
        index < usize::MAX,
    ensures
        r@ == evaluate_spec(
            index as int,
            entry@,
            tier.label_spec(),
            kind_name(result.note_type@),
            opt_view(actual_time),
            rrule_view(result.rrule),
            result.body@,
        ),
{
    let actual_type = string_of(&chars_of(result.note_type.as_str()));
    let actual_rrule: Option<String> = match &result.rrule {
        Some(rr) => Some(string_of(&chars_of(rr.as_str()))),
        None => None,
    };
    let actual_body = result.body.clone();
    let type_pass: Option<bool> = match &entry.expected_type {
        Some(et) => {
            let l = to_lowercase(et.as_str());
            Some(vec_eq_str(&chars_of(l.as_str()), actual_type.as_str()))
        },
        None => None,
    };
    let time_pass: Option<bool> = match &entry.expected_time {
        Some(et) => Some(
            match &actual_time {
                Some(at) => vec_eq_str(&chars_of(at.as_str()), et.as_str()),
                None => false,
            },
        ),
        None => None,
    };
    let rrule_pass: Option<bool> = match &entry.expected_rrule {
        Some(er) => Some(
            match &actual_rrule {
                Some(ar) => contains_vec(&chars_of(ar.as_str()), &chars_of(er.as_str())),
                None => false,
            },
        ),
        None => None,
    };
    let body_pass: Option<bool> = match &entry.expected_body {
        Some(eb) => {
            let lb = to_lowercase(actual_body.as_str());
            let le = to_lowercase(eb.as_str());
            Some(contains_vec(&chars_of(lb.as_str()), &chars_of(le.as_str())))
        },
        None => None,
    };
    let ghost e = entry@;
    let ghost at_v = opt_view(actual_time);
    let ghost ar_v = opt_view(actual_rrule);
    let mut parts: Vec<String> = Vec::new();
    if type_pass == Some(false) {
        let mut line = chars_of("type: expected ");
        push_all(&mut line, &text_or(&entry.expected_type, "?"));
        push_str(&mut line, ", got ");
        push_str(&mut line, actual_type.as_str());
        parts.push(string_of(&line));
    }
    let ghost parts1 = strings_view(parts);
    if time_pass == Some(false) {
        let mut line = chars_of("time: expected ");
        push_all(&mut line, &text_or(&entry.expected_time, "none"));
        push_str(&mut line, ", got ");
        push_all(&mut line, &text_or(&actual_time, "none"));
        parts.push(string_of(&line));
    }
    let ghost parts2 = strings_view(parts);
    if rrule_pass == Some(false) {
        let mut line = chars_of("rrule: expected to contain ");
        let want = string_of(&text_or(&entry.expected_rrule, ""));
        push_str(&mut line, debug_quoted(want.as_str()).as_str());
        parts.push(string_of(&line));
    }
    let ghost parts3 = strings_view(parts);
    if body_pass == Some(false) {
        let mut line = chars_of("body: ");
        let want = string_of(&text_or(&entry.expected_body, ""));
        push_str(&mut line, debug_quoted(want.as_str()).as_str());
        push_str(&mut line, " not found in ");
        push_str(&mut line, debug_quoted(actual_body.as_str()).as_str());
        parts.push(string_of(&line));
    }
    proof {
        let at = kind_name(result.note_type@);
        let p0: Seq<Seq<char>> = seq![];
        let p1 = if type_check(e.expected_type, at) == Some(false) {
            p0.push("type: expected "@ + or_text(e.expected_type, "?"@) + ", got "@ + at)
        } else {
            p0
        };
        assert(parts1 =~= p1);
        let p2 = if time_check(e.expected_time, at_v) == Some(false) {
            p1.push(
                "time: expected "@ + or_text(e.expected_time, "none"@) + ", got "@ + or_text(
                    at_v,
                    "none"@,
                ),
            )
        } else {
            p1
        };
        assert(parts2 =~= p2);
        let p3 = if rrule_check(e.expected_rrule, ar_v) == Some(false) {
            p2.push("rrule: expected to contain "@ + debug_text(or_text(e.expected_rrule, ""@)))
        } else {
            p2
        };
        assert(parts3 =~= p3);
        assert(strings_view(parts) =~= failure_parts(e, at, at_v, ar_v, result.body@));
    }
    let pass = parts.len() == 0;
    let failure_reason = if parts.len() == 0 {
        None
    } else {
        Some(join_exec(&parts, "; "))
    };
    TestResult {
        index: index + 1,
        input: entry.input.clone(),
        tier_used: string_of(&chars_of(tier.label())),
        actual_type,
        actual_time,
        actual_rrule,
        actual_body,
        type_pass,
        time_pass,
        rrule_pass,
        body_pass,
        pass,
        failure_reason,
    }
}

/// `HH:MM` of a wall-clock reading.
pub open spec fn hh_mm_spec(w: WallTime) -> Seq<char> {
    dec2((w.secs / 3600) as nat) + ":"@ + dec2(((w.secs % 3600) / 60) as nat)
}

pub fn hh_mm(w: WallTime) -> (r: String)
    requires
        w.secs < SECS_PER_DAY,
    ensures
        r@ == hh_mm_spec(w),
{
    let mut v = dec2_exec(w.secs / 3600);
    push_str(&mut v, ":");
    push_all(&mut v, &dec2_exec((w.secs % 3600) / 60));
    string_of(&v)
}

/// A shown time is the `HH:MM` of a local reading of the instant: a valid
/// reading less than a day from it, as the zone gives.
pub open spec fn shown_time(t: Option<i64>, shown: Option<Seq<char>>) -> bool {
    shown matches Some(s) ==> (t matches Some(u) && exists|w: WallTime|
        wall_ok(w) && near_offset(w, u as int) && s == hh_mm_spec(w))
}

/// The local `HH:MM` of an instant, if there is one and its local reading
/// is representable (see [`local_ok`]). The reading rests on the machine's
/// zone; stated is that it lies less than a day from the instant.
pub fn format_time(t: Option<i64>) -> (r: Option<String>)
    ensures
        r is Some <==> (t matches Some(u) && local_ok(u as int)),
        r matches Some(s) ==> exists|w: WallTime|
            wall_ok(w) && near_offset(w, t->0 as int) && s@ == hh_mm_spec(w),
{
    match t {
        Some(u) => {
            if u < MIN_UTC + SECS_PER_DAY || u > MAX_UTC - SECS_PER_DAY {
                return None;
            }
            let w = utc_to_local(u);
            Some(hh_mm(w))
        },
        None => None,
    }
}

/// Judges every corpus entry against the pipeline's result for it, in
/// corpus order; each result's time is shown as local `HH:MM`.
pub fn run_tests(entries: &Vec<CorpusEntry>, tier: &TierArg, results: &Vec<ClassificationResult>) -> (r:
    Vec<TestResult>)
    requires
        results.len() == entries.len(),
    ensures
        r.len() == entries.len(),
        forall|i: int|
            0 <= i < r.len() ==> (#[trigger] r@[i])@ == evaluate_spec(
                i,
                entries@[i]@,
                tier.label_spec(),
                kind_name(results@[i].note_type@),
                r@[i]@.actual_time,
                rrule_view(results@[i].rrule),
                results@[i].body@,
            ) && (r@[i]@.actual_time is Some <==> (results@[i].time matches Some(u) && local_ok(
                u as int,
            ))) && shown_time(results@[i].time, r@[i]@.actual_time),
{
    let mut out: Vec<TestResult> = Vec::new();
    let mut i: usize = 0;
    while i < entries.len()
        invariant
            i <= entries.len(),
            results.len() == entries.len(),
            out.len() == i,
            forall|k: int|
                0 <= k < i ==> (#[trigger] out@[k])@ == evaluate_spec(
                    k,
                    entries@[k]@,
                    tier.label_spec(),
                    kind_name(results@[k].note_type@),
                    out@[k]@.actual_time,
                    rrule_view(results@[k].rrule),
                    results@[k].body@,
                ) && (out@[k]@.actual_time is Some <==> (results@[k].time matches Some(u)
                    && local_ok(u as int))) && shown_time(results@[k].time, out@[k]@.actual_time),
        decreases entries.len() - i,
    {
        let shown = format_time(results[i].time);
        let res = evaluate(i, &entries[i], tier, &results[i], shown);
        out.push(res);
        i = i + 1;
    }
    out
}

/// Mark shown for a check: passed, failed, or not asked for.
pub open spec fn check_mark_spec(v: Option<bool>) -> Seq<char> {
    match v {
        Some(true) => "✓"@,
        Some(false) => "✗"@,
        None => "-"@,
    }
}

pub fn check_mark(v: Option<bool>) -> (r: &'static str)
    ensures
        r@ == check_mark_spec(v),
{
    match v {
        Some(true) => "✓",
        Some(false) => "✗",
        None => "-",
    }
}

/// How many results passed and how many failed.
pub fn tally(results: &Vec<TestResult>) -> (r: (usize, usize))
    ensures
        r.0 == results@.filter(|t: TestResult| t.pass).len(),
        r.1 == results@.filter(|t: TestResult| !t.pass).len(),
        r.0 + r.1 == results.len(),
{
    let ghost ok = |t: TestResult| t.pass;
    let ghost bad = |t: TestResult| !t.pass;
    let mut passed: usize = 0;
    let mut failed: usize = 0;
    let mut i: usize = 0;
    while i < results.len()
        invariant
            i <= results.len(),
            ok == (|t: TestResult| t.pass),
            bad == (|t: TestResult| !t.pass),
            passed == results@.take(i as int).filter(ok).len(),
            failed == results@.take(i as int).filter(bad).len(),
            passed + failed == i,
        decreases results.len() - i,
    {
        proof {
            reveal(Seq::filter);
            assert(results@.take(i + 1).drop_last() =~= results@.take(i as int));
            assert(results@.take(i + 1).last() == results@[i as int]);
        }
        if results[i].pass {
            passed = passed + 1;
        } else {
            failed = failed + 1;
        }
        i = i + 1;
    }
    proof {
        assert(results@.take(results.len() as int) =~= results@);
    }
    (passed, failed)
}

/// The text of an input as shown in the table: at most 42 octets, longer
/// ones cut to their first 41 octets and an ellipsis.
pub open spec fn display_spec(s: Seq<char>) -> Seq<char> {
    if octets(s) > 42 {
        s.take(fit_count(s, 41) as int) + "…"@
    } else {
        s
    }
}

/// The table text of an input. A longer input is cut at its 41st octet,
/// which must end a character.
pub fn input_display(s: &str) -> (r: String)
    requires
        octets(s@) > 42 ==> octets(s@.take(fit_count(s@, 41) as int)) == 41,
    ensures
        r@ == display_spec(s@),
{
    let v = chars_of(s);
    if octets_exec(&v) > 42 {
        let k = fit_count_exec(&v, 0, 41);
        proof {
            assert(v@.skip(0) =~= v@);
        }
        let mut pre = slice_vec(&v, 0, k);
        proof {
            assert(pre@ =~= v@.take(k as int));
        }
        push_str(&mut pre, "…");
        string_of(&pre)
    } else {
        string_of(&v)
    }
}

/// A corpus line that opens an entry: its first non-blank character is `{`.
pub open spec fn opens_entry(line: Seq<char>) -> bool {
    trim_start(line).len() > 0 && trim_start(line)[0] == '{'
}

/// Entries opened on the lines before line `k` (counted from 0).
pub open spec fn opened_before(lines: Seq<Seq<char>>, k: int) -> nat {
    lines.take(k).filter(|l: Seq<char>| opens_entry(l)).len()
}

/// The 1-based line on which entry `index` (1-based) of a corpus text
/// opens, if it has that many entries.
pub fn find_entry_line(content: &str, index: usize) -> (r: Option<usize>)
    ensures
        match r {
            Some(n) => {
                let lines = split_char(content@, '\n');
                &&& 1 <= n <= lines.len()
                &&& opens_entry(lines[n - 1])
                &&& opened_before(lines, n - 1) + 1 == index
            },
            None => {
                let lines = split_char(content@, '\n');
                forall|k: int|
                    0 <= k < lines.len() && opens_entry(#[trigger] lines[k]) ==> opened_before(
                        lines,
                        k,
                    ) + 1 != index
            },
        },
{
    let v = chars_of(content);
    let lines = split_char_exec(&v, '\n');
    let ghost lv = split_char(content@, '\n');
    let ghost op = |l: Seq<char>| opens_entry(l);
    let mut count: usize = 0;
    let mut i: usize = 0;
    while i < lines.len()
        invariant
            i <= lines.len(),
            lv == split_char(content@, '\n'),
            lines@.len() == lv.len(),
            forall|k: int| 0 <= k < lines@.len() ==> #[trigger] lines@[k]@ == lv[k],
            op == (|l: Seq<char>| opens_entry(l)),
            count == opened_before(lv, i as int),
            count <= i,
            forall|k: int|
                0 <= k < i && opens_entry(#[trigger] lv[k]) ==> opened_before(lv, k) + 1 != index,
        decreases lines.len() - i,
    {
        proof {
            reveal(Seq::filter);
            assert(lv.take(i + 1).drop_last() =~= lv.take(i as int));
            assert(lv.take(i + 1).last() == lv[i as int]);
        }
        let t = trim_start_vec(&lines[i]);
        let opens = t.len() > 0 && t[0] == '{';
        if opens {
            count = count + 1;
            if count == index {
                return Some(i + 1);
            }
        }
        i = i + 1;
    }
    None
}

/// An answer to an optional prompt: the trimmed line, or nothing when it
/// is blank.
pub fn answer_opt(line: &str) -> (r: Option<String>)
    ensures
        trim(line@).len() == 0 ==> r is None,
        trim(line@).len() > 0 ==> opt_view(r) == Some(trim(line@)),
{
    let t = trim_vec(&chars_of(line));
    if t.len() == 0 {
        None
    } else {
        Some(string_of(&t))
    }
}

/// Only the checks asked for are asserted: an entry passes exactly when
/// none of its type, time, rule and body checks failed.
pub proof fn law_pass_iff_no_failed_check(
    index: int,
    e: EntryModel,
    tier: Seq<char>,
    actual_type: Seq<char>,
    actual_time: Option<Seq<char>>,
    actual_rrule: Option<Seq<char>>,
    actual_body: Seq<char>,
)
    ensures
        ({
            let r = evaluate_spec(index, e, tier, actual_type, actual_time, actual_rrule, actual_body);
            r.pass <==> (r.type_pass != Some(false) && r.time_pass != Some(false) && r.rrule_pass
                != Some(false) && r.body_pass != Some(false))
        }),
{
}

} // verus!
