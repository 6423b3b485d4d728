//! Decisions behind the windows: searching, the note editor and the New
//! Note form, the reminder and capture popups, and the settings page.
//! Drawing the widgets is left to the caller.

use crate::calendar::uid_spec;
use crate::clock::{
    ce_ok, day_of_ce, lookup_fits, lookup_local, wall_of_ce, wall_ok, LocalLookup, WallTime,
    MAX_DAY,
};
use crate::config::CalendarConfig;
use crate::harness::{join_exec, join_sep};
use crate::pad_cli::strings_view;
use crate::parser::parse_rule_based;
use crate::store::{first_with_id, notes_view, update_spec, Store};
use crate::text::{
    chars_of, contains, contains_vec, dec, dec_u64, push_all, push_str, split_char,
    split_char_exec, string_from, string_of, trim, trim_vec, lemma_split_char_nonempty,
};
use crate::types::{
    kind_from_str, kind_name, lowercase, opt_view, rrule_view, to_lowercase, vec_eq_str,
    ClassificationResult, Note, NoteKind, NoteModel, NoteType, RecurrenceRule,
};
use vstd::prelude::*;

verus! {

broadcast use vstd::seq_lib::group_filter_ensures;

/// Notes whose body contains the query, ignoring case.
pub open spec fn matches_query(q: Seq<char>) -> spec_fn(NoteModel) -> bool {
    |n: NoteModel| contains(lowercase(n.body), lowercase(q))
}

/// The search results: every note for a blank query, else the notes whose
/// body contains the query (both lowercased), in stored order.
pub fn search_notes(notes: &Vec<Note>, query: &str) -> (r: Vec<Note>)
    ensures
        trim(query@).len() == 0 ==> notes_view(r) == notes_view(*notes),
        trim(query@).len() > 0 ==> notes_view(r) == notes_view(*notes).filter(
            matches_query(query@),
        ),
{
    let ghost nv = notes_view(*notes);
    let blank = trim_vec(&chars_of(query)).len() == 0;
    let q = chars_of(to_lowercase(query).as_str());
    let ghost pred = matches_query(query@);
    let mut out: Vec<Note> = Vec::new();
    let mut i: usize = 0;
    while i < notes.len()
        invariant
            i <= notes.len(),
            nv == notes_view(*notes),
            q@ == lowercase(query@),
            pred == matches_query(query@),
            blank == (trim(query@).len() == 0),
            blank ==> notes_view(out) == nv.take(i as int),
            !blank ==> notes_view(out) == nv.take(i as int).filter(pred),
        decreases notes.len() - i,
    {
        proof {
            reveal(Seq::filter);
            assert(nv.take(i + 1).drop_last() =~= nv.take(i as int));
            assert(nv.take(i + 1).last() == nv[i as int]);
        }
        let keep = blank || contains_vec(
            &chars_of(to_lowercase(notes[i].body.as_str()).as_str()),
            &q,
        );
        if keep {
            let ghost o0 = notes_view(out);
            out.push(notes[i].copy());
            proof {
                assert(notes_view(out) =~= o0.push(nv[i as int]));
            }
        }
        i = i + 1;
    }
    proof {
        assert(nv.take(notes.len() as int) =~= nv);
    }
    out
}

/// The view the manager opens on: the one asked for, else "all".
pub fn initial_view_name(view: &Option<String>) -> (r: String)
    ensures
        r@ == (match view {
            Some(v) => v@,
            None => "all"@,
        }),
{
    match view {
        Some(v) => v.clone(),
        None => string_from("all"),
    }
}

/// The emoji heading a reminder of a given type.
pub open spec fn emoji_spec(k: NoteKind) -> Seq<char> {
    match k {
        NoteKind::Reminder => "🔔"@,
        NoteKind::Todo => "✅"@,
        NoteKind::Idea => "💡"@,
        NoteKind::Question => "❓"@,
        _ => "📝"@,
    }
}

pub fn type_emoji(note_type: &NoteType) -> (r: &'static str)
    ensures
        r@ == emoji_spec(note_type@),
{
    match note_type {
        NoteType::Reminder => "🔔",
        NoteType::Todo => "✅",
        NoteType::Idea => "💡",
        NoteType::Question => "❓",
        _ => "📝",
    }
}

/// What a click on a two-click delete button does.
#[derive(Debug, Clone, Copy, PartialEq, Eq, Structural)]
pub enum DeleteStep {
    /// Ask for confirmation; the button is now armed.
    AskConfirm,
    /// Delete the note.
    Delete,
}

/// The first click arms the button; a click on an armed button deletes.
/// Returns the step and whether the button is armed afterwards.
pub fn delete_click(armed: bool) -> (r: (DeleteStep, bool))
    ensures
        armed ==> r.0 == DeleteStep::Delete,
        !armed ==> r.0 == DeleteStep::AskConfirm && r.1,
        armed ==> r.1,
{
    if armed {
        (DeleteStep::Delete, true)
    } else {
        (DeleteStep::AskConfirm, true)
    }
}

/// Style class of a note's card: `note-card-<type>`.
pub fn card_class(note_type: &NoteType) -> (r: String)
    ensures
        r@ == "note-card-"@ + kind_name(note_type@),
{
    let mut v = chars_of("note-card-");
    push_str(&mut v, note_type.as_str());
    string_of(&v)
}

/// The chip naming the workspace a note was captured on: `ws:<name>`.
pub fn workspace_chip(ws: &str) -> (r: String)
    ensures
        r@ == "ws:"@ + ws@,
{
    let mut v = chars_of("ws:");
    push_str(&mut v, ws);
    string_of(&v)
}

/// Label of a list's "new note of this type" button.
pub fn new_note_label(note_type: &NoteType) -> (r: String)
    ensures
        r@ == "+  New "@ + kind_name(note_type@),
{
    let mut v = chars_of("+  New ");
    push_str(&mut v, note_type.as_str());
    string_of(&v)
}

/// Which of the built-in type chips is shown active: the one whose name is
/// the selected type's.
pub fn chip_states(selected: &str) -> (r: Vec<bool>)
    ensures
        r@.len() == crate::types::builtin_names().len(),
        forall|i: int|
            0 <= i < r@.len() ==> (#[trigger] r@[i]) == (crate::types::builtin_names()[i]
                == selected@),
{
    let names = NoteType::all_builtin();
    let sel = chars_of(selected);
    let mut r: Vec<bool> = Vec::new();
    let mut i: usize = 0;
    while i < names.len()
        invariant
            i <= names.len(),
            names@.len() == crate::types::builtin_names().len(),
            forall|k: int| 0 <= k < names@.len() ==> #[trigger] names@[k]@ == crate::types::builtin_names()[k],
            sel@ == selected@,
            r@.len() == i,
            forall|k: int| 0 <= k < i ==> (#[trigger] r@[k]) == (crate::types::builtin_names()[k] == selected@),
        decreases names.len() - i,
    {
        let same = vec_eq_str(&sel, names[i]);
        r.push(same);
        i = i + 1;
    }
    r
}

/// The workspace a capture is tagged with: the decimal id of the active
/// workspace.
pub open spec fn int_text(n: int) -> Seq<char> {
    if n < 0 {
        "-"@ + dec((-n) as nat)
    } else {
        dec(n as nat)
    }
}

pub fn workspace_text(id: i64) -> (r: String)
    ensures
        r@ == int_text(id as int),
{
    if id < 0 {
        let mag: u64 = if id == i64::MIN {
            9223372036854775808u64
        } else {
            (-id) as u64
        };
        let mut v = chars_of("-");
        push_all(&mut v, &dec_u64(mag));
        string_of(&v)
    } else {
        string_of(&dec_u64(id as u64))
    }
}

/// `NaiveDateTime::parse_from_str(s, "%Y-%m-%d %H:%M")`: the chrono day
/// number and seconds past midnight of the reading a text names in that
/// format, if it does.
pub uninterp spec fn minute_stamp(s: Seq<char>) -> Option<(i32, u32)>;

/// The wall-clock reading a `YYYY-MM-DD HH:MM` text names, if it does.
pub open spec fn stamp_reading(s: Seq<char>) -> Option<WallTime> {
    match minute_stamp(s) {
        Some(p) => Some(wall_of_ce(p.0 as int, p.1)),
        None => None,
    }
}

/// Reads `YYYY-MM-DD HH:MM` with chrono's `parse_from_str`, giving the
/// date's chrono day number and the seconds past midnight. The reading is
/// named; that a parsed date lies in chrono's date range is stated.
#[verifier::external_body]
fn parse_minute_stamp(s: &str) -> (r: Option<(i32, u32)>)
    ensures
        r == minute_stamp(s@),
        r matches Some(p) ==> ce_ok(p.0 as int) && p.1 < crate::clock::SECS_PER_DAY,
{
    match chrono::NaiveDateTime::parse_from_str(s, "%Y-%m-%d %H:%M") {
        Ok(n) => Some(
            (
                chrono::Datelike::num_days_from_ce(&n.date()),
                chrono::Timelike::num_seconds_from_midnight(&n.time()),
            ),
        ),
        Err(_) => None,
    }
}

/// The wall-clock reading a `YYYY-MM-DD HH:MM` text names; see
/// [`stamp_reading`].
fn parse_stamp(s: &str) -> (r: Option<WallTime>)
    ensures
        r == stamp_reading(s@),
        r matches Some(w) ==> wall_ok(w),
{
    match parse_minute_stamp(s) {
        Some((ce, secs)) => Some(WallTime { day: day_of_ce(ce), secs }),
        None => None,
    }
}

/// The time an edited field names, from its readings: the zone's single
/// instant for a `YYYY-MM-DD HH:MM` stamp, otherwise the rule-based
/// parser's time.
pub open spec fn choose_time_spec(
    stamp: Option<WallTime>,
    zone: Option<LocalLookup>,
    parsed: Option<i64>,
) -> Option<i64> {
    match (stamp, zone) {
        (Some(_), Some(LocalLookup::Single(u))) => Some(u),
        _ => parsed,
    }
}

/// Chooses between the zone's answer for a stamped reading and the
/// parser's time; see [`choose_time_spec`].
pub fn choose_time(stamp: Option<WallTime>, zone: Option<LocalLookup>, parsed: Option<i64>) -> (r:
    Option<i64>)
    ensures
        r == choose_time_spec(stamp, zone, parsed),
{
    match (stamp, zone) {
        (Some(_), Some(LocalLookup::Single(u))) => Some(u),
        _ => parsed,
    }
}

/// The readings an edited time field is judged on: `zone` is the local
/// zone's answer for the stamp (none without a stamp), and `parsed` the
/// rule-based parser's time for the text at clock `c`.
pub open spec fn time_field_readings(
    s: Seq<char>,
    morning: Seq<char>,
    zone: Option<LocalLookup>,
    parsed: Option<i64>,
    c: crate::clock::Clock,
) -> bool {
    &&& match stamp_reading(trim(s)) {
        Some(w) => zone matches Some(l) && lookup_fits(w, l),
        None => zone is None,
    }
    &&& crate::parser::clock_reading(c)
    &&& (crate::parser::readable_at(s, c) ==> crate::parser::time_of_reading(
        crate::parser::rule_parse_spec(s, morning, c).when,
        parsed,
    ))
    &&& (!crate::parser::readable_at(s, c) ==> parsed is None)
}

/// The instant an edited time field names: [`choose_time`] applied to the
/// text's `YYYY-MM-DD HH:MM` stamp, the local zone's answer for it and the
/// rule-based parser's time, read at the call.
pub fn parse_time_field(s: &str, morning: &str) -> (r: Option<i64>)
    ensures
        exists|zone: Option<LocalLookup>, parsed: Option<i64>, c: crate::clock::Clock|
            #![trigger time_field_readings(s@, morning@, zone, parsed, c)]
            time_field_readings(s@, morning@, zone, parsed, c) && r == choose_time_spec(
                stamp_reading(trim(s@)),
                zone,
                parsed,
            ),
{
    let t = string_of(&trim_vec(&chars_of(s)));
    let stamp = parse_stamp(t.as_str());
    let zone = match stamp {
        Some(w) => Some(lookup_local(w)),
        None => None,
    };
    let reading = parse_rule_based(s, morning);
    let parsed = match &reading {
        Some(p) => p.time,
        None => None,
    };
    let r = choose_time(stamp, zone, parsed);
    proof {
        let c = choose|c: crate::clock::Clock|
            #![trigger crate::parser::rule_parse_spec(s@, morning@, c)]
            {
                &&& crate::parser::clock_reading(c)
                &&& (reading is None <==> !crate::parser::readable_at(s@, c))
                &&& (reading matches Some(res) ==> crate::parser::result_of_reading(
                    crate::parser::rule_parse_spec(s@, morning@, c),
                    res,
                ))
            };
        assert(time_field_readings(s@, morning@, zone, parsed, c));
    }
    r
}

/// A note after the editor's Save: body and type as entered, no time for a
/// blank time field, and no rule for a blank rule field, else the rule as
/// entered; everything else kept.
pub open spec fn edited_spec(
    n: NoteModel,
    body: Seq<char>,
    chosen_type: Seq<char>,
    time_text: Seq<char>,
    time: Option<i64>,
    rrule_text: Seq<char>,
) -> NoteModel {
    NoteModel {
        body,
        note_type: kind_from_str(chosen_type),
        time: if trim(time_text).len() == 0 {
            None
        } else {
            time
        },
        rrule: if trim(rrule_text).len() == 0 {
            None
        } else {
            Some(rrule_text)
        },
        ..n
    }
}

/// Applies the editor's fields to a note; `time` is what the time field
/// was read as (see [`parse_time_field`]).
pub fn edited_note(
    note: &Note,
    body: &str,
    chosen_type: &str,
    time_text: &str,
    time: Option<i64>,
    rrule_text: &str,
) -> (r: Note)
    ensures
        r@ == edited_spec(note@, body@, chosen_type@, time_text@, time, rrule_text@),
{
    let mut updated = note.copy();
    updated.body = string_from(body);
    updated.note_type = NoteType::from_str(chosen_type);
    updated.time = if trim_vec(&chars_of(time_text)).len() == 0 {
        None
    } else {
        time
    };
    updated.rrule = if trim_vec(&chars_of(rrule_text)).len() == 0 {
        None
    } else {
        Some(RecurrenceRule::new(rrule_text))
    };
    updated
}

/// A note after the New Note form: the parsed body, the chosen type unless
/// it is the default (then the parsed one), the parsed time and rule; a
/// non-blank time field's time and rule, when found, replace them; a
/// non-blank rule field replaces the rule.
pub open spec fn form_spec(
    fresh: NoteModel,
    parsed: (NoteKind, Option<i64>, Option<Seq<char>>),
    time_parsed: Option<(Option<i64>, Option<Seq<char>>)>,
    rrule_text: Seq<char>,
    user_type: NoteKind,
    default_type: NoteKind,
) -> NoteModel {
    let t0 = parsed.1;
    let r0 = parsed.2;
    let (t1, r1) = match time_parsed {
        Some((tt, tr)) => (
            if tt is Some {
                tt
            } else {
                t0
            },
            if tr is Some {
                tr
            } else {
                r0
            },
        ),
        None => (t0, r0),
    };
    NoteModel {
        note_type: if user_type == default_type {
            parsed.0
        } else {
            fresh.note_type
        },
        time: t1,
        rrule: if trim(rrule_text).len() == 0 {
            r1
        } else {
            Some(rrule_text)
        },
        ..fresh
    }
}

/// Fills a fresh note (made from the parsed body) from the New Note form:
/// `parsed` is the reading of the body, `time_parsed` that of a non-blank
/// time field.
pub fn form_note(
    fresh: Note,
    parsed: &ClassificationResult,
    time_parsed: &Option<ClassificationResult>,
    rrule_text: &str,
    user_type: &NoteType,
    default_type: &NoteType,
) -> (r: Note)
    ensures
        r@ == form_spec(
            fresh@,
            (parsed.note_type@, parsed.time, rrule_view(parsed.rrule)),
            match time_parsed {
                Some(tp) => Some((tp.time, rrule_view(tp.rrule))),
                None => None,
            },
            rrule_text@,
            user_type@,
            default_type@,
        ),
{
    let mut note = fresh;
    if *user_type == *default_type {
        note.note_type = parsed.note_type.copy();
    }
    note.time = parsed.time;
    note.rrule = match &parsed.rrule {
        Some(r) => Some(r.copy()),
        None => None,
    };
    match time_parsed {
        Some(tp) => {
            if tp.time.is_some() {
                note.time = tp.time;
            }
            if tp.rrule.is_some() {
                note.rrule = match &tp.rrule {
                    Some(r) => Some(r.copy()),
                    None => None,
                };
            }
        },
        None => {},
    }
    if trim_vec(&chars_of(rrule_text)).len() > 0 {
        note.rrule = Some(RecurrenceRule::new(rrule_text));
    }
    note
}

/// Why the New Note form did not produce a note.
#[derive(Debug, Clone, Copy, PartialEq, Eq, Structural)]
pub enum FormError {
    /// The body is blank.
    BodyRequired,
    /// The text could not be read at the current moment.
    Unreadable,
}

/// The note the New Note form makes from the readings taken: the body
/// text read at clock `c1` (its time resolved to `t1`), a non-blank time
/// field read at clock `c2` (its time resolved to `t2`); `n` is a fresh
/// note (id `id`, created `created`) of the chosen type with the parsed
/// body, filled as [`form_spec`] states.
pub open spec fn form_outcome(
    body_text: Seq<char>,
    time_text: Seq<char>,
    rrule_text: Seq<char>,
    user_type: NoteKind,
    default_type: NoteKind,
    morning: Seq<char>,
    c1: crate::clock::Clock,
    c2: crate::clock::Clock,
    t1: Option<i64>,
    t2: Option<i64>,
    n: NoteModel,
) -> bool {
    let m1 = crate::parser::rule_parse_spec(body_text, morning, c1);
    let m2 = crate::parser::rule_parse_spec(time_text, morning, c2);
    let time_given = trim(time_text).len() > 0;
    let fresh = NoteModel {
        id: n.id,
        body: m1.body,
        note_type: user_type,
        time: None,
        rrule: None,
        done: false,
        workspace: None,
        created: n.created,
        snoozed_until: None,
        completed: None,
        tags: Seq::empty(),
        caldav_uid: None,
    };
    &&& crate::parser::readable_at(body_text, c1)
    &&& crate::parser::time_of_reading(m1.when, t1)
    &&& (time_given ==> crate::parser::readable_at(time_text, c2)
        && crate::parser::time_of_reading(m2.when, t2))
    &&& n == form_spec(
        fresh,
        (m1.note_type, t1, m1.rrule),
        if time_given {
            Some((t2, m2.rrule))
        } else {
            None
        },
        rrule_text,
        user_type,
        default_type,
    )
}

/// The note the New Note form adds: none for a blank body; otherwise a
/// fresh note of the chosen type filled from the readings of the body and
/// of a non-blank time field (see [`form_outcome`]).
pub fn note_from_form(
    body_text: &str,
    time_text: &str,
    rrule_text: &str,
    user_type: &NoteType,
    default_type: &NoteType,
    morning: &str,
) -> (r: Result<Note, FormError>)
    ensures
        trim(body_text@).len() == 0 <==> r == Err::<Note, FormError>(FormError::BodyRequired),
        r == Err::<Note, FormError>(FormError::Unreadable) ==> exists|c: crate::clock::Clock|
            crate::parser::clock_reading(c) && (!crate::parser::readable_at(body_text@, c) || (
            trim(time_text@).len() > 0 && !crate::parser::readable_at(time_text@, c))),
        r matches Ok(n) ==> n@.id.len() == 6 && crate::clock::utc_ok(n@.created as int)
            && exists|c1: crate::clock::Clock, c2: crate::clock::Clock, t1: Option<i64>, t2: Option<
                i64,
            >|
                #![trigger form_outcome(
                    body_text@,
                    time_text@,
                    rrule_text@,
                    user_type@,
                    default_type@,
                    morning@,
                    c1,
                    c2,
                    t1,
                    t2,
                    n@,
                )]
                form_outcome(
                    body_text@,
                    time_text@,
                    rrule_text@,
                    user_type@,
                    default_type@,
                    morning@,
                    c1,
                    c2,
                    t1,
                    t2,
                    n@,
                ),
{
    if trim_vec(&chars_of(body_text)).len() == 0 {
        return Err(FormError::BodyRequired);
    }
    let parsed = match parse_rule_based(body_text, morning) {
        Some(p) => p,
        None => return Err(FormError::Unreadable),
    };
    let ghost c1 = choose|c: crate::clock::Clock|
        #![trigger crate::parser::rule_parse_spec(body_text@, morning@, c)]
        {
            &&& crate::parser::clock_reading(c)
            &&& crate::parser::readable_at(body_text@, c)
            &&& crate::parser::result_of_reading(
                crate::parser::rule_parse_spec(body_text@, morning@, c),
                parsed,
            )
        };
    let time_given = trim_vec(&chars_of(time_text)).len() > 0;
    let time_parsed = if time_given {
        match parse_rule_based(time_text, morning) {
            Some(p) => Some(p),
            None => return Err(FormError::Unreadable),
        }
    } else {
        None
    };
    let ghost c2 = if time_given {
        choose|c: crate::clock::Clock|
            #![trigger crate::parser::rule_parse_spec(time_text@, morning@, c)]
            {
                &&& crate::parser::clock_reading(c)
                &&& crate::parser::readable_at(time_text@, c)
                &&& crate::parser::result_of_reading(
                    crate::parser::rule_parse_spec(time_text@, morning@, c),
                    time_parsed->0,
                )
            }
    } else {
        c1
    };
    let ghost t2 = match &time_parsed {
        Some(tp) => tp.time,
        None => None,
    };
    let fresh = Note::new(parsed.body.clone(), user_type.copy(), None);
    let n = form_note(fresh, &parsed, &time_parsed, rrule_text, user_type, default_type);
    proof {
        assert(n@.id == fresh@.id);
        assert(fresh@.tags =~= Seq::<Seq<char>>::empty());
        assert(form_outcome(
            body_text@,
            time_text@,
            rrule_text@,
            user_type@,
            default_type@,
            morning@,
            c1,
            c2,
            parsed.time,
            t2,
            n@,
        ));
    }
    Ok(n)
}

/// Enter in the New Note body adds the note only while the time and rule
/// fields are empty.
pub fn enter_submits(time_text: &str, rrule_text: &str) -> (b: bool)
    ensures
        b == (time_text@.len() == 0 && rrule_text@.len() == 0),
{
    chars_of(time_text).len() == 0 && chars_of(rrule_text).len() == 0
}

/// A captured note is given a reminder timer when it has a time.
pub fn schedules_on_capture(note: &Note) -> (b: bool)
    ensures
        b == (note.time is Some),
{
    note.time.is_some()
}

/// Marks the note with `id` done: the updated list and the calendar to
/// push it to, or `None` when no note has that id.
pub fn mark_done_by_id(store: &Store, notes: &Vec<Note>, id: &str) -> (r: Option<
    (Vec<Note>, Option<CalendarConfig>),
>)
    ensures
        r is None <==> first_with_id(notes_view(*notes), id@) is None,
        r matches Some((v, _)) ==> first_with_id(notes_view(*notes), id@) matches Some(n)
            && exists|t: i64|
            crate::clock::utc_ok(t as int) && notes_view(v) == update_spec(
                notes_view(*notes),
                NoteModel { done: true, completed: Some(t), ..n },
            ),
{
    match Store::get_by_id(notes, id) {
        Some(mut n) => {
            n.mark_done();
            let (v, cal) = store.update_note(notes, &n);
            Some((v, cal))
        },
        None => None,
    }
}

/// The snooze options as typed on the settings page: the comma-separated
/// pieces, trimmed, blank ones left out.
pub open spec fn snooze_options_spec(text: Seq<char>) -> Seq<Seq<char>> {
    split_char(text, ',').map_values(|p: Seq<char>| trim(p)).filter(|p: Seq<char>| p.len() > 0)
}

pub fn parse_snooze_options(text: &str) -> (r: Vec<String>)
    ensures
        strings_view(r) == snooze_options_spec(text@),
{
    let v = chars_of(text);
    let parts = split_char_exec(&v, ',');
    let ghost tv = split_char(text@, ',').map_values(|p: Seq<char>| trim(p));
    let ghost keep = |p: Seq<char>| p.len() > 0;
    let mut out: Vec<String> = Vec::new();
    let mut i: usize = 0;
    while i < parts.len()
        invariant
            i <= parts.len(),
            parts@.len() == split_char(text@, ',').len(),
            forall|k: int| 0 <= k < parts@.len() ==> #[trigger] parts@[k]@ == split_char(text@, ',')[k],
            tv == split_char(text@, ',').map_values(|p: Seq<char>| trim(p)),
            keep == (|p: Seq<char>| p.len() > 0),
            strings_view(out) == tv.take(i as int).filter(keep),
        decreases parts.len() - i,
    {
        proof {
            reveal(Seq::filter);
            assert(tv.take(i + 1).drop_last() =~= tv.take(i as int));
            assert(tv.take(i + 1).last() == trim(parts@[i as int]@));
        }
        let t = trim_vec(&parts[i]);
        if t.len() > 0 {
            let ghost o0 = strings_view(out);
            out.push(string_of(&t));
            proof {
                assert(strings_view(out) =~= o0.push(t@));
            }
        }
        i = i + 1;
    }
    proof {
        assert(tv.take(parts.len() as int) =~= tv);
    }
    out
}

/// The snooze options as shown on the settings page: joined with `, `.
pub fn snooze_options_text(opts: &Vec<String>) -> (r: String)
    ensures
        r@ == join_sep(strings_view(*opts), ", "@),
{
    join_exec(opts, ", ")
}

/// Splitting at a separator placed between two texts splits each part.
proof fn lemma_split_concat(s: Seq<char>, t: Seq<char>, c: char)
    ensures
        split_char(s + seq![c] + t, c) == split_char(s, c) + split_char(t, c),
    decreases t.len(),
{
    let u = s + seq![c] + t;
    if t.len() == 0 {
        assert(u.drop_last() =~= s);
        assert(split_char(u, c) =~= split_char(s, c) + split_char(t, c));
    } else {
        let t0 = t.drop_last();
        lemma_split_concat(s, t0, c);
        assert(u.drop_last() =~= s + seq![c] + t0);
        assert(u.last() == t.last());
        let a = split_char(s, c);
        let b = split_char(t0, c);
        lemma_split_char_nonempty(t0, c);
        if t.last() == c {
            assert(split_char(u, c) =~= (a + b).push(seq![]));
            assert(split_char(t, c) =~= b.push(seq![]));
            assert((a + b).push(seq![]) =~= a + b.push(seq![]));
        } else {
            let ab = a + b;
            assert(split_char(u, c) =~= ab.update(ab.len() - 1, ab.last().push(t.last())));
            assert(split_char(t, c) =~= b.update(b.len() - 1, b.last().push(t.last())));
            assert(ab.update(ab.len() - 1, ab.last().push(t.last())) =~= a + b.update(
                b.len() - 1,
                b.last().push(t.last()),
            ));
        }
    }
}

/// A text without the separator is a single piece.
proof fn lemma_split_without(s: Seq<char>, c: char)
    requires
        forall|i: int| 0 <= i < s.len() ==> s[i] != c,
    ensures
        split_char(s, c) == seq![s],
    decreases s.len(),
{
    if s.len() == 0 {
        assert(s =~= seq![]);
    } else {
        let d = s.drop_last();
        assert forall|i: int| 0 <= i < d.len() implies d[i] != c by {
            assert(d[i] == s[i]);
        }
        lemma_split_without(d, c);
        assert(s[s.len() - 1] != c);
        assert(d.push(s.last()) =~= s);
        assert(seq![d].update(0, d.push(s.last())) =~= seq![s]);
    }
}

/// A leading space does not change the trimmed text.
proof fn lemma_trim_leading_space(o: Seq<char>)
    ensures
        trim(seq![' '] + o) == trim(o),
{
    let s = seq![' '] + o;
    let p = crate::text::ws_pred();
    assert(s.drop_first() =~= o);
    assert(p(s[0]));
    assert(crate::text::lead_count(s, p) == 1 + crate::text::lead_count(o, p));
    crate::text::lemma_lead_count(o, p);
    let a = crate::text::lead_count(o, p) as int;
    assert(s.subrange(a + 1, s.len() as int) =~= o.subrange(a, o.len() as int));
}

/// Keeping the items that all pass a test keeps them all.
proof fn lemma_filter_all<A>(s: Seq<A>, p: spec_fn(A) -> bool)
    requires
        forall|i: int| 0 <= i < s.len() ==> p(#[trigger] s[i]),
    ensures
        s.filter(p) == s,
    decreases s.len(),
{
    reveal(Seq::filter);
    if s.len() > 0 {
        lemma_filter_all(s.drop_last(), p);
        assert(s.drop_last().push(s.last()) =~= s);
    }
}

/// Options that are trimmed, not blank and free of commas.
pub open spec fn plain_options(opts: Seq<Seq<char>>) -> bool {
    forall|i: int|
        0 <= i < opts.len() ==> {
            &&& (#[trigger] opts[i]).len() > 0
            &&& trim(opts[i]) == opts[i]
            &&& forall|k: int| 0 <= k < opts[i].len() ==> opts[i][k] != ','
        }
}

proof fn lemma_pieces_trim(opts: Seq<Seq<char>>)
    requires
        opts.len() >= 1,
        plain_options(opts),
    ensures
        split_char(join_sep(opts, ", "@), ',').map_values(|p: Seq<char>| trim(p)) == opts,
    decreases opts.len(),
{
    reveal_strlit(", ");
    if opts.len() == 1 {
        lemma_split_without(opts[0], ',');
        assert(split_char(opts[0], ',').map_values(|p: Seq<char>| trim(p)) =~= opts);
    } else {
        let init = opts.drop_last();
        let last = opts.last();
        assert(plain_options(init)) by {
            assert forall|i: int| 0 <= i < init.len() implies {
                &&& (#[trigger] init[i]).len() > 0
                &&& trim(init[i]) == init[i]
                &&& forall|k: int| 0 <= k < init[i].len() ==> init[i][k] != ','
            } by {
                assert(init[i] == opts[i]);
            }
        }
        lemma_pieces_trim(init);
        let j = join_sep(init, ", "@);
        let tail = seq![' '] + last;
        assert(join_sep(opts, ", "@) =~= j + seq![','] + tail);
        lemma_split_concat(j, tail, ',');
        assert(opts[opts.len() - 1] == last);
        assert forall|i: int| 0 <= i < tail.len() implies tail[i] != ',' by {
            if i > 0 {
                assert(tail[i] == last[i - 1]);
            }
        }
        lemma_split_without(tail, ',');
        lemma_trim_leading_space(last);
        let f = |p: Seq<char>| trim(p);
        let a = split_char(j, ',');
        assert((a + seq![tail]).map_values(f) =~= a.map_values(f).push(f(tail)));
        assert(a.map_values(f).push(f(tail)) =~= opts);
    }
}

/// Showing the snooze options on the settings page and reading the text
/// back gives the same options, as long as each is trimmed, not blank and
/// free of commas.
pub proof fn law_snooze_options_round_trip(opts: Seq<Seq<char>>)
    requires
        plain_options(opts),
    ensures
        snooze_options_spec(join_sep(opts, ", "@)) == opts,
{
    if opts.len() == 0 {
        let e: Seq<char> = seq![];
        assert(join_sep(opts, ", "@) =~= e);
        assert(split_char(e, ',') =~= seq![e]);
        let m = split_char(e, ',').map_values(|p: Seq<char>| trim(p));
        let keep = |p: Seq<char>| p.len() > 0;
        reveal(Seq::filter);
        assert(m.len() == 1);
        assert(trim(e).len() == 0);
        assert(!keep(m.last()));
        assert(m.drop_last().len() == 0);
        assert(m.drop_last().filter(keep) =~= seq![]);
        assert(m.filter(keep) =~= seq![]);
        assert(snooze_options_spec(join_sep(opts, ", "@)) =~= opts);
    } else {
        lemma_pieces_trim(opts);
        let m = split_char(join_sep(opts, ", "@), ',').map_values(|p: Seq<char>| trim(p));
        lemma_filter_all(m, |p: Seq<char>| p.len() > 0);
    }
}

} // verus!
