//! Decisions of the capture program: its command line, snooze choices,
//! and how a classification is applied to a captured note.

use crate::clock::{
    clock_now, clock_ok, local_naive_to_utc, local_resolution, tod_secs, wall_ok, Clock, WallTime,
    MAX_DAY, SECS_PER_DAY,
};
use crate::calendar::{caldav_uid, uid_spec};
use crate::text::{
    chars_of, parse_u32, parse_u32_spec, push_all, push_str, split_char, split_char_exec,
    string_from, string_of,
};
use crate::types::{kind_from_str, ClassificationResult, Note, NoteModel, NoteType};
use vstd::prelude::*;

verus! {

/// The capture program's command line.
#[derive(Debug)]
pub struct Args {
    pub note_type: Option<String>,
    pub no_classify: bool,
    pub status: bool,
    pub fire_id: Option<String>,
    pub download_model: bool,
    pub model_info: bool,
    pub calendar_test: bool,
    pub calendar_list_uid: Option<String>,
}

/// Mathematical value of the command line.
pub struct ArgsModel {
    pub note_type: Option<Seq<char>>,
    pub no_classify: bool,
    pub status: bool,
    pub fire_id: Option<Seq<char>>,
    pub download_model: bool,
    pub model_info: bool,
    pub calendar_test: bool,
    pub calendar_list_uid: Option<Seq<char>>,
}

impl View for Args {
    type V = ArgsModel;

    open spec fn view(&self) -> ArgsModel {
        ArgsModel {
            note_type: crate::types::opt_view(self.note_type),
            no_classify: self.no_classify,
            status: self.status,
            fire_id: crate::types::opt_view(self.fire_id),
            download_model: self.download_model,
            model_info: self.model_info,
            calendar_test: self.calendar_test,
            calendar_list_uid: crate::types::opt_view(self.calendar_list_uid),
        }
    }
}

pub open spec fn get(raw: Seq<Seq<char>>, i: int) -> Option<Seq<char>> {
    if 0 <= i < raw.len() {
        Some(raw[i])
    } else {
        None
    }
}

pub open spec fn no_args() -> ArgsModel {
    ArgsModel {
        note_type: None,
        no_classify: false,
        status: false,
        fire_id: None,
        download_model: false,
        model_info: false,
        calendar_test: false,
        calendar_list_uid: None,
    }
}

/// One step of argument reading at position `i`: the updated arguments and
/// how many tokens after the one at `i` it consumed.
pub open spec fn pad_step(raw: Seq<Seq<char>>, i: int, a: ArgsModel) -> (ArgsModel, int) {
    let t = raw[i];
    if t == "--type"@ || t == "-t"@ {
        (ArgsModel { note_type: get(raw, i + 1), ..a }, 1)
    } else if t == "--no-classify"@ {
        (ArgsModel { no_classify: true, ..a }, 0)
    } else if t == "--status"@ {
        (ArgsModel { status: true, ..a }, 0)
    } else if t == "download-model"@ {
        (ArgsModel { download_model: true, ..a }, 0)
    } else if t == "model-info"@ {
        (ArgsModel { model_info: true, ..a }, 0)
    } else if t == "fire"@ {
        (ArgsModel { fire_id: get(raw, i + 1), ..a }, 1)
    } else if t == "calendar"@ {
        match get(raw, i + 1) {
            Some(s) => if s == "test"@ {
                (ArgsModel { calendar_test: true, ..a }, 1)
            } else if s == "list-uid"@ {
                (
                    ArgsModel {
                        calendar_list_uid: Some(
                            match get(raw, i + 2) {
                                Some(u) => u,
                                None => seq![],
                            },
                        ),
                        ..a
                    },
                    2,
                )
            } else {
                (a, 1)
            },
            None => (a, 1),
        }
    } else {
        (a, 0)
    }
}

/// Reading the arguments from position `i` on.
pub open spec fn pad_parse_from(raw: Seq<Seq<char>>, i: int, a: ArgsModel) -> ArgsModel
    decreases raw.len() - i,
{
    if i < 0 || i >= raw.len() {
        a
    } else {
        let (a2, k) = pad_step(raw, i, a);
        if 0 <= k && i + 1 + k < raw.len() {
            pad_parse_from(raw, i + 1 + k, a2)
        } else {
            a2
        }
    }
}

pub open spec fn strings_view(v: Vec<String>) -> Seq<Seq<char>> {
    v@.map_values(|s: String| s@)
}

fn eq_lit(s: &String, lit: &str) -> (b: bool)
    ensures
        b == (s@ == lit@),
{
    crate::types::vec_eq_str(&chars_of(s.as_str()), lit)
}

fn get_exec(raw: &Vec<String>, i: usize, k: usize) -> (r: Option<String>)
    requires
        i <= raw.len(),
    ensures
        crate::types::opt_view(r) == get(strings_view(*raw), i + k),
{
    if k < raw.len() - i {
        Some(raw[i + k].clone())
    } else {
        None
    }
}

/// Reads the capture program's arguments (without the program name).
pub fn parse(raw: &Vec<String>) -> (r: Args)
    ensures
        r@ == pad_parse_from(strings_view(*raw), 0, no_args()),
{
    let ghost rv = strings_view(*raw);
    let mut a = Args {
        note_type: None,
        no_classify: false,
        status: false,
        fire_id: None,
        download_model: false,
        model_info: false,
        calendar_test: false,
        calendar_list_uid: None,
    };
    let mut i: usize = 0;
    while i < raw.len()
        invariant
            rv == strings_view(*raw),
            i <= raw.len(),
            pad_parse_from(rv, 0, no_args()) == pad_parse_from(rv, i as int, a@),
        decreases raw.len() - i,
    {
        let t = &raw[i];
        proof { assert(rv[i as int] == t@); }
        let mut k: usize = 0;
        if eq_lit(t, "--type") || eq_lit(t, "-t") {
            a.note_type = get_exec(raw, i, 1);
            k = 1;
        } else if eq_lit(t, "--no-classify") {
            a.no_classify = true;
        } else if eq_lit(t, "--status") {
            a.status = true;
        } else if eq_lit(t, "download-model") {
            a.download_model = true;
        } else if eq_lit(t, "model-info") {
            a.model_info = true;
        } else if eq_lit(t, "fire") {
            a.fire_id = get_exec(raw, i, 1);
            k = 1;
        } else if eq_lit(t, "calendar") {
            k = 1;
            match get_exec(raw, i, 1) {
                Some(s) => {
                    if eq_lit(&s, "test") {
                        a.calendar_test = true;
                    } else if eq_lit(&s, "list-uid") {
                        k = 2;
                        a.calendar_list_uid = Some(
                            match get_exec(raw, i, 2) {
                                Some(u) => u,
                                None => String::new(),
                            },
                        );
                    }
                },
                None => {},
            }
        }
        if k < raw.len() - i - 1 {
            i = i + 1 + k;
        } else {
            i = raw.len();
        }
    }
    a
}

/// What the capture program does for a command line.
#[derive(Debug)]
pub enum PadCommand {
    Status,
    DownloadModel,
    ModelInfo,
    /// Show the reminder for this note id.
    Fire(String),
    CalendarTest,
    /// List calendar identifiers: all of them for an empty id, else one.
    CalendarListUid(String),
    /// Open the capture popup, with a preset type and whether to classify.
    Popup(Option<String>, bool),
}

/// The first of status, model download, model info, fire, calendar test
/// and calendar listing that the command line asks for; else the popup.
pub fn pad_command(args: Args) -> (r: PadCommand)
    ensures
        match r {
            PadCommand::Status => args.status,
            PadCommand::DownloadModel => !args.status && args.download_model,
            PadCommand::ModelInfo => !args.status && !args.download_model && args.model_info,
            PadCommand::Fire(id) => !args.status && !args.download_model && !args.model_info
                && args.fire_id == Some(id),
            PadCommand::CalendarTest => !args.status && !args.download_model && !args.model_info
                && args.fire_id is None && args.calendar_test,
            PadCommand::CalendarListUid(id) => !args.status && !args.download_model
                && !args.model_info && args.fire_id is None && !args.calendar_test
                && args.calendar_list_uid == Some(id),
            PadCommand::Popup(t, nc) => !args.status && !args.download_model && !args.model_info
                && args.fire_id is None && !args.calendar_test && args.calendar_list_uid is None
                && t == args.note_type && nc == args.no_classify,
        },
{
    if args.status {
        return PadCommand::Status;
    }
    if args.download_model {
        return PadCommand::DownloadModel;
    }
    if args.model_info {
        return PadCommand::ModelInfo;
    }
    if let Some(id) = args.fire_id {
        return PadCommand::Fire(id);
    }
    if args.calendar_test {
        return PadCommand::CalendarTest;
    }
    if let Some(id) = args.calendar_list_uid {
        return PadCommand::CalendarListUid(id);
    }
    PadCommand::Popup(args.note_type, args.no_classify)
}

/// The label shown for a snooze option.
pub open spec fn humanize_spec(s: Seq<char>) -> Seq<char> {
    if s == "15m"@ {
        "15 minutes"@
    } else if s == "1h"@ {
        "1 hour"@
    } else if s == "tomorrow_morning"@ {
        "Tomorrow morning"@
    } else {
        s
    }
}

pub fn humanize_snooze(s: &str) -> (r: String)
    ensures
        r@ == humanize_spec(s@),
{
    let v = chars_of(s);
    if crate::types::vec_eq_str(&v, "15m") {
        string_from("15 minutes")
    } else if crate::types::vec_eq_str(&v, "1h") {
        string_from("1 hour")
    } else if crate::types::vec_eq_str(&v, "tomorrow_morning") {
        string_from("Tomorrow morning")
    } else {
        string_of(&v)
    }
}

/// The `:`-separated fields of the morning setting that parse as numbers,
/// in order.
pub open spec fn numeric_fields(s: Seq<char>) -> Seq<u32> {
    split_char(s, ':').filter(|p: Seq<char>| parse_u32_spec(p) is Some).map_values(
        |p: Seq<char>| parse_u32_spec(p).unwrap(),
    )
}

/// Where a snooze option points at clock `c`: "15m" and "1h" are that long
/// after now; "tomorrow_morning" is tomorrow at the morning setting (its
/// first and second numeric fields, 8 and 0 when missing), if that is a
/// time of day; other keys point nowhere.
pub open spec fn snooze_spec(key: Seq<char>, morning: Seq<char>, c: Clock) -> Option<
    crate::parser::Target,
> {
    if key == "15m"@ {
        Some(crate::parser::Target::Utc((c.utc + 900) as i64))
    } else if key == "1h"@ {
        Some(crate::parser::Target::Utc((c.utc + 3600) as i64))
    } else if key == "tomorrow_morning"@ {
        let f = numeric_fields(morning);
        let h: int = if f.len() > 0 {
            f[0] as int
        } else {
            8
        };
        let m: int = if f.len() > 1 {
            f[1] as int
        } else {
            0
        };
        if h < 24 && m < 60 {
            Some(
                crate::parser::Target::Local(
                    WallTime { day: (c.local.day + 1) as i64, secs: (h * 3600 + m * 60) as u32 },
                ),
            )
        } else {
            None
        }
    } else {
        None
    }
}

fn numeric_fields_exec(s: &str) -> (r: Vec<u32>)
    ensures
        r@ == numeric_fields(s@),
{
    let v = chars_of(s);
    let parts = split_char_exec(&v, ':');
    let ghost pv = parts@.map_values(|p: Vec<char>| p@);
    let ghost pred = |p: Seq<char>| parse_u32_spec(p) is Some;
    let ghost f = |p: Seq<char>| parse_u32_spec(p).unwrap();
    proof { assert(pv =~= split_char(s@, ':')); }
    let mut out: Vec<u32> = Vec::new();
    let mut i: usize = 0;
    while i < parts.len()
        invariant
            i <= parts.len(),
            pv == parts@.map_values(|p: Vec<char>| p@),
            pred == (|p: Seq<char>| parse_u32_spec(p) is Some),
            f == (|p: Seq<char>| parse_u32_spec(p).unwrap()),
            out@ == pv.take(i as int).filter(pred).map_values(f),
        decreases parts.len() - i,
    {
        proof {
            reveal(Seq::filter);
            assert(pv.take(i + 1).drop_last() =~= pv.take(i as int));
            assert(pv.take(i + 1).last() == parts@[i as int]@);
        }
        match parse_u32(&parts[i]) {
            Some(n) => {
                let ghost before = pv.take(i as int).filter(pred);
                out.push(n);
                proof {
                    assert(pv.take(i + 1).filter(pred) =~= before.push(parts@[i as int]@));
                    assert(out@ =~= before.push(parts@[i as int]@).map_values(f));
                }
            },
            None => {},
        }
        i = i + 1;
    }
    proof { assert(pv.take(parts.len() as int) =~= pv); }
    out
}

/// Where a snooze option points at clock `c`; see [`snooze_spec`].
pub fn resolve_snooze_at(key: &str, morning: &str, c: Clock) -> (r: Option<crate::parser::Target>)
    requires
        wall_ok(c.local),
        crate::clock::utc_ok(c.utc as int),
    ensures
        r == snooze_spec(key@, morning@, c),
        r matches Some(crate::parser::Target::Local(w)) ==> w.secs < SECS_PER_DAY && w.day
            == c.local.day + 1,
{
    let kv = chars_of(key);
    if crate::types::vec_eq_str(&kv, "15m") {
        Some(crate::parser::Target::Utc(c.utc + 900))
    } else if crate::types::vec_eq_str(&kv, "1h") {
        Some(crate::parser::Target::Utc(c.utc + 3600))
    } else if crate::types::vec_eq_str(&kv, "tomorrow_morning") {
        let f = numeric_fields_exec(morning);
        let h: u32 = if f.len() > 0 {
            f[0]
        } else {
            8
        };
        let m: u32 = if f.len() > 1 {
            f[1]
        } else {
            0
        };
        if h < 24 && m < 60 {
            Some(
                crate::parser::Target::Local(
                    WallTime { day: c.local.day + 1, secs: h * 3600 + m * 60 },
                ),
            )
        } else {
            None
        }
    } else {
        None
    }
}

/// What a snooze resolves to for the option's target `t`: a UTC target as
/// is; a local reading resolved through the local zone (see
/// [`local_resolution`]), unless it is the last representable day; no
/// target, no instant.
pub open spec fn snooze_outcome(t: Option<crate::parser::Target>, r: Option<i64>) -> bool {
    match t {
        Some(crate::parser::Target::Utc(u)) => r == Some(u),
        Some(crate::parser::Target::Local(w)) => if w.day < MAX_DAY {
            r matches Some(x) && local_resolution(w, x as int)
        } else {
            r is None
        },
        None => r is None,
    }
}

/// The instant a snooze option points at, from the current moment: the
/// outcome of [`snooze_spec`] at the moment read from the system clock,
/// local readings resolved through the local zone. "15m" and "1h" always
/// give an instant; an unknown option or an invalid morning setting gives
/// `None`.
pub fn resolve_snooze(key: &str, morning: &str) -> (r: Option<i64>)
    ensures
        exists|c: Clock|
            #![trigger snooze_spec(key@, morning@, c)]
            wall_ok(c.local) && crate::clock::utc_ok(c.utc as int) && snooze_outcome(
                snooze_spec(key@, morning@, c),
                r,
            ),
        key@ == "15m"@ ==> (r matches Some(u) && crate::clock::utc_ok(u - 900)),
        key@ == "1h"@ ==> (r matches Some(u) && crate::clock::utc_ok(u - 3600)),
        key@ != "15m"@ && key@ != "1h"@ && key@ != "tomorrow_morning"@ ==> r is None,
{
    let c = clock_now();
    let t = resolve_snooze_at(key, morning, c);
    let r = match t {
        Some(crate::parser::Target::Utc(u)) => Some(u),
        Some(crate::parser::Target::Local(w)) => {
            if w.day < MAX_DAY {
                Some(local_naive_to_utc(w))
            } else {
                None
            }
        },
        None => None,
    };
    proof {
        reveal_strlit("15m");
        reveal_strlit("1h");
        reveal_strlit("tomorrow_morning");
        assert("1h"@.len() != "15m"@.len());
        assert("1h"@ != "15m"@);
        assert(snooze_outcome(snooze_spec(key@, morning@, c), r));
    }
    r
}

/// The type a capture starts with: the preset type when given, otherwise
/// the configured default.
pub fn initial_type(preset: Option<&str>, default_type: &str) -> (r: NoteType)
    ensures
        r@ == kind_from_str(
            match preset {
                Some(p) => p@,
                None => default_type@,
            },
        ),
{
    match preset {
        Some(p) => NoteType::from_str(p),
        None => NoteType::from_str(default_type),
    }
}

/// Applies a classification to a freshly captured note: the classifier
/// chooses the type only when the user left it at the default; the time,
/// rule and cleaned body always come from the classification.
pub fn apply_classification(
    note: &mut Note,
    result: ClassificationResult,
    user_type: &NoteType,
    default_type: &NoteType,
)
    ensures
        final(note)@ == (NoteModel {
            note_type: if user_type@ == default_type@ {
                result.note_type@
            } else {
                old(note)@.note_type
            },
            time: result.time,
            rrule: crate::types::rrule_view(result.rrule),
            body: result.body@,
            ..old(note)@
        }),
{
    if *user_type == *default_type {
        note.note_type = result.note_type;
    }
    note.time = result.time;
    note.rrule = result.rrule;
    note.body = result.body;
}

/// The notes that have calendar events (a time or a rule), listed as
/// `<uid>\t<body>` lines, in order.
pub open spec fn listing_spec(notes: Seq<NoteModel>) -> Seq<Seq<char>> {
    notes.filter(|n: NoteModel| n.time is Some || n.rrule is Some).map_values(
        |n: NoteModel| uid_spec(n) + "\t"@ + n.body,
    )
}

pub fn scheduled_listing(notes: &Vec<Note>) -> (r: Vec<String>)
    ensures
        strings_view(r) == listing_spec(crate::store::notes_view(*notes)),
{
    let ghost nv = crate::store::notes_view(*notes);
    let ghost pred = |n: NoteModel| n.time is Some || n.rrule is Some;
    let ghost f = |n: NoteModel| uid_spec(n) + "\t"@ + n.body;
    let mut out: Vec<String> = Vec::new();
    let mut i: usize = 0;
    while i < notes.len()
        invariant
            i <= notes.len(),
            nv == crate::store::notes_view(*notes),
            pred == (|n: NoteModel| n.time is Some || n.rrule is Some),
            f == (|n: NoteModel| uid_spec(n) + "\t"@ + n.body),
            strings_view(out) == nv.take(i as int).filter(pred).map_values(f),
        decreases notes.len() - i,
    {
        proof {
            reveal(Seq::filter);
            assert(nv.take(i + 1).drop_last() =~= nv.take(i as int));
            assert(nv.take(i + 1).last() == notes@[i as int]@);
        }
        if notes[i].time.is_some() || notes[i].rrule.is_some() {
            let ghost before = nv.take(i as int).filter(pred);
            let mut line = chars_of(caldav_uid(&notes[i]).as_str());
            push_str(&mut line, "\t");
            push_str(&mut line, notes[i].body.as_str());
            let entry = string_of(&line);
            proof { assert(entry@ == f(nv[i as int])); }
            let ghost out0 = strings_view(out);
            out.push(entry);
            proof {
                assert(nv.take(i + 1).filter(pred) =~= before.push(nv[i as int]));
                assert(strings_view(out) =~= out0.push(f(nv[i as int])));
                assert(before.push(nv[i as int]).map_values(f) =~= before.map_values(f).push(
                    f(nv[i as int]),
                ));
            }
        }
        i = i + 1;
    }
    proof { assert(nv.take(notes.len() as int) =~= nv); }
    out
}

} // verus!
