//! Notes, their types and recurrence rules.

use crate::text::{chars_of, occurs_at_exec, slice_vec, string_from, string_of};
use vstd::prelude::*;

verus! {

/// `str::to_lowercase`: the Unicode lowercase mapping of a string.
pub uninterp spec fn lowercase(s: Seq<char>) -> Seq<char>;

/// ASCII letters `A`-`Z` mapped to `a`-`z`, every other character kept.
pub open spec fn ascii_lower_char(c: char) -> char {
    if 'A' <= c && c <= 'Z' {
        ((c as u32) + 32) as char
    } else {
        c
    }
}

pub open spec fn ascii_lower(s: Seq<char>) -> Seq<char> {
    s.map_values(|c: char| ascii_lower_char(c))
}

pub open spec fn all_ascii(s: Seq<char>) -> bool {
    forall|i: int| 0 <= i < s.len() ==> (#[trigger] s[i] as u32) < 128
}

/// Lowercases a string with `str::to_lowercase`. Beyond naming the result,
/// the contract states the one fact callers rely on: on ASCII text the
/// mapping is the ASCII one (`A`-`Z` to `a`-`z`).
#[verifier::external_body]
pub(crate) fn to_lowercase(s: &str) -> (r: String)
    ensures
        r@ == lowercase(s@),
        all_ascii(s@) ==> r@ == ascii_lower(s@),
{
    s.to_lowercase()
}

pub open spec fn todo_name() -> Seq<char> { seq!['t', 'o', 'd', 'o'] }
pub open spec fn reminder_name() -> Seq<char> { seq!['r', 'e', 'm', 'i', 'n', 'd', 'e', 'r'] }
pub open spec fn idea_name() -> Seq<char> { seq!['i', 'd', 'e', 'a'] }
pub open spec fn note_name() -> Seq<char> { seq!['n', 'o', 't', 'e'] }
pub open spec fn question_name() -> Seq<char> { seq!['q', 'u', 'e', 's', 't', 'i', 'o', 'n'] }

/// The kind of a note: one of the five built-in types, or a user tag.
#[derive(Debug)]
pub enum NoteType {
    Todo,
    Reminder,
    Idea,
    Note,
    Question,
    Tag(String),
}

/// Mathematical value of a note type.
pub enum NoteKind {
    Todo,
    Reminder,
    Idea,
    Note,
    Question,
    Tag(Seq<char>),
}

impl View for NoteType {
    type V = NoteKind;

    open spec fn view(&self) -> NoteKind {
        match self {
            NoteType::Todo => NoteKind::Todo,
            NoteType::Reminder => NoteKind::Reminder,
            NoteType::Idea => NoteKind::Idea,
            NoteType::Note => NoteKind::Note,
            NoteType::Question => NoteKind::Question,
            NoteType::Tag(s) => NoteKind::Tag(s@),
        }
    }
}

impl PartialEq for NoteType {
    fn eq(&self, other: &Self) -> (r: bool) {
        match (self, other) {
            (NoteType::Todo, NoteType::Todo) => true,
            (NoteType::Reminder, NoteType::Reminder) => true,
            (NoteType::Idea, NoteType::Idea) => true,
            (NoteType::Note, NoteType::Note) => true,
            (NoteType::Question, NoteType::Question) => true,
            (NoteType::Tag(a), NoteType::Tag(b)) => a.eq(b),
            _ => false,
        }
    }
}

impl vstd::std_specs::cmp::PartialEqSpecImpl for NoteType {
    open spec fn obeys_eq_spec() -> bool {
        true
    }

    open spec fn eq_spec(&self, other: &Self) -> bool {
        self@ == other@
    }
}

impl Eq for NoteType {}

/// The name under which a note type is stored and shown.
pub open spec fn kind_name(k: NoteKind) -> Seq<char> {
    match k {
        NoteKind::Todo => todo_name(),
        NoteKind::Reminder => reminder_name(),
        NoteKind::Idea => idea_name(),
        NoteKind::Note => note_name(),
        NoteKind::Question => question_name(),
        NoteKind::Tag(s) => s,
    }
}

/// The note type named by an already-lowercased name.
pub open spec fn kind_of_lower(l: Seq<char>) -> NoteKind {
    if l == todo_name() {
        NoteKind::Todo
    } else if l == reminder_name() {
        NoteKind::Reminder
    } else if l == idea_name() {
        NoteKind::Idea
    } else if l == note_name() {
        NoteKind::Note
    } else if l == question_name() {
        NoteKind::Question
    } else {
        NoteKind::Tag(l)
    }
}

/// `NoteType::from_str`: the lowercased text names a built-in type, or
/// else becomes a tag.
pub open spec fn kind_from_str(s: Seq<char>) -> NoteKind {
    kind_of_lower(lowercase(s))
}

pub open spec fn builtin_names() -> Seq<Seq<char>> {
    seq![todo_name(), reminder_name(), idea_name(), note_name(), question_name()]
}

/// Equality of a character vector with a string literal.
pub fn vec_eq_str(v: &Vec<char>, s: &str) -> (b: bool)
    ensures
        b == (v@ == s@),
{
    let sv = chars_of(s);
    if sv.len() != v.len() {
        return false;
    }
    let r = occurs_at_exec(v, &sv, 0);
    proof {
        assert(v@.subrange(0, v@.len() as int) == v@);
    }
    r
}

impl NoteType {
    /// Parses a type name, case-insensitively; unknown names become tags
    /// (holding the lowercased name).
    pub fn from_str(s: &str) -> (r: NoteType)
        ensures
            r@ == kind_from_str(s@),
            all_ascii(s@) ==> r@ == kind_of_lower(ascii_lower(s@)),
    {
        let lower = to_lowercase(s);
        let lv = chars_of(lower.as_str());
        proof {
            reveal_strlit("todo");
            reveal_strlit("reminder");
            reveal_strlit("idea");
            reveal_strlit("note");
            reveal_strlit("question");
            assert("todo"@ =~= todo_name());
            assert("reminder"@ =~= reminder_name());
            assert("idea"@ =~= idea_name());
            assert("note"@ =~= note_name());
            assert("question"@ =~= question_name());
        }
        if vec_eq_str(&lv, "todo") {
            NoteType::Todo
        } else if vec_eq_str(&lv, "reminder") {
            NoteType::Reminder
        } else if vec_eq_str(&lv, "idea") {
            NoteType::Idea
        } else if vec_eq_str(&lv, "note") {
            NoteType::Note
        } else if vec_eq_str(&lv, "question") {
            NoteType::Question
        } else {
            NoteType::Tag(lower)
        }
    }

    /// The type's name: the built-in name, or the tag itself.
    pub fn as_str(&self) -> (r: &str)
        ensures
            r@ == kind_name(self@),
    {
        proof {
            reveal_strlit("todo");
            reveal_strlit("reminder");
            reveal_strlit("idea");
            reveal_strlit("note");
            reveal_strlit("question");
        }
        match self {
            NoteType::Todo => "todo",
            NoteType::Reminder => "reminder",
            NoteType::Idea => "idea",
            NoteType::Note => "note",
            NoteType::Question => "question",
            NoteType::Tag(s) => s.as_str(),
        }
    }

    /// The type's name as an owned string (what `Display` shows).
    pub fn display_string(&self) -> (r: String)
        ensures
            r@ == kind_name(self@),
    {
        string_from(self.as_str())
    }

    /// The names of the five built-in types, in display order.
    pub fn all_builtin() -> (r: Vec<&'static str>)
        ensures
            r@.len() == 5,
            forall|i: int| 0 <= i < 5 ==> (#[trigger] r@[i])@ == builtin_names()[i],
    {
        proof {
            reveal_strlit("todo");
            reveal_strlit("reminder");
            reveal_strlit("idea");
            reveal_strlit("note");
            reveal_strlit("question");
        }
        let mut r: Vec<&'static str> = Vec::new();
        r.push("todo");
        r.push("reminder");
        r.push("idea");
        r.push("note");
        r.push("question");
        r
    }

    /// An equal copy of this note type.
    pub fn copy(&self) -> (r: NoteType)
        ensures
            r == *self,
    {
        match self {
            NoteType::Todo => NoteType::Todo,
            NoteType::Reminder => NoteType::Reminder,
            NoteType::Idea => NoteType::Idea,
            NoteType::Note => NoteType::Note,
            NoteType::Question => NoteType::Question,
            NoteType::Tag(s) => NoteType::Tag(s.clone()),
        }
    }
}

/// Case-insensitivity of type names: two names that are equal when ASCII
/// letter case is ignored read as the same note type (for ASCII names,
/// `NoteType::from_str` reads `kind_of_lower(ascii_lower(..))`).
pub proof fn law_type_name_case_insensitive(s: Seq<char>, t: Seq<char>)
    requires
        crate::parser::eq_ignore_ascii_case(s, t),
    ensures
        kind_of_lower(ascii_lower(s)) == kind_of_lower(ascii_lower(t)),
{
    assert(ascii_lower(s) =~= ascii_lower(t));
}

/// Every built-in type name parses back to its type, and the type's name
/// is the name it was parsed from.
pub proof fn law_builtin_round_trip(i: int)
    requires
        0 <= i < 5,
    ensures
        all_ascii(builtin_names()[i]),
        kind_name(kind_of_lower(ascii_lower(builtin_names()[i]))) == builtin_names()[i],
        kind_of_lower(ascii_lower(builtin_names()[i])) !is Tag,
{
    let n = builtin_names()[i];
    assert(ascii_lower(todo_name()) =~= todo_name());
    assert(ascii_lower(reminder_name()) =~= reminder_name());
    assert(ascii_lower(idea_name()) =~= idea_name());
    assert(ascii_lower(note_name()) =~= note_name());
    assert(ascii_lower(question_name()) =~= question_name());
    assert(todo_name() != reminder_name());
    assert(todo_name() != idea_name() && todo_name()[0] != note_name()[0]);
    assert(todo_name()[0] != question_name()[0] && reminder_name()[0] != idea_name()[0]);
    assert(reminder_name()[0] != note_name()[0] && reminder_name()[0] != question_name()[0]);
    assert(idea_name()[0] != note_name()[0] && idea_name()[0] != question_name()[0]);
    assert(note_name()[0] != question_name()[0]);
}

/// Every type other than a tag round-trips through its name.
pub proof fn law_kind_name_round_trip(k: NoteKind)
    requires
        k !is Tag,
    ensures
        kind_of_lower(ascii_lower(kind_name(k))) == k,
{
    match k {
        NoteKind::Todo => law_builtin_round_trip(0),
        NoteKind::Reminder => law_builtin_round_trip(1),
        NoteKind::Idea => law_builtin_round_trip(2),
        NoteKind::Note => law_builtin_round_trip(3),
        NoteKind::Question => law_builtin_round_trip(4),
        NoteKind::Tag(_) => {},
    }
}

/// A recurrence rule in iCalendar `RRULE` syntax.
#[derive(Debug)]
pub struct RecurrenceRule(pub String);

impl RecurrenceRule {
    pub fn new(rrule: &str) -> (r: RecurrenceRule)
        ensures
            r.0@ == rrule@,
    {
        RecurrenceRule(string_from(rrule))
    }

    pub fn as_str(&self) -> (r: &str)
        ensures
            r@ == self.0@,
    {
        self.0.as_str()
    }

    /// An equal copy of this rule.
    pub fn copy(&self) -> (r: RecurrenceRule)
        ensures
            r == *self,
    {
        RecurrenceRule(self.0.clone())
    }
}

/// A stored note. Instants are whole seconds since the Unix epoch (UTC).
#[derive(Debug)]
pub struct Note {
    pub id: String,
    pub body: String,
    pub note_type: NoteType,
    pub time: Option<i64>,
    pub rrule: Option<RecurrenceRule>,
    pub done: bool,
    pub workspace: Option<String>,
    pub created: i64,
    pub snoozed_until: Option<i64>,
    pub completed: Option<i64>,
    pub tags: Vec<String>,
    pub caldav_uid: Option<String>,
}

pub open spec fn is_hex_lower(c: char) -> bool {
    ('0' <= c && c <= '9') || ('a' <= c && c <= 'f')
}

/// A fresh random identifier, the hyphenated text of a version-4 UUID
/// (`uuid::Uuid::new_v4().to_string()`). Its value is random; the contract
/// states the shape every such text has: 36 characters, the first eight
/// lowercase hexadecimal digits.
#[verifier::external_body]
pub(crate) fn random_uuid_text() -> (r: String)
    ensures
        r@.len() == 36,
        forall|i: int| 0 <= i < 8 ==> is_hex_lower(#[trigger] r@[i]),
{
    uuid::Uuid::new_v4().to_string()
}

/// The current UTC instant in whole seconds (`chrono::Utc::now`). Only the
/// representable range is stated.
#[verifier::external_body]
pub(crate) fn utc_now() -> (t: i64)
    ensures
        crate::clock::utc_ok(t as int),
{
    chrono::Utc::now().timestamp()
}

pub fn clone_opt_string(o: &Option<String>) -> (r: Option<String>)
    ensures
        r == *o,
{
    match o {
        Some(s) => Some(s.clone()),
        None => None,
    }
}

pub fn clone_strings(v: &Vec<String>) -> (r: Vec<String>)
    ensures
        r@ == v@,
{
    let mut r: Vec<String> = Vec::new();
    let mut i: usize = 0;
    while i < v.len()
        invariant
            i <= v.len(),
            r@ == v@.take(i as int),
        decreases v.len() - i,
    {
        r.push(v[i].clone());
        proof { assert(v@.take(i + 1) == v@.take(i as int).push(v@[i as int])); }
        i = i + 1;
    }
    proof { assert(v@.take(v.len() as int) == v@); }
    r
}

/// Mathematical value of a note: every field by its view.
pub struct NoteModel {
    pub id: Seq<char>,
    pub body: Seq<char>,
    pub note_type: NoteKind,
    pub time: Option<i64>,
    pub rrule: Option<Seq<char>>,
    pub done: bool,
    pub workspace: Option<Seq<char>>,
    pub created: i64,
    pub snoozed_until: Option<i64>,
    pub completed: Option<i64>,
    pub tags: Seq<Seq<char>>,
    pub caldav_uid: Option<Seq<char>>,
}

pub open spec fn opt_view(o: Option<String>) -> Option<Seq<char>> {
    match o {
        Some(s) => Some(s@),
        None => None,
    }
}

pub open spec fn rrule_view(o: Option<RecurrenceRule>) -> Option<Seq<char>> {
    match o {
        Some(r) => Some(r.0@),
        None => None,
    }
}

impl View for Note {
    type V = NoteModel;

    open spec fn view(&self) -> NoteModel {
        NoteModel {
            id: self.id@,
            body: self.body@,
            note_type: self.note_type@,
            time: self.time,
            rrule: rrule_view(self.rrule),
            done: self.done,
            workspace: opt_view(self.workspace),
            created: self.created,
            snoozed_until: self.snoozed_until,
            completed: self.completed,
            tags: self.tags@.map_values(|t: String| t@),
            caldav_uid: opt_view(self.caldav_uid),
        }
    }
}

/// The instant a note is due: its snooze time if snoozed, else its time.
pub open spec fn effective_time_spec(n: NoteModel) -> Option<i64> {
    match n.snoozed_until {
        Some(t) => Some(t),
        None => n.time,
    }
}

impl Note {
    /// A new open note with a fresh six-character id, created now, with no
    /// time, recurrence, tags or calendar link.
    pub fn new(body: String, note_type: NoteType, workspace: Option<String>) -> (n: Note)
        ensures
            n.body == body,
            n.note_type == note_type,
            n.workspace == workspace,
            n.id@.len() == 6,
            forall|i: int| 0 <= i < 6 ==> is_hex_lower(#[trigger] n.id@[i]),
            n.time is None,
            n.rrule is None,
            !n.done,
            crate::clock::utc_ok(n.created as int),
            n.snoozed_until is None,
            n.completed is None,
            n.tags@.len() == 0,
            n.caldav_uid is None,
    {
        let full = random_uuid_text();
        let fv = chars_of(full.as_str());
        let idv = slice_vec(&fv, 0, 6);
        let id = string_of(&idv);
        let created = utc_now();
        Note {
            id,
            body,
            note_type,
            time: None,
            rrule: None,
            done: false,
            workspace,
            created,
            snoozed_until: None,
            completed: None,
            tags: Vec::new(),
            caldav_uid: None,
        }
    }

    /// The instant the note is due: `snoozed_until`, or else `time`.
    pub fn effective_time(&self) -> (r: Option<i64>)
        ensures
            r == effective_time_spec(self@),
    {
        match self.snoozed_until {
            Some(t) => Some(t),
            None => self.time,
        }
    }

    /// Marks the note done, completed at the current instant.
    pub fn mark_done(&mut self)
        ensures
            final(self).completed matches Some(t) && crate::clock::utc_ok(t as int)
                && final(self)@ == (NoteModel { done: true, completed: Some(t), ..old(self)@ }),
    {
        let now = utc_now();
        self.done = true;
        self.completed = Some(now);
    }

    /// An equal copy of this note.
    pub fn copy(&self) -> (r: Note)
        ensures
            r@ == self@,
    {
        Note {
            id: self.id.clone(),
            body: self.body.clone(),
            note_type: self.note_type.copy(),
            time: self.time,
            rrule: match &self.rrule {
                Some(r) => Some(r.copy()),
                None => None,
            },
            done: self.done,
            workspace: clone_opt_string(&self.workspace),
            created: self.created,
            snoozed_until: self.snoozed_until,
            completed: self.completed,
            tags: clone_strings(&self.tags),
            caldav_uid: clone_opt_string(&self.caldav_uid),
        }
    }
}

/// Outcome of classifying a piece of text. `confidence` is in hundredths
/// (0 to 100).
#[derive(Debug)]
pub struct ClassificationResult {
    pub note_type: NoteType,
    pub time: Option<i64>,
    pub rrule: Option<RecurrenceRule>,
    pub body: String,
    pub confidence: u32,
}

impl ClassificationResult {
    /// An equal copy of this result.
    pub fn copy(&self) -> (r: ClassificationResult)
        ensures
            r == *self,
    {
        ClassificationResult {
            note_type: self.note_type.copy(),
            time: self.time,
            rrule: match &self.rrule {
                Some(r) => Some(r.copy()),
                None => None,
            },
            body: self.body.clone(),
            confidence: self.confidence,
        }
    }
}

} // verus!
