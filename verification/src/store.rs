//! The note store: where the note files live, how a JSONL file is framed
//! into records, and what each store operation does to the list of notes.
//! Reading and writing the files is left to the caller; the decisions are
//! made and verified here.

use crate::calendar::{caldav_uid, uid_spec};
use crate::config::{data_local_dir, path_join, path_join_exec, CalendarConfig, Config};
use crate::text::{
    chars_of, is_ws, push_str, split_char, split_char_exec, string_from, string_of, trim,
    trim_vec,
};
use crate::types::{Note, NoteModel};
use vstd::prelude::*;

verus! {

broadcast use vstd::seq_lib::group_filter_ensures;

/// The note files of one data directory, and the calendar that new and
/// changed notes are pushed to (when set and enabled).
#[derive(Debug)]
pub struct Store {
    dir: String,
    calendar: Option<CalendarConfig>,
}

/// Why the store could not be opened.
#[derive(Debug, PartialEq, Eq, Structural)]
pub enum StoreError {
    /// The environment names no local data directory.
    NoDataDir,
}

pub open spec fn notes_view(v: Vec<Note>) -> Seq<NoteModel> {
    v@.map_values(|n: Note| n@)
}

/// A note is archived once done and completed before the cutoff.
pub open spec fn archivable(cutoff: int) -> spec_fn(NoteModel) -> bool {
    |n: NoteModel| n.done && (n.completed matches Some(c) && c < cutoff)
}

pub open spec fn lacks_id(id: Seq<char>) -> spec_fn(NoteModel) -> bool {
    |n: NoteModel| n.id != id
}

pub open spec fn not_archivable(cutoff: int) -> spec_fn(NoteModel) -> bool {
    |n: NoteModel| !(n.done && (n.completed matches Some(c) && c < cutoff))
}

/// Every note with `updated`'s id replaced by `updated`.
pub open spec fn update_spec(notes: Seq<NoteModel>, updated: NoteModel) -> Seq<NoteModel> {
    notes.map_values(|n: NoteModel| if n.id == updated.id { updated } else { n })
}

/// The calendar a note is pushed to on save: the store's calendar when it
/// is enabled and the note has a time or a recurrence.
pub open spec fn push_target(cal: Option<CalendarConfig>, n: NoteModel) -> Option<CalendarConfig> {
    match cal {
        Some(c) => if c.enabled && (n.time is Some || n.rrule is Some) {
            Some(c)
        } else {
            None
        },
        None => None,
    }
}

/// First note with the given id.
pub open spec fn first_with_id(notes: Seq<NoteModel>, id: Seq<char>) -> Option<NoteModel>
    decreases notes.len(),
{
    if notes.len() == 0 {
        None
    } else if notes[0].id == id {
        Some(notes[0])
    } else {
        first_with_id(notes.drop_first(), id)
    }
}

/// The archive cutoff: `days` days before `now`.
pub open spec fn cutoff_spec(now: int, days: int) -> int {
    now - days * 86400
}

/// The cutoff is representable: the day count spans a representable
/// duration and the cutoff instant is representable.
pub open spec fn cutoff_ok(now: int, days: int) -> bool {
    -crate::clock::MAX_DELTA_SECS <= days * 86400 <= crate::clock::MAX_DELTA_SECS
        && crate::clock::utc_ok(cutoff_spec(now, days))
}

impl Store {
    /// The store under `dir`.
    pub fn from_dir(dir: &str) -> (r: Store)
        ensures
            r.dir_spec() == dir@,
            r.calendar_spec() is None,
    {
        Store { dir: string_from(dir), calendar: None }
    }

    /// The store under the local data directory's `breadpad` folder.
    pub fn new() -> (r: Result<Store, StoreError>)
        ensures
            r matches Ok(s) ==> s.calendar_spec() is None && exists|d: Seq<char>| s.dir_spec()
                == path_join(d, "breadpad"@),
    {
        match data_local_dir() {
            Some(d) => {
                let dir = path_join_exec(d.as_str(), "breadpad");
                Ok(Store { dir, calendar: None })
            },
            None => Err(StoreError::NoDataDir),
        }
    }

    pub closed spec fn dir_spec(&self) -> Seq<char> {
        self.dir@
    }

    pub closed spec fn calendar_spec(&self) -> Option<CalendarConfig> {
        self.calendar
    }

    /// The store's data directory.
    pub fn dir(&self) -> (r: &str)
        ensures
            r@ == self.dir_spec(),
    {
        self.dir.as_str()
    }

    /// `notes.jsonl` in the data directory.
    pub fn notes_path(&self) -> (r: String)
        ensures
            r@ == path_join(self.dir_spec(), "notes.jsonl"@),
    {
        path_join_exec(self.dir.as_str(), "notes.jsonl")
    }

    /// `archive.jsonl` in the data directory.
    pub fn archive_path(&self) -> (r: String)
        ensures
            r@ == path_join(self.dir_spec(), "archive.jsonl"@),
    {
        path_join_exec(self.dir.as_str(), "archive.jsonl")
    }

    /// The lock file guarding both note files: `notes.lock`.
    pub fn lock_path(&self) -> (r: String)
        ensures
            r@ == path_join(self.dir_spec(), "notes.lock"@),
    {
        path_join_exec(self.dir.as_str(), "notes.lock")
    }

    /// The file a rewrite of `notes.jsonl` is staged in before it is
    /// renamed into place: `notes.tmp`.
    pub fn notes_tmp_path(&self) -> (r: String)
        ensures
            r@ == path_join(self.dir_spec(), "notes.tmp"@),
    {
        path_join_exec(self.dir.as_str(), "notes.tmp")
    }

    /// The same store, pushing to calendar `cfg`.
    pub fn with_calendar(self, cfg: CalendarConfig) -> (r: Store)
        ensures
            r.dir_spec() == self.dir_spec(),
            r.calendar_spec() == Some(cfg),
    {
        Store { dir: self.dir, calendar: Some(cfg) }
    }

    /// The same store, pushing to the configured calendar when it is
    /// enabled (and otherwise unchanged).
    pub fn with_calendar_if_enabled(self, cfg: &Config) -> (r: Store)
        ensures
            r.dir_spec() == self.dir_spec(),
            cfg.calendar.enabled ==> r.calendar_spec() == Some(cfg.calendar),
            !cfg.calendar.enabled ==> r.calendar_spec() == self.calendar_spec(),
    {
        if cfg.calendar.enabled {
            self.with_calendar(cfg.calendar.copy())
        } else {
            self
        }
    }

    /// Saving a note appends it to `notes.jsonl`; the result is the
    /// calendar to push it to, if any.
    pub fn save_note(&self, note: &Note) -> (r: Option<CalendarConfig>)
        ensures
            r == push_target(self.calendar_spec(), note@),
    {
        match &self.calendar {
            Some(c) => if c.enabled && (note.time.is_some() || note.rrule.is_some()) {
                Some(c.copy())
            } else {
                None
            },
            None => None,
        }
    }

    /// Updating a note replaces every stored note with its id; the other
    /// notes and the order are kept. Also returns the calendar to push the
    /// note to, if any.
    pub fn update_note(&self, notes: &Vec<Note>, updated: &Note) -> (r: (
        Vec<Note>,
        Option<CalendarConfig>,
    ))
        ensures
            notes_view(r.0) == update_spec(notes_view(*notes), updated@),
            r.1 == push_target(self.calendar_spec(), updated@),
    {
        let ghost nv = notes_view(*notes);
        let mut out: Vec<Note> = Vec::new();
        let mut i: usize = 0;
        while i < notes.len()
            invariant
                i <= notes.len(),
                nv == notes_view(*notes),
                notes_view(out) == update_spec(nv.take(i as int), updated@),
            decreases notes.len() - i,
        {
            let ghost before = notes_view(out);
            let ghost expect = if nv[i as int].id == updated@.id {
                updated@
            } else {
                nv[i as int]
            };
            if notes[i].id == updated.id {
                out.push(updated.copy());
            } else {
                out.push(notes[i].copy());
            }
            proof {
                assert(notes_view(out) =~= before.push(expect));
                assert(nv.take(i + 1) =~= nv.take(i as int).push(nv[i as int]));
                assert(update_spec(nv.take(i + 1), updated@) =~= update_spec(
                    nv.take(i as int),
                    updated@,
                ).push(expect));
            }
            i = i + 1;
        }
        proof { assert(nv.take(notes.len() as int) =~= nv); }
        (out, self.save_note(updated))
    }

    /// Deleting a note drops every stored note with that id, keeping the
    /// others in order. Also returns, when the store pushes to an enabled
    /// calendar and a note was dropped, the event UID of the first dropped
    /// note and the calendar to delete it from.
    pub fn delete_note(&self, notes: &Vec<Note>, id: &str) -> (r: (
        Vec<Note>,
        Option<(String, CalendarConfig)>,
    ))
        ensures
            notes_view(r.0) == notes_view(*notes).filter(lacks_id(id@)),
            match r.1 {
                Some((uid, cal)) => self.calendar_spec() == Some(cal) && cal.enabled && (first_with_id(
                    notes_view(*notes),
                    id@,
                ) matches Some(n) && uid@ == uid_spec(n)),
                None => !((self.calendar_spec() matches Some(c) && c.enabled) && first_with_id(
                    notes_view(*notes),
                    id@,
                ) is Some),
            },
    {
        let ghost nv = notes_view(*notes);
        let ghost p = lacks_id(id@);
        let idv = string_from(id);
        let mut keep: Vec<Note> = Vec::new();
        let mut first: Option<String> = None;
        let mut i: usize = 0;
        while i < notes.len()
            invariant
                i <= notes.len(),
                nv == notes_view(*notes),
                idv@ == id@,
                p == lacks_id(id@),
                notes_view(keep) == nv.take(i as int).filter(p),
                match first {
                    Some(u) => (first_with_id(nv, id@) matches Some(n) && u@ == uid_spec(n)),
                    None => forall|k: int| 0 <= k < i ==> nv[k].id != id@,
                },
            decreases notes.len() - i,
        {
            proof {
                reveal(Seq::filter);
                assert(nv.take(i + 1).drop_last() =~= nv.take(i as int));
                assert(nv.take(i + 1).last() == nv[i as int]);
            }
            if notes[i].id == idv {
                if first.is_none() {
                    proof { lemma_first_with_id_at(nv, id@, i as int); }
                    first = Some(caldav_uid(&notes[i]));
                }
            } else {
                let ghost before = notes_view(keep);
                keep.push(notes[i].copy());
                proof { assert(notes_view(keep) =~= before.push(nv[i as int])); }
            }
            i = i + 1;
        }
        proof {
            assert(nv.take(notes.len() as int) =~= nv);
            if first is None {
                lemma_first_with_id_none(nv, id@);
            }
        }
        let target = match (&self.calendar, first) {
            (Some(c), Some(u)) => if c.enabled {
                Some((u, c.copy()))
            } else {
                None
            },
            _ => None,
        };
        (keep, target)
    }

    /// Rotating the archive moves every done note completed more than
    /// `archive_after_days` days before `now` to the archive. Returns the
    /// notes to append to the archive and the notes to keep, each in their
    /// original order.
    pub fn rotate_archive(&self, notes: &Vec<Note>, archive_after_days: i64, now: i64) -> (r: (
        Vec<Note>,
        Vec<Note>,
    ))
        requires
            cutoff_ok(now as int, archive_after_days as int),
        ensures
            notes_view(r.0) == notes_view(*notes).filter(
                archivable(cutoff_spec(now as int, archive_after_days as int)),
            ),
            notes_view(r.1) == notes_view(*notes).filter(
                not_archivable(cutoff_spec(now as int, archive_after_days as int)),
            ),
    {
        let cutoff = now - archive_after_days * 86400;
        let ghost nv = notes_view(*notes);
        let ghost pa = archivable(cutoff as int);
        let ghost pk = not_archivable(cutoff as int);
        let mut arch: Vec<Note> = Vec::new();
        let mut keep: Vec<Note> = Vec::new();
        let mut i: usize = 0;
        while i < notes.len()
            invariant
                i <= notes.len(),
                nv == notes_view(*notes),
                pa == archivable(cutoff as int),
                pk == not_archivable(cutoff as int),
                notes_view(arch) == nv.take(i as int).filter(pa),
                notes_view(keep) == nv.take(i as int).filter(pk),
            decreases notes.len() - i,
        {
            proof {
                reveal(Seq::filter);
                assert(nv.take(i + 1).drop_last() =~= nv.take(i as int));
                assert(nv.take(i + 1).last() == nv[i as int]);
            }
            let old_done = notes[i].done && match notes[i].completed {
                Some(c) => c < cutoff,
                None => false,
            };
            if old_done {
                let ghost before = notes_view(arch);
                arch.push(notes[i].copy());
                proof { assert(notes_view(arch) =~= before.push(nv[i as int])); }
            } else {
                let ghost before = notes_view(keep);
                keep.push(notes[i].copy());
                proof { assert(notes_view(keep) =~= before.push(nv[i as int])); }
            }
            i = i + 1;
        }
        proof { assert(nv.take(notes.len() as int) =~= nv); }
        (arch, keep)
    }

    /// The first stored note with the given id.
    pub fn get_by_id(notes: &Vec<Note>, id: &str) -> (r: Option<Note>)
        ensures
            match r {
                Some(n) => first_with_id(notes_view(*notes), id@) == Some(n@),
                None => first_with_id(notes_view(*notes), id@) is None,
            },
    {
        let ghost nv = notes_view(*notes);
        let idv = string_from(id);
        let mut i: usize = 0;
        while i < notes.len()
            invariant
                i <= notes.len(),
                nv == notes_view(*notes),
                idv@ == id@,
                forall|k: int| 0 <= k < i ==> nv[k].id != id@,
            decreases notes.len() - i,
        {
            if notes[i].id == idv {
                proof { lemma_first_with_id_at(nv, id@, i as int); }
                return Some(notes[i].copy());
            }
            i = i + 1;
        }
        proof { lemma_first_with_id_none(nv, id@); }
        None
    }
}

pub proof fn lemma_first_with_id_at(notes: Seq<NoteModel>, id: Seq<char>, i: int)
    requires
        0 <= i < notes.len(),
        notes[i].id == id,
        forall|k: int| 0 <= k < i ==> notes[k].id != id,
    ensures
        first_with_id(notes, id) == Some(notes[i]),
    decreases i,
{
    if i > 0 {
        assert(notes[0].id != id);
        lemma_first_with_id_at(notes.drop_first(), id, i - 1);
    }
}

pub proof fn lemma_first_with_id_none(notes: Seq<NoteModel>, id: Seq<char>)
    requires
        forall|k: int| 0 <= k < notes.len() ==> notes[k].id != id,
    ensures
        first_with_id(notes, id) is None,
    decreases notes.len(),
{
    if notes.len() > 0 {
        lemma_first_with_id_none(notes.drop_first(), id);
    }
}

/// The cutoff instant before which completed notes are archived.
pub fn archive_cutoff(now: i64, archive_after_days: i64) -> (r: i64)
    requires
        cutoff_ok(now as int, archive_after_days as int),
    ensures
        r == cutoff_spec(now as int, archive_after_days as int),
{
    now - archive_after_days * 86400
}

// ---------------------------------------------------------------------------
// JSONL framing

/// The records of a JSONL text: its lines, each trimmed, blank ones
/// skipped, in order.
pub open spec fn records_spec(text: Seq<char>) -> Seq<Seq<char>> {
    split_char(text, '\n').map_values(|l: Seq<char>| trim(l)).filter(
        |l: Seq<char>| l.len() > 0,
    )
}

pub fn jsonl_records(text: &str) -> (r: Vec<String>)
    ensures
        r@.map_values(|s: String| s@) == records_spec(text@),
{
    let v = chars_of(text);
    let parts = split_char_exec(&v, '\n');
    let ghost pv = parts@.map_values(|p: Vec<char>| p@);
    let ghost tv = pv.map_values(|l: Seq<char>| trim(l));
    let ghost nonblank = |l: Seq<char>| l.len() > 0;
    proof { assert(pv =~= split_char(v@, '\n')); }
    let mut out: Vec<String> = Vec::new();
    let mut i: usize = 0;
    while i < parts.len()
        invariant
            i <= parts.len(),
            pv == parts@.map_values(|p: Vec<char>| p@),
            tv == pv.map_values(|l: Seq<char>| trim(l)),
            nonblank == |l: Seq<char>| l.len() > 0,
            out@.map_values(|s: String| s@) == tv.take(i as int).filter(nonblank),
        decreases parts.len() - i,
    {
        proof {
            reveal(Seq::filter);
            assert(tv.take(i + 1).drop_last() =~= tv.take(i as int));
            assert(tv.take(i + 1).last() == trim(parts@[i as int]@));
        }
        let t = trim_vec(&parts[i]);
        if t.len() > 0 {
            let ghost before = out@.map_values(|s: String| s@);
            out.push(string_of(&t));
            proof { assert(out@.map_values(|s: String| s@) =~= before.push(t@)); }
        }
        i = i + 1;
    }
    proof {
        assert(tv.take(parts.len() as int) =~= tv);
        assert(tv =~= split_char(text@, '\n').map_values(|l: Seq<char>| trim(l)));
    }
    out
}

/// Records written one per line, each followed by a newline.
pub open spec fn jsonl_spec(lines: Seq<Seq<char>>) -> Seq<char>
    decreases lines.len(),
{
    if lines.len() == 0 {
        seq![]
    } else {
        jsonl_spec(lines.drop_last()) + lines.last() + seq!['\n']
    }
}

pub fn jsonl_text(lines: &Vec<String>) -> (r: String)
    ensures
        r@ == jsonl_spec(lines@.map_values(|s: String| s@)),
{
    let ghost lv = lines@.map_values(|s: String| s@);
    let mut out: Vec<char> = Vec::new();
    let mut i: usize = 0;
    while i < lines.len()
        invariant
            i <= lines.len(),
            lv == lines@.map_values(|s: String| s@),
            out@ == jsonl_spec(lv.take(i as int)),
        decreases lines.len() - i,
    {
        proof {
            assert(lv.take(i + 1).drop_last() =~= lv.take(i as int));
            assert(lv.take(i + 1).last() == lines@[i as int]@);
        }
        push_str(&mut out, lines[i].as_str());
        out.push('\n');
        i = i + 1;
    }
    proof { assert(lv.take(lines.len() as int) =~= lv); }
    string_of(&out)
}

// ---------------------------------------------------------------------------
// Laws

/// Reading back an update: after updating a stored note, looking its id up
/// finds the updated note, and every note with another id is untouched.
pub proof fn law_update_then_get(notes: Seq<NoteModel>, updated: NoteModel)
    requires
        first_with_id(notes, updated.id) is Some,
    ensures
        first_with_id(update_spec(notes, updated), updated.id) == Some(updated),
        update_spec(notes, updated).len() == notes.len(),
        forall|i: int|
            0 <= i < notes.len() && notes[i].id != updated.id ==> #[trigger] update_spec(
                notes,
                updated,
            )[i] == notes[i],
    decreases notes.len(),
{
    let u = update_spec(notes, updated);
    if notes[0].id == updated.id {
    } else {
        law_update_then_get(notes.drop_first(), updated);
        assert(u.drop_first() =~= update_spec(notes.drop_first(), updated));
    }
}

/// Deleting removes the note: no note with the deleted id is left, every
/// kept note was stored before, and every other stored note is kept.
pub proof fn law_delete_removes(notes: Seq<NoteModel>, id: Seq<char>)
    ensures
        first_with_id(notes.filter(lacks_id(id)), id) is None,
        forall|i: int|
            0 <= i < notes.filter(lacks_id(id)).len() ==> notes.contains(
                #[trigger] notes.filter(lacks_id(id))[i],
            ),
        forall|i: int|
            0 <= i < notes.len() && notes[i].id != id ==> notes.filter(lacks_id(id)).contains(
                #[trigger] notes[i],
            ),
{
    let kept = notes.filter(lacks_id(id));
    assert forall|k: int| 0 <= k < kept.len() implies kept[k].id != id by {
        assert((lacks_id(id))(kept[k]));
    }
    lemma_first_with_id_none(kept, id);
    lemma_filter_subset(notes, lacks_id(id));
    assert forall|i: int| 0 <= i < notes.len() && notes[i].id != id implies kept.contains(
        #[trigger] notes[i],
    ) by {
        assert((lacks_id(id))(notes[i]));
    }
}

/// Every element of a filtered sequence comes from the sequence.
pub proof fn lemma_filter_subset<A>(s: Seq<A>, p: spec_fn(A) -> bool)
    ensures
        forall|i: int| 0 <= i < s.filter(p).len() ==> s.contains(#[trigger] s.filter(p)[i]),
    decreases s.len(),
{
    reveal(Seq::filter);
    if s.len() > 0 {
        lemma_filter_subset(s.drop_last(), p);
        let f = s.filter(p);
        let g = s.drop_last().filter(p);
        assert forall|i: int| 0 <= i < f.len() implies s.contains(#[trigger] f[i]) by {
            if i < g.len() {
                assert(f[i] == g[i]);
                let j = choose|j: int| 0 <= j < s.drop_last().len() && s.drop_last()[j] == g[i];
                assert(s[j] == g[i]);
            } else {
                assert(f[i] == s.last());
                assert(s[s.len() - 1] == s.last());
            }
        }
    }
}

/// Filtering by a predicate and by its negation splits a sequence: the two
/// parts together are as long as the whole.
pub proof fn lemma_filter_split<A>(s: Seq<A>, p: spec_fn(A) -> bool, q: spec_fn(A) -> bool)
    requires
        forall|x: A| #[trigger] q(x) == !p(x),
    ensures
        s.filter(p).len() + s.filter(q).len() == s.len(),
    decreases s.len(),
{
    reveal(Seq::filter);
    if s.len() > 0 {
        lemma_filter_split(s.drop_last(), p, q);
        assert(q(s.last()) == !p(s.last()));
    }
}

/// Archive rotation moves notes without losing or duplicating any: the
/// archived and the kept notes together number the notes stored, every
/// archived note is done and completed before the cutoff, and no kept
/// note is; in particular an open note is kept however old it is, and a
/// note done and completed before the cutoff is archived.
pub proof fn law_rotate_partitions(notes: Seq<NoteModel>, cutoff: int)
    ensures
        notes.filter(archivable(cutoff)).len() + notes.filter(not_archivable(cutoff)).len()
            == notes.len(),
        forall|i: int|
            0 <= i < notes.len() && !notes[i].done ==> #[trigger] notes.filter(
                not_archivable(cutoff),
            ).contains(notes[i]),
        forall|i: int|
            0 <= i < notes.len() && notes[i].done && (notes[i].completed matches Some(c) && c
                < cutoff) ==> #[trigger] notes.filter(archivable(cutoff)).contains(notes[i]),
        forall|i: int|
            0 <= i < notes.filter(archivable(cutoff)).len() ==> {
                let n = #[trigger] notes.filter(archivable(cutoff))[i];
                n.done && (n.completed matches Some(c) && c < cutoff)
            },
        forall|i: int|
            0 <= i < notes.filter(not_archivable(cutoff)).len() ==> {
                let n = #[trigger] notes.filter(not_archivable(cutoff))[i];
                !(n.done && (n.completed matches Some(c) && c < cutoff))
            },
{
    lemma_filter_split(notes, archivable(cutoff), not_archivable(cutoff));
    assert forall|i: int| 0 <= i < notes.len() && !notes[i].done implies #[trigger] notes.filter(
        not_archivable(cutoff),
    ).contains(notes[i]) by {
        notes.lemma_filter_contains(not_archivable(cutoff), i);
    }
    assert forall|i: int|
        0 <= i < notes.len() && notes[i].done && (notes[i].completed matches Some(c) && c
            < cutoff) implies #[trigger] notes.filter(archivable(cutoff)).contains(notes[i]) by {
        notes.lemma_filter_contains(archivable(cutoff), i);
    }
    let a = notes.filter(archivable(cutoff));
    let k = notes.filter(not_archivable(cutoff));
    assert forall|i: int| 0 <= i < a.len() implies {
        let n = #[trigger] a[i];
        n.done && (n.completed matches Some(c) && c < cutoff)
    } by {
        assert((archivable(cutoff))(a[i]));
    }
    assert forall|i: int| 0 <= i < k.len() implies {
        let n = #[trigger] k[i];
        !(n.done && (n.completed matches Some(c) && c < cutoff))
    } by {
        assert((not_archivable(cutoff))(k[i]));
    }
}

pub proof fn lemma_split_append_plain(s: Seq<char>, t: Seq<char>, c: char)
    requires
        forall|i: int| 0 <= i < t.len() ==> t[i] != c,
    ensures
        split_char(s + t, c) == split_char(s, c).update(
            split_char(s, c).len() - 1,
            split_char(s, c).last() + t,
        ),
    decreases t.len(),
{
    crate::text::lemma_split_char_nonempty(s, c);
    if t.len() == 0 {
        assert(s + t =~= s);
        assert(split_char(s, c).last() + t =~= split_char(s, c).last());
        assert(split_char(s, c).update(split_char(s, c).len() - 1, split_char(s, c).last())
            =~= split_char(s, c));
    } else {
        lemma_split_append_plain(s, t.drop_last(), c);
        assert((s + t).drop_last() =~= s + t.drop_last());
        assert((s + t).last() == t.last());
        let prev = split_char(s + t.drop_last(), c);
        let base = split_char(s, c);
        assert(prev.last() == base.last() + t.drop_last());
        assert(prev.last().push(t.last()) =~= base.last() + t);
        assert(prev.update(prev.len() - 1, prev.last().push(t.last())) =~= base.update(
            base.len() - 1,
            base.last() + t,
        ));
    }
}

pub open spec fn plain_line(l: Seq<char>) -> bool {
    l.len() > 0 && trim(l) == l && forall|i: int| 0 <= i < l.len() ==> l[i] != '\n'
}

proof fn lemma_split_jsonl(lines: Seq<Seq<char>>)
    requires
        forall|i: int| 0 <= i < lines.len() ==> plain_line(#[trigger] lines[i]),
    ensures
        split_char(jsonl_spec(lines), '\n') == lines.push(seq![]),
    decreases lines.len(),
{
    if lines.len() == 0 {
        assert(split_char(Seq::<char>::empty(), '\n') =~= seq![seq![]]);
    } else {
        let init = lines.drop_last();
        let l = lines.last();
        assert forall|i: int| 0 <= i < init.len() implies plain_line(#[trigger] init[i]) by {
            assert(init[i] == lines[i]);
        }
        lemma_split_jsonl(init);
        assert(plain_line(lines[lines.len() - 1]));
        let j = jsonl_spec(init);
        lemma_split_append_plain(j, l, '\n');
        let whole = j + l + seq!['\n'];
        assert(jsonl_spec(lines) == whole);
        assert(whole.drop_last() =~= j + l);
        assert(whole.last() == '\n');
        assert(split_char(whole, '\n') == split_char(j + l, '\n').push(seq![]));
        assert(init.push(seq![]).update(init.len() as int, Seq::<char>::empty() + l) =~= lines);
        assert(Seq::<char>::empty() + l =~= l);
    }
}

proof fn lemma_trim_empty()
    ensures
        trim(Seq::<char>::empty()) == Seq::<char>::empty(),
{
    let e = Seq::<char>::empty();
    assert(crate::text::lead_count(e, crate::text::ws_pred()) == 0);
    assert(e.subrange(0, 0) =~= e);
    assert(crate::text::trail_count(e, crate::text::ws_pred()) == 0);
}

/// The JSONL framing reads back what it writes: records written one per
/// line (each non-empty, already trimmed, without a newline) are read back
/// as exactly those records, in order. Appending a record to a file so
/// written therefore adds exactly that record at the end.
pub proof fn law_jsonl_round_trip(lines: Seq<Seq<char>>)
    requires
        forall|i: int| 0 <= i < lines.len() ==> plain_line(#[trigger] lines[i]),
    ensures
        records_spec(jsonl_spec(lines)) == lines,
    decreases lines.len(),
{
    lemma_split_jsonl(lines);
    lemma_trim_empty();
    let nonblank = |l: Seq<char>| l.len() > 0;
    let pieces = lines.push(seq![]);
    let trimmed = pieces.map_values(|l: Seq<char>| trim(l));
    assert(trimmed =~= lines.push(seq![])) by {
        assert forall|i: int| 0 <= i < trimmed.len() implies trimmed[i] == lines.push(seq![])[i] by {
            if i < lines.len() {
                assert(plain_line(lines[i]));
            }
        }
    }
    reveal(Seq::filter);
    assert(lines.push(seq![]).drop_last() =~= lines);
    lemma_filter_all(lines, nonblank);
}

proof fn lemma_filter_all(s: Seq<Seq<char>>, p: spec_fn(Seq<char>) -> bool)
    requires
        p == (|l: Seq<char>| l.len() > 0),
        forall|i: int| 0 <= i < s.len() ==> plain_line(#[trigger] s[i]),
    ensures
        s.filter(p) == s,
    decreases s.len(),
{
    reveal(Seq::filter);
    if s.len() > 0 {
        assert forall|i: int| 0 <= i < s.drop_last().len() implies plain_line(
            #[trigger] s.drop_last()[i],
        ) by {
            assert(s.drop_last()[i] == s[i]);
        }
        lemma_filter_all(s.drop_last(), p);
        assert(plain_line(s[s.len() - 1]));
        assert(s.drop_last().push(s.last()) =~= s);
    }
}

} // verus!
