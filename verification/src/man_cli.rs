//! Decisions of the note manager: its command line, and which notes each
//! list shows in which order.

use crate::order::{sorted_by, stable_sort};
use crate::pad_cli::{get, strings_view};
use crate::store::notes_view;
use crate::text::chars_of;
use crate::types::{effective_time_spec, opt_view, vec_eq_str, Note, NoteKind, NoteModel, NoteType};
use vstd::prelude::*;

verus! {

/// The manager's command line.
#[derive(Debug)]
pub struct Args {
    pub view: Option<String>,
    pub done_id: Option<String>,
    pub upcoming_plain: bool,
}

/// Mathematical value of the manager's command line.
pub struct ArgsModel {
    pub view: Option<Seq<char>>,
    pub done_id: Option<Seq<char>>,
    pub upcoming_plain: bool,
}

impl View for Args {
    type V = ArgsModel;

    open spec fn view(&self) -> ArgsModel {
        ArgsModel {
            view: opt_view(self.view),
            done_id: opt_view(self.done_id),
            upcoming_plain: self.upcoming_plain,
        }
    }
}

/// One step of argument reading at position `i`: the updated arguments and
/// how many tokens after the one at `i` it consumed.
pub open spec fn man_step(raw: Seq<Seq<char>>, i: int, a: ArgsModel) -> (ArgsModel, int) {
    let t = raw[i];
    if t == "--view"@ || t == "-v"@ {
        (ArgsModel { view: get(raw, i + 1), ..a }, 1)
    } else if t == "done"@ {
        (ArgsModel { done_id: get(raw, i + 1), ..a }, 1)
    } else if t == "upcoming"@ {
        if get(raw, i + 1) == Some("--plain"@) {
            (ArgsModel { upcoming_plain: true, view: Some("upcoming"@), ..a }, 1)
        } else {
            (ArgsModel { view: Some("upcoming"@), ..a }, 0)
        }
    } else {
        (a, 0)
    }
}

/// Reading the manager's arguments from position `i` on.
pub open spec fn man_parse_from(raw: Seq<Seq<char>>, i: int, a: ArgsModel) -> ArgsModel
    decreases raw.len() - i,
{
    if i < 0 || i >= raw.len() {
        a
    } else {
        let (a2, k) = man_step(raw, i, a);
        if 0 <= k && i + 1 + k < raw.len() {
            man_parse_from(raw, i + 1 + k, a2)
        } else {
            a2
        }
    }
}

fn is_lit(s: &String, lit: &str) -> (b: bool)
    ensures
        b == (s@ == lit@),
{
    vec_eq_str(&chars_of(s.as_str()), lit)
}

fn token_after(raw: &Vec<String>, i: usize) -> (r: Option<String>)
    requires
        i < raw.len(),
    ensures
        opt_view(r) == get(strings_view(*raw), i + 1),
{
    if i + 1 < raw.len() {
        Some(raw[i + 1].clone())
    } else {
        None
    }
}

/// Reads the manager's arguments (without the program name).
pub fn parse(raw: &Vec<String>) -> (r: Args)
    ensures
        r@ == man_parse_from(
            strings_view(*raw),
            0,
            ArgsModel { view: None, done_id: None, upcoming_plain: false },
        ),
{
    let ghost rv = strings_view(*raw);
    let mut a = Args { view: None, done_id: None, upcoming_plain: false };
    let mut i: usize = 0;
    while i < raw.len()
        invariant
            rv == strings_view(*raw),
            i <= raw.len(),
            man_parse_from(rv, 0, ArgsModel { view: None, done_id: None, upcoming_plain: false })
                == man_parse_from(rv, i as int, a@),
        decreases raw.len() - i,
    {
        let t = &raw[i];
        proof {
            assert(rv[i as int] == t@);
        }
        let mut k: usize = 0;
        if is_lit(t, "--view") || is_lit(t, "-v") {
            a.view = token_after(raw, i);
            k = 1;
        } else if is_lit(t, "done") {
            a.done_id = token_after(raw, i);
            k = 1;
        } else if is_lit(t, "upcoming") {
            let next = token_after(raw, i);
            let plain = match &next {
                Some(s) => is_lit(s, "--plain"),
                None => false,
            };
            proof {
                reveal_strlit("--plain");
                if opt_view(next) == Some("--plain"@) {
                    assert(plain);
                }
            }
            if plain {
                a.upcoming_plain = true;
                k = 1;
            }
            a.view = Some(crate::text::string_from("upcoming"));
        }
        if k < raw.len() - i - 1 {
            i = i + 1 + k;
        } else {
            i = raw.len();
        }
    }
    a
}

/// What the manager does for a command line.
#[derive(Debug)]
pub enum ManCommand {
    /// Mark the note with this id done.
    Done(String),
    /// Print the upcoming reminders and todos.
    UpcomingPlain,
    /// Open the window, on this view if given.
    App(Option<String>),
}

/// Marking a note done comes first, then the plain listing, else the window.
pub fn man_command(args: Args) -> (r: ManCommand)
    ensures
        match r {
            ManCommand::Done(id) => args.done_id == Some(id),
            ManCommand::UpcomingPlain => args.done_id is None && args.upcoming_plain,
            ManCommand::App(v) => args.done_id is None && !args.upcoming_plain && v == args.view,
        },
{
    match args.done_id {
        Some(id) => ManCommand::Done(id),
        None => if args.upcoming_plain {
            ManCommand::UpcomingPlain
        } else {
            ManCommand::App(args.view)
        },
    }
}

/// A listing of `nv`: the indices in `p`, which are exactly those below `n`
/// that `chosen` admits, stably ordered by `keys`.
pub open spec fn stable_order(
    keys: Seq<i128>,
    chosen: spec_fn(int) -> bool,
    n: int,
    p: Seq<usize>,
) -> bool {
    &&& sorted_by(keys, p)
    &&& forall|x: usize| p.contains(x) <==> ((x as int) < n && chosen(x as int))
}

/// The notes at the indices `p`, in that order.
pub open spec fn pick(nv: Seq<NoteModel>, p: Seq<usize>) -> Seq<NoteModel> {
    p.map_values(|i: usize| nv[i as int])
}

fn chosen_indices(chosen: &Vec<bool>) -> (r: Vec<usize>)
    ensures
        forall|i: int| 0 <= i < r.len() ==> (#[trigger] r@[i]) < chosen.len(),
        forall|i: int, j: int| 0 <= i < j < r.len() ==> (#[trigger] r@[i]) < (#[trigger] r@[j]),
        forall|x: usize| r@.contains(x) <==> ((x as int) < chosen.len() && chosen@[x as int]),
{
    let mut r: Vec<usize> = Vec::new();
    let mut i: usize = 0;
    while i < chosen.len()
        invariant
            i <= chosen.len(),
            forall|k: int| 0 <= k < r.len() ==> (#[trigger] r@[k]) < i,
            forall|a: int, b: int| 0 <= a < b < r.len() ==> (#[trigger] r@[a]) < (#[trigger] r@[b]),
            forall|x: usize| r@.contains(x) <==> ((x as int) < i && chosen@[x as int]),
        decreases chosen.len() - i,
    {
        if chosen[i] {
            let ghost r0 = r@;
            r.push(i);
            proof {
                assert forall|x: usize| r@.contains(x) <==> ((x as int) < i + 1 && chosen@[x as int]) by {
                    if x == i {
                        assert(r@[r0.len() as int] == x);
                    } else if r@.contains(x) {
                        let k = choose|k: int| 0 <= k < r@.len() && r@[k] == x;
                        assert(k < r0.len());
                        assert(r0[k] == x);
                    } else if (x as int) < i && chosen@[x as int] {
                        assert(r0.contains(x));
                        let k = choose|k: int| 0 <= k < r0.len() && r0[k] == x;
                        assert(r@[k] == x);
                    }
                }
            }
        } else {
            proof {
                assert forall|x: usize| r@.contains(x) <==> ((x as int) < i + 1 && chosen@[x as int]) by {
                    if r@.contains(x) {
                        let k = choose|k: int| 0 <= k < r@.len() && r@[k] == x;
                        assert(r@[k] < i);
                    }
                }
            }
        }
        i = i + 1;
    }
    r
}

/// The notes that `chosen` marks, stably ordered by `keys`.
fn arrange(notes: &Vec<Note>, chosen: &Vec<bool>, keys: &Vec<i128>) -> (r: Vec<Note>)
    requires
        chosen.len() == notes.len(),
        keys.len() == notes.len(),
    ensures
        exists|p: Seq<usize>|
            stable_order(keys@, |i: int| chosen@[i], notes.len() as int, p) && notes_view(r)
                == pick(notes_view(*notes), p),
{
    let idx = chosen_indices(chosen);
    let p = stable_sort(keys, &idx);
    let ghost nv = notes_view(*notes);
    let mut out: Vec<Note> = Vec::new();
    let mut k: usize = 0;
    while k < p.len()
        invariant
            k <= p.len(),
            nv == notes_view(*notes),
            keys.len() == notes.len(),
            forall|i: int| 0 <= i < p.len() ==> (#[trigger] p@[i]) < keys.len(),
            notes_view(out) == pick(nv, p@.take(k as int)),
        decreases p.len() - k,
    {
        let n = notes[p[k]].copy();
        let ghost o0 = notes_view(out);
        out.push(n);
        proof {
            assert(notes_view(out) =~= o0.push(nv[p@[k as int] as int]));
            assert(pick(nv, p@.take(k + 1)) =~= pick(nv, p@.take(k as int)).push(
                nv[p@[k as int] as int],
            ));
        }
        k = k + 1;
    }
    proof {
        assert(p@.take(p.len() as int) =~= p@);
        let chosen_fn = |i: int| chosen@[i];
        assert forall|x: usize| p@.contains(x) <==> ((x as int) < notes.len() && chosen_fn(x as int)) by {
            assert(p@.contains(x) <==> idx@.contains(x));
        }
        assert(stable_order(keys@, chosen_fn, notes.len() as int, p@));
    }
    out
}

/// A note shown under "upcoming": open, a reminder or todo, and due at
/// some instant.
pub open spec fn is_upcoming(n: NoteModel) -> bool {
    &&& !n.done
    &&& (n.note_type == NoteKind::Reminder || n.note_type == NoteKind::Todo)
    &&& effective_time_spec(n) is Some
}

/// Ordering key of the upcoming list: the instant the note is due.
pub open spec fn due_key(n: NoteModel) -> i128 {
    match effective_time_spec(n) {
        Some(t) => t as i128,
        None => 0,
    }
}

/// Ordering key of the open-notes lists: newest first.
pub open spec fn newest_key(n: NoteModel) -> i128 {
    (-(n.created as int)) as i128
}

/// Ordering key of the archive: most recently completed first (creation
/// time where no completion time is known).
pub open spec fn archive_key(n: NoteModel) -> i128 {
    match n.completed {
        Some(t) => (-(t as int)) as i128,
        None => (-(n.created as int)) as i128,
    }
}

/// The listing of `nv` with `chosen` notes in stable `key` order.
pub open spec fn listing_of(
    nv: Seq<NoteModel>,
    chosen: spec_fn(NoteModel) -> bool,
    key: spec_fn(NoteModel) -> i128,
    r: Seq<NoteModel>,
) -> bool {
    exists|p: Seq<usize>|
        stable_order(nv.map_values(key), |i: int| chosen(nv[i]), nv.len() as int, p) && r == pick(
            nv,
            p,
        )
}

/// Every listed note satisfies `chosen`, every stored note that satisfies
/// it is listed, and keys never decrease down the list.
pub proof fn law_listing_sorted(
    nv: Seq<NoteModel>,
    chosen: spec_fn(NoteModel) -> bool,
    key: spec_fn(NoteModel) -> i128,
    r: Seq<NoteModel>,
)
    requires
        listing_of(nv, chosen, key, r),
        nv.len() <= usize::MAX,
    ensures
        forall|i: int| 0 <= i < r.len() ==> chosen(#[trigger] r[i]),
        forall|i: int|
            0 <= i < nv.len() && chosen(#[trigger] nv[i]) ==> exists|k: int| 0 <= k < r.len() && r[k]
                == nv[i],
        forall|i: int, j: int| 0 <= i < j < r.len() ==> key(#[trigger] r[i]) <= key(#[trigger] r[j]),
{
    let p = choose|p: Seq<usize>|
        stable_order(nv.map_values(key), |i: int| chosen(nv[i]), nv.len() as int, p) && r == pick(
            nv,
            p,
        );
    let keys = nv.map_values(key);
    assert forall|i: int| 0 <= i < r.len() implies chosen(#[trigger] r[i]) by {
        assert(p.contains(p[i]));
    }
    assert forall|i: int| 0 <= i < nv.len() && chosen(#[trigger] nv[i]) implies exists|k: int|
        0 <= k < r.len() && r[k] == nv[i] by {
        let x = i as usize;
        assert(x as int == i);
        assert((|j: int| chosen(nv[j]))(x as int));
        assert(p.contains(x));
        let k = choose|k: int| 0 <= k < p.len() && p[k] == x;
        assert(r[k] == nv[p[k] as int]);
        assert(r[k] == nv[i]);
    }
    assert forall|i: int, j: int| 0 <= i < j < r.len() implies key(#[trigger] r[i]) <= key(
        #[trigger] r[j],
    ) by {
        assert(p.contains(p[i]));
        assert(p.contains(p[j]));
        assert(sorted_by(keys, p));
        assert(crate::order::before(keys, p[i] as int, p[j] as int));
    }
}

fn keyed(notes: &Vec<Note>, which: u8) -> (r: (Vec<bool>, Vec<i128>))
    requires
        which < 3,
    ensures
        r.0.len() == notes.len(),
        r.1.len() == notes.len(),
        forall|i: int|
            0 <= i < notes.len() ==> (#[trigger] r.0@[i]) == (if which == 0 {
                is_upcoming(notes@[i]@)
            } else if which == 1 {
                !notes@[i]@.done
            } else {
                notes@[i]@.done
            }),
        forall|i: int|
            0 <= i < notes.len() ==> (#[trigger] r.1@[i]) == (if which == 0 {
                due_key(notes@[i]@)
            } else if which == 1 {
                newest_key(notes@[i]@)
            } else {
                archive_key(notes@[i]@)
            }),
{
    let mut chosen: Vec<bool> = Vec::new();
    let mut keys: Vec<i128> = Vec::new();
    let mut i: usize = 0;
    while i < notes.len()
        invariant
            which < 3,
            i <= notes.len(),
            chosen.len() == i,
            keys.len() == i,
            forall|k: int|
                0 <= k < i ==> (#[trigger] chosen@[k]) == (if which == 0 {
                    is_upcoming(notes@[k]@)
                } else if which == 1 {
                    !notes@[k]@.done
                } else {
                    notes@[k]@.done
                }),
            forall|k: int|
                0 <= k < i ==> (#[trigger] keys@[k]) == (if which == 0 {
                    due_key(notes@[k]@)
                } else if which == 1 {
                    newest_key(notes@[k]@)
                } else {
                    archive_key(notes@[k]@)
                }),
        decreases notes.len() - i,
    {
        let n = &notes[i];
        let due = n.effective_time();
        if which == 0 {
            let is_rt = match n.note_type {
                NoteType::Reminder => true,
                NoteType::Todo => true,
                _ => false,
            };
            chosen.push(!n.done && is_rt && due.is_some());
            keys.push(
                match due {
                    Some(t) => t as i128,
                    None => 0,
                },
            );
        } else if which == 1 {
            chosen.push(!n.done);
            keys.push(-(n.created as i128));
        } else {
            chosen.push(n.done);
            keys.push(
                match n.completed {
                    Some(t) => -(t as i128),
                    None => -(n.created as i128),
                },
            );
        }
        i = i + 1;
    }
    (chosen, keys)
}

proof fn lemma_listing(
    nv: Seq<NoteModel>,
    chosen_v: Seq<bool>,
    keys_v: Seq<i128>,
    chosen: spec_fn(NoteModel) -> bool,
    key: spec_fn(NoteModel) -> i128,
    r: Seq<NoteModel>,
)
    requires
        chosen_v.len() == nv.len(),
        keys_v.len() == nv.len(),
        forall|i: int| 0 <= i < nv.len() ==> (#[trigger] chosen_v[i]) == chosen(nv[i]),
        forall|i: int| 0 <= i < nv.len() ==> (#[trigger] keys_v[i]) == key(nv[i]),
        exists|p: Seq<usize>|
            stable_order(keys_v, |i: int| chosen_v[i], nv.len() as int, p) && r == pick(nv, p),
    ensures
        listing_of(nv, chosen, key, r),
{
    let p = choose|p: Seq<usize>|
        stable_order(keys_v, |i: int| chosen_v[i], nv.len() as int, p) && r == pick(nv, p);
    assert(keys_v =~= nv.map_values(key));
    assert forall|x: usize|
        p.contains(x) <==> ((x as int) < nv.len() && (|i: int| chosen(nv[i]))(x as int)) by {}
    assert(stable_order(nv.map_values(key), |i: int| chosen(nv[i]), nv.len() as int, p));
}

/// The upcoming list: open reminders and todos that are due at some
/// instant, soonest first, ties in their stored order.
pub fn upcoming(notes: &Vec<Note>) -> (r: Vec<Note>)
    ensures
        listing_of(
            notes_view(*notes),
            |n: NoteModel| is_upcoming(n),
            |n: NoteModel| due_key(n),
            notes_view(r),
        ),
{
    let (chosen, keys) = keyed(notes, 0);
    let r = arrange(notes, &chosen, &keys);
    proof {
        lemma_listing(
            notes_view(*notes),
            chosen@,
            keys@,
            |n: NoteModel| is_upcoming(n),
            |n: NoteModel| due_key(n),
            notes_view(r),
        );
    }
    r
}

/// A note list: the open notes among `notes`, newest first, ties in their
/// stored order.
pub fn open_notes_newest_first(notes: &Vec<Note>) -> (r: Vec<Note>)
    ensures
        listing_of(
            notes_view(*notes),
            |n: NoteModel| !n.done,
            |n: NoteModel| newest_key(n),
            notes_view(r),
        ),
{
    let (chosen, keys) = keyed(notes, 1);
    let r = arrange(notes, &chosen, &keys);
    proof {
        lemma_listing(
            notes_view(*notes),
            chosen@,
            keys@,
            |n: NoteModel| !n.done,
            |n: NoteModel| newest_key(n),
            notes_view(r),
        );
    }
    r
}

/// The archive: the done notes, most recently completed first, ties in
/// their stored order.
pub fn archived(notes: &Vec<Note>) -> (r: Vec<Note>)
    ensures
        listing_of(
            notes_view(*notes),
            |n: NoteModel| n.done,
            |n: NoteModel| archive_key(n),
            notes_view(r),
        ),
{
    let (chosen, keys) = keyed(notes, 2);
    let r = arrange(notes, &chosen, &keys);
    proof {
        lemma_listing(
            notes_view(*notes),
            chosen@,
            keys@,
            |n: NoteModel| n.done,
            |n: NoteModel| archive_key(n),
            notes_view(r),
        );
    }
    r
}

/// The open notes of one type, in stored order.
pub open spec fn of_type(nv: Seq<NoteModel>, k: NoteKind) -> Seq<NoteModel> {
    nv.filter(|n: NoteModel| n.note_type == k && !n.done)
}

/// The notes of one type that its page lists (open ones), in stored order;
/// the page then shows them newest first.
pub fn notes_of_type(notes: &Vec<Note>, nt: &NoteType) -> (r: Vec<Note>)
    ensures
        notes_view(r) == of_type(notes_view(*notes), nt@),
{
    let ghost nv = notes_view(*notes);
    let ghost pred = |n: NoteModel| n.note_type == nt@ && !n.done;
    let mut out: Vec<Note> = Vec::new();
    let mut i: usize = 0;
    while i < notes.len()
        invariant
            i <= notes.len(),
            nv == notes_view(*notes),
            pred == (|n: NoteModel| n.note_type == nt@ && !n.done),
            notes_view(out) == nv.take(i as int).filter(pred),
        decreases notes.len() - i,
    {
        proof {
            reveal(Seq::filter);
            assert(nv.take(i + 1).drop_last() =~= nv.take(i as int));
            assert(nv.take(i + 1).last() == notes@[i as int]@);
        }
        if notes[i].note_type == *nt && !notes[i].done {
            let ghost o0 = notes_view(out);
            out.push(notes[i].copy());
            proof {
                assert(notes_view(out) =~= o0.push(nv[i as int]));
            }
        }
        i = i + 1;
    }
    proof {
        assert(nv.take(notes.len() as int) =~= nv);
    }
    out
}

/// Style class of a note's type badge.
pub open spec fn chip_class_spec(k: NoteKind) -> Seq<char> {
    match k {
        NoteKind::Todo => "type-chip-todo"@,
        NoteKind::Reminder => "type-chip-reminder"@,
        NoteKind::Idea => "type-chip-idea"@,
        NoteKind::Note => "type-chip-note"@,
        NoteKind::Question => "type-chip-question"@,
        NoteKind::Tag(_) => "type-chip"@,
    }
}

pub fn type_chip_class(note_type: &NoteType) -> (r: &'static str)
    ensures
        r@ == chip_class_spec(note_type@),
{
    match note_type {
        NoteType::Todo => "type-chip-todo",
        NoteType::Reminder => "type-chip-reminder",
        NoteType::Idea => "type-chip-idea",
        NoteType::Note => "type-chip-note",
        NoteType::Question => "type-chip-question",
        NoteType::Tag(_) => "type-chip",
    }
}

} // verus!
