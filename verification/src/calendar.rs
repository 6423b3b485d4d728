//! CalDAV export: event identifiers and URLs, iCalendar text (escaping and
//! line folding), and reading events back out of a calendar report.

use crate::clock::{compact_utc_text, compact_utc_text_exec, utc_ok};
use crate::text::{
    chars_of, find_from, find_from_exec, lemma_find_from, push_all, push_str, replace_char,
    replace_char_exec, slice_vec, string_from, string_of,
};
use crate::config::CalendarConfig;
use crate::types::{kind_name, opt_view, rrule_view, utc_now, Note, NoteModel};
use vstd::prelude::*;

verus! {

/// A calendar event as listed by the server.
#[derive(Debug)]
pub struct CalDavEventInfo {
    pub uid: String,
    pub summary: String,
}

/// Why a calendar operation failed.
#[derive(Debug, PartialEq, Eq, Structural)]
pub enum CalendarError {
    /// The server answered with this HTTP status.
    Status(u16),
}

/// The event UID of a note: its stored CalDAV UID, else `<id>@breadpad`.
pub open spec fn uid_spec(n: NoteModel) -> Seq<char> {
    match n.caldav_uid {
        Some(u) => u,
        None => n.id + "@breadpad"@,
    }
}

pub fn caldav_uid(note: &Note) -> (r: String)
    ensures
        r@ == uid_spec(note@),
{
    match &note.caldav_uid {
        Some(u) => u.clone(),
        None => {
            let mut v = chars_of(note.id.as_str());
            push_str(&mut v, "@breadpad");
            string_of(&v)
        },
    }
}

/// `s` without trailing `c` characters (`str::trim_end_matches(c)`).
pub open spec fn trim_end_char(s: Seq<char>, c: char) -> Seq<char>
    decreases s.len(),
{
    if s.len() > 0 && s.last() == c {
        trim_end_char(s.drop_last(), c)
    } else {
        s
    }
}

/// The URL of an event: the collection URL without trailing slashes,
/// then `/<uid>.ics`.
pub open spec fn event_url_spec(base: Seq<char>, uid: Seq<char>) -> Seq<char> {
    trim_end_char(base, '/') + "/"@ + uid + ".ics"@
}

fn trim_end_char_exec(v: &Vec<char>, c: char) -> (r: Vec<char>)
    ensures
        r@ == trim_end_char(v@, c),
{
    let mut b = v.len();
    proof { assert(v@.take(b as int) =~= v@); }
    while b > 0 && v[b - 1] == c
        invariant
            b <= v.len(),
            trim_end_char(v@, c) == trim_end_char(v@.take(b as int), c),
        decreases b,
    {
        proof {
            let t = v@.take(b as int);
            assert(t.drop_last() =~= v@.take(b - 1));
        }
        b = b - 1;
    }
    proof {
        let t = v@.take(b as int);
        if t.len() > 0 {
            assert(t.last() == v@[b - 1]);
        }
    }
    slice_vec(v, 0, b)
}

/// A base URL without its trailing slashes.
pub fn event_url_base(v: &Vec<char>) -> (r: Vec<char>)
    ensures
        r@ == trim_end_char(v@, '/'),
{
    trim_end_char_exec(v, '/')
}

pub fn event_url(base: &str, uid: &str) -> (r: String)
    ensures
        r@ == event_url_spec(base@, uid@),
{
    let bv = chars_of(base);
    proof { assert(bv@.take(bv@.len() as int) =~= bv@); }
    let mut v = trim_end_char_exec(&bv, '/');
    proof { assert(v@.take(v@.len() as int) =~= v@); }
    push_str(&mut v, "/");
    push_str(&mut v, uid);
    push_str(&mut v, ".ics");
    proof { assert(v@ =~= event_url_spec(base@, uid@)); }
    string_of(&v)
}

/// iCalendar TEXT escaping: backslash, then `;`, `,` and newline, each
/// replaced in turn.
pub open spec fn escape_spec(s: Seq<char>) -> Seq<char> {
    replace_char(
        replace_char(replace_char(replace_char(s, '\\', "\\\\"@), ';', "\\;"@), ',', "\\,"@),
        '\n',
        "\\n"@,
    )
}

pub fn escape_ical(s: &str) -> (r: String)
    ensures
        r@ == escape_spec(s@),
{
    let v = chars_of(s);
    let a = replace_char_exec(&v, '\\', "\\\\");
    let b = replace_char_exec(&a, ';', "\\;");
    let c = replace_char_exec(&b, ',', "\\,");
    let d = replace_char_exec(&c, '\n', "\\n");
    string_of(&d)
}

/// The characters iCalendar TEXT escaping changes.
pub open spec fn ical_special(ch: char) -> bool {
    ch == '\\' || ch == ';' || ch == ',' || ch == '\n'
}

/// The escape of one character: a backslash put before a backslash, `;`
/// and `,`; a backslash and `n` for a line feed; any other character as is.
pub open spec fn escape_char_spec(ch: char) -> Seq<char> {
    if ch == '\\' {
        seq!['\\', '\\']
    } else if ch == ';' {
        seq!['\\', ';']
    } else if ch == ',' {
        seq!['\\', ',']
    } else if ch == '\n' {
        seq!['\\', 'n']
    } else {
        seq![ch]
    }
}

proof fn lemma_replace_concat(a: Seq<char>, b: Seq<char>, c: char, r: Seq<char>)
    ensures
        replace_char(a + b, c, r) == replace_char(a, c, r) + replace_char(b, c, r),
    decreases b.len(),
{
    if b.len() == 0 {
        assert(a + b =~= a);
        assert(replace_char(a, c, r) + replace_char(b, c, r) =~= replace_char(a, c, r));
    } else {
        lemma_replace_concat(a, b.drop_last(), c, r);
        assert((a + b).drop_last() =~= a + b.drop_last());
        assert((a + b).last() == b.last());
        let tail = if b.last() == c {
            r
        } else {
            seq![b.last()]
        };
        assert(replace_char(a, c, r) + replace_char(b.drop_last(), c, r) + tail =~= replace_char(
            a,
            c,
            r,
        ) + (replace_char(b.drop_last(), c, r) + tail));
    }
}

proof fn lemma_replace_one(x: char, c: char, r: Seq<char>)
    ensures
        replace_char(seq![x], c, r) == (if x == c {
            r
        } else {
            seq![x]
        }),
{
    assert(seq![x].drop_last() =~= Seq::<char>::empty());
    assert(seq![x].last() == x);
    assert(replace_char(Seq::<char>::empty(), c, r) + (if x == c {
        r
    } else {
        seq![x]
    }) =~= (if x == c {
        r
    } else {
        seq![x]
    }));
}

proof fn lemma_replace_two(x: char, y: char, c: char, r: Seq<char>)
    ensures
        replace_char(seq![x, y], c, r) == (if x == c {
            r
        } else {
            seq![x]
        }) + (if y == c {
            r
        } else {
            seq![y]
        }),
{
    assert(seq![x, y] =~= seq![x] + seq![y]);
    lemma_replace_concat(seq![x], seq![y], c, r);
    lemma_replace_one(x, c, r);
    lemma_replace_one(y, c, r);
}

/// Escaping works text piece by text piece: the escape of a concatenation
/// is the concatenation of the escapes.
pub proof fn law_escape_concat(a: Seq<char>, b: Seq<char>)
    ensures
        escape_spec(a + b) == escape_spec(a) + escape_spec(b),
{
    let a1 = replace_char(a, '\\', "\\\\"@);
    let b1 = replace_char(b, '\\', "\\\\"@);
    lemma_replace_concat(a, b, '\\', "\\\\"@);
    let a2 = replace_char(a1, ';', "\\;"@);
    let b2 = replace_char(b1, ';', "\\;"@);
    lemma_replace_concat(a1, b1, ';', "\\;"@);
    let a3 = replace_char(a2, ',', "\\,"@);
    let b3 = replace_char(b2, ',', "\\,"@);
    lemma_replace_concat(a2, b2, ',', "\\,"@);
    lemma_replace_concat(a3, b3, '\n', "\\n"@);
}

/// Escaping maps each character on its own, as [`escape_char_spec`] says.
pub proof fn law_escape_char(ch: char)
    ensures
        escape_spec(seq![ch]) == escape_char_spec(ch),
{
    reveal_strlit("\\\\");
    reveal_strlit("\\;");
    reveal_strlit("\\,");
    reveal_strlit("\\n");
    lemma_replace_one(ch, '\\', "\\\\"@);
    if ch == '\\' {
        assert("\\\\"@ =~= seq!['\\', '\\']);
        lemma_replace_two('\\', '\\', ';', "\\;"@);
        lemma_replace_two('\\', '\\', ',', "\\,"@);
        lemma_replace_two('\\', '\\', '\n', "\\n"@);
        assert(seq!['\\'] + seq!['\\'] =~= seq!['\\', '\\']);
    } else {
        lemma_replace_one(ch, ';', "\\;"@);
        if ch == ';' {
            assert("\\;"@ =~= seq!['\\', ';']);
            lemma_replace_two('\\', ';', ',', "\\,"@);
            lemma_replace_two('\\', ';', '\n', "\\n"@);
            assert(seq!['\\'] + seq![';'] =~= seq!['\\', ';']);
        } else {
            lemma_replace_one(ch, ',', "\\,"@);
            if ch == ',' {
                assert("\\,"@ =~= seq!['\\', ',']);
                lemma_replace_two('\\', ',', '\n', "\\n"@);
                assert(seq!['\\'] + seq![','] =~= seq!['\\', ',']);
            } else {
                lemma_replace_one(ch, '\n', "\\n"@);
                if ch == '\n' {
                    assert("\\n"@ =~= seq!['\\', 'n']);
                }
            }
        }
    }
}

proof fn lemma_escape_last(s: Seq<char>)
    requires
        s.len() > 0,
    ensures
        escape_spec(s) == escape_spec(s.drop_last()) + escape_char_spec(s.last()),
{
    assert(s =~= s.drop_last() + seq![s.last()]);
    law_escape_concat(s.drop_last(), seq![s.last()]);
    law_escape_char(s.last());
}

proof fn lemma_escape_len(s: Seq<char>)
    ensures
        escape_spec(s).len() >= s.len(),
        escape_spec(s).len() == s.len() ==> forall|i: int| 0 <= i < s.len() ==> !ical_special(
            #[trigger] s[i],
        ),
        (forall|i: int| 0 <= i < s.len() ==> !ical_special(#[trigger] s[i])) ==> escape_spec(s)
            == s,
    decreases s.len(),
{
    if s.len() == 0 {
        assert(escape_spec(s) =~= s) by {
            assert(replace_char(s, '\\', "\\\\"@) == s);
        }
    } else {
        let t = s.drop_last();
        lemma_escape_len(t);
        lemma_escape_last(s);
        if escape_spec(s).len() == s.len() {
            assert forall|i: int| 0 <= i < s.len() implies !ical_special(#[trigger] s[i]) by {
                if i < s.len() - 1 {
                    assert(s[i] == t[i]);
                }
            }
        }
        if forall|i: int| 0 <= i < s.len() ==> !ical_special(#[trigger] s[i]) {
            assert forall|i: int| 0 <= i < t.len() implies !ical_special(#[trigger] t[i]) by {
                assert(t[i] == s[i]);
            }
            assert(!ical_special(s[s.len() - 1]));
            assert(s =~= t + seq![s.last()]);
        }
    }
}

/// Escaping leaves a text unchanged exactly when it holds none of the
/// characters it escapes.
pub proof fn law_escape_identity(s: Seq<char>)
    ensures
        escape_spec(s) == s <==> forall|i: int| 0 <= i < s.len() ==> !ical_special(#[trigger] s[i]),
{
    lemma_escape_len(s);
}

// ---------------------------------------------------------------------------
// Line folding (RFC 5545 section 3.1)

/// Octets of a character in UTF-8.
pub open spec fn utf8_len(c: char) -> nat {
    if (c as u32) < 0x80 {
        1
    } else if (c as u32) < 0x800 {
        2
    } else if (c as u32) < 0x10000 {
        3
    } else {
        4
    }
}

/// Octets of a character sequence in UTF-8.
pub open spec fn octets(s: Seq<char>) -> nat
    decreases s.len(),
{
    if s.len() == 0 {
        0
    } else {
        octets(s.drop_last()) + utf8_len(s.last())
    }
}

/// Number of leading characters of `s` whose UTF-8 encoding fits in
/// `limit` octets (the longest such prefix).
pub open spec fn fit_count(s: Seq<char>, limit: int) -> nat
    decreases s.len(),
{
    if s.len() == 0 || utf8_len(s[0]) > limit {
        0
    } else {
        1 + fit_count(s.drop_first(), limit - utf8_len(s[0]))
    }
}

/// The pieces a folded line is made of: the longest prefixes that fit in
/// 75 octets for the first piece and 74 for every later one (the
/// continuation space takes the 75th).
pub open spec fn fold_pieces(s: Seq<char>, first: bool) -> Seq<Seq<char>>
    decreases s.len(),
{
    let limit: int = if first { 75 } else { 74 };
    let k = fit_count(s, limit);
    if s.len() == 0 || k == 0 {
        seq![]
    } else {
        proof {
            lemma_fit_count(s, limit);
        }
        seq![s.take(k as int)] + fold_pieces(s.skip(k as int), false)
    }
}

/// Pieces joined with CRLF and a space.
pub open spec fn join_folded(p: Seq<Seq<char>>) -> Seq<char>
    decreases p.len(),
{
    if p.len() == 0 {
        seq![]
    } else if p.len() == 1 {
        p[0]
    } else {
        join_folded(p.drop_last()) + "\r\n "@ + p.last()
    }
}

/// A property line as folded: unchanged when it fits in 75 octets.
pub open spec fn fold_spec(s: Seq<char>) -> Seq<char> {
    if octets(s) <= 75 {
        s
    } else {
        join_folded(fold_pieces(s, true))
    }
}

/// Concatenation of pieces.
pub open spec fn concat(p: Seq<Seq<char>>) -> Seq<char>
    decreases p.len(),
{
    if p.len() == 0 {
        seq![]
    } else {
        p[0] + concat(p.drop_first())
    }
}

proof fn lemma_octets_push(s: Seq<char>, c: char)
    ensures
        octets(s.push(c)) == octets(s) + utf8_len(c),
{
    assert(s.push(c).drop_last() =~= s);
}

pub proof fn lemma_octets_prepend(c: char, s: Seq<char>)
    ensures
        octets(seq![c] + s) == utf8_len(c) + octets(s),
    decreases s.len(),
{
    let cs = seq![c] + s;
    if s.len() == 0 {
        assert(cs.drop_last() =~= Seq::<char>::empty());
        assert(cs.last() == c);
        assert(octets(Seq::<char>::empty()) == 0);
    } else {
        lemma_octets_prepend(c, s.drop_last());
        assert(cs.drop_last() =~= seq![c] + s.drop_last());
        assert(cs.last() == s.last());
    }
}

pub proof fn lemma_fit_count(s: Seq<char>, limit: int)
    ensures
        fit_count(s, limit) <= s.len(),
        octets(s.take(fit_count(s, limit) as int)) <= limit || fit_count(s, limit) == 0,
        limit >= 4 && s.len() > 0 ==> fit_count(s, limit) >= 1,
    decreases s.len(),
{
    if s.len() == 0 || utf8_len(s[0]) > limit {
    } else {
        let t = s.drop_first();
        let l2 = limit - utf8_len(s[0]);
        lemma_fit_count(t, l2);
        let k = fit_count(t, l2);
        assert(s.take(k + 1int) =~= seq![s[0]] + t.take(k as int));
        lemma_octets_prepend(s[0], t.take(k as int));
        if k == 0 {
            assert(t.take(0) =~= Seq::<char>::empty());
        }
    }
}

/// Folding loses nothing: the pieces of a line, concatenated, give the
/// line back.
pub proof fn law_fold_pieces_concat(s: Seq<char>, first: bool)
    ensures
        concat(fold_pieces(s, first)) == s,
    decreases s.len(),
{
    let limit: int = if first { 75 } else { 74 };
    lemma_fit_count(s, limit);
    let k = fit_count(s, limit);
    if s.len() == 0 || k == 0 {
        assert(concat(Seq::<Seq<char>>::empty()) == Seq::<char>::empty());
        assert(s =~= Seq::<char>::empty());
    } else {
        law_fold_pieces_concat(s.skip(k as int), false);
        let p = fold_pieces(s, first);
        assert(p.drop_first() =~= fold_pieces(s.skip(k as int), false));
        assert(s.take(k as int) + s.skip(k as int) =~= s);
    }
}

/// Folding respects the width: the first piece takes at most 75 octets
/// and every later piece at most 74 (75 with its leading space).
pub proof fn law_fold_pieces_width(s: Seq<char>, first: bool)
    ensures
        forall|i: int|
            0 <= i < fold_pieces(s, first).len() ==> octets(#[trigger] fold_pieces(s, first)[i])
                <= (if i == 0 && first { 75int } else { 74int }),
        forall|i: int|
            0 <= i < fold_pieces(s, first).len() ==> (#[trigger] fold_pieces(s, first)[i]).len()
                > 0,
    decreases s.len(),
{
    let limit: int = if first { 75 } else { 74 };
    lemma_fit_count(s, limit);
    let k = fit_count(s, limit);
    if s.len() == 0 || k == 0 {
    } else {
        law_fold_pieces_width(s.skip(k as int), false);
        let p = fold_pieces(s, first);
        let q = fold_pieces(s.skip(k as int), false);
        assert forall|i: int| 0 <= i < p.len() implies octets(#[trigger] p[i]) <= (if i == 0
            && first {
            75int
        } else {
            74int
        }) && p[i].len() > 0 by {
            if i > 0 {
                assert(p[i] == q[i - 1]);
            }
        }
    }
}

/// The prefix [`fit_count`] takes is the longest that fits: one more
/// character would not.
proof fn lemma_fit_count_max(s: Seq<char>, limit: int)
    requires
        fit_count(s, limit) < s.len(),
    ensures
        octets(s.take(fit_count(s, limit) + 1int)) > limit,
    decreases s.len(),
{
    if utf8_len(s[0]) > limit {
        assert(s.take(1) =~= seq![s[0]] + Seq::<char>::empty());
        lemma_octets_prepend(s[0], Seq::<char>::empty());
    } else {
        let t = s.drop_first();
        let l2 = limit - utf8_len(s[0]);
        lemma_fit_count_max(t, l2);
        let k = fit_count(t, l2);
        assert(s.take(k + 2int) =~= seq![s[0]] + t.take(k + 1int));
        lemma_octets_prepend(s[0], t.take(k + 1int));
    }
}

/// Folding cuts no earlier than it must: every piece but the last is as
/// long as the width allows, since adding the next piece's first
/// character would pass 75 octets for the first piece, 74 for a later one.
pub proof fn law_fold_pieces_maximal(s: Seq<char>, first: bool)
    ensures
        forall|i: int|
            0 <= i < fold_pieces(s, first).len() - 1 ==> fold_pieces(s, first)[i + 1].len() > 0
                && octets(#[trigger] fold_pieces(s, first)[i].push(fold_pieces(s, first)[i + 1][0]))
                > (if i == 0 && first { 75int } else { 74int }),
    decreases s.len(),
{
    let limit: int = if first { 75 } else { 74 };
    lemma_fit_count(s, limit);
    let k = fit_count(s, limit);
    if s.len() == 0 || k == 0 {
    } else {
        let rest = s.skip(k as int);
        law_fold_pieces_maximal(rest, false);
        law_fold_pieces_width(rest, false);
        let p = fold_pieces(s, first);
        let q = fold_pieces(rest, false);
        assert(p.drop_first() =~= q);
        assert forall|i: int| 0 <= i < p.len() - 1 implies p[i + 1].len() > 0 && octets(
            #[trigger] p[i].push(p[i + 1][0]),
        ) > (if i == 0 && first {
            75int
        } else {
            74int
        }) by {
            if i == 0 {
                lemma_fit_count(rest, 74);
                let k2 = fit_count(rest, 74);
                assert(q[0] == rest.take(k2 as int));
                assert(p[1] == q[0]);
                assert(p[1][0] == s[k as int]);
                assert(k < s.len());
                lemma_fit_count_max(s, limit);
                assert(p[0].push(p[1][0]) =~= s.take(k + 1int));
            } else {
                assert(p[i] == q[i - 1]);
                assert(p[i + 1] == q[i]);
            }
        }
    }
}

fn utf8_len_exec(c: char) -> (n: usize)
    ensures
        n == utf8_len(c),
{
    if (c as u32) < 0x80 {
        1
    } else if (c as u32) < 0x800 {
        2
    } else if (c as u32) < 0x10000 {
        3
    } else {
        4
    }
}

/// Octets of `v[a..]` fitting count from `a` within `limit`.
pub(crate) fn fit_count_exec(v: &Vec<char>, a: usize, limit: usize) -> (k: usize)
    requires
        a <= v.len(),
    ensures
        k == fit_count(v@.skip(a as int), limit as int),
        a + k <= v.len(),
    decreases v.len() - a,
{
    if a == v.len() {
        proof { assert(v@.skip(a as int).len() == 0); }
        return 0;
    }
    let n = utf8_len_exec(v[a]);
    proof { assert(v@.skip(a as int)[0] == v@[a as int]); }
    if n > limit {
        return 0;
    }
    let rest = fit_count_exec(v, a + 1, limit - n);
    proof {
        assert(v@.skip(a as int).drop_first() =~= v@.skip(a + 1));
        lemma_fit_count(v@.skip(a + 1), (limit - n) as int);
    }
    rest + 1
}

pub(crate) fn octets_exec(v: &Vec<char>) -> (n: u128)
    ensures
        n == octets(v@),
{
    let mut n: u128 = 0;
    let mut i: usize = 0;
    while i < v.len()
        invariant
            i <= v.len(),
            n == octets(v@.take(i as int)),
            n <= 4 * i,
        decreases v.len() - i,
    {
        proof {
            lemma_octets_push(v@.take(i as int), v@[i as int]);
            assert(v@.take(i + 1) =~= v@.take(i as int).push(v@[i as int]));
        }
        n = n + utf8_len_exec(v[i]) as u128;
        i = i + 1;
    }
    proof { assert(v@.take(v.len() as int) =~= v@); }
    n
}

fn join_folded_exec(pieces: &Vec<Vec<char>>) -> (r: Vec<char>)
    ensures
        r@ == join_folded(pieces@.map_values(|p: Vec<char>| p@)),
{
    let ghost ps = pieces@.map_values(|p: Vec<char>| p@);
    let mut out: Vec<char> = Vec::new();
    let mut i: usize = 0;
    while i < pieces.len()
        invariant
            i <= pieces.len(),
            ps == pieces@.map_values(|p: Vec<char>| p@),
            out@ == join_folded(ps.take(i as int)),
        decreases pieces.len() - i,
    {
        let ghost t = ps.take(i + 1);
        proof {
            assert(t.drop_last() =~= ps.take(i as int));
            assert(t.last() == pieces@[i as int]@);
            if i == 0 {
                assert(ps.take(0) =~= Seq::<Seq<char>>::empty());
            }
        }
        if i > 0 {
            push_str(&mut out, "\r\n ");
        }
        push_all(&mut out, &pieces[i]);
        i = i + 1;
    }
    proof { assert(ps.take(pieces.len() as int) =~= ps); }
    out
}

fn fold_pieces_exec(v: &Vec<char>) -> (r: Vec<Vec<char>>)
    ensures
        r@.map_values(|p: Vec<char>| p@) == fold_pieces(v@, true),
{
    let mut pieces: Vec<Vec<char>> = Vec::new();
    let mut pos: usize = 0;
    let mut first = true;
    proof {
        assert(v@.skip(0) =~= v@);
    }
    while pos < v.len()
        invariant
            pos <= v.len(),
            first ==> pos == 0 && pieces@.len() == 0,
            fold_pieces(v@, true) == pieces@.map_values(|p: Vec<char>| p@) + fold_pieces(
                v@.skip(pos as int),
                first,
            ),
        decreases v.len() - pos,
    {
        let limit: usize = if first { 75 } else { 74 };
        let k = fit_count_exec(v, pos, limit);
        let ghost rest = v@.skip(pos as int);
        proof {
            lemma_fit_count(rest, limit as int);
        }
        let piece = slice_vec(v, pos, pos + k);
        proof {
            assert(rest.take(k as int) =~= piece@);
            assert(rest.skip(k as int) =~= v@.skip((pos + k) as int));
            assert(fold_pieces(rest, first) == seq![piece@] + fold_pieces(
                v@.skip((pos + k) as int),
                false,
            ));
        }
        let ghost before = pieces@.map_values(|p: Vec<char>| p@);
        pieces.push(piece);
        proof {
            assert(pieces@.map_values(|p: Vec<char>| p@) =~= before.push(piece@));
            assert(before + (seq![piece@] + fold_pieces(v@.skip((pos + k) as int), false))
                =~= before.push(piece@) + fold_pieces(v@.skip((pos + k) as int), false));
        }
        pos = pos + k;
        first = false;
    }
    proof {
        assert(v@.skip(v@.len() as int) =~= Seq::<char>::empty());
        assert(pieces@.map_values(|p: Vec<char>| p@) + Seq::<Seq<char>>::empty() =~= pieces@.map_values(
            |p: Vec<char>| p@,
        ));
    }
    pieces
}

/// Folds an iCalendar property line: lines over 75 octets are split into
/// pieces of at most 75 (first) and 74 (later) octets, never inside a
/// character, joined with CRLF and a space.
pub fn fold_line(line: &str) -> (r: String)
    ensures
        r@ == fold_spec(line@),
{
    let v = chars_of(line);
    if octets_exec(&v) <= 75 {
        return string_of(&v);
    }
    let pieces = fold_pieces_exec(&v);
    let out = join_folded_exec(&pieces);
    string_of(&out)
}

// ---------------------------------------------------------------------------
// Event text

/// Lines joined with CRLF.
pub open spec fn join_crlf(p: Seq<Seq<char>>) -> Seq<char>
    decreases p.len(),
{
    if p.len() == 0 {
        seq![]
    } else if p.len() == 1 {
        p[0]
    } else {
        join_crlf(p.drop_last()) + "\r\n"@ + p.last()
    }
}

/// The property lines of a note's event; `stamp` is the creation stamp
/// (`DTSTAMP`) in `%Y%m%dT%H%M%SZ` form.
pub open spec fn ical_lines(n: NoteModel, uid: Seq<char>, stamp: Seq<char>) -> Seq<Seq<char>> {
    let dt = compact_utc_text(
        match n.time {
            Some(t) => t,
            None => n.created,
        },
    );
    let head = seq![
        "BEGIN:VCALENDAR"@,
        "VERSION:2.0"@,
        "PRODID:-//breadpad//EN"@,
        "BEGIN:VEVENT"@,
        "UID:"@ + uid,
        fold_spec("SUMMARY:"@ + escape_spec(n.body)),
        "DTSTART:"@ + dt,
        "DTEND:"@ + dt,
        "DTSTAMP:"@ + stamp,
        fold_spec("DESCRIPTION:"@ + escape_spec("type="@ + kind_name(n.note_type))),
    ];
    let mid = match n.rrule {
        Some(r) => head.push(r),
        None => head,
    };
    mid + seq!["END:VEVENT"@, "END:VCALENDAR"@]
}

/// `line` is one of the lines of `ls` strictly between the first
/// `BEGIN:VEVENT` (line 3) and the final `END:VEVENT`.
pub open spec fn inside_event(ls: Seq<Seq<char>>, line: Seq<char>) -> bool {
    exists|i: int| 3 < i < ls.len() - 2 && #[trigger] ls[i] == line
}

/// The event's shape: a calendar opening with its version and product,
/// then one event holding the note's properties (its UID, start and end,
/// stamp, and its recurrence rule when it has one), and the event then
/// the calendar closed by the last two lines.
pub proof fn law_event_structure(n: NoteModel, uid: Seq<char>, stamp: Seq<char>)
    ensures
        ({
            let ls = ical_lines(n, uid, stamp);
            let dt = compact_utc_text(
                match n.time {
                    Some(t) => t,
                    None => n.created,
                },
            );
            &&& ls[0] == "BEGIN:VCALENDAR"@
            &&& ls[3] == "BEGIN:VEVENT"@
            &&& ls.len() >= 6
            &&& ls[ls.len() - 2] == "END:VEVENT"@
            &&& ls[ls.len() - 1] == "END:VCALENDAR"@
            &&& inside_event(ls, "UID:"@ + uid)
            &&& inside_event(ls, "DTSTART:"@ + dt)
            &&& inside_event(ls, "DTEND:"@ + dt)
            &&& inside_event(ls, "DTSTAMP:"@ + stamp)
            &&& (n.rrule matches Some(r) ==> inside_event(ls, r))
            &&& (n.rrule is None ==> ls.len() == 12)
            &&& (n.rrule is Some ==> ls.len() == 13)
        }),
{
    let ls = ical_lines(n, uid, stamp);
    assert(ls[4] == "UID:"@ + uid);
    let dt = compact_utc_text(
        match n.time {
            Some(t) => t,
            None => n.created,
        },
    );
    assert(ls[6] == "DTSTART:"@ + dt);
    assert(ls[7] == "DTEND:"@ + dt);
    assert(ls[8] == "DTSTAMP:"@ + stamp);
    if let Some(r) = n.rrule {
        assert(ls[10] == r);
    }
}

/// The iCalendar text of a note's event: its lines joined with CRLF and
/// terminated by CRLF.
pub open spec fn ical_spec(n: NoteModel, uid: Seq<char>, stamp: Seq<char>) -> Seq<char> {
    join_crlf(ical_lines(n, uid, stamp)) + "\r\n"@
}

fn join_crlf_exec(lines: &Vec<Vec<char>>) -> (r: Vec<char>)
    ensures
        r@ == join_crlf(lines@.map_values(|p: Vec<char>| p@)),
{
    let ghost ps = lines@.map_values(|p: Vec<char>| p@);
    let mut out: Vec<char> = Vec::new();
    let mut i: usize = 0;
    while i < lines.len()
        invariant
            i <= lines.len(),
            ps == lines@.map_values(|p: Vec<char>| p@),
            out@ == join_crlf(ps.take(i as int)),
        decreases lines.len() - i,
    {
        let ghost t = ps.take(i + 1);
        proof {
            assert(t.drop_last() =~= ps.take(i as int));
            assert(t.last() == lines@[i as int]@);
            if i == 0 {
                assert(ps.take(0) =~= Seq::<Seq<char>>::empty());
            }
        }
        if i > 0 {
            push_str(&mut out, "\r\n");
        }
        push_all(&mut out, &lines[i]);
        i = i + 1;
    }
    proof { assert(ps.take(lines.len() as int) =~= ps); }
    out
}

fn lit(s: &str) -> (r: Vec<char>)
    ensures
        r@ == s@,
{
    chars_of(s)
}

fn prefixed(p: &str, rest: &Vec<char>) -> (r: Vec<char>)
    ensures
        r@ == p@ + rest@,
{
    let mut v = chars_of(p);
    push_all(&mut v, rest);
    v
}

fn folded(v: &Vec<char>) -> (r: Vec<char>)
    ensures
        r@ == fold_spec(v@),
{
    let s = string_of(v);
    let f = fold_line(s.as_str());
    chars_of(f.as_str())
}

/// The iCalendar event text of `note` under `uid`, stamped at instant
/// `now`.
#[verifier::rlimit(60)]
pub fn build_ical_at(note: &Note, uid: &str, now: i64) -> (r: String)
    requires
        utc_ok(now as int),
        utc_ok(
            match note.time {
                Some(t) => t as int,
                None => note.created as int,
            },
        ),
    ensures
        r@ == ical_spec(note@, uid@, compact_utc_text(now)),
{
    let dt_instant = match note.time {
        Some(t) => t,
        None => note.created,
    };
    let dt = chars_of(compact_utc_text_exec(dt_instant).as_str());
    let stamp = chars_of(compact_utc_text_exec(now).as_str());
    let mut lines: Vec<Vec<char>> = Vec::new();
    lines.push(lit("BEGIN:VCALENDAR"));
    lines.push(lit("VERSION:2.0"));
    lines.push(lit("PRODID:-//breadpad//EN"));
    lines.push(lit("BEGIN:VEVENT"));
    lines.push(prefixed("UID:", &chars_of(uid)));
    let body = escape_ical(note.body.as_str());
    lines.push(folded(&prefixed("SUMMARY:", &chars_of(body.as_str()))));
    lines.push(prefixed("DTSTART:", &dt));
    lines.push(prefixed("DTEND:", &dt));
    lines.push(prefixed("DTSTAMP:", &stamp));
    let tn = prefixed("type=", &chars_of(note.note_type.as_str()));
    let te = escape_ical(string_of(&tn).as_str());
    lines.push(folded(&prefixed("DESCRIPTION:", &chars_of(te.as_str()))));
    match &note.rrule {
        Some(r) => lines.push(chars_of(r.as_str())),
        None => {},
    }
    lines.push(lit("END:VEVENT"));
    lines.push(lit("END:VCALENDAR"));
    proof {
        assert(lines@.map_values(|p: Vec<char>| p@) =~= ical_lines(
            note@,
            uid@,
            compact_utc_text(now),
        ));
    }
    let mut out = join_crlf_exec(&lines);
    push_str(&mut out, "\r\n");
    string_of(&out)
}

/// The iCalendar event text of `note` under `uid`, stamped now.
pub fn build_ical(note: &Note, uid: &str) -> (r: String)
    requires
        utc_ok(
            match note.time {
                Some(t) => t as int,
                None => note.created as int,
            },
        ),
    ensures
        exists|now: i64| utc_ok(now as int) && r@ == ical_spec(note@, uid@, compact_utc_text(now)),
{
    let now = utc_now();
    build_ical_at(note, uid, now)
}

// ---------------------------------------------------------------------------
// Reading a calendar report

/// A parsed property: name and optional value.
pub type PropText = (Seq<char>, Option<Seq<char>>);

/// What the `ical` crate's `IcalParser` yields for a text: one item per
/// calendar found, `None` for an item it could not parse, otherwise the
/// calendar's events, each as its list of properties in order.
pub uninterp spec fn ical_parse(text: Seq<char>) -> Seq<Option<Seq<Seq<PropText>>>>;

pub open spec fn props_view(v: Vec<(String, Option<String>)>) -> Seq<PropText> {
    v@.map_values(|p: (String, Option<String>)| (p.0@, crate::types::opt_view(p.1)))
}

pub open spec fn events_view(v: Vec<Vec<(String, Option<String>)>>) -> Seq<Seq<PropText>> {
    v@.map_values(|e: Vec<(String, Option<String>)>| props_view(e))
}

pub open spec fn items_view(v: Vec<Option<Vec<Vec<(String, Option<String>)>>>>) -> Seq<
    Option<Seq<Seq<PropText>>>,
> {
    v@.map_values(|i: Option<Vec<Vec<(String, Option<String>)>>>| match i {
        Some(e) => Some(events_view(e)),
        None => None,
    })
}

/// Runs `ical::IcalParser` over a text and hands back each item's events
/// as (name, value) property lists.
#[verifier::external_body]
fn parse_ical_items(text: &str) -> (r: Vec<Option<Vec<Vec<(String, Option<String>)>>>>)
    ensures
        items_view(r) == ical_parse(text@),
{
    let parser = ical::IcalParser::new(std::io::BufReader::new(text.as_bytes()));
    parser
        .map(|item| {
            item.ok().map(|cal| {
                cal.events
                    .into_iter()
                    .map(|ev| ev.properties.into_iter().map(|p| (p.name, p.value)).collect())
                    .collect()
            })
        })
        .collect()
}

/// The value of the first property called `name`; empty when that
/// property has no value or there is none.
pub open spec fn prop_value(props: Seq<PropText>, name: Seq<char>) -> Seq<char>
    decreases props.len(),
{
    if props.len() == 0 {
        seq![]
    } else if props[0].0 == name {
        match props[0].1 {
            Some(v) => v,
            None => seq![],
        }
    } else {
        prop_value(props.drop_first(), name)
    }
}

/// (UID, SUMMARY) of every event of every calendar the parser read from a
/// block, in order; items it could not read contribute nothing.
pub open spec fn block_events(items: Seq<Option<Seq<Seq<PropText>>>>) -> Seq<(Seq<char>, Seq<char>)>
    decreases items.len(),
{
    if items.len() == 0 {
        seq![]
    } else {
        block_events(items.drop_last()) + match items.last() {
            Some(evs) => evs.map_values(
                |e: Seq<PropText>| (prop_value(e, "UID"@), prop_value(e, "SUMMARY"@)),
            ),
            None => seq![],
        }
    }
}

/// The `BEGIN:VCALENDAR` ... `END:VCALENDAR` blocks of a text from index
/// `from` on, in order; a block without its end stops the search.
pub open spec fn report_blocks(xml: Seq<char>, from: int) -> Seq<Seq<char>>
    decreases xml.len() + 1 - from,
{
    if from < 0 {
        seq![]
    } else {
        match find_from(xml, "BEGIN:VCALENDAR"@, from) {
            None => seq![],
            Some(a) => match find_from(xml, "END:VCALENDAR"@, a) {
                None => seq![],
                Some(e) => {
                    proof {
                        lemma_find_from(xml, "BEGIN:VCALENDAR"@, from);
                        lemma_find_from(xml, "END:VCALENDAR"@, a);
                        reveal_strlit("END:VCALENDAR");
                    }
                    seq![xml.subrange(a, e + 13)] + report_blocks(xml, e + 13)
                },
            },
        }
    }
}

/// Events of all blocks, in order.
pub open spec fn report_events(blocks: Seq<Seq<char>>) -> Seq<(Seq<char>, Seq<char>)>
    decreases blocks.len(),
{
    if blocks.len() == 0 {
        seq![]
    } else {
        report_events(blocks.drop_last()) + block_events(ical_parse(blocks.last()))
    }
}

pub open spec fn infos_view(v: Vec<CalDavEventInfo>) -> Seq<(Seq<char>, Seq<char>)> {
    v@.map_values(|e: CalDavEventInfo| (e.uid@, e.summary@))
}

fn prop_value_exec(props: &Vec<(String, Option<String>)>, name: &str) -> (r: String)
    ensures
        r@ == prop_value(props_view(*props), name@),
{
    let ghost pv = props_view(*props);
    let mut i: usize = 0;
    proof { assert(pv.skip(0) =~= pv); }
    while i < props.len()
        invariant
            i <= props.len(),
            pv == props_view(*props),
            prop_value(pv, name@) == prop_value(pv.skip(i as int), name@),
        decreases props.len() - i,
    {
        let ghost rest = pv.skip(i as int);
        proof {
            assert(rest[0] == pv[i as int]);
            assert(rest.drop_first() =~= pv.skip(i + 1));
        }
        if crate::types::vec_eq_str(&chars_of(props[i].0.as_str()), name) {
            return match &props[i].1 {
                Some(v) => v.clone(),
                None => String::new(),
            };
        }
        i = i + 1;
    }
    proof { assert(pv.skip(props.len() as int) =~= Seq::<PropText>::empty()); }
    String::new()
}

fn block_events_exec(block: &str, out: &mut Vec<CalDavEventInfo>)
    ensures
        infos_view(*final(out)) == infos_view(*old(out)) + block_events(ical_parse(block@)),
{
    let items = parse_ical_items(block);
    let ghost iv = items_view(items);
    let ghost start = infos_view(*out);
    let mut i: usize = 0;
    while i < items.len()
        invariant
            i <= items.len(),
            iv == items_view(items),
            iv == ical_parse(block@),
            infos_view(*out) == start + block_events(iv.take(i as int)),
        decreases items.len() - i,
    {
        let ghost before = infos_view(*out);
        proof {
            assert(iv.take(i + 1).drop_last() =~= iv.take(i as int));
            assert(iv.take(i + 1).last() == iv[i as int]);
        }
        match &items[i] {
            Some(evs) => {
                let ghost ev = events_view(*evs);
                let mut j: usize = 0;
                while j < evs.len()
                    invariant
                        j <= evs.len(),
                        ev == events_view(*evs),
                        infos_view(*out) == before + ev.take(j as int).map_values(
                            |e: Seq<PropText>| (prop_value(e, "UID"@), prop_value(e, "SUMMARY"@)),
                        ),
                    decreases evs.len() - j,
                {
                    let uid = prop_value_exec(&evs[j], "UID");
                    let summary = prop_value_exec(&evs[j], "SUMMARY");
                    let ghost o = infos_view(*out);
                    out.push(CalDavEventInfo { uid, summary });
                    proof {
                        assert(ev[j as int] == props_view(evs@[j as int]));
                        assert(infos_view(*out) =~= o.push((uid@, summary@)));
                        assert(ev.take(j + 1) =~= ev.take(j as int).push(ev[j as int]));
                        assert(infos_view(*out) =~= before + ev.take(j + 1).map_values(
                            |e: Seq<PropText>| (prop_value(e, "UID"@), prop_value(e, "SUMMARY"@)),
                        ));
                    }
                    j = j + 1;
                }
                proof {
                    assert(ev.take(evs.len() as int) =~= ev);
                    assert(iv[i as int] == Some(ev));
                }
            },
            None => {
                proof {
                    assert(before + Seq::<(Seq<char>, Seq<char>)>::empty() =~= before);
                }
            },
        }
        i = i + 1;
    }
    proof { assert(iv.take(items.len() as int) =~= iv); }
}

/// The (UID, SUMMARY) of every event in a calendar `REPORT` response: each
/// `BEGIN:VCALENDAR` ... `END:VCALENDAR` block is read with the iCalendar
/// parser. Reading never fails.
pub fn parse_report_response(xml: &str) -> (r: Result<Vec<CalDavEventInfo>, CalendarError>)
    ensures
        r matches Ok(v) && infos_view(v) == report_events(report_blocks(xml@, 0)),
{
    let xv = chars_of(xml);
    let begin = lit("BEGIN:VCALENDAR");
    let endm = lit("END:VCALENDAR");
    let mut events: Vec<CalDavEventInfo> = Vec::new();
    let mut from: usize = 0;
    let ghost all = report_blocks(xml@, 0);
    let ghost mut done: Seq<Seq<char>> = seq![];
    while from <= xv.len()
        invariant
            from <= xv.len() + 1,
            xv@ == xml@,
            begin@ == "BEGIN:VCALENDAR"@,
            endm@ == "END:VCALENDAR"@,
            all == done + report_blocks(xml@, from as int),
            infos_view(events) == report_events(done),
        ensures
            all == done + report_blocks(xml@, from as int),
            infos_view(events) == report_events(done),
            report_blocks(xml@, from as int) == Seq::<Seq<char>>::empty(),
        decreases xv.len() + 1 - from,
    {
        let a = match find_from_exec(&xv, &begin, from) {
            Some(a) => a,
            None => break,
        };
        proof { lemma_find_from(xv@, begin@, from as int); }
        let e = match find_from_exec(&xv, &endm, a) {
            Some(e) => e,
            None => break,
        };
        proof {
            lemma_find_from(xv@, endm@, a as int);
            reveal_strlit("END:VCALENDAR");
        }
        proof {
            assert(endm@.len() == 13);
        }
        let end = e + endm.len();
        let block = slice_vec(&xv, a, end);
        let bs = string_of(&block);
        proof {
            assert(report_blocks(xml@, from as int) == seq![block@] + report_blocks(xml@, end as int));
            assert(done.push(block@).drop_last() =~= done);
        }
        block_events_exec(bs.as_str(), &mut events);
        proof {
            assert(done + (seq![block@] + report_blocks(xml@, end as int)) =~= done.push(block@)
                + report_blocks(xml@, end as int));
            done = done.push(block@);
        }
        from = end;
    }
    proof {
        assert(done + Seq::<Seq<char>>::empty() =~= done);
    }
    Ok(events)
}

/// A `PROPFIND` connection test succeeded (any 2xx status).
pub open spec fn propfind_ok_spec(status: u16) -> bool {
    (200 <= status <= 299) || status == 207
}

/// An event upload succeeded (2xx, including 201 and 204).
pub open spec fn put_ok_spec(status: u16) -> bool {
    (200 <= status <= 299) || status == 201 || status == 204
}

/// An event deletion succeeded: 2xx, or 404 (already gone).
pub open spec fn delete_ok_spec(status: u16) -> bool {
    (200 <= status <= 299) || status == 204 || status == 404
}

/// A `REPORT` listing succeeded (any 2xx status).
pub open spec fn report_ok_spec(status: u16) -> bool {
    (200 <= status <= 299) || status == 207
}

/// Outcome of a `PROPFIND` connection test with the server's status.
pub fn propfind_result(status: u16) -> (r: Result<(), CalendarError>)
    ensures
        r is Ok <==> propfind_ok_spec(status),
        r matches Err(e) ==> e == CalendarError::Status(status),
{
    if (200 <= status && status <= 299) || status == 207 {
        Ok(())
    } else {
        Err(CalendarError::Status(status))
    }
}

/// Outcome of an event upload: the event's UID on success.
pub fn put_result(status: u16, uid: String) -> (r: Result<String, CalendarError>)
    ensures
        r is Ok <==> put_ok_spec(status),
        r matches Ok(u) ==> u == uid,
        r matches Err(e) ==> e == CalendarError::Status(status),
{
    if (200 <= status && status <= 299) || status == 201 || status == 204 {
        Ok(uid)
    } else {
        Err(CalendarError::Status(status))
    }
}

/// Outcome of an event deletion.
pub fn delete_result(status: u16) -> (r: Result<(), CalendarError>)
    ensures
        r is Ok <==> delete_ok_spec(status),
        r matches Err(e) ==> e == CalendarError::Status(status),
{
    if (200 <= status && status <= 299) || status == 204 || status == 404 {
        Ok(())
    } else {
        Err(CalendarError::Status(status))
    }
}

/// Outcome of a `REPORT` listing: the listed events on success.
pub fn report_result(status: u16, body: &str) -> (r: Result<Vec<CalDavEventInfo>, CalendarError>)
    ensures
        r is Ok <==> report_ok_spec(status),
        r matches Ok(v) ==> infos_view(v) == report_events(report_blocks(body@, 0)),
        r matches Err(e) ==> e == CalendarError::Status(status),
{
    if (200 <= status && status <= 299) || status == 207 {
        parse_report_response(body)
    } else {
        Err(CalendarError::Status(status))
    }
}

// ---------------------------------------------------------------------------
// Requests to the server

/// An HTTP request to the CalDAV server, as the client sends it (with
/// basic authentication).
#[derive(Debug)]
pub struct CalDavRequest {
    pub method: String,
    pub url: String,
    pub username: String,
    pub password: String,
    pub depth: Option<String>,
    pub content_type: Option<String>,
    pub body: Option<String>,
}

/// Body of the connection test: a `PROPFIND` for the display name.
pub const PROPFIND_BODY: &'static str = "<?xml version=\"1.0\"?><d:propfind xmlns:d=\"DAV:\"><d:prop><d:displayname/></d:prop></d:propfind>";

/// Body of the event listing: a calendar query for every event.
pub const REPORT_BODY: &'static str = "<?xml version=\"1.0\"?>\n<c:calendar-query xmlns:d=\"DAV:\" xmlns:c=\"urn:ietf:params:xml:ns:caldav\">\n  <d:prop>\n    <d:getetag/>\n    <c:calendar-data/>\n  </d:prop>\n  <c:filter>\n    <c:comp-filter name=\"VCALENDAR\">\n      <c:comp-filter name=\"VEVENT\"/>\n    </c:comp-filter>\n  </c:filter>\n</c:calendar-query>";

/// The XML content type of the query requests.
pub open spec fn xml_type() -> Seq<char> {
    "application/xml; charset=utf-8"@
}

/// The connection test: `PROPFIND` on the calendar URL at depth 0.
pub fn propfind_request(cfg: &CalendarConfig) -> (r: CalDavRequest)
    ensures
        r.method@ == "PROPFIND"@,
        r.url@ == cfg.url@,
        r.username@ == cfg.username@,
        r.password@ == cfg.password@,
        opt_view(r.depth) == Some("0"@),
        opt_view(r.content_type) == Some(xml_type()),
        opt_view(r.body) == Some(PROPFIND_BODY@),
{
    CalDavRequest {
        method: string_from("PROPFIND"),
        url: cfg.url.clone(),
        username: cfg.username.clone(),
        password: cfg.password.clone(),
        depth: Some(string_from("0")),
        content_type: Some(string_from("application/xml; charset=utf-8")),
        body: Some(string_from(PROPFIND_BODY)),
    }
}

/// The upload of a note's event: `PUT` of its iCalendar text (stamped now)
/// at its event URL. Also returns the event UID.
pub fn put_request(cfg: &CalendarConfig, note: &Note) -> (r: (CalDavRequest, String))
    requires
        utc_ok(
            match note.time {
                Some(t) => t as int,
                None => note.created as int,
            },
        ),
    ensures
        r.1@ == uid_spec(note@),
        r.0.method@ == "PUT"@,
        r.0.url@ == event_url_spec(cfg.url@, uid_spec(note@)),
        r.0.username@ == cfg.username@,
        r.0.password@ == cfg.password@,
        r.0.depth is None,
        opt_view(r.0.content_type) == Some("text/calendar; charset=utf-8"@),
        exists|now: i64|
            utc_ok(now as int) && opt_view(r.0.body) == Some(
                ical_spec(note@, uid_spec(note@), compact_utc_text(now)),
            ),
{
    let uid = caldav_uid(note);
    let ical = build_ical(note, uid.as_str());
    let url = event_url(cfg.url.as_str(), uid.as_str());
    (
        CalDavRequest {
            method: string_from("PUT"),
            url,
            username: cfg.username.clone(),
            password: cfg.password.clone(),
            depth: None,
            content_type: Some(string_from("text/calendar; charset=utf-8")),
            body: Some(ical),
        },
        uid,
    )
}

/// The removal of an event: `DELETE` at its event URL.
pub fn delete_request(cfg: &CalendarConfig, uid: &str) -> (r: CalDavRequest)
    ensures
        r.method@ == "DELETE"@,
        r.url@ == event_url_spec(cfg.url@, uid@),
        r.username@ == cfg.username@,
        r.password@ == cfg.password@,
        r.depth is None,
        r.content_type is None,
        r.body is None,
{
    CalDavRequest {
        method: string_from("DELETE"),
        url: event_url(cfg.url.as_str(), uid),
        username: cfg.username.clone(),
        password: cfg.password.clone(),
        depth: None,
        content_type: None,
        body: None,
    }
}

/// The event listing: `REPORT` on the calendar URL at depth 1.
pub fn report_request(cfg: &CalendarConfig) -> (r: CalDavRequest)
    ensures
        r.method@ == "REPORT"@,
        r.url@ == cfg.url@,
        r.username@ == cfg.username@,
        r.password@ == cfg.password@,
        opt_view(r.depth) == Some("1"@),
        opt_view(r.content_type) == Some(xml_type()),
        opt_view(r.body) == Some(REPORT_BODY@),
{
    CalDavRequest {
        method: string_from("REPORT"),
        url: cfg.url.clone(),
        username: cfg.username.clone(),
        password: cfg.password.clone(),
        depth: Some(string_from("1")),
        content_type: Some(string_from("application/xml; charset=utf-8")),
        body: Some(string_from(REPORT_BODY)),
    }
}

} // verus!
