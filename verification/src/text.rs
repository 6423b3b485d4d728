//! Character-level text operations used by the parsers and formatters.
//!
//! Strings are modelled by their character sequences (`Seq<char>`); the
//! executable helpers work on `Vec<char>` and convert at the edges.

use vstd::prelude::*;

verus! {

/// `String::push` appends one character.
pub assume_specification[ String::push ](s: &mut String, ch: char)
    ensures
        final(s)@ == old(s)@.push(ch),
;

/// The characters of `s`, in order.
pub fn chars_of(s: &str) -> (v: Vec<char>)
    ensures
        v@ == s@,
{
    let mut v: Vec<char> = Vec::new();
    for c in it: s.chars()
        invariant
            v@ == it.seq().take(it.index() as int),
            it.seq() == s@,
    {
        v.push(c);
    }
    v
}

/// A `String` holding exactly the characters of `v`.
pub fn string_of(v: &Vec<char>) -> (s: String)
    ensures
        s@ == v@,
{
    let mut s = String::new();
    let mut i: usize = 0;
    while i < v.len()
        invariant
            i <= v.len(),
            s@ == v@.take(i as int),
        decreases v.len() - i,
    {
        s.push(v[i]);
        proof { assert(v@.take(i + 1) == v@.take(i as int).push(v@[i as int])); }
        i = i + 1;
    }
    proof { assert(v@.take(v.len() as int) == v@); }
    s
}

/// A `String` holding the characters of `s`.
pub fn string_from(s: &str) -> (r: String)
    ensures
        r@ == s@,
{
    let v = chars_of(s);
    string_of(&v)
}

/// Appends the characters of `t` to `v`.
pub fn push_all(v: &mut Vec<char>, t: &Vec<char>)
    ensures
        final(v)@ == old(v)@ + t@,
{
    let ghost v0 = v@;
    let mut i: usize = 0;
    while i < t.len()
        invariant
            i <= t.len(),
            v@ == v0 + t@.take(i as int),
        decreases t.len() - i,
    {
        v.push(t[i]);
        proof { assert(t@.take(i + 1) == t@.take(i as int).push(t@[i as int])); }
        i = i + 1;
    }
    proof { assert(t@.take(t.len() as int) == t@); }
}

/// Appends the characters of `t` to `v`.
pub fn push_str(v: &mut Vec<char>, t: &str)
    ensures
        final(v)@ == old(v)@ + t@,
{
    let tv = chars_of(t);
    push_all(v, &tv);
}

// ---------------------------------------------------------------------------
// Whitespace

/// Unicode `White_Space`: the characters `char::is_whitespace` accepts.
pub open spec fn is_ws(c: char) -> bool {
    ||| ('\u{9}' <= c && c <= '\u{d}')
    ||| c == ' '
    ||| c == '\u{85}'
    ||| c == '\u{a0}'
    ||| c == '\u{1680}'
    ||| ('\u{2000}' <= c && c <= '\u{200a}')
    ||| c == '\u{2028}'
    ||| c == '\u{2029}'
    ||| c == '\u{202f}'
    ||| c == '\u{205f}'
    ||| c == '\u{3000}'
}

pub fn is_whitespace(c: char) -> (b: bool)
    ensures
        b == is_ws(c),
{
    ('\u{9}' <= c && c <= '\u{d}') || c == ' ' || c == '\u{85}' || c == '\u{a0}' || c
        == '\u{1680}' || ('\u{2000}' <= c && c <= '\u{200a}') || c == '\u{2028}' || c
        == '\u{2029}' || c == '\u{202f}' || c == '\u{205f}' || c == '\u{3000}'
}

/// Number of leading characters of `s` that satisfy `p`.
pub open spec fn lead_count(s: Seq<char>, p: spec_fn(char) -> bool) -> nat
    decreases s.len(),
{
    if s.len() > 0 && p(s[0]) {
        1 + lead_count(s.drop_first(), p)
    } else {
        0
    }
}

/// Number of trailing characters of `s` that satisfy `p`.
pub open spec fn trail_count(s: Seq<char>, p: spec_fn(char) -> bool) -> nat
    decreases s.len(),
{
    if s.len() > 0 && p(s.last()) {
        1 + trail_count(s.drop_last(), p)
    } else {
        0
    }
}

pub proof fn lemma_lead_count(s: Seq<char>, p: spec_fn(char) -> bool)
    ensures
        lead_count(s, p) <= s.len(),
        forall|i: int| 0 <= i < lead_count(s, p) ==> p(#[trigger] s[i]),
        lead_count(s, p) < s.len() ==> !p(s[lead_count(s, p) as int]),
    decreases s.len(),
{
    if s.len() > 0 && p(s[0]) {
        lemma_lead_count(s.drop_first(), p);
        assert forall|i: int| 0 <= i < lead_count(s, p) implies p(#[trigger] s[i]) by {
            if i > 0 {
                assert(s[i] == s.drop_first()[i - 1]);
            }
        }
    }
}

pub proof fn lemma_trail_count(s: Seq<char>, p: spec_fn(char) -> bool)
    ensures
        trail_count(s, p) <= s.len(),
        forall|i: int| s.len() - trail_count(s, p) <= i < s.len() ==> p(#[trigger] s[i]),
        trail_count(s, p) < s.len() ==> !p(s[s.len() - trail_count(s, p) - 1]),
    decreases s.len(),
{
    if s.len() > 0 && p(s.last()) {
        lemma_trail_count(s.drop_last(), p);
        assert forall|i: int| s.len() - trail_count(s, p) <= i < s.len() implies p(
            #[trigger] s[i],
        ) by {
            if i < s.len() - 1 {
                assert(s[i] == s.drop_last()[i]);
            }
        }
    }
}

/// A count `k` is the leading count when the first `k` characters satisfy
/// `p` and the next one (if any) does not.
pub proof fn lemma_lead_count_unique(s: Seq<char>, p: spec_fn(char) -> bool, k: int)
    requires
        0 <= k <= s.len(),
        forall|i: int| 0 <= i < k ==> p(#[trigger] s[i]),
        k < s.len() ==> !p(s[k]),
    ensures
        lead_count(s, p) == k,
    decreases s.len(),
{
    if k > 0 {
        assert(p(s[0]));
        assert forall|i: int| 0 <= i < k - 1 implies p(#[trigger] s.drop_first()[i]) by {
            assert(s.drop_first()[i] == s[i + 1]);
        }
        if k - 1 < s.len() - 1 {
            assert(s.drop_first()[k - 1] == s[k]);
        }
        lemma_lead_count_unique(s.drop_first(), p, k - 1);
    }
}

pub proof fn lemma_trail_count_unique(s: Seq<char>, p: spec_fn(char) -> bool, k: int)
    requires
        0 <= k <= s.len(),
        forall|i: int| s.len() - k <= i < s.len() ==> p(#[trigger] s[i]),
        k < s.len() ==> !p(s[s.len() - k - 1]),
    ensures
        trail_count(s, p) == k,
    decreases s.len(),
{
    if k > 0 {
        assert(p(s[s.len() - 1]));
        assert forall|i: int| s.drop_last().len() - (k - 1) <= i < s.drop_last().len() implies p(
            #[trigger] s.drop_last()[i],
        ) by {
            assert(s.drop_last()[i] == s[i]);
        }
        if k - 1 < s.len() - 1 {
            assert(s.drop_last()[s.drop_last().len() - (k - 1) - 1] == s[s.len() - k - 1]);
        }
        lemma_trail_count_unique(s.drop_last(), p, k - 1);
    }
}

/// `s` with every leading and trailing character satisfying `p` removed
/// (`str::trim_matches` with a predicate).
pub open spec fn trim_by(s: Seq<char>, p: spec_fn(char) -> bool) -> Seq<char> {
    let a = lead_count(s, p);
    let rest = s.subrange(a as int, s.len() as int);
    rest.subrange(0, rest.len() - trail_count(rest, p))
}

pub open spec fn ws_pred() -> spec_fn(char) -> bool {
    |c: char| is_ws(c)
}

/// `str::trim`.
pub open spec fn trim(s: Seq<char>) -> Seq<char> {
    trim_by(s, ws_pred())
}

/// `str::trim_start`.
pub open spec fn trim_start(s: Seq<char>) -> Seq<char> {
    s.subrange(lead_count(s, ws_pred()) as int, s.len() as int)
}

/// Index of the first character of `v` from `start` on that does not satisfy
/// whitespace, or `v.len()`.
fn skip_ws_from(v: &Vec<char>, start: usize) -> (k: usize)
    requires
        start <= v.len(),
    ensures
        start <= k <= v.len(),
        forall|i: int| start <= i < k ==> is_ws(#[trigger] v@[i]),
        k < v.len() ==> !is_ws(v@[k as int]),
{
    let mut k = start;
    while k < v.len() && is_whitespace(v[k])
        invariant
            start <= k <= v.len(),
            forall|i: int| start <= i < k ==> is_ws(#[trigger] v@[i]),
        decreases v.len() - k,
    {
        k = k + 1;
    }
    k
}

/// `str::trim` on a character vector.
pub fn trim_vec(v: &Vec<char>) -> (r: Vec<char>)
    ensures
        r@ == trim(v@),
{
    let a = skip_ws_from(v, 0);
    let mut b = v.len();
    while b > a && is_whitespace(v[b - 1])
        invariant
            a <= b <= v.len(),
            forall|i: int| b <= i < v.len() ==> is_ws(#[trigger] v@[i]),
        decreases b,
    {
        b = b - 1;
    }
    let mut r: Vec<char> = Vec::new();
    let mut i = a;
    while i < b
        invariant
            a <= i <= b,
            b <= v.len(),
            r@ == v@.subrange(a as int, i as int),
        decreases b - i,
    {
        r.push(v[i]);
        proof { assert(v@.subrange(a as int, i + 1) == v@.subrange(a as int, i as int).push(v@[i as int])); }
        i = i + 1;
    }
    proof {
        let s = v@;
        let p = ws_pred();
        lemma_lead_count_unique(s, p, a as int);
        let rest = s.subrange(a as int, s.len() as int);
        let k = v.len() - b;
        assert forall|i: int| rest.len() - k <= i < rest.len() implies p(#[trigger] rest[i]) by {
            assert(rest[i] == s[i + a]);
        }
        if k < rest.len() {
            assert(rest[rest.len() - k - 1] == s[b - 1]);
        }
        lemma_trail_count_unique(rest, p, k as int);
        assert(r@ == rest.subrange(0, rest.len() - k));
    }
    r
}

/// `str::trim_start` on a character vector.
pub fn trim_start_vec(v: &Vec<char>) -> (r: Vec<char>)
    ensures
        r@ == trim_start(v@),
{
    let a = skip_ws_from(v, 0);
    proof { lemma_lead_count_unique(v@, ws_pred(), a as int); }
    slice_vec(v, a, v.len())
}

/// The characters `v[a..b]`.
pub fn slice_vec(v: &Vec<char>, a: usize, b: usize) -> (r: Vec<char>)
    requires
        a <= b <= v.len(),
    ensures
        r@ == v@.subrange(a as int, b as int),
{
    let mut r: Vec<char> = Vec::new();
    let mut i = a;
    while i < b
        invariant
            a <= i <= b,
            b <= v.len(),
            r@ == v@.subrange(a as int, i as int),
        decreases b - i,
    {
        r.push(v[i]);
        proof { assert(v@.subrange(a as int, i + 1) == v@.subrange(a as int, i as int).push(v@[i as int])); }
        i = i + 1;
    }
    r
}

// ---------------------------------------------------------------------------
// Prefixes, suffixes, substrings

/// `p` occurs in `s` starting at index `i`.
pub open spec fn occurs_at(s: Seq<char>, p: Seq<char>, i: int) -> bool {
    0 <= i && i + p.len() <= s.len() && s.subrange(i, i + p.len()) == p
}

pub open spec fn starts_with(s: Seq<char>, p: Seq<char>) -> bool {
    occurs_at(s, p, 0)
}

pub open spec fn ends_with(s: Seq<char>, p: Seq<char>) -> bool {
    occurs_at(s, p, s.len() - p.len())
}

pub open spec fn contains(s: Seq<char>, p: Seq<char>) -> bool {
    exists|i: int| occurs_at(s, p, i)
}

/// Whether `p` occurs in `v` at index `i`.
pub fn occurs_at_exec(v: &Vec<char>, p: &Vec<char>, i: usize) -> (b: bool)
    ensures
        b == occurs_at(v@, p@, i as int),
{
    if i > v.len() || p.len() > v.len() - i {
        return false;
    }
    let mut j: usize = 0;
    while j < p.len()
        invariant
            i + p.len() <= v.len(),
            j <= p.len(),
            forall|k: int| 0 <= k < j ==> v@[i + k] == p@[k],
        decreases p.len() - j,
    {
        if v[i + j] != p[j] {
            proof {
                assert(v@.subrange(i as int, i + p.len())[j as int] != p@[j as int]);
            }
            return false;
        }
        j = j + 1;
    }
    proof { assert(v@.subrange(i as int, i + p.len()) == p@); }
    true
}

/// First index at or after `from` where `p` occurs in `s`.
pub open spec fn find_from(s: Seq<char>, p: Seq<char>, from: int) -> Option<int>
    decreases s.len() + 1 - from,
{
    if from < 0 || from + p.len() > s.len() {
        None
    } else if occurs_at(s, p, from) {
        Some(from)
    } else {
        find_from(s, p, from + 1)
    }
}

/// First index where `p` occurs in `s` (`str::find`).
pub open spec fn find(s: Seq<char>, p: Seq<char>) -> Option<int> {
    find_from(s, p, 0)
}

pub proof fn lemma_find_from(s: Seq<char>, p: Seq<char>, from: int)
    requires
        0 <= from,
    ensures
        find_from(s, p, from) matches Some(i) ==> from <= i && occurs_at(s, p, i) && forall|
            j: int,
        | from <= j < i ==> !occurs_at(s, p, j),
        find_from(s, p, from) is None ==> forall|j: int| from <= j ==> !occurs_at(s, p, j),
    decreases s.len() + 1 - from,
{
    if from + p.len() > s.len() {
    } else if occurs_at(s, p, from) {
    } else {
        lemma_find_from(s, p, from + 1);
    }
}

pub proof fn lemma_find(s: Seq<char>, p: Seq<char>)
    ensures
        find(s, p) matches Some(i) ==> occurs_at(s, p, i) && forall|j: int|
            0 <= j < i ==> !occurs_at(s, p, j),
        find(s, p) is None <==> !contains(s, p),
{
    lemma_find_from(s, p, 0);
    if find(s, p) is None {
        assert forall|j: int| !occurs_at(s, p, j) by {
            if j < 0 {
            }
        }
    }
}

/// `str::find` from index `from` on character vectors.
pub fn find_from_exec(v: &Vec<char>, p: &Vec<char>, from: usize) -> (r: Option<usize>)
    ensures
        r matches Some(i) ==> find_from(v@, p@, from as int) == Some(i as int),
        r is None ==> find_from(v@, p@, from as int) is None,
    decreases v.len() + 1 - from,
{
    if from > v.len() || p.len() > v.len() - from {
        None
    } else if occurs_at_exec(v, p, from) {
        Some(from)
    } else {
        proof {
            if from == v.len() {
                assert(v@.subrange(from as int, from as int) =~= p@);
            }
        }
        find_from_exec(v, p, from + 1)
    }
}

pub fn starts_with_exec(v: &Vec<char>, p: &str) -> (b: bool)
    ensures
        b == starts_with(v@, p@),
{
    let pv = chars_of(p);
    occurs_at_exec(v, &pv, 0)
}

pub fn ends_with_exec(v: &Vec<char>, p: &str) -> (b: bool)
    ensures
        b == ends_with(v@, p@),
{
    let pv = chars_of(p);
    if pv.len() > v.len() {
        false
    } else {
        occurs_at_exec(v, &pv, v.len() - pv.len())
    }
}

pub fn contains_exec(v: &Vec<char>, p: &str) -> (b: bool)
    ensures
        b == contains(v@, p@),
{
    let pv = chars_of(p);
    let r = find_from_exec(v, &pv, 0);
    proof { lemma_find(v@, p@); }
    r.is_some()
}

pub fn contains_vec(v: &Vec<char>, p: &Vec<char>) -> (b: bool)
    ensures
        b == contains(v@, p@),
{
    let r = find_from_exec(v, p, 0);
    proof { lemma_find(v@, p@); }
    r.is_some()
}

/// `str::replacen(pat, to, 1)`: the first occurrence of `p` replaced.
pub open spec fn replace_first(s: Seq<char>, p: Seq<char>, r: Seq<char>) -> Seq<char> {
    match find(s, p) {
        Some(i) => s.subrange(0, i) + r + s.subrange(i + p.len(), s.len() as int),
        None => s,
    }
}

pub fn replace_first_exec(v: &Vec<char>, p: &Vec<char>, r: &Vec<char>) -> (out: Vec<char>)
    ensures
        out@ == replace_first(v@, p@, r@),
{
    match find_from_exec(v, p, 0) {
        Some(i) => {
            proof {
                lemma_find(v@, p@);
                assert(occurs_at(v@, p@, i as int));
                assert(i + p@.len() <= v@.len());
            }
            let mut out = slice_vec(v, 0, i);
            push_all(&mut out, r);
            let tail = slice_vec(v, i + p.len(), v.len());
            push_all(&mut out, &tail);
            out
        },
        None => v.clone(),
    }
}

/// `str::replace(c, r)` for a single character pattern.
pub open spec fn replace_char(s: Seq<char>, c: char, r: Seq<char>) -> Seq<char>
    decreases s.len(),
{
    if s.len() == 0 {
        s
    } else {
        replace_char(s.drop_last(), c, r) + (if s.last() == c {
            r
        } else {
            seq![s.last()]
        })
    }
}

pub fn replace_char_exec(v: &Vec<char>, c: char, r: &str) -> (out: Vec<char>)
    ensures
        out@ == replace_char(v@, c, r@),
{
    let rv = chars_of(r);
    let mut out: Vec<char> = Vec::new();
    let mut i: usize = 0;
    while i < v.len()
        invariant
            i <= v.len(),
            rv@ == r@,
            out@ == replace_char(v@.take(i as int), c, r@),
        decreases v.len() - i,
    {
        let ghost prev = out@;
        if v[i] == c {
            push_all(&mut out, &rv);
        } else {
            out.push(v[i]);
        }
        proof {
            let t = v@.take(i + 1);
            assert(t.drop_last() == v@.take(i as int));
            assert(t.last() == v@[i as int]);
        }
        i = i + 1;
    }
    proof { assert(v@.take(v.len() as int) == v@); }
    out
}

/// Splits `s` at every occurrence of `c` (`str::split` with a char pattern).
pub open spec fn split_char(s: Seq<char>, c: char) -> Seq<Seq<char>>
    decreases s.len(),
{
    if s.len() == 0 {
        seq![seq![]]
    } else {
        let prev = split_char(s.drop_last(), c);
        if s.last() == c {
            prev.push(seq![])
        } else {
            prev.update(prev.len() - 1, prev.last().push(s.last()))
        }
    }
}

pub proof fn lemma_split_char_nonempty(s: Seq<char>, c: char)
    ensures
        split_char(s, c).len() >= 1,
    decreases s.len(),
{
    if s.len() > 0 {
        lemma_split_char_nonempty(s.drop_last(), c);
    }
}

pub fn split_char_exec(v: &Vec<char>, c: char) -> (parts: Vec<Vec<char>>)
    ensures
        parts@.len() == split_char(v@, c).len(),
        forall|k: int| 0 <= k < parts@.len() ==> #[trigger] parts@[k]@ == split_char(v@, c)[k],
{
    let mut done: Vec<Vec<char>> = Vec::new();
    let mut cur: Vec<char> = Vec::new();
    let mut i: usize = 0;
    while i < v.len()
        invariant
            i <= v.len(),
            done@.len() + 1 == split_char(v@.take(i as int), c).len(),
            forall|k: int|
                0 <= k < done@.len() ==> #[trigger] done@[k]@ == split_char(v@.take(i as int), c)[k],
            cur@ == split_char(v@.take(i as int), c).last(),
        decreases v.len() - i,
    {
        proof {
            let t = v@.take(i + 1);
            assert(t.drop_last() == v@.take(i as int));
            assert(t.last() == v@[i as int]);
            lemma_split_char_nonempty(v@.take(i as int), c);
        }
        if v[i] == c {
            let finished = cur;
            done.push(finished);
            cur = Vec::new();
        } else {
            cur.push(v[i]);
        }
        i = i + 1;
    }
    proof { assert(v@.take(v.len() as int) == v@); }
    done.push(cur);
    done
}

// ---------------------------------------------------------------------------
// Decimal numbers

pub open spec fn is_digit(c: char) -> bool {
    '0' <= c && c <= '9'
}

pub open spec fn digit_val(c: char) -> nat {
    (c as int - '0' as int) as nat
}

/// Value of a sequence of decimal digits.
pub open spec fn digits_val(s: Seq<char>) -> nat
    decreases s.len(),
{
    if s.len() == 0 {
        0
    } else {
        digits_val(s.drop_last()) * 10 + digit_val(s.last())
    }
}

pub open spec fn all_digits(s: Seq<char>) -> bool {
    forall|i: int| 0 <= i < s.len() ==> is_digit(#[trigger] s[i])
}

/// The unsigned magnitude text of an integer literal: an optional `+`
/// followed by at least one ASCII digit.
pub open spec fn unsigned_digits(s: Seq<char>) -> Option<Seq<char>> {
    let body = if s.len() > 0 && s[0] == '+' {
        s.drop_first()
    } else {
        s
    };
    if body.len() > 0 && all_digits(body) {
        Some(body)
    } else {
        None
    }
}

/// `u32::from_str`: `Some(n)` for an optional `+` and decimal digits whose
/// value fits in `u32`.
pub open spec fn parse_u32_spec(s: Seq<char>) -> Option<u32> {
    match unsigned_digits(s) {
        Some(d) => if digits_val(d) <= u32::MAX {
            Some(digits_val(d) as u32)
        } else {
            None
        },
        None => None,
    }
}

/// `i64::from_str` restricted to the non-negative literals these parsers
/// meet: an optional `+`, then digits; `-` signs are handled too.
pub open spec fn parse_i64_spec(s: Seq<char>) -> Option<i64> {
    if s.len() > 0 && s[0] == '-' {
        let body = s.drop_first();
        if body.len() > 0 && all_digits(body) && digits_val(body) <= i64::MAX + 1 {
            Some((-(digits_val(body) as int)) as i64)
        } else {
            None
        }
    } else {
        match unsigned_digits(s) {
            Some(d) => if digits_val(d) <= i64::MAX {
                Some(digits_val(d) as i64)
            } else {
                None
            },
            None => None,
        }
    }
}

proof fn lemma_digits_val_mono(s: Seq<char>, i: int)
    requires
        0 <= i <= s.len(),
        all_digits(s),
    ensures
        digits_val(s.take(i)) <= digits_val(s),
    decreases s.len() - i,
{
    if i < s.len() {
        lemma_digits_val_mono(s, i + 1);
        assert(s.take(i + 1).drop_last() == s.take(i));
        assert(digits_val(s.take(i + 1)) == digits_val(s.take(i)) * 10 + digit_val(s[i]));
    } else {
        assert(s.take(i) == s);
    }
}

/// Value of the digit run `v[a..b]`, saturated above `cap`: returns `None`
/// when the value exceeds `cap`.
fn digits_capped(v: &Vec<char>, a: usize, b: usize, cap: u64) -> (r: Option<u64>)
    requires
        a <= b <= v.len(),
        all_digits(v@.subrange(a as int, b as int)),
        cap >= 9,
    ensures
        r matches Some(n) ==> n == digits_val(v@.subrange(a as int, b as int)) && n <= cap,
        r is None ==> digits_val(v@.subrange(a as int, b as int)) > cap,
{
    let ghost s = v@.subrange(a as int, b as int);
    let mut acc: u64 = 0;
    let mut i = a;
    while i < b
        invariant
            a <= i <= b,
            b <= v.len(),
            s == v@.subrange(a as int, b as int),
            all_digits(s),
            acc == digits_val(s.take(i - a)),
            acc <= cap,
            cap >= 9,
        decreases b - i,
    {
        proof {
            assert(s.take(i - a + 1).drop_last() == s.take(i - a));
            assert(s[i - a] == v@[i as int]);
            assert(is_digit(s[i - a]));
            assert(is_digit(v@[i as int]));
            assert('0' as u32 <= v@[i as int] as u32 <= '9' as u32);
        }
        let d = (v[i] as u32 - '0' as u32) as u64;
        if acc > (cap - d) / 10 {
            proof {
                assert(digits_val(s.take(i - a + 1)) == acc * 10 + d) by (nonlinear_arith)
                    requires
                        digits_val(s.take(i - a + 1)) == digits_val(s.take(i - a)) * 10 + d,
                        acc == digits_val(s.take(i - a)),
                ;
                assert(acc * 10 + d > cap) by (nonlinear_arith)
                    requires
                        acc > (cap - d) / 10,
                        d <= 9,
                        d <= cap,
                ;
                lemma_digits_val_mono(s, i - a + 1);
            }
            return None;
        }
        proof {
            assert(acc * 10 + d <= cap) by (nonlinear_arith)
                requires
                    acc <= (cap - d) / 10,
                    d <= cap,
            ;
        }
        acc = acc * 10 + d;
        i = i + 1;
    }
    proof { assert(s.take(b - a) == s); }
    Some(acc)
}

/// Whether every character of `v[a..b]` is an ASCII digit.
fn all_digits_exec(v: &Vec<char>, a: usize, b: usize) -> (r: bool)
    requires
        a <= b <= v.len(),
    ensures
        r == all_digits(v@.subrange(a as int, b as int)),
{
    let mut i = a;
    while i < b
        invariant
            a <= i <= b,
            b <= v.len(),
            forall|k: int| a <= k < i ==> is_digit(#[trigger] v@[k]),
        decreases b - i,
    {
        if !('0' <= v[i] && v[i] <= '9') {
            proof { assert(v@.subrange(a as int, b as int)[i - a] == v@[i as int]); }
            return false;
        }
        i = i + 1;
    }
    proof {
        assert forall|k: int| 0 <= k < b - a implies is_digit(
            #[trigger] v@.subrange(a as int, b as int)[k],
        ) by {
            assert(v@.subrange(a as int, b as int)[k] == v@[a + k]);
        }
    }
    true
}

/// Digit-only value of `s` if it has the shape `[+]digits` and the value
/// is at most `cap`.
fn parse_unsigned_capped(v: &Vec<char>, cap: u64) -> (r: Option<u64>)
    requires
        cap >= 9,
    ensures
        r matches Some(n) ==> unsigned_digits(v@) matches Some(d) && n == digits_val(d) && n
            <= cap,
        r is None ==> (unsigned_digits(v@) matches Some(d) ==> digits_val(d) > cap),
{
    let a: usize = if v.len() > 0 && v[0] == '+' {
        1
    } else {
        0
    };
    proof {
        if a == 1 {
            assert(v@.subrange(1, v@.len() as int) == v@.drop_first());
        } else {
            assert(v@.subrange(0, v@.len() as int) == v@);
        }
    }
    if a == v.len() || !all_digits_exec(v, a, v.len()) {
        return None;
    }
    digits_capped(v, a, v.len(), cap)
}

pub fn parse_u32(v: &Vec<char>) -> (r: Option<u32>)
    ensures
        r == parse_u32_spec(v@),
{
    match parse_unsigned_capped(v, u32::MAX as u64) {
        Some(n) => Some(n as u32),
        None => None,
    }
}

pub fn parse_i64(v: &Vec<char>) -> (r: Option<i64>)
    ensures
        r == parse_i64_spec(v@),
{
    if v.len() > 0 && v[0] == '-' {
        proof { assert(v@.subrange(1, v@.len() as int) == v@.drop_first()); }
        if v.len() == 1 || !all_digits_exec(v, 1, v.len()) {
            return None;
        }
        match digits_capped(v, 1, v.len(), 9223372036854775808u64) {
            Some(n) => {
                if n == 9223372036854775808u64 {
                    Some(i64::MIN)
                } else {
                    Some(-(n as i64))
                }
            },
            None => None,
        }
    } else {
        match parse_unsigned_capped(v, i64::MAX as u64) {
            Some(n) => Some(n as i64),
            None => None,
        }
    }
}

/// Decimal text of `n` (no sign, no leading zeros, `"0"` for zero).
pub open spec fn dec(n: nat) -> Seq<char>
    decreases n,
{
    if n < 10 {
        seq![(('0' as nat) + n) as char]
    } else {
        dec(n / 10).push((('0' as nat) + n % 10) as char)
    }
}

/// Decimal text of `n` (`u64`'s `Display`).
pub fn dec_u64(n: u64) -> (r: Vec<char>)
    ensures
        r@ == dec(n as nat),
    decreases n,
{
    if n < 10 {
        let c = char_of_digit(n as u32);
        let mut r: Vec<char> = Vec::new();
        r.push(c);
        r
    } else {
        let mut r = dec_u64(n / 10);
        let c = char_of_digit((n % 10) as u32);
        r.push(c);
        r
    }
}

/// The ASCII digit for `d < 10`.
pub fn char_of_digit(d: u32) -> (c: char)
    requires
        d < 10,
    ensures
        c == (('0' as nat) + d) as char,
{
    match d {
        0 => '0',
        1 => '1',
        2 => '2',
        3 => '3',
        4 => '4',
        5 => '5',
        6 => '6',
        7 => '7',
        8 => '8',
        _ => '9',
    }
}

/// Two-digit zero-padded decimal text (`{:02}`) of `n < 100`.
pub open spec fn dec2(n: nat) -> Seq<char> {
    seq![(('0' as nat) + n / 10) as char, (('0' as nat) + n % 10) as char]
}

pub fn dec2_exec(n: u32) -> (r: Vec<char>)
    requires
        n < 100,
    ensures
        r@ == dec2(n as nat),
{
    let mut r: Vec<char> = Vec::new();
    r.push(char_of_digit(n / 10));
    r.push(char_of_digit(n % 10));
    r
}

} // verus!
