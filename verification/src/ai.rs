//! Tier 3: asking a local LLM (Ollama) to classify a note. The HTTP call
//! and JSON decoding are made by the caller; the request text, the
//! framing of the reply and how the reply is merged with the earlier
//! tiers are decided here.

use crate::config::OllamaConfig;
use crate::text::{chars_of, push_all, push_str, slice_vec, string_of, trim, trim_vec};
use crate::types::{kind_from_str, ClassificationResult, NoteKind, NoteType};
use vstd::prelude::*;

verus! {

/// Client settings for a local Ollama server.
#[derive(Debug)]
pub struct OllamaClient {
    endpoint: String,
    model: String,
}

/// A decoded classification reply. `confidence` is in hundredths.
#[derive(Debug)]
pub struct LlmReply {
    pub note_type: Option<String>,
    pub body: Option<String>,
    pub confidence: Option<u32>,
}

impl OllamaClient {
    pub closed spec fn endpoint_spec(&self) -> Seq<char> {
        self.endpoint@
    }

    pub closed spec fn model_spec(&self) -> Seq<char> {
        self.model@
    }

    /// A client for the configured endpoint (trailing slashes dropped) and
    /// model.
    pub fn new(cfg: &OllamaConfig) -> (r: OllamaClient)
        ensures
            r.endpoint_spec() == crate::calendar::trim_end_char(cfg.endpoint@, '/'),
            r.model_spec() == cfg.model@,
    {
        let v = chars_of(cfg.endpoint.as_str());
        let base = crate::calendar::event_url_base(&v);
        OllamaClient { endpoint: string_of(&base), model: cfg.model.clone() }
    }

    /// The model name.
    pub fn model(&self) -> (r: &str)
        ensures
            r@ == self.model_spec(),
    {
        self.model.as_str()
    }

    /// The generate endpoint: `<endpoint>/api/generate`.
    pub fn generate_url(&self) -> (r: String)
        ensures
            r@ == self.endpoint_spec() + "/api/generate"@,
    {
        let mut v = chars_of(self.endpoint.as_str());
        push_str(&mut v, "/api/generate");
        string_of(&v)
    }
}

/// The classification prompt for a note.
pub open spec fn prompt_spec(text: Seq<char>) -> Seq<char> {
    "Classify the following note into exactly one type.\nValid types: todo, reminder, idea, note, question.\nNote: \""@
        + text
        + "\"\nRespond with JSON only, using this exact format: {\"type\": \"TYPENAME\", \"body\": \"cleaned text\", \"confidence\": 0.0}"@
}

pub fn prompt(text: &str) -> (r: String)
    ensures
        r@ == prompt_spec(text@),
{
    let mut v = chars_of(
        "Classify the following note into exactly one type.\nValid types: todo, reminder, idea, note, question.\nNote: \"",
    );
    push_str(&mut v, text);
    push_str(
        &mut v,
        "\"\nRespond with JSON only, using this exact format: {\"type\": \"TYPENAME\", \"body\": \"cleaned text\", \"confidence\": 0.0}",
    );
    string_of(&v)
}

/// Index of the last occurrence of `c` in `s`.
pub open spec fn rfind_char(s: Seq<char>, c: char) -> Option<int>
    decreases s.len(),
{
    if s.len() == 0 {
        None
    } else if s.last() == c {
        Some(s.len() - 1)
    } else {
        rfind_char(s.drop_last(), c)
    }
}

/// Index of the first occurrence of `c` in `s`.
pub open spec fn find_char(s: Seq<char>, c: char) -> Option<int>
    decreases s.len(),
{
    if s.len() == 0 {
        None
    } else if s[0] == c {
        Some(0)
    } else {
        match find_char(s.drop_first(), c) {
            Some(i) => Some(i + 1),
            None => None,
        }
    }
}

/// The JSON object in a reply that may be wrapped in prose: the text from
/// the first `{` to the last `}`, inclusive.
pub open spec fn json_span_spec(s: Seq<char>) -> Option<Seq<char>> {
    match (find_char(s, '{'), rfind_char(s, '}')) {
        (Some(a), Some(b)) => if b < a {
            None
        } else {
            Some(s.subrange(a, b + 1))
        },
        _ => None,
    }
}

proof fn lemma_find_char(s: Seq<char>, c: char, i: int)
    requires
        0 <= i <= s.len(),
        forall|k: int| 0 <= k < i ==> s[k] != c,
    ensures
        i < s.len() && s[i] == c ==> find_char(s, c) == Some(i),
        i == s.len() ==> find_char(s, c) is None,
    decreases i,
{
    if i > 0 {
        assert(s[0] != c);
        assert forall|k: int| 0 <= k < i - 1 implies s.drop_first()[k] != c by {
            assert(s.drop_first()[k] == s[k + 1]);
        }
        if i < s.len() {
            assert(s.drop_first()[i - 1] == s[i]);
        }
        lemma_find_char(s.drop_first(), c, i - 1);
    } else if s.len() == 0 {
    }
}

proof fn lemma_rfind_char(s: Seq<char>, c: char, j: int)
    requires
        0 <= j <= s.len(),
        forall|k: int| j <= k < s.len() ==> s[k] != c,
    ensures
        rfind_char(s, c) == rfind_char(s.take(j), c),
    decreases s.len() - j,
{
    if j < s.len() {
        assert(s.drop_last().take(j) =~= s.take(j));
        assert forall|k: int| j <= k < s.drop_last().len() implies s.drop_last()[k] != c by {
            assert(s.drop_last()[k] == s[k]);
        }
        lemma_rfind_char(s.drop_last(), c, j);
    } else {
        assert(s.take(j) =~= s);
    }
}

pub fn extract_json_span(s: &str) -> (r: Option<String>)
    ensures
        match r {
            Some(t) => json_span_spec(s@) == Some(t@),
            None => json_span_spec(s@) is None,
        },
{
    let v = chars_of(s);
    let mut a: usize = 0;
    while a < v.len() && v[a] != '{'
        invariant
            a <= v.len(),
            forall|k: int| 0 <= k < a ==> v@[k] != '{',
        decreases v.len() - a,
    {
        a = a + 1;
    }
    proof { lemma_find_char(v@, '{', a as int); }
    let mut b: usize = v.len();
    while b > 0 && v[b - 1] != '}'
        invariant
            b <= v.len(),
            forall|k: int| b <= k < v.len() ==> v@[k] != '}',
        decreases b,
    {
        b = b - 1;
    }
    proof {
        lemma_rfind_char(v@, '}', b as int);
        if b > 0 {
            assert(v@.take(b as int).last() == v@[b - 1]);
        } else {
            assert(v@.take(0).len() == 0);
        }
    }
    if a == v.len() || b == 0 {
        return None;
    }
    let end = b - 1;
    if end < a {
        return None;
    }
    let span = slice_vec(&v, a, end + 1);
    Some(string_of(&span))
}

/// What Tier 3 returns: the reply's type (parsed as a note type) or else
/// the fallback's; the reply's confidence capped at 100 (75 when absent);
/// the fallback's time and rule; and the reply's body only when it is
/// not blank and the earlier tiers left the body as the original text.
pub open spec fn merge_spec(
    fallback_type: NoteKind,
    fallback_body: Seq<char>,
    text: Seq<char>,
    reply_type: Option<Seq<char>>,
    reply_body: Option<Seq<char>>,
    reply_conf: Option<u32>,
) -> (NoteKind, Seq<char>, u32) {
    let kind = match reply_type {
        Some(t) => kind_from_str(t),
        None => fallback_type,
    };
    let c: u32 = match reply_conf {
        Some(c) => if c > 100 {
            100
        } else {
            c
        },
        None => 75,
    };
    let body = match reply_body {
        Some(b) => if trim(b).len() > 0 && fallback_body == text {
            b
        } else {
            fallback_body
        },
        None => fallback_body,
    };
    (kind, body, c)
}

/// Merges a decoded Tier 3 reply into the earlier tiers' result for
/// `text`; see [`merge_spec`].
pub fn merge_reply(fallback: &ClassificationResult, text: &str, reply: LlmReply) -> (r:
    ClassificationResult)
    ensures
        (r.note_type@, r.body@, r.confidence) == merge_spec(
            fallback.note_type@,
            fallback.body@,
            text@,
            crate::types::opt_view(reply.note_type),
            crate::types::opt_view(reply.body),
            reply.confidence,
        ),
        r.time == fallback.time,
        r.rrule == fallback.rrule,
{
    let kind = match &reply.note_type {
        Some(t) => NoteType::from_str(t.as_str()),
        None => fallback.note_type.copy(),
    };
    let c: u32 = match reply.confidence {
        Some(c) => if c > 100 {
            100
        } else {
            c
        },
        None => 75,
    };
    let body = match reply.body {
        Some(b) => {
            let bv = chars_of(b.as_str());
            let t = trim_vec(&bv);
            let fv = chars_of(fallback.body.as_str());
            if t.len() > 0 && crate::types::vec_eq_str(&fv, text) {
                b
            } else {
                fallback.body.clone()
            }
        },
        None => fallback.body.clone(),
    };
    ClassificationResult {
        note_type: kind,
        time: fallback.time,
        rrule: match &fallback.rrule {
            Some(r) => Some(r.copy()),
            None => None,
        },
        body,
        confidence: c,
    }
}

} // verus!
