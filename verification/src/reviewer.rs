//! The automated pre-screen for user-submitted polls.
//!
//! A screening model judges a submission's text against the content policy and
//! returns a [`ReviewVerdict`]. This module holds what the screening decides:
//! the message the model is shown, how its reply is read, what a verdict or a
//! failed attempt leads to, and the fallback that defers everything to a human.

use vstd::prelude::*;

use crate::email::last_index_of;
use crate::num::{decimal, u64_to_string};
use crate::text::{ascii_lower, chars_of, push_char, push_str, string_of};

verus! {

/// The parts of a submission the screening judges.
pub struct ReviewRequest {
    pub country: String,
    pub question: String,
    pub options: Vec<String>,
    pub kind: String,
}

/// What the screening decided about a submission.
#[derive(Debug, Clone, Copy, PartialEq, Eq, Structural)]
pub enum Decision {
    /// No clear violation. The submission goes to the admin queue.
    Allow,
    /// A clear policy violation. The submission is hard-rejected.
    Reject,
}

/// The screening's verdict on one submission.
#[derive(Debug, Clone)]
pub struct ReviewVerdict {
    pub decision: Decision,
    pub reason: Option<String>,
    pub categories: Vec<String>,
}

/// A content-review provider, identified by the model behind it. The judging
/// itself is a network call made outside this library; the fallback below
/// needs none.
pub trait PollReviewer {
    /// An identifier for the model behind this provider, recorded with its decision.
    fn model(&self) -> &str;
}

/// The fallback used when no provider is configured: it allows every
/// submission through to the admin queue (it never auto-rejects), so a missing
/// key degrades to human-only review rather than blocking submissions.
pub struct DeferReviewer;

impl PollReviewer for DeferReviewer {
    fn model(&self) -> (r: &str)
        ensures
            r@ == "none"@,
    {
        "none"
    }
}

impl DeferReviewer {
    /// The verdict given to every submission: allow, with the reason that a
    /// human will review it and no categories.
    pub fn review(&self, req: &ReviewRequest) -> (r: ReviewVerdict)
        ensures
            r.decision == Decision::Allow,
            r.reason matches Some(m) && m@
                == "no automated screening configured; sent for manual review"@,
            r.categories@.len() == 0,
    {
        let mut m = String::new();
        push_str(&mut m, "no automated screening configured; sent for manual review");
        ReviewVerdict { decision: Decision::Allow, reason: Some(m), categories: Vec::new() }
    }
}

/// The option lines of the user message, numbered from one: `1. A\n2. B\n`.
pub open spec fn option_lines(opts: Seq<Seq<char>>) -> Seq<char>
    decreases opts.len(),
{
    if opts.len() == 0 {
        Seq::<char>::empty()
    } else {
        option_lines(opts.drop_last()) + decimal(opts.len()) + seq!['.', ' '] + opts.last()
            + seq!['\n']
    }
}

/// The texts of a list of strings.
pub open spec fn texts(v: Seq<String>) -> Seq<Seq<char>> {
    v.map_values(|s: String| s@)
}

/// The user message: the country, the poll type, the question, and the
/// numbered options, one per line.
pub open spec fn user_message_spec(
    country: Seq<char>,
    kind: Seq<char>,
    question: Seq<char>,
    options: Seq<Seq<char>>,
) -> Seq<char> {
    "Country: "@ + country + "\nType: "@ + kind + "\nQuestion: "@ + question + "\nOptions:\n"@
        + option_lines(options)
}

/// Build the user message: the country, the question, and the options.
pub fn user_message(req: &ReviewRequest) -> (r: String)
    ensures
        r@ == user_message_spec(req.country@, req.kind@, req.question@, texts(req.options@)),
{
    let mut s = String::new();
    push_str(&mut s, "Country: ");
    push_str(&mut s, req.country.as_str());
    push_str(&mut s, "\nType: ");
    push_str(&mut s, req.kind.as_str());
    push_str(&mut s, "\nQuestion: ");
    push_str(&mut s, req.question.as_str());
    push_str(&mut s, "\nOptions:\n");
    let ghost head = s@;
    let ghost opts = texts(req.options@);
    assert(opts.take(0) =~= Seq::<Seq<char>>::empty());
    let mut i: usize = 0;
    while i < req.options.len()
        invariant
            i <= req.options@.len(),
            opts == texts(req.options@),
            opts.len() == req.options@.len(),
            s@ == head + option_lines(opts.take(i as int)),
        decreases req.options.len() - i,
    {
        let n = u64_to_string((i + 1) as u64);
        push_str(&mut s, n.as_str());
        push_str(&mut s, ". ");
        push_str(&mut s, req.options[i].as_str());
        push_char(&mut s, '\n');
        proof {
            reveal_strlit(". ");
            let t = opts.take(i + 1);
            assert(t.drop_last() =~= opts.take(i as int));
            assert(t.last() == req.options@[i as int]@);
        }
        i = i + 1;
    }
    assert(opts.take(opts.len() as int) =~= opts);
    s
}

/// The index of the first `c` in `s`.
pub open spec fn first_index_of(s: Seq<char>, c: char) -> Option<int>
    decreases s.len(),
{
    if s.len() == 0 {
        None
    } else if s[0] == c {
        Some(0)
    } else {
        match first_index_of(s.drop_first(), c) {
            Some(k) => Some(k + 1),
            None => None,
        }
    }
}

/// The JSON object in a reply: from the first `{` through the last `}`,
/// tolerating prose or code fences around it; `None` when either is missing or
/// the last `}` comes before the first `{`.
pub open spec fn json_frame(content: Seq<char>) -> Option<Seq<char>> {
    match (first_index_of(content, '{'), last_index_of(content, '}')) {
        (Some(a), Some(b)) => if a <= b {
            Some(content.subrange(a, b + 1))
        } else {
            None
        },
        _ => None,
    }
}

proof fn lemma_first_index(s: Seq<char>, c: char, k: int)
    requires
        0 <= k <= s.len(),
        forall|m: int| 0 <= m < k ==> s[m] != c,
        k < s.len() ==> s[k] == c,
    ensures
        k < s.len() ==> first_index_of(s, c) == Some(k),
        k == s.len() ==> first_index_of(s, c) is None,
    decreases k,
{
    if k > 0 {
        lemma_first_index(s.drop_first(), c, k - 1);
    }
}

proof fn lemma_last_index(s: Seq<char>, c: char, k: int)
    requires
        -1 <= k < s.len(),
        forall|m: int| k < m < s.len() ==> s[m] != c,
        k >= 0 ==> s[k] == c,
    ensures
        k >= 0 ==> last_index_of(s, c) == Some(k),
        k < 0 ==> last_index_of(s, c) is None,
    decreases s.len(),
{
    if s.len() > 0 && k < s.len() - 1 {
        lemma_last_index(s.drop_last(), c, k);
    }
}

/// Frame the JSON object of a model reply.
pub fn json_object_text(content: &str) -> (r: Option<String>)
    ensures
        match r {
            Some(t) => json_frame(content@) == Some(t@),
            None => json_frame(content@) is None,
        },
{
    let v = chars_of(content);
    let mut a: usize = 0;
    while a < v.len() && v[a] != '{'
        invariant
            a <= v@.len(),
            v@ == content@,
            forall|m: int| 0 <= m < a ==> v@[m] != '{',
        decreases v.len() - a,
    {
        a = a + 1;
    }
    proof {
        lemma_first_index(v@, '{', a as int);
    }
    let mut b: usize = v.len();
    while b > 0 && v[b - 1] != '}'
        invariant
            b <= v@.len(),
            v@ == content@,
            forall|m: int| b <= m < v@.len() ==> v@[m] != '}',
        decreases b,
    {
        b = b - 1;
    }
    proof {
        lemma_last_index(v@, '}', b - 1);
    }
    if a == v.len() || b == 0 || a >= b {
        return None;
    }
    Some(string_of(&v, a, b))
}

/// Why a reply is not a verdict.
#[derive(Debug, Clone, Copy, PartialEq, Eq, Structural)]
pub enum VerdictError {
    /// The reply holds no `{ ... }` object.
    NoJsonObject,
    /// The framed object is not valid JSON.
    InvalidJson,
    /// The object's `decision` is neither `allow` nor `reject`.
    UnknownDecision,
}

/// The fields of a JSON object that a verdict is read from: the `decision`
/// text, the `categories` list (each item's text when it is a string), and the
/// `reason` text; each `None` when absent or not of that type.
pub struct VerdictFields {
    pub decision: Option<String>,
    pub categories: Option<Vec<Option<String>>>,
    pub reason: Option<String>,
}

/// The fields as plain values.
pub open spec fn fields_view(f: VerdictFields) -> (
    Option<Seq<char>>,
    Option<Seq<Option<Seq<char>>>>,
    Option<Seq<char>>,
) {
    (
        opt_text(f.decision),
        match f.categories {
            Some(c) => Some(opt_texts(c@)),
            None => None,
        },
        opt_text(f.reason),
    )
}

/// What `serde_json::from_str` reads from `text` as a JSON value, taken to the
/// verdict's fields; `None` when the text is not valid JSON.
pub uninterp spec fn json_verdict_fields(text: Seq<char>) -> Option<
    (Option<Seq<char>>, Option<Seq<Option<Seq<char>>>>, Option<Seq<char>>),
>;

/// `serde_json::from_str::<serde_json::Value>`, then the string at
/// `decision`, the items of the array at `categories` (each as a string or
/// not) and the string at `reason`. The result depends on the text alone and
/// is named, not spelled out.
#[verifier::external_body]
fn read_json_fields(text: &str) -> (r: Option<VerdictFields>)
    ensures
        match r {
            Some(f) => json_verdict_fields(text@) == Some(fields_view(f)),
            None => json_verdict_fields(text@) is None,
        },
{
    let v: serde_json::Value = serde_json::from_str(text).ok()?;
    let text_of = |x: &serde_json::Value| x.as_str().map(str::to_string);
    Some(VerdictFields {
        decision: text_of(&v["decision"]),
        categories: v["categories"].as_array().map(|a| a.iter().map(text_of).collect()),
        reason: text_of(&v["reason"]),
    })
}

/// The decision a `decision` field names, in either case.
pub open spec fn decision_spec(field: Option<Seq<char>>) -> Option<Decision> {
    match field {
        Some(d) => if ascii_lower(d) == "allow"@ {
            Some(Decision::Allow)
        } else if ascii_lower(d) == "reject"@ {
            Some(Decision::Reject)
        } else {
            None
        },
        None => None,
    }
}

/// The categories a `categories` field lists: its string items, in order; none
/// when it is not a list.
pub open spec fn category_texts(items: Option<Seq<Option<Seq<char>>>>) -> Seq<Seq<char>>
    decreases (match items {
        Some(s) => s.len(),
        None => 0,
    }),
{
    match items {
        Some(s) => if s.len() == 0 {
            Seq::<Seq<char>>::empty()
        } else {
            let prev = category_texts(Some(s.drop_last()));
            match s.last() {
                Some(t) => prev.push(t),
                None => prev,
            }
        },
        None => Seq::<Seq<char>>::empty(),
    }
}

/// The text of an optional string.
pub open spec fn opt_text(o: Option<String>) -> Option<Seq<char>> {
    match o {
        Some(s) => Some(s@),
        None => None,
    }
}

/// The texts of a list of optional strings.
pub open spec fn opt_texts(v: Seq<Option<String>>) -> Seq<Option<Seq<char>>> {
    v.map_values(|o: Option<String>| opt_text(o))
}

fn lowercase_ascii(s: &str) -> (r: Vec<char>)
    ensures
        r@ == ascii_lower(s@),
{
    let v = chars_of(s);
    let mut out: Vec<char> = Vec::new();
    let mut k: usize = 0;
    while k < v.len()
        invariant
            k <= v@.len(),
            v@ == s@,
            out@ == ascii_lower(v@.take(k as int)),
        decreases v.len() - k,
    {
        let c = v[k];
        let d = if 'A' <= c && c <= 'Z' {
            assert(('a' as u32) <= (c as u32) + 32 <= ('z' as u32));
            char_from_ascii((c as u8) + 32)
        } else {
            c
        };
        out.push(d);
        assert(v@.take(k + 1) =~= v@.take(k as int).push(c));
        assert(ascii_lower(v@.take(k + 1)) =~= ascii_lower(v@.take(k as int)).push(d));
        k = k + 1;
    }
    assert(v@.take(v.len() as int) =~= v@);
    out
}

fn char_from_ascii(b: u8) -> (c: char)
    requires
        b < 128,
    ensures
        c as u32 == b as u32,
{
    b as char
}

/// Read a verdict from the fields of the reply's JSON object: the `decision`
/// text (`allow` or `reject`, in any case), the items of `categories` (the
/// string ones are kept), and a non-empty `reason`.
pub fn verdict_from_fields(
    decision: Option<String>,
    categories: Option<Vec<Option<String>>>,
    reason: Option<String>,
) -> (r: Result<ReviewVerdict, VerdictError>)
    ensures
        match r {
            Ok(v) => {
                &&& decision_spec(opt_text(decision)) == Some(v.decision)
                &&& texts(v.categories@) == category_texts(
                    match categories {
                        Some(c) => Some(opt_texts(c@)),
                        None => None,
                    },
                )
                &&& opt_text(v.reason) == match reason {
                    Some(t) => if t@.len() > 0 {
                        Some(t@)
                    } else {
                        None
                    },
                    None => None,
                }
            },
            Err(e) => e == VerdictError::UnknownDecision && decision_spec(opt_text(decision))
                is None,
        },
{
    let d = match decision {
        Some(text) => {
            let low = lowercase_ascii(text.as_str());
            let allow: Vec<char> = vec!['a', 'l', 'l', 'o', 'w'];
            let rej: Vec<char> = vec!['r', 'e', 'j', 'e', 'c', 't'];
            proof {
                reveal_strlit("allow");
                reveal_strlit("reject");
                assert(allow@ =~= "allow"@);
                assert(rej@ =~= "reject"@);
            }
            if same_chars(&low, &allow) {
                Decision::Allow
            } else if same_chars(&low, &rej) {
                Decision::Reject
            } else {
                return Err(VerdictError::UnknownDecision);
            }
        },
        None => return Err(VerdictError::UnknownDecision),
    };
    let mut cats: Vec<String> = Vec::new();
    match categories {
        Some(items) => {
            let ghost src = opt_texts(items@);
            let mut k: usize = 0;
            while k < items.len()
                invariant
                    k <= items@.len(),
                    src == opt_texts(items@),
                    texts(cats@) == category_texts(Some(src.take(k as int))),
                decreases items.len() - k,
            {
                proof {
                    assert(src.take(k + 1).drop_last() =~= src.take(k as int));
                }
                match &items[k] {
                    Some(t) => {
                        cats.push(t.clone());
                        assert(texts(cats@) =~= texts(cats@.drop_last()).push(t@));
                    },
                    None => {},
                }
                k = k + 1;
            }
            assert(src.take(items.len() as int) =~= src);
        },
        None => {},
    }
    let why = match reason {
        Some(t) => if t.as_str().is_empty() {
            None
        } else {
            Some(t)
        },
        None => None,
    };
    Ok(ReviewVerdict { decision: d, reason: why, categories: cats })
}

/// The verdict a reply's fields give, or why they give none.
pub open spec fn verdict_spec(
    fields: (Option<Seq<char>>, Option<Seq<Option<Seq<char>>>>, Option<Seq<char>>),
) -> Result<(Decision, Seq<Seq<char>>, Option<Seq<char>>), VerdictError> {
    match decision_spec(fields.0) {
        Some(d) => Ok(
            (
                d,
                category_texts(fields.1),
                match fields.2 {
                    Some(t) => if t.len() > 0 {
                        Some(t)
                    } else {
                        None
                    },
                    None => None,
                },
            ),
        ),
        None => Err(VerdictError::UnknownDecision),
    }
}

/// A verdict as plain values.
pub open spec fn verdict_view(v: ReviewVerdict) -> (Decision, Seq<Seq<char>>, Option<Seq<char>>) {
    (v.decision, texts(v.categories@), opt_text(v.reason))
}

/// Parse the model's JSON reply into a verdict. Tolerant of surrounding prose
/// or code fences: it reads the first `{` through the last `}`.
pub fn parse_verdict(content: &str) -> (r: Result<ReviewVerdict, VerdictError>)
    ensures
        match json_frame(content@) {
            None => r == Err::<ReviewVerdict, VerdictError>(VerdictError::NoJsonObject),
            Some(t) => match json_verdict_fields(t) {
                None => r == Err::<ReviewVerdict, VerdictError>(VerdictError::InvalidJson),
                Some(f) => match r {
                    Ok(v) => verdict_spec(f) == Ok::<
                        (Decision, Seq<Seq<char>>, Option<Seq<char>>),
                        VerdictError,
                    >(verdict_view(v)),
                    Err(e) => verdict_spec(f) == Err::<
                        (Decision, Seq<Seq<char>>, Option<Seq<char>>),
                        VerdictError,
                    >(e),
                },
            },
        },
{
    let text = match json_object_text(content) {
        Some(t) => t,
        None => return Err(VerdictError::NoJsonObject),
    };
    let fields = match read_json_fields(text.as_str()) {
        Some(f) => f,
        None => return Err(VerdictError::InvalidJson),
    };
    verdict_from_fields(fields.decision, fields.categories, fields.reason)
}

/// Whether two character vectors are equal.
fn same_chars(a: &Vec<char>, b: &Vec<char>) -> (r: bool)
    ensures
        r == (a@ == b@),
{
    if a.len() != b.len() {
        return false;
    }
    let mut k: usize = 0;
    while k < a.len()
        invariant
            k <= a@.len(),
            a@.len() == b@.len(),
            forall|m: int| 0 <= m < k ==> a@[m] == b@[m],
        decreases a.len() - k,
    {
        if a[k] != b[k] {
            return false;
        }
        k = k + 1;
    }
    assert(a@ =~= b@);
    true
}

/// After this many failed automated attempts a submission is handed to the
/// admin queue, so a screening outage never leaves it stuck.
pub const MAX_AI_ATTEMPTS: i32 = 3;

/// Whether a submission whose review has now failed `attempts` times goes to
/// the admin queue.
pub fn defer_after_failure(attempts: i32) -> (r: bool)
    ensures
        r == (attempts >= MAX_AI_ATTEMPTS),
{
    attempts >= MAX_AI_ATTEMPTS
}

/// What the screening of a pending submission reports back, one step at a
/// time.
#[derive(Debug, Clone, Copy, PartialEq, Eq, Structural)]
pub enum ScreeningEvent {
    /// The model judged the submission.
    Judged(Decision),
    /// The attempt failed (the model was unreachable or its reply unreadable).
    AttemptFailed,
    /// The failed attempts have been counted; this many so far.
    FailuresCounted(i32),
}

/// What to do next about the submission.
#[derive(Debug, Clone, Copy, PartialEq, Eq, Structural)]
pub enum ScreeningAction {
    /// Store the allow decision; an admin then looks at the submission.
    RecordAllow,
    /// Store the reject decision, which may suspend a repeat offender.
    RecordReject,
    /// Count one more failed attempt.
    CountFailure,
    /// Hand the submission to the admin queue for manual review.
    DeferToAdmin,
    /// Leave it pending for the next batch.
    Wait,
}

/// The decision of one screening step: a verdict is recorded and counts
/// toward the batch's judged total; a failed attempt is counted; once the
/// failures reach the limit the submission is handed to a human.
pub fn screening_step(judged: usize, ev: ScreeningEvent) -> (r: (usize, ScreeningAction))
    requires
        judged < usize::MAX,
    ensures
        ev matches ScreeningEvent::Judged(d) ==> r == (
            (judged + 1) as usize,
            if d == Decision::Allow {
                ScreeningAction::RecordAllow
            } else {
                ScreeningAction::RecordReject
            },
        ),
        ev == ScreeningEvent::AttemptFailed ==> r == (judged, ScreeningAction::CountFailure),
        ev matches ScreeningEvent::FailuresCounted(n) ==> r == (
            judged,
            if n >= MAX_AI_ATTEMPTS {
                ScreeningAction::DeferToAdmin
            } else {
                ScreeningAction::Wait
            },
        ),
{
    match ev {
        ScreeningEvent::Judged(d) => match d {
            Decision::Allow => (judged + 1, ScreeningAction::RecordAllow),
            Decision::Reject => (judged + 1, ScreeningAction::RecordReject),
        },
        ScreeningEvent::AttemptFailed => (judged, ScreeningAction::CountFailure),
        ScreeningEvent::FailuresCounted(n) => {
            if defer_after_failure(n) {
                (judged, ScreeningAction::DeferToAdmin)
            } else {
                (judged, ScreeningAction::Wait)
            }
        },
    }
}

/// The note recorded when a submission is handed over after repeated failed
/// attempts.
pub fn deferral_note() -> (r: String)
    ensures
        r@ == "automated review unavailable; sent for manual review"@,
{
    let mut s = String::new();
    push_str(&mut s, "automated review unavailable; sent for manual review");
    s
}

} // verus!
