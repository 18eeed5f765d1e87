//! The preference-match compass: the five-point answer scale, the evidence
//! labels, and how a visitor's submitted answers are read. Nothing the visitor
//! enters is stored: the answers arrive in the POST body and drive the score in
//! memory.

use vstd::prelude::*;

use crate::config::{env_get, var};
use crate::i18n::{translate, Lang, Translations};
use crate::num::{i64_to_string, parse_i8, parse_in_range, signed_decimal, signed_value};
use crate::text::{push_char, push_str, str_eq};

verus! {

/// The English label of each point of the scale, from strongly disagree to
/// strongly agree; empty for a value off the scale.
pub open spec fn scale_label(value: int) -> Seq<char> {
    if value == -2 {
        "Strongly disagree"@
    } else if value == -1 {
        "Disagree"@
    } else if value == 0 {
        "Neutral"@
    } else if value == 1 {
        "Agree"@
    } else if value == 2 {
        "Strongly agree"@
    } else {
        Seq::<char>::empty()
    }
}

fn scale_source(value: i8) -> (r: &'static str)
    ensures
        r@ == scale_label(value as int),
{
    if value == -2 {
        "Strongly disagree"
    } else if value == -1 {
        "Disagree"
    } else if value == 0 {
        "Neutral"
    } else if value == 1 {
        "Agree"
    } else if value == 2 {
        "Strongly agree"
    } else {
        proof {
            reveal_strlit("");
        }
        ""
    }
}

/// The five-point answer scale, from strongly disagree to strongly agree, as
/// `(value, label)` pairs in the page's language. Answers and stances share it.
pub fn scale<'a>(lang: Lang, tr: &'a Translations) -> (r: Vec<(i8, &'a str)>)
    ensures
        r@.len() == 5,
        forall|k: int|
            0 <= k < 5 ==> (#[trigger] r@[k]).0 == k - 2 && r@[k].1@ == translate(
                tr,
                lang,
                scale_label(k - 2),
            ),
{
    let mut r: Vec<(i8, &'a str)> = Vec::new();
    let mut v: i8 = -2;
    while v <= 2
        invariant
            -2 <= v <= 3,
            r@.len() == v + 2,
            forall|k: int|
                0 <= k < r@.len() ==> (#[trigger] r@[k]).0 == k - 2 && r@[k].1@ == translate(
                    tr,
                    lang,
                    scale_label(k - 2),
                ),
        decreases 3 - v,
    {
        r.push((v, lang.t(tr, scale_source(v))));
        v = v + 1;
    }
    r
}

/// The label for a stance or answer value on the shared scale, in the page's
/// language; empty for a value off the scale.
pub fn value_label<'a>(value: i8, lang: Lang, tr: &'a Translations) -> (r: &'a str)
    ensures
        -2 <= value <= 2 ==> r@ == translate(tr, lang, scale_label(value as int)),
        !(-2 <= value <= 2) ==> r@ == Seq::<char>::empty(),
{
    if -2 <= value && value <= 2 {
        lang.t(tr, scale_source(value))
    } else {
        proof {
            reveal_strlit("");
        }
        ""
    }
}

/// The English label of what a piece of evidence is, so a reader can tell a
/// promise from a recorded act at a glance; a manifesto for any other kind.
pub open spec fn evidence_label(kind: Seq<char>) -> Seq<char> {
    if kind == "bill"@ {
        "Bill"@
    } else if kind == "court"@ {
        "Court application"@
    } else if kind == "vote"@ {
        "Vote"@
    } else if kind == "law"@ {
        "Law"@
    } else if kind == "decree"@ {
        "Decree"@
    } else if kind == "alliance"@ {
        "Alliance"@
    } else if kind == "statement"@ {
        "Statement"@
    } else {
        "Manifesto"@
    }
}

/// A short label for what a piece of evidence is, in the page's language.
pub fn kind_label<'a>(kind: &str, lang: Lang, tr: &'a Translations) -> (r: &'a str)
    ensures
        r@ == translate(tr, lang, evidence_label(kind@)),
{
    let source = if str_eq(kind, "bill") {
        "Bill"
    } else if str_eq(kind, "court") {
        "Court application"
    } else if str_eq(kind, "vote") {
        "Vote"
    } else if str_eq(kind, "law") {
        "Law"
    } else if str_eq(kind, "decree") {
        "Decree"
    } else if str_eq(kind, "alliance") {
        "Alliance"
    } else if str_eq(kind, "statement") {
        "Statement"
    } else {
        "Manifesto"
    };
    lang.t(tr, source)
}

/// A visitor's answer on one position.
#[derive(Debug, Clone, Copy, PartialEq, Eq, Structural)]
pub struct Answer {
    pub thesis_id: i64,
    /// On the shared scale, `-2..=2`.
    pub value: i8,
    /// Whether the visitor marked the position as important.
    pub important: bool,
}

/// The name of a form field about position `id`: the prefix and the id.
pub open spec fn field_name(prefix: char, id: i64) -> Seq<char> {
    seq![prefix] + signed_decimal(id as int)
}

/// The answer the form gives on position `id`: its `a{id}` field holding a
/// value on the scale (anything else, "skip" included, is no answer), and
/// whether a `w{id}` field marks it important.
pub open spec fn answer_spec(pairs: Seq<(String, String)>, id: i64) -> Option<Answer> {
    match env_get(pairs, field_name('a', id)) {
        Some(v) => match parse_in_range(v, true, i8::MIN as int, i8::MAX as int) {
            Some(x) => if -2 <= x <= 2 {
                Some(
                    Answer {
                        thesis_id: id,
                        value: x as i8,
                        important: env_get(pairs, field_name('w', id)) is Some,
                    },
                )
            } else {
                None
            },
            None => None,
        },
        None => None,
    }
}

/// The answers given, one per answered position, in the order of the
/// positions.
pub open spec fn answers_spec(pairs: Seq<(String, String)>, ids: Seq<i64>) -> Seq<Answer>
    decreases ids.len(),
{
    if ids.len() == 0 {
        Seq::empty()
    } else {
        let prev = answers_spec(pairs, ids.drop_last());
        match answer_spec(pairs, ids.last()) {
            Some(a) => prev.push(a),
            None => prev,
        }
    }
}

fn field(prefix: char, id: i64) -> (r: String)
    ensures
        r@ == field_name(prefix, id),
{
    let mut s = String::new();
    push_char(&mut s, prefix);
    let n = i64_to_string(id);
    push_str(&mut s, n.as_str());
    assert(s@ =~= field_name(prefix, id));
    s
}

/// Read the answers from the submitted `(name, value)` pairs (a later pair for
/// the same name wins), for the positions `thesis_ids` in order.
pub fn read_answers(thesis_ids: &Vec<i64>, pairs: &Vec<(String, String)>) -> (r: Vec<Answer>)
    ensures
        r@ == answers_spec(pairs@, thesis_ids@),
{
    let mut out: Vec<Answer> = Vec::new();
    let mut k: usize = 0;
    while k < thesis_ids.len()
        invariant
            k <= thesis_ids@.len(),
            out@ == answers_spec(pairs@, thesis_ids@.take(k as int)),
        decreases thesis_ids.len() - k,
    {
        let id = thesis_ids[k];
        proof {
            assert(thesis_ids@.take(k + 1).drop_last() =~= thesis_ids@.take(k as int));
            assert(thesis_ids@.take(k + 1).last() == id);
        }
        let a_name = field('a', id);
        match var(pairs, a_name.as_str()) {
            Some(v) => match parse_i8(v.as_str()) {
                Some(x) => if -2 <= x && x <= 2 {
                    let w_name = field('w', id);
                    let important = var(pairs, w_name.as_str()).is_some();
                    out.push(Answer { thesis_id: id, value: x, important });
                },
                None => {},
            },
            None => {},
        }
        k = k + 1;
    }
    assert(thesis_ids@.take(thesis_ids@.len() as int) =~= thesis_ids@);
    out
}

/// Every answer read is on the scale, about one of the positions asked.
pub proof fn law_answers_on_scale(pairs: Seq<(String, String)>, ids: Seq<i64>)
    ensures
        forall|k: int|
            0 <= k < answers_spec(pairs, ids).len() ==> -2 <= (
            #[trigger] answers_spec(pairs, ids)[k]).value <= 2 && ids.contains(
                answers_spec(pairs, ids)[k].thesis_id,
            ),
        answers_spec(pairs, ids).len() <= ids.len(),
    decreases ids.len(),
{
    if ids.len() > 0 {
        law_answers_on_scale(pairs, ids.drop_last());
        let prev = answers_spec(pairs, ids.drop_last());
        assert forall|k: int| 0 <= k < answers_spec(pairs, ids).len() implies -2 <= (
        #[trigger] answers_spec(pairs, ids)[k]).value <= 2 && ids.contains(
            answers_spec(pairs, ids)[k].thesis_id,
        ) by {
            if k < prev.len() {
                let j = choose|j: int| 0 <= j < ids.drop_last().len() && ids.drop_last()[j]
                    == prev[k].thesis_id;
                assert(ids[j] == prev[k].thesis_id);
            } else {
                assert(ids[ids.len() - 1] == ids.last());
            }
        }
    }
}

/// Every position asked whose `a{id}` field reads as an integer from -2
/// (strongly disagree) to 2 (strongly agree) is answered with exactly that
/// value (no point of the scale is taken for a skip), marked important exactly
/// when a `w{id}` field was sent.
pub proof fn law_every_scale_answer_is_read(
    pairs: Seq<(String, String)>,
    ids: Seq<i64>,
    k: int,
    v: Seq<char>,
    x: int,
)
    requires
        0 <= k < ids.len(),
        env_get(pairs, field_name('a', ids[k])) == Some(v),
        signed_value(v) == Some(x),
        -2 <= x <= 2,
    ensures
        exists|j: int|
            0 <= j < answers_spec(pairs, ids).len() && (#[trigger] answers_spec(pairs, ids)[j]).thesis_id
                == ids[k] && answers_spec(pairs, ids)[j].value == x && answers_spec(pairs, ids)[j].important
                == (env_get(pairs, field_name('w', ids[k])) is Some),
    decreases ids.len(),
{
    let prev = answers_spec(pairs, ids.drop_last());
    if k < ids.len() - 1 {
        law_every_scale_answer_is_read(pairs, ids.drop_last(), k, v, x);
        let j = choose|j: int|
            0 <= j < prev.len() && (#[trigger] prev[j]).thesis_id == ids.drop_last()[k]
                && prev[j].value == x && prev[j].important == (env_get(
                pairs,
                field_name('w', ids.drop_last()[k]),
            ) is Some);
        assert(answers_spec(pairs, ids)[j] == prev[j]);
    } else {
        assert(ids.last() == ids[k]);
        assert(parse_in_range(v, true, i8::MIN as int, i8::MAX as int) == Some(x));
        let all = answers_spec(pairs, ids);
        assert(all.len() == prev.len() + 1);
        assert(all[prev.len() as int].thesis_id == ids[k]);
        assert(all[prev.len() as int].value == x);
    }
}

/// One piece of evidence for a contestant's stance on a position, as far as
/// the comparison reads it.
#[derive(Debug, Clone, Copy)]
pub struct EvidenceStance {
    pub thesis_id: i64,
    pub contestant_id: i64,
    /// Positive for, negative against, zero neutral.
    pub stance: i32,
}

/// Whether some of a contestant's evidence on a position points for it and
/// some against it.
pub open spec fn diverges_spec(evidence: Seq<EvidenceStance>, thesis_id: i64, contestant_id: i64) -> bool {
    (exists|k: int|
        0 <= k < evidence.len() && (#[trigger] evidence[k]).thesis_id == thesis_id
            && evidence[k].contestant_id == contestant_id && evidence[k].stance > 0) && (exists|
        k: int,
    |
        0 <= k < evidence.len() && (#[trigger] evidence[k]).thesis_id == thesis_id
            && evidence[k].contestant_id == contestant_id && evidence[k].stance < 0)
}

/// A contestant is in conflict with itself on a position when its evidence
/// points both ways (its pledges and its record disagree); the page marks it
/// rather than hiding it.
pub fn evidence_diverges(evidence: &Vec<EvidenceStance>, thesis_id: i64, contestant_id: i64) -> (r:
    bool)
    ensures
        r == diverges_spec(evidence@, thesis_id, contestant_id),
{
    let mut pos = false;
    let mut neg = false;
    let mut k: usize = 0;
    while k < evidence.len()
        invariant
            k <= evidence@.len(),
            pos == exists|m: int|
                0 <= m < k && (#[trigger] evidence@[m]).thesis_id == thesis_id
                    && evidence@[m].contestant_id == contestant_id && evidence@[m].stance > 0,
            neg == exists|m: int|
                0 <= m < k && (#[trigger] evidence@[m]).thesis_id == thesis_id
                    && evidence@[m].contestant_id == contestant_id && evidence@[m].stance < 0,
        decreases evidence.len() - k,
    {
        let e = evidence[k];
        if e.thesis_id == thesis_id && e.contestant_id == contestant_id {
            if e.stance > 0 {
                pos = true;
            }
            if e.stance < 0 {
                neg = true;
            }
        }
        k = k + 1;
    }
    pos && neg
}

/// A contestant in the compass: a party in a parliamentary set of positions,
/// a person in a presidential one. Both render the same way.
pub struct Contestant {
    pub name: String,
    pub short: String,
    pub colour: Option<String>,
    pub href: String,
}

impl Contestant {
    /// A party: its short name (its name when it has none), its colour, and its
    /// page in the country.
    pub fn from_party(name: &str, short_name: Option<&str>, colour: Option<String>, slug: &str, country: &str) -> (r: Self)
        ensures
            r.name@ == name@,
            r.short@ == match short_name {
                Some(s) => s@,
                None => name@,
            },
            r.colour == colour,
            r.href@ == "/"@ + country@ + "/parties/"@ + slug@,
    {
        let mut n = String::new();
        push_str(&mut n, name);
        let mut short = String::new();
        match short_name {
            Some(s) => push_str(&mut short, s),
            None => push_str(&mut short, name),
        }
        let mut href = String::new();
        push_str(&mut href, "/");
        push_str(&mut href, country);
        push_str(&mut href, "/parties/");
        push_str(&mut href, slug);
        Contestant { name: n, short, colour, href }
    }

    /// A person: their initials as the short form, no colour (a person carries
    /// no organisation colour), and their page in the country.
    pub fn from_person(full_name: &str, initials: &str, slug: &str, country: &str) -> (r: Self)
        ensures
            r.name@ == full_name@,
            r.short@ == initials@,
            r.colour is None,
            r.href@ == "/"@ + country@ + "/people/"@ + slug@,
    {
        let mut n = String::new();
        push_str(&mut n, full_name);
        let mut short = String::new();
        push_str(&mut short, initials);
        let mut href = String::new();
        push_str(&mut href, "/");
        push_str(&mut href, country);
        push_str(&mut href, "/people/");
        push_str(&mut href, slug);
        Contestant { name: n, short, colour: None, href }
    }
}

/// The two sets of compass questions a country can have, by the names the
/// store gives them: one about parties, one about the people contesting a
/// presidential election.
pub struct Scopes<'a> {
    pub party: &'a str,
    pub person: &'a str,
}

/// Whether a requested scope is one of the two; any other is a page that does
/// not exist.
pub fn known_scope(scope: &str, scopes: &Scopes) -> (r: bool)
    ensures
        r == (scope@ == scopes.party@ || scope@ == scopes.person@),
{
    str_eq(scope, scopes.party) || str_eq(scope, scopes.person)
}

/// Where a scope's questionnaire (and the result it posts to) is: the party
/// set at the country's plain compass address, any other set under its name.
pub open spec fn compass_path_spec(country: Seq<char>, scope: Seq<char>, party: Seq<char>) -> Seq<
    char,
> {
    if scope == party {
        "/"@ + country + "/compass"@
    } else {
        "/"@ + country + "/compass/"@ + scope
    }
}

/// The address of a scope's questionnaire in a country.
pub fn compass_path(country: &str, scope: &str, scopes: &Scopes) -> (r: String)
    ensures
        r@ == compass_path_spec(country@, scope@, scopes.party@),
{
    let mut s = String::new();
    push_str(&mut s, "/");
    push_str(&mut s, country);
    if str_eq(scope, scopes.party) {
        push_str(&mut s, "/compass");
    } else {
        push_str(&mut s, "/compass/");
        push_str(&mut s, scope);
    }
    s
}

/// The other set of questions, offered beside this one when it has any.
pub fn other_scope<'a>(scope: &str, scopes: &Scopes<'a>) -> (r: &'a str)
    ensures
        r@ == (if scope@ == scopes.party@ {
            scopes.person@
        } else {
            scopes.party@
        }),
{
    if str_eq(scope, scopes.party) {
        scopes.person
    } else {
        scopes.party
    }
}

} // verus!
