//! Serving content in the reader's language.
//!
//! Content (summaries, headlines, poll questions) is stored in the language it
//! was authored in. [`Localized`] resolves such a field to its published
//! translation in the active language, falling back to the stored original, so
//! the sourced original stays canonical and a missing translation degrades to
//! the original rather than to nothing.

use vstd::prelude::*;

use crate::i18n::{lemma_pairs_map_last, pairs_map, pairs_view};
use crate::text::str_eq;

verus! {

/// An entity's published translations in the active language, field name to
/// translated text, ready to overlay on the stored originals.
pub struct Localized {
    fields: Vec<(String, String)>,
}

impl View for Localized {
    type V = Map<Seq<char>, Seq<char>>;

    closed spec fn view(&self) -> Map<Seq<char>, Seq<char>> {
        pairs_map(pairs_view(self.fields@))
    }
}

/// What a field shows: its translation when there is one, else the original.
pub open spec fn localized_field(
    m: Map<Seq<char>, Seq<char>>,
    field: Seq<char>,
    original: Option<Seq<char>>,
) -> Option<Seq<char>> {
    if m.contains_key(field) {
        Some(m[field])
    } else {
        original
    }
}

/// The characters of an optional text.
pub open spec fn opt_str_view(o: Option<&str>) -> Option<Seq<char>> {
    match o {
        Some(s) => Some(s@),
        None => None,
    }
}

impl Localized {
    /// An empty overlay, for entities with no translations to load.
    pub fn empty() -> (r: Self)
        ensures
            r@ == Map::<Seq<char>, Seq<char>>::empty(),
    {
        Localized { fields: Vec::new() }
    }

    /// The overlay for the given `(field, translation)` pairs, as loaded for one
    /// entity (a later pair for the same field wins).
    pub fn from_pairs(fields: Vec<(String, String)>) -> (r: Self)
        ensures
            r@ == pairs_map(pairs_view(fields@)),
    {
        Localized { fields }
    }

    /// Where the translation of `field` sits, if it has one.
    fn position(&self, field: &str) -> (r: Option<usize>)
        ensures
            match r {
                Some(k) => k < self.fields@.len() && self@.contains_key(field@) && self@[field@]
                    == self.fields@[k as int].1@,
                None => !self@.contains_key(field@),
            },
    {
        let ghost p = pairs_view(self.fields@);
        let mut k = self.fields.len();
        while k > 0
            invariant
                k <= self.fields@.len(),
                p == pairs_view(self.fields@),
                forall|m: int| k <= m < p.len() ==> (#[trigger] p[m]).0 != field@,
            decreases k,
        {
            k = k - 1;
            if str_eq(self.fields[k].0.as_str(), field) {
                proof {
                    lemma_pairs_map_last(p, field@, k as int);
                }
                return Some(k);
            }
        }
        proof {
            lemma_pairs_map_last(p, field@, -1);
        }
        None
    }

    /// The field in the active language: the published translation if there is
    /// one, else the given original.
    pub fn get<'a>(&'a self, field: &str, original: Option<&'a str>) -> (r: Option<&'a str>)
        ensures
            opt_str_view(r) == localized_field(self@, field@, opt_str_view(original)),
    {
        match self.position(field) {
            Some(k) => Some(self.fields[k].1.as_str()),
            None => original,
        }
    }

    /// Whether `field` is being shown as a translation rather than the original.
    pub fn is_translated(&self, field: &str) -> (r: bool)
        ensures
            r == self@.contains_key(field@),
    {
        self.position(field).is_some()
    }
}

/// A field with a translation shows that translation, whatever the original;
/// one without shows the original, and it is translated exactly when its
/// translation is what is shown in place of the original.
pub proof fn law_translation_overlays_original(
    m: Map<Seq<char>, Seq<char>>,
    field: Seq<char>,
    original: Option<Seq<char>>,
)
    ensures
        m.contains_key(field) ==> localized_field(m, field, original) == Some(m[field]),
        !m.contains_key(field) ==> localized_field(m, field, original) == original,
        localized_field(Map::empty(), field, original) == original,
{
}

/// The published translations of a list of entities: for each entity id and
/// field, the translated text.
pub struct BatchTranslations {
    pub entries: Vec<(i64, String, String)>,
}

/// The translation of `field` of entity `id`: the last entry for them.
pub open spec fn batch_lookup(entries: Seq<(i64, String, String)>, id: i64, field: Seq<char>) -> Option<Seq<char>>
    decreases entries.len(),
{
    if entries.len() == 0 {
        None
    } else if entries.last().0 == id && entries.last().1@ == field {
        Some(entries.last().2@)
    } else {
        batch_lookup(entries.drop_last(), id, field)
    }
}

impl BatchTranslations {
    /// The translation of `field` of entity `id`, if one is published; a list
    /// overlays each item with it and keeps the original otherwise.
    pub fn get(&self, id: i64, field: &str) -> (r: Option<&str>)
        ensures
            opt_str_view(r) == batch_lookup(self.entries@, id, field@),
    {
        let mut k = self.entries.len();
        assert(self.entries@.take(k as int) =~= self.entries@);
        while k > 0
            invariant
                k <= self.entries@.len(),
                batch_lookup(self.entries@, id, field@) == batch_lookup(
                    self.entries@.take(k as int),
                    id,
                    field@,
                ),
            decreases k,
        {
            let ghost t = self.entries@.take(k as int);
            assert(t.drop_last() =~= self.entries@.take(k - 1));
            if self.entries[k - 1].0 == id && str_eq(self.entries[k - 1].1.as_str(), field) {
                return Some(self.entries[k - 1].2.as_str());
            }
            k = k - 1;
        }
        None
    }
}


/// A text replaced by its translation when one is published.
pub open spec fn overlaid(t: Option<Seq<char>>, original: Seq<char>) -> Seq<char> {
    match t {
        Some(x) => x,
        None => original,
    }
}

/// An optional text replaced by its translation only when it is present and a
/// translation is published; a missing one stays missing.
pub open spec fn overlaid_opt(t: Option<Seq<char>>, original: Option<Seq<char>>) -> Option<
    Seq<char>,
> {
    match (t, original) {
        (Some(x), Some(_)) => Some(x),
        _ => original,
    }
}

/// The text of an optional string.
pub open spec fn opt_text(s: Option<String>) -> Option<Seq<char>> {
    match s {
        Some(t) => Some(t@),
        None => None,
    }
}

/// A translation as an owned string, or the original kept.
fn overlay(t: Option<&str>, original: String) -> (r: String)
    ensures
        r@ == overlaid(opt_str_view(t), original@),
{
    match t {
        Some(x) => {
            let mut s = String::new();
            crate::text::push_str(&mut s, x);
            s
        },
        None => original,
    }
}

/// An optional text overlaid only where it is present.
fn overlay_opt(t: Option<&str>, original: Option<String>) -> (r: Option<String>)
    ensures
        opt_text(r) == overlaid_opt(opt_str_view(t), opt_text(original)),
{
    match original {
        Some(o) => Some(overlay(t, o)),
        None => None,
    }
}

/// A statement as its quote is shown: the quote in the language it was made.
pub struct Statement {
    pub id: i64,
    pub text_original: String,
}

/// A person's education: where, and the degree and field when recorded.
pub struct Education {
    pub id: i64,
    pub institution: String,
    pub degree: Option<String>,
    pub field: Option<String>,
}

/// A person's attribute (an occupation, ideology or religion): its value.
pub struct PersonAttribute {
    pub id: i64,
    pub value: String,
}

/// A poll option's label.
pub struct PollOption {
    pub id: i64,
    pub label: String,
}

/// A poll's question and options, as they are shown.
pub struct Poll {
    pub question: String,
    pub options: Vec<PollOption>,
}

/// Overlay each statement's quote with its published translation, where one
/// exists. The original stays reachable through the statement's source link.
pub fn localize_statements(statements: &mut Vec<Statement>, tr: &BatchTranslations)
    ensures
        final(statements)@.len() == old(statements)@.len(),
        forall|i: int|
            0 <= i < old(statements)@.len() ==> {
                let (o, n) = (old(statements)@[i], #[trigger] final(statements)@[i]);
                &&& n.id == o.id
                &&& n.text_original@ == overlaid(
                    batch_lookup(tr.entries@, o.id, "text_original"@),
                    o.text_original@,
                )
            },
{
    let mut items: Vec<Statement> = Vec::new();
    std::mem::swap(&mut items, statements);
    let ghost src = items@;
    proof {
        reveal_strlit("text_original");
    }
    for s in it: items.into_iter()
        invariant
            it.seq() == src,
            statements@.len() == it.index(),
            forall|i: int|
                0 <= i < it.index() ==> {
                    let (o, n) = (src[i], #[trigger] statements@[i]);
                    &&& n.id == o.id
                    &&& n.text_original@ == overlaid(
                        batch_lookup(tr.entries@, o.id, "text_original"@),
                        o.text_original@,
                    )
                },
    {
        let t = tr.get(s.id, "text_original");
        statements.push(Statement { id: s.id, text_original: overlay(t, s.text_original) });
    }
}

/// Overlay each education entry's institution, degree and field with their
/// published translations, where they exist; a degree or field that was never
/// recorded stays unrecorded.
pub fn localize_education(education: &mut Vec<Education>, tr: &BatchTranslations)
    ensures
        final(education)@.len() == old(education)@.len(),
        forall|i: int|
            0 <= i < old(education)@.len() ==> {
                let (o, n) = (old(education)@[i], #[trigger] final(education)@[i]);
                &&& n.id == o.id
                &&& n.institution@ == overlaid(
                    batch_lookup(tr.entries@, o.id, "institution"@),
                    o.institution@,
                )
                &&& opt_text(n.degree) == overlaid_opt(
                    batch_lookup(tr.entries@, o.id, "degree"@),
                    opt_text(o.degree),
                )
                &&& opt_text(n.field) == overlaid_opt(
                    batch_lookup(tr.entries@, o.id, "field"@),
                    opt_text(o.field),
                )
            },
{
    let mut items: Vec<Education> = Vec::new();
    std::mem::swap(&mut items, education);
    let ghost src = items@;
    proof {
        reveal_strlit("institution");
        reveal_strlit("degree");
        reveal_strlit("field");
    }
    for e in it: items.into_iter()
        invariant
            it.seq() == src,
            education@.len() == it.index(),
            forall|i: int|
                0 <= i < it.index() ==> {
                    let (o, n) = (src[i], #[trigger] education@[i]);
                    &&& n.id == o.id
                    &&& n.institution@ == overlaid(
                        batch_lookup(tr.entries@, o.id, "institution"@),
                        o.institution@,
                    )
                    &&& opt_text(n.degree) == overlaid_opt(
                        batch_lookup(tr.entries@, o.id, "degree"@),
                        opt_text(o.degree),
                    )
                    &&& opt_text(n.field) == overlaid_opt(
                        batch_lookup(tr.entries@, o.id, "field"@),
                        opt_text(o.field),
                    )
                },
    {
        let institution = overlay(tr.get(e.id, "institution"), e.institution);
        let degree = overlay_opt(tr.get(e.id, "degree"), e.degree);
        let field = overlay_opt(tr.get(e.id, "field"), e.field);
        education.push(Education { id: e.id, institution, degree, field });
    }
}

/// Overlay each attribute's value with its published translation, where one
/// exists.
pub fn localize_attributes(attributes: &mut Vec<PersonAttribute>, tr: &BatchTranslations)
    ensures
        final(attributes)@.len() == old(attributes)@.len(),
        forall|i: int|
            0 <= i < old(attributes)@.len() ==> {
                let (o, n) = (old(attributes)@[i], #[trigger] final(attributes)@[i]);
                &&& n.id == o.id
                &&& n.value@ == overlaid(batch_lookup(tr.entries@, o.id, "value"@), o.value@)
            },
{
    let mut items: Vec<PersonAttribute> = Vec::new();
    std::mem::swap(&mut items, attributes);
    let ghost src = items@;
    proof {
        reveal_strlit("value");
    }
    for a in it: items.into_iter()
        invariant
            it.seq() == src,
            attributes@.len() == it.index(),
            forall|i: int|
                0 <= i < it.index() ==> {
                    let (o, n) = (src[i], #[trigger] attributes@[i]);
                    &&& n.id == o.id
                    &&& n.value@ == overlaid(batch_lookup(tr.entries@, o.id, "value"@), o.value@)
                },
    {
        let value = overlay(tr.get(a.id, "value"), a.value);
        attributes.push(PersonAttribute { id: a.id, value });
    }
}

/// Overlay a poll's question with its translation, and each option's label
/// with the option's translation, where they exist.
pub fn localize_poll(poll: &mut Poll, question: &Localized, labels: &BatchTranslations)
    ensures
        final(poll).question@ == overlaid(localized_field(question@, "question"@, None), old(poll).question@),
        final(poll).options@.len() == old(poll).options@.len(),
        forall|i: int|
            0 <= i < old(poll).options@.len() ==> {
                let (o, n) = (old(poll).options@[i], #[trigger] final(poll).options@[i]);
                &&& n.id == o.id
                &&& n.label@ == overlaid(batch_lookup(labels.entries@, o.id, "label"@), o.label@)
            },
{
    proof {
        reveal_strlit("question");
        reveal_strlit("label");
    }
    let q = question.get("question", None);
    let mut text = String::new();
    std::mem::swap(&mut text, &mut poll.question);
    poll.question = match q {
        Some(t) => overlay(Some(t), text),
        None => text,
    };
    let mut items: Vec<PollOption> = Vec::new();
    std::mem::swap(&mut items, &mut poll.options);
    let ghost src = items@;
    let ghost shown = poll.question@;
    for o in it: items.into_iter()
        invariant
            it.seq() == src,
            poll.question@ == shown,
            poll.options@.len() == it.index(),
            forall|i: int|
                0 <= i < it.index() ==> {
                    let (o, n) = (src[i], #[trigger] poll.options@[i]);
                    &&& n.id == o.id
                    &&& n.label@ == overlaid(batch_lookup(labels.entries@, o.id, "label"@), o.label@)
                },
    {
        let label = overlay(labels.get(o.id, "label"), o.label);
        poll.options.push(PollOption { id: o.id, label });
    }
}

} // verus!
