//! The admin area's request handling that does not touch the database: who
//! may enter, how urlencoded bodies with repeated fields are read, and what
//! the editing forms carry and require.

use vstd::prelude::*;

use crate::auth::AuthSession;
use crate::error::PageError;
use crate::text::{
    chars_of, from_utf8_lossy, head_before, head_end, push_str, split_ranges, split_spec,
    str_eq, string_of, trim, trim_bounds, utf8_lossy,
};

verus! {

/// Admin routes are invisible to everyone else: a non-admin (or signed-out)
/// visitor gets a plain 404 rather than any hint the area exists.
pub fn require_admin(session: &Option<AuthSession>) -> (r: Result<(), PageError>)
    ensures
        r is Ok <==> (session matches Some(s) && s.is_admin),
        r matches Err(e) ==> e == PageError::NotFound,
{
    match session {
        Some(s) => if s.is_admin {
            Ok(())
        } else {
            Err(PageError::NotFound)
        },
        None => Err(PageError::NotFound),
    }
}

/// The value of an ASCII hex digit byte.
pub open spec fn hex_val_spec(c: u8) -> Option<u8> {
    if 48 <= c <= 57 {
        Some((c - 48) as u8)
    } else if 97 <= c <= 102 {
        Some((c - 87) as u8)
    } else if 65 <= c <= 70 {
        Some((c - 55) as u8)
    } else {
        None
    }
}

/// The value of an ASCII hex digit (either case).
pub fn hex_val(c: u8) -> (r: Option<u8>)
    ensures
        r == hex_val_spec(c),
        r matches Some(v) ==> v < 16,
{
    if 48u8 <= c && c <= 57u8 {
        Some(c - 48u8)
    } else if 97u8 <= c && c <= 102u8 {
        Some(c - 87u8)
    } else if 65u8 <= c && c <= 70u8 {
        Some(c - 55u8)
    } else {
        None
    }
}

/// Percent-decoding of urlencoded bytes: `+` is a space, `%XY` with two hex
/// digits is that byte, and anything else (a malformed escape included) is kept.
pub open spec fn url_bytes(b: Seq<u8>) -> Seq<u8>
    decreases b.len(),
{
    if b.len() == 0 {
        b
    } else if b[0] == 43 {
        seq![32u8] + url_bytes(b.drop_first())
    } else if b[0] == 37 && b.len() >= 3 && hex_val_spec(b[1]) is Some && hex_val_spec(b[2]) is Some {
        seq![(hex_val_spec(b[1])->0 * 16 + hex_val_spec(b[2])->0) as u8] + url_bytes(
            b.subrange(3, b.len() as int),
        )
    } else {
        seq![b[0]] + url_bytes(b.drop_first())
    }
}

/// The text a urlencoded value decodes to (invalid UTF-8 decoded lossily).
pub open spec fn url_decoded(s: Seq<char>) -> Seq<char> {
    utf8_lossy(url_bytes(vstd::utf8::encode_utf8(s)))
}

/// Percent-decode a urlencoded form value (`+` is a space).
pub fn urldecode(s: &str) -> (r: String)
    ensures
        r@ == url_decoded(s@),
        vstd::utf8::valid_utf8(url_bytes(vstd::utf8::encode_utf8(s@))) ==> r@
            == vstd::utf8::decode_utf8(url_bytes(vstd::utf8::encode_utf8(s@))),
{
    let b = s.as_bytes();
    let n = b.len();
    let mut out: Vec<u8> = Vec::new();
    let mut i: usize = 0;
    assert(b@.subrange(0, n as int) =~= b@);
    assert(out@ + url_bytes(b@) =~= url_bytes(b@));
    while i < n
        invariant
            i <= n == b@.len(),
            out@ + url_bytes(b@.subrange(i as int, n as int)) == url_bytes(b@),
        decreases n - i,
    {
        let ghost rest = b@.subrange(i as int, n as int);
        let c = b[i];
        if c == 43u8 {
            assert(rest.drop_first() =~= b@.subrange(i + 1, n as int));
            assert(out@.push(32u8) + url_bytes(b@.subrange(i + 1, n as int)) =~= out@ + url_bytes(rest));
            out.push(32u8);
            i = i + 1;
        } else if c == 37u8 && n - i >= 3 {
            match (hex_val(b[i + 1]), hex_val(b[i + 2])) {
                (Some(h), Some(l)) => {
                    let v = h * 16 + l;
                    assert(rest.subrange(3, rest.len() as int) =~= b@.subrange(i + 3, n as int));
                    assert(out@.push(v) + url_bytes(b@.subrange(i + 3, n as int)) =~= out@ + url_bytes(rest));
                    out.push(v);
                    i = i + 3;
                },
                _ => {
                    assert(rest.drop_first() =~= b@.subrange(i + 1, n as int));
                    assert(out@.push(c) + url_bytes(b@.subrange(i + 1, n as int)) =~= out@ + url_bytes(rest));
                    out.push(37u8);
                    i = i + 1;
                },
            }
        } else {
            assert(rest.drop_first() =~= b@.subrange(i + 1, n as int));
            assert(out@.push(c) + url_bytes(b@.subrange(i + 1, n as int)) =~= out@ + url_bytes(rest));
            out.push(c);
            i = i + 1;
        }
    }
    assert(b@.subrange(n as int, n as int) =~= Seq::<u8>::empty());
    assert(out@ + Seq::<u8>::empty() =~= out@);
    from_utf8_lossy(out.as_slice())
}

/// The raw key and value of one `key=value` piece: split at the first `=`, the
/// value empty when there is none.
pub open spec fn raw_pair(part: Seq<char>) -> (Seq<char>, Seq<char>) {
    let key = head_before(part, '=', '=');
    if key.len() < part.len() {
        (key, part.subrange(key.len() as int + 1, part.len() as int))
    } else {
        (key, Seq::<char>::empty())
    }
}

/// The decoded pairs of the non-empty pieces, in order.
pub open spec fn pairs_of(parts: Seq<Seq<char>>) -> Seq<(Seq<char>, Seq<char>)>
    decreases parts.len(),
{
    if parts.len() == 0 {
        Seq::empty()
    } else if parts.last().len() == 0 {
        pairs_of(parts.drop_last())
    } else {
        pairs_of(parts.drop_last()).push(
            (url_decoded(raw_pair(parts.last()).0), url_decoded(raw_pair(parts.last()).1)),
        )
    }
}

/// The ordered, decoded `(key, value)` pairs of a urlencoded body: split at
/// `&`, empty pieces skipped.
pub open spec fn form_pairs_spec(body: Seq<char>) -> Seq<(Seq<char>, Seq<char>)> {
    pairs_of(split_spec(body, '&'))
}

/// Ordered (key, value) pairs from a urlencoded body, decoded. Used where a
/// form repeats a field name, which a flat map cannot represent.
pub fn form_pairs(body: &str) -> (r: Vec<(String, String)>)
    ensures
        r@.map_values(|p: (String, String)| (p.0@, p.1@)) == form_pairs_spec(body@),
{
    let v = chars_of(body);
    assert(v@.subrange(0, v.len() as int) =~= body@);
    let parts = split_ranges(&v, 0, v.len(), '&');
    let ghost ps = split_spec(body@, '&');
    let mut out: Vec<(String, String)> = Vec::new();
    let mut i: usize = 0;
    while i < parts.len()
        invariant
            i <= parts@.len() == ps.len(),
            ps == split_spec(body@, '&'),
            forall|q: int|
                0 <= q < parts@.len() ==> (#[trigger] parts@[q]).0 <= parts@[q].1 <= v@.len()
                    && v@.subrange(parts@[q].0 as int, parts@[q].1 as int) == ps[q],
            out@.map_values(|p: (String, String)| (p.0@, p.1@)) == pairs_of(ps.subrange(0, i as int)),
        decreases parts@.len() - i,
    {
        let (lo, hi) = parts[i];
        let ghost part = ps[i as int];
        assert(ps.subrange(0, i + 1).drop_last() =~= ps.subrange(0, i as int));
        if lo < hi {
            let eq = head_end(&v, lo, hi, '=', '=');
            let key = string_of(&v, lo, eq);
            let value = if eq < hi {
                string_of(&v, eq + 1, hi)
            } else {
                String::new()
            };
            assert(value@ == raw_pair(part).1) by {
                if eq < hi {
                    assert(part.subrange(eq - lo + 1, part.len() as int) =~= v@.subrange(eq + 1, hi as int));
                }
            }
            let k = urldecode(key.as_str());
            let val = urldecode(value.as_str());
            let ghost before = out@;
            out.push((k, val));
            assert(out@.map_values(|p: (String, String)| (p.0@, p.1@)) =~= before.map_values(
                |p: (String, String)| (p.0@, p.1@),
            ).push((url_decoded(raw_pair(part).0), url_decoded(raw_pair(part).1))));
        }
        i = i + 1;
    }
    assert(ps.subrange(0, parts@.len() as int) =~= ps);
    out
}

/// The value of the first pair with the given key.
pub open spec fn first_value(pairs: Seq<(Seq<char>, Seq<char>)>, key: Seq<char>) -> Option<Seq<char>>
    decreases pairs.len(),
{
    if pairs.len() == 0 {
        None
    } else {
        match first_value(pairs.drop_last(), key) {
            Some(v) => Some(v),
            None => if pairs.last().0 == key {
                Some(pairs.last().1)
            } else {
                None
            },
        }
    }
}

/// The values of every pair with the given key, in order.
pub open spec fn all_values(pairs: Seq<(Seq<char>, Seq<char>)>, key: Seq<char>) -> Seq<Seq<char>>
    decreases pairs.len(),
{
    if pairs.len() == 0 {
        Seq::empty()
    } else if pairs.last().0 == key {
        all_values(pairs.drop_last(), key).push(pairs.last().1)
    } else {
        all_values(pairs.drop_last(), key)
    }
}

/// Pairs of strings as their texts.
pub open spec fn pair_texts(pairs: Seq<(String, String)>) -> Seq<(Seq<char>, Seq<char>)> {
    pairs.map_values(|p: (String, String)| (p.0@, p.1@))
}

/// The value first given for `key`.
pub fn first_of(pairs: &Vec<(String, String)>, key: &str) -> (r: Option<String>)
    ensures
        opt_view(r) == first_value(pair_texts(pairs@), key@),
{
    let mut i: usize = 0;
    while i < pairs.len()
        invariant
            i <= pairs@.len(),
            first_value(pair_texts(pairs@).take(i as int), key@) is None,
        decreases pairs.len() - i,
    {
        proof {
            assert(pair_texts(pairs@).take(i + 1).drop_last() =~= pair_texts(pairs@).take(i as int));
        }
        if str_eq(pairs[i].0.as_str(), key) {
            let v = pairs[i].1.clone();
            proof {
                lemma_first_value_extends(pair_texts(pairs@), key@, i + 1);
            }
            return Some(v);
        }
        i = i + 1;
    }
    proof {
        assert(pair_texts(pairs@).take(pairs@.len() as int) =~= pair_texts(pairs@));
    }
    None
}

/// Once a prefix of the pairs holds the key, longer prefixes give the same
/// first value.
proof fn lemma_first_value_extends(pairs: Seq<(Seq<char>, Seq<char>)>, key: Seq<char>, k: int)
    requires
        0 <= k <= pairs.len(),
    ensures
        first_value(pairs.take(k), key) is Some ==> first_value(pairs, key) == first_value(
            pairs.take(k),
            key,
        ),
    decreases pairs.len() - k,
{
    if k < pairs.len() {
        lemma_first_value_extends(pairs, key, k + 1);
        assert(pairs.take(k + 1).drop_last() =~= pairs.take(k));
    } else {
        assert(pairs.take(k) =~= pairs);
    }
}

/// Every value given for `key`, in order.
pub fn all_of(pairs: &Vec<(String, String)>, key: &str) -> (r: Vec<String>)
    ensures
        r@.map_values(|s: String| s@) == all_values(pair_texts(pairs@), key@),
{
    let mut out: Vec<String> = Vec::new();
    let mut i: usize = 0;
    while i < pairs.len()
        invariant
            i <= pairs@.len(),
            out@.map_values(|s: String| s@) == all_values(pair_texts(pairs@).take(i as int), key@),
        decreases pairs.len() - i,
    {
        proof {
            assert(pair_texts(pairs@).take(i + 1).drop_last() =~= pair_texts(pairs@).take(i as int));
        }
        if str_eq(pairs[i].0.as_str(), key) {
            let ghost before = out@;
            out.push(pairs[i].1.clone());
            proof {
                assert(out@.map_values(|s: String| s@) =~= before.map_values(|s: String| s@).push(
                    pairs@[i as int].1@,
                ));
            }
        }
        i = i + 1;
    }
    proof {
        assert(pair_texts(pairs@).take(pairs@.len() as int) =~= pair_texts(pairs@));
    }
    out
}

/// The admin's new-poll form, read from its urlencoded body, where options and
/// their media repeat.
pub struct NewPollForm {
    pub country: String,
    pub person: Option<String>,
    pub party: Option<String>,
    pub question: String,
    pub kind: String,
    pub media_url: Option<String>,
    pub media_license: Option<String>,
    pub options: Vec<String>,
    pub option_media: Vec<String>,
}

/// A missing value read as empty.
pub open spec fn or_empty(v: Option<Seq<char>>) -> Seq<char> {
    match v {
        Some(s) => s,
        None => Seq::empty(),
    }
}

impl NewPollForm {
    /// Read the form: each single field from its first value (the country,
    /// question and kind empty when absent), the options and their media from
    /// every value, in order.
    pub fn read(body: &str) -> (r: NewPollForm)
        ensures
            ({
                let p = form_pairs_spec(body@);
                &&& r.country@ == or_empty(first_value(p, "country"@))
                &&& opt_view(r.person) == first_value(p, "person"@)
                &&& opt_view(r.party) == first_value(p, "party"@)
                &&& r.question@ == or_empty(first_value(p, "question"@))
                &&& r.kind@ == or_empty(first_value(p, "kind"@))
                &&& opt_view(r.media_url) == first_value(p, "media_url"@)
                &&& opt_view(r.media_license) == first_value(p, "media_license"@)
                &&& r.options@.map_values(|s: String| s@) == all_values(p, "option"@)
                &&& r.option_media@.map_values(|s: String| s@) == all_values(p, "option_media"@)
            }),
    {
        let pairs = form_pairs(body);
        proof {
            assert(pair_texts(pairs@) == form_pairs_spec(body@));
        }
        NewPollForm {
            country: or_empty_string(first_of(&pairs, "country")),
            person: first_of(&pairs, "person"),
            party: first_of(&pairs, "party"),
            question: or_empty_string(first_of(&pairs, "question")),
            kind: or_empty_string(first_of(&pairs, "kind")),
            media_url: first_of(&pairs, "media_url"),
            media_license: first_of(&pairs, "media_license"),
            options: all_of(&pairs, "option"),
            option_media: all_of(&pairs, "option_media"),
        }
    }
}

/// A missing string read as empty.
fn or_empty_string(v: Option<String>) -> (r: String)
    ensures
        r@ == or_empty(opt_view(v)),
{
    match v {
        Some(s) => s,
        None => String::new(),
    }
}

/// A poll's page.
pub open spec fn poll_page_spec(country: Seq<char>, slug: Seq<char>) -> Seq<char> {
    "/"@ + country + "/poll/"@ + slug
}

/// The page a new poll is shown on, where the admin is sent once it is made.
pub fn poll_page(country: &str, slug: &str) -> (r: String)
    ensures
        r@ == poll_page_spec(country@, slug@),
{
    let mut s = String::new();
    push_str(&mut s, "/");
    push_str(&mut s, country);
    push_str(&mut s, "/poll/");
    push_str(&mut s, slug);
    s
}

/// A trimmed optional string; an empty one becomes `None`.
pub fn trimmed(s: Option<String>) -> (r: Option<String>)
    ensures
        match s {
            Some(v) => if trim(v@).len() > 0 {
                r is Some && r->0@ == trim(v@)
            } else {
                r is None
            },
            None => r is None,
        },
{
    match s {
        Some(v) => {
            let cs = chars_of(v.as_str());
            let (a, b) = trim_bounds(&cs, 0, cs.len());
            assert(cs@.subrange(0, cs.len() as int) =~= v@);
            if a < b {
                Some(string_of(&cs, a, b))
            } else {
                None
            }
        },
        None => None,
    }
}

/// A trimmed text, as `str::trim` gives it.
fn trim_text(s: &str) -> (r: String)
    ensures
        r@ == trim(s@),
{
    let v = chars_of(s);
    let (a, b) = trim_bounds(&v, 0, v.len());
    assert(v@.subrange(0, v.len() as int) =~= s@);
    string_of(&v, a, b)
}

/// The text `trimmed` keeps of an optional form field.
pub open spec fn trimmed_spec(s: Option<String>) -> Option<Seq<char>> {
    match s {
        Some(v) => if trim(v@).len() > 0 {
            Some(trim(v@))
        } else {
            None
        },
        None => None,
    }
}

/// The text of an optional string.
pub open spec fn opt_view(s: Option<String>) -> Option<Seq<char>> {
    match s {
        Some(v) => Some(v@),
        None => None,
    }
}

/// What a review of a draft does: discard it, or publish the given text.
#[derive(Debug)]
pub enum DraftAction {
    Discard,
    Publish(String),
}

/// An emptied draft is discarded; otherwise its trimmed text is published.
pub open spec fn draft_spec(text: Seq<char>, r: DraftAction) -> bool {
    match r {
        DraftAction::Discard => trim(text).len() == 0,
        DraftAction::Publish(t) => trim(text).len() > 0 && t@ == trim(text),
    }
}

fn draft_action(text: &str) -> (r: DraftAction)
    ensures
        draft_spec(text@, r),
{
    let t = trim_text(text);
    if t.as_str().is_empty() {
        DraftAction::Discard
    } else {
        DraftAction::Publish(t)
    }
}

/// The form publishing a news summary draft.
pub struct SummaryForm {
    pub summary: String,
}

impl SummaryForm {
    /// Publish the edited summary, or discard the draft when it was emptied.
    pub fn action(&self) -> (r: DraftAction)
        ensures
            draft_spec(self.summary@, r),
    {
        draft_action(self.summary.as_str())
    }
}

/// The form publishing a draft translation.
pub struct TranslationForm {
    pub text: String,
}

impl TranslationForm {
    /// Publish the edited translation, or discard the draft when it was emptied.
    pub fn action(&self) -> (r: DraftAction)
        ensures
            draft_spec(self.text@, r),
    {
        draft_action(self.text.as_str())
    }
}

/// Which page an admin page was reached from.
pub struct EntityQuery {
    pub country: Option<String>,
    pub person: Option<String>,
    pub party: Option<String>,
}

/// The country a request was made in.
pub struct CountryQuery {
    pub country: Option<String>,
}

/// The manage page of a person in a country.
pub open spec fn person_manage_spec(slug: Seq<char>, country: Seq<char>) -> Seq<char> {
    "/admin/person/"@ + slug + "?country="@ + country
}

/// The path back to a person's manage page.
pub fn person_manage_path(slug: &str, country: &str) -> (r: String)
    ensures
        r@ == person_manage_spec(slug@, country@),
{
    let mut s = String::new();
    push_str(&mut s, "/admin/person/");
    push_str(&mut s, slug);
    push_str(&mut s, "?country=");
    push_str(&mut s, country);
    s
}

impl CountryQuery {
    /// The path back to a person's manage page, in the queried country (none
    /// when the query names none).
    pub fn person_path(&self, slug: &str) -> (r: String)
        ensures
            r@ == person_manage_spec(
                slug@,
                match self.country {
                    Some(c) => c@,
                    None => Seq::<char>::empty(),
                },
            ),
    {
        match &self.country {
            Some(c) => person_manage_path(slug, c.as_str()),
            None => {
                proof {
                    reveal_strlit("");
                }
                person_manage_path(slug, "")
            },
        }
    }
}

/// The add-education form.
pub struct EducationForm {
    pub country: String,
    pub institution: String,
    pub degree: Option<String>,
    pub field: Option<String>,
    pub start_date: Option<String>,
    pub end_date: Option<String>,
    pub source_url: String,
}

/// Two required fields, trimmed, when neither is blank.
pub open spec fn both_present(a: Seq<char>, b: Seq<char>, r: Option<(String, String)>) -> bool {
    match r {
        Some((x, y)) => trim(a).len() > 0 && trim(b).len() > 0 && x@ == trim(a) && y@ == trim(b),
        None => trim(a).len() == 0 || trim(b).len() == 0,
    }
}

fn required_pair(a: &str, b: &str) -> (r: Option<(String, String)>)
    ensures
        both_present(a@, b@, r),
{
    let x = trim_text(a);
    let y = trim_text(b);
    if x.as_str().is_empty() || y.as_str().is_empty() {
        None
    } else {
        Some((x, y))
    }
}

impl EducationForm {
    /// The institution and source URL, trimmed; `None` (a refused form) when
    /// either is blank.
    pub fn required(&self) -> (r: Option<(String, String)>)
        ensures
            both_present(self.institution@, self.source_url@, r),
    {
        required_pair(self.institution.as_str(), self.source_url.as_str())
    }
}

/// The add-attribute form.
pub struct AttributeForm {
    pub country: String,
    pub kind: String,
    pub value: String,
    pub source_url: String,
}

impl AttributeForm {
    /// The value and source URL, trimmed; `None` (a refused form) when either
    /// is blank.
    pub fn required(&self) -> (r: Option<(String, String)>)
        ensures
            both_present(self.value@, self.source_url@, r),
    {
        required_pair(self.value.as_str(), self.source_url.as_str())
    }
}

/// The outlet create/edit form.
pub struct OutletForm {
    pub country: String,
    pub name: String,
    pub slug: String,
    pub homepage_url: Option<String>,
    pub logo_url: Option<String>,
    pub logo_license: Option<String>,
    pub leaning: Option<String>,
    pub summary: Option<String>,
}

impl OutletForm {
    /// The name and slug, trimmed; `None` (a refused form) when either is blank.
    pub fn required(&self) -> (r: Option<(String, String)>)
        ensures
            both_present(self.name@, self.slug@, r),
    {
        required_pair(self.name.as_str(), self.slug.as_str())
    }
}

/// The news relation search's query.
pub struct RelationSearch {
    pub q: Option<String>,
}

/// The news edit form.
pub struct NewsFieldsForm {
    pub headline: String,
    pub our_summary: Option<String>,
    pub author: Option<String>,
}

impl NewsFieldsForm {
    /// The trimmed headline (required) and the optional summary and author,
    /// blank ones dropped; a blank headline is refused.
    pub fn fields(self) -> (r: Result<(String, Option<String>, Option<String>), PageError>)
        ensures
            match r {
                Ok((h, s, a)) => trim(self.headline@).len() > 0 && h@ == trim(self.headline@)
                    && opt_view(s) == trimmed_spec(self.our_summary) && opt_view(a)
                    == trimmed_spec(self.author),
                Err(e) => e == PageError::Server && trim(self.headline@).len() == 0,
            },
    {
        let h = trim_text(self.headline.as_str());
        if h.as_str().is_empty() {
            return Err(PageError::Server);
        }
        Ok((h, trimmed(self.our_summary), trimmed(self.author)))
    }
}

/// What a news item can be linked to.
#[derive(Debug, Clone, Copy, PartialEq, Eq, Structural)]
pub enum LinkTarget {
    Person,
    Party,
}

/// The link target a form's kind names.
pub open spec fn link_target_spec(kind: Seq<char>) -> Option<LinkTarget> {
    if kind == "person"@ {
        Some(LinkTarget::Person)
    } else if kind == "party"@ {
        Some(LinkTarget::Party)
    } else {
        None
    }
}

fn link_target(kind: &str) -> (r: Option<LinkTarget>)
    ensures
        r == link_target_spec(kind@),
{
    if str_eq(kind, "person") {
        Some(LinkTarget::Person)
    } else if str_eq(kind, "party") {
        Some(LinkTarget::Party)
    } else {
        None
    }
}

/// Attach a person or party (by slug) to a news item.
pub struct LinkForm {
    pub kind: String,
    pub slug: String,
}

impl LinkForm {
    /// What to link and the trimmed slug; an unknown kind is refused.
    pub fn target(&self) -> (r: Result<(LinkTarget, String), PageError>)
        ensures
            match r {
                Ok((t, s)) => link_target_spec(self.kind@) == Some(t) && s@ == trim(self.slug@),
                Err(e) => e == PageError::Server && link_target_spec(self.kind@) is None,
            },
    {
        match link_target(self.kind.as_str()) {
            Some(t) => Ok((t, trim_text(self.slug.as_str()))),
            None => Err(PageError::Server),
        }
    }
}

/// Remove a person or party link from a news item.
pub struct UnlinkForm {
    pub kind: String,
    pub id: i64,
}

impl UnlinkForm {
    /// What to unlink; an unknown kind is refused.
    pub fn target(&self) -> (r: Result<(LinkTarget, i64), PageError>)
        ensures
            match r {
                Ok((t, id)) => link_target_spec(self.kind@) == Some(t) && id == self.id,
                Err(e) => e == PageError::Server && link_target_spec(self.kind@) is None,
            },
    {
        match link_target(self.kind.as_str()) {
            Some(t) => Ok((t, self.id)),
            None => Err(PageError::Server),
        }
    }
}

/// The page an add form returns to: the person's page when one is named, else
/// the party's, else the country's.
pub open spec fn entity_return_spec(
    country: Seq<char>,
    person: Option<Seq<char>>,
    party: Option<Seq<char>>,
) -> Seq<char> {
    match person {
        Some(s) if s.len() > 0 => "/"@ + country + "/people/"@ + s,
        _ => match party {
            Some(s) if s.len() > 0 => "/"@ + country + "/parties/"@ + s,
            _ => "/"@ + country,
        },
    }
}

fn entity_return_path(country: &str, person: &Option<String>, party: &Option<String>) -> (r: String)
    ensures
        r@ == entity_return_spec(country@, opt_view(*person), opt_view(*party)),
{
    let mut s = String::new();
    push_str(&mut s, "/");
    push_str(&mut s, country);
    match person {
        Some(p) if !p.as_str().is_empty() => {
            push_str(&mut s, "/people/");
            push_str(&mut s, p.as_str());
            return s;
        },
        _ => {},
    }
    match party {
        Some(p) if !p.as_str().is_empty() => {
            push_str(&mut s, "/parties/");
            push_str(&mut s, p.as_str());
        },
        _ => {},
    }
    s
}

/// The add-news form, reached from a person or party page.
pub struct NewsForm {
    pub country: String,
    pub person: Option<String>,
    pub party: Option<String>,
    pub headline: String,
    pub url: String,
    pub outlet: Option<String>,
    pub published_at: Option<String>,
    pub our_summary: Option<String>,
}

impl NewsForm {
    /// The page to return to once the item is saved.
    pub fn return_path(&self) -> (r: String)
        ensures
            r@ == entity_return_spec(self.country@, opt_view(self.person), opt_view(self.party)),
    {
        entity_return_path(self.country.as_str(), &self.person, &self.party)
    }
}

/// The add-statement form, reached from a person or party page.
pub struct StatementForm {
    pub country: String,
    pub person: Option<String>,
    pub party: Option<String>,
    pub text: String,
    pub url: String,
    pub outlet: Option<String>,
    pub stated_at: Option<String>,
    pub is_paraphrase: Option<String>,
}

impl StatementForm {
    /// The page to return to once the statement is saved.
    pub fn return_path(&self) -> (r: String)
        ensures
            r@ == entity_return_spec(self.country@, opt_view(self.person), opt_view(self.party)),
    {
        entity_return_path(self.country.as_str(), &self.person, &self.party)
    }

    /// Whether the statement is marked as a paraphrase (the box was ticked).
    pub fn paraphrase(&self) -> (r: bool)
        ensures
            r == self.is_paraphrase is Some,
    {
        self.is_paraphrase.is_some()
    }
}

/// The reject form of the submission queue.
pub struct RejectForm {
    pub note: Option<String>,
    pub violation: Option<String>,
}

impl RejectForm {
    /// The moderator's note, trimmed; none when blank.
    pub fn note(self) -> (r: Option<String>)
        ensures
            opt_view(r) == trimmed_spec(self.note),
    {
        trimmed(self.note)
    }

    /// Whether the rejection marks a policy violation (the box was ticked).
    pub fn is_violation(&self) -> (r: bool)
        ensures
            r == self.violation is Some,
    {
        self.violation.is_some()
    }
}

} // verus!
