//! Languages, locale resolution and gettext-style catalogs.
//!
//! Message ids are the English source strings; a locale's catalog maps them to
//! translations, and an untranslated or unknown string falls back to its
//! English source.

use vstd::prelude::*;
use crate::text::{
    chars_of, has_prefix, head_before, head_end, split_ranges, split_spec, starts_within, str_eq,
    string_of, trim, trim_bounds,
};

verus! {

/// The product name (a brand), never translated.
pub const SITE_NAME: &'static str = "open-public";

/// A supported display language.
#[derive(Clone, Copy, Debug, PartialEq, Eq, Structural)]
pub enum Lang {
    En,
    Tr,
    De,
    Fr,
}

/// The BCP-47 code of a language.
pub open spec fn code_spec(l: Lang) -> Seq<char> {
    match l {
        Lang::En => seq!['e', 'n'],
        Lang::Tr => seq!['t', 'r'],
        Lang::De => seq!['d', 'e'],
        Lang::Fr => seq!['f', 'r'],
    }
}

/// The supported language with exactly this code.
pub open spec fn known_spec(code: Seq<char>) -> Option<Lang> {
    if code == code_spec(Lang::En) {
        Some(Lang::En)
    } else if code == code_spec(Lang::Tr) {
        Some(Lang::Tr)
    } else if code == code_spec(Lang::De) {
        Some(Lang::De)
    } else if code == code_spec(Lang::Fr) {
        Some(Lang::Fr)
    } else {
        None
    }
}

/// The language for a code, English for an unknown one.
pub open spec fn from_code_spec(code: Seq<char>) -> Lang {
    match known_spec(code) {
        Some(l) => l,
        None => Lang::En,
    }
}

/// The language named by `v[lo..hi]`, if it is a supported code.
fn known_in(v: &Vec<char>, lo: usize, hi: usize) -> (r: Option<Lang>)
    requires
        lo <= hi <= v.len(),
    ensures
        r == known_spec(v@.subrange(lo as int, hi as int)),
{
    let ghost s = v@.subrange(lo as int, hi as int);
    if hi - lo != 2 {
        assert(s.len() != 2);
        assert(s != code_spec(Lang::En) && s != code_spec(Lang::Tr) && s != code_spec(Lang::De)
            && s != code_spec(Lang::Fr));
        return None;
    }
    let a = v[lo];
    let b = v[lo + 1];
    assert(s =~= seq![a, b]);
    if a == 'e' && b == 'n' {
        Some(Lang::En)
    } else if a == 't' && b == 'r' {
        Some(Lang::Tr)
    } else if a == 'd' && b == 'e' {
        Some(Lang::De)
    } else if a == 'f' && b == 'r' {
        Some(Lang::Fr)
    } else {
        None
    }
}

impl Lang {
    /// BCP-47 code for the `<html lang>` attribute.
    pub fn code(self) -> (r: &'static str)
        ensures
            r@ == code_spec(self),
    {
        match self {
            Lang::En => {
                proof {
                    reveal_strlit("en");
                }
                "en"
            },
            Lang::Tr => {
                proof {
                    reveal_strlit("tr");
                }
                "tr"
            },
            Lang::De => {
                proof {
                    reveal_strlit("de");
                }
                "de"
            },
            Lang::Fr => {
                proof {
                    reveal_strlit("fr");
                }
                "fr"
            },
        }
    }

    /// Resolve a language code to a supported language; unknown codes fall back
    /// to English, the source language.
    pub fn from_code(code: &str) -> (r: Lang)
        ensures
            r == from_code_spec(code@),
    {
        let v = chars_of(code);
        assert(v@.subrange(0, v.len() as int) =~= v@);
        match known_in(&v, 0, v.len()) {
            Some(l) => l,
            None => Lang::En,
        }
    }

    /// A supported language for this exact code, or `None` if unsupported.
    pub fn known(code: &str) -> (r: Option<Lang>)
        ensures
            r == known_spec(code@),
    {
        let v = chars_of(code);
        assert(v@.subrange(0, v.len() as int) =~= v@);
        known_in(&v, 0, v.len())
    }

    /// Every supported language, in switcher order.
    pub fn all() -> (r: [Lang; 4])
        ensures
            r@ == seq![Lang::En, Lang::Tr, Lang::De, Lang::Fr],
    {
        [Lang::En, Lang::Tr, Lang::De, Lang::Fr]
    }

    /// Whether this is the locale `active` for the current request.
    pub fn is_active(self, active: Lang) -> (r: bool)
        ensures
            r == (self == active),
    {
        self == active
    }

    /// The short label shown in the language switcher.
    pub fn label(self) -> (r: &'static str)
        ensures
            r@ == label_spec(self),
    {
        match self {
            Lang::En => "EN",
            Lang::Tr => "TR",
            Lang::De => "DE",
            Lang::Fr => "FR",
        }
    }

    /// The language's own name (endonym), for the switcher menu.
    pub fn name(self) -> (r: &'static str)
        ensures
            r@ == name_spec(self),
    {
        match self {
            Lang::En => "English",
            Lang::Tr => "Türkçe",
            Lang::De => "Deutsch",
            Lang::Fr => "Français",
        }
    }
}

/// The switcher label of a language.
pub open spec fn label_spec(l: Lang) -> Seq<char> {
    match l {
        Lang::En => "EN"@,
        Lang::Tr => "TR"@,
        Lang::De => "DE"@,
        Lang::Fr => "FR"@,
    }
}

/// The endonym of a language.
pub open spec fn name_spec(l: Lang) -> Seq<char> {
    match l {
        Lang::En => "English"@,
        Lang::Tr => "Türkçe"@,
        Lang::De => "Deutsch"@,
        Lang::Fr => "Français"@,
    }
}

/// The language named by one `Accept-Language` entry: the tag before any `;`
/// parameters, trimmed, and its primary subtag before any `-` or `_`.
pub open spec fn tag_lang(part: Seq<char>) -> Option<Lang> {
    known_spec(head_before(trim(head_before(part, ';', ';')), '-', '_'))
}

/// The first supported language among the entries, in header order.
pub open spec fn first_known(parts: Seq<Seq<char>>) -> Option<Lang>
    decreases parts.len(),
{
    if parts.len() == 0 {
        None
    } else if tag_lang(parts[0]) is Some {
        tag_lang(parts[0])
    } else {
        first_known(parts.drop_first())
    }
}

/// The locale a request resolves to: a known cookie language wins, then the
/// first supported tag of `Accept-Language`, then the deployment default.
pub open spec fn resolve_spec(
    cookie: Option<Seq<char>>,
    accept: Option<Seq<char>>,
    default: Lang,
) -> Lang {
    if cookie is Some && known_spec(cookie->0) is Some {
        known_spec(cookie->0)->0
    } else if accept is Some && first_known(split_spec(accept->0, ',')) is Some {
        first_known(split_spec(accept->0, ','))->0
    } else {
        default
    }
}

/// The visitor's choice comes first: a cookie naming a supported language
/// decides the locale whatever the browser prefers; without one, the first
/// supported `Accept-Language` tag decides; only then the deployment default.
pub proof fn law_cookie_then_header_then_default(
    cookie: Option<Seq<char>>,
    accept: Option<Seq<char>>,
    default: Lang,
)
    ensures
        match cookie {
            Some(c) => known_spec(c) is Some ==> resolve_spec(cookie, accept, default)
                == known_spec(c)->0,
            None => true,
        },
        !(cookie matches Some(c) && known_spec(c) is Some) ==> match accept {
            Some(a) => match first_known(split_spec(a, ',')) {
                Some(l) => resolve_spec(cookie, accept, default) == l,
                None => resolve_spec(cookie, accept, default) == default,
            },
            None => resolve_spec(cookie, accept, default) == default,
        },
{
}

proof fn lemma_first_known_skip(parts: Seq<Seq<char>>, i: int)
    requires
        0 <= i <= parts.len(),
        forall|k: int| 0 <= k < i ==> tag_lang(#[trigger] parts[k]) is None,
    ensures
        first_known(parts) == first_known(parts.subrange(i, parts.len() as int)),
    decreases i,
{
    if i == 0 {
        assert(parts.subrange(0, parts.len() as int) =~= parts);
    } else {
        lemma_first_known_skip(parts.drop_first(), i - 1);
        assert(parts.drop_first().subrange(i - 1, parts.drop_first().len() as int)
            =~= parts.subrange(i, parts.len() as int));
    }
}

/// The first supported language in an `Accept-Language` header.
fn header_lang(header: &str) -> (r: Option<Lang>)
    ensures
        r == first_known(split_spec(header@, ',')),
{
    let v = chars_of(header);
    let parts = split_ranges(&v, 0, v.len(), ',');
    let ghost ps = split_spec(v@.subrange(0, v.len() as int), ',');
    assert(v@.subrange(0, v.len() as int) =~= v@);
    let mut i: usize = 0;
    while i < parts.len()
        invariant
            i <= parts@.len(),
            v@ == header@,
            ps == split_spec(header@, ','),
            parts@.len() == ps.len(),
            forall|k: int|
                0 <= k < parts@.len() ==> (#[trigger] parts@[k]).0 <= parts@[k].1 <= v.len()
                    && v@.subrange(parts@[k].0 as int, parts@[k].1 as int) == ps[k],
            forall|k: int| 0 <= k < i ==> tag_lang(#[trigger] ps[k]) is None,
        decreases parts@.len() - i,
    {
        let (lo, hi) = parts[i];
        let semi = head_end(&v, lo, hi, ';', ';');
        let (a, b) = trim_bounds(&v, lo, semi);
        let c = head_end(&v, a, b, '-', '_');
        let found = known_in(&v, a, c);
        assert(found == tag_lang(ps[i as int]));
        if let Some(l) = found {
            proof {
                lemma_first_known_skip(ps, i as int);
            }
            return Some(l);
        }
        i = i + 1;
    }
    proof {
        lemma_first_known_skip(ps, i as int);
    }
    None
}

/// Resolve the request locale: an explicit `lang` cookie wins (the visitor
/// chose), then the best match from `Accept-Language` (the browser's
/// preference), then the deployment default.
pub fn resolve(cookie_lang: Option<&str>, accept_language: Option<&str>, default: Lang) -> (r: Lang)
    ensures
        r == resolve_spec(
            match cookie_lang {
                Some(c) => Some(c@),
                None => None,
            },
            match accept_language {
                Some(a) => Some(a@),
                None => None,
            },
            default,
        ),
{
    if let Some(code) = cookie_lang {
        if let Some(lang) = Lang::known(code) {
            return lang;
        }
    }
    if let Some(header) = accept_language {
        if let Some(lang) = header_lang(header) {
            return lang;
        }
    }
    default
}

/// The localized three-letter abbreviations of the months, January first.
pub open spec fn month_names(l: Lang) -> Seq<Seq<char>> {
    match l {
        Lang::En => seq![
            "Jan"@, "Feb"@, "Mar"@, "Apr"@, "May"@, "Jun"@, "Jul"@, "Aug"@, "Sep"@, "Oct"@,
            "Nov"@, "Dec"@,
        ],
        Lang::Tr => seq![
            "Oca"@, "Şub"@, "Mar"@, "Nis"@, "May"@, "Haz"@, "Tem"@, "Ağu"@, "Eyl"@, "Eki"@,
            "Kas"@, "Ara"@,
        ],
        Lang::De => seq![
            "Jan"@, "Feb"@, "Mär"@, "Apr"@, "Mai"@, "Jun"@, "Jul"@, "Aug"@, "Sep"@, "Okt"@,
            "Nov"@, "Dez"@,
        ],
        Lang::Fr => seq![
            "janv."@, "févr."@, "mars"@, "avr."@, "mai"@, "juin"@, "juil."@, "août"@, "sept."@,
            "oct."@, "nov."@, "déc."@,
        ],
    }
}

/// The month number clamped into `1..=12`, as an index from zero.
pub open spec fn month_index(month: u32) -> int {
    if month < 1 {
        0
    } else if month > 12 {
        11
    } else {
        month - 1
    }
}

/// A localized three-letter month abbreviation (1 = January); months outside
/// `1..=12` are clamped into it.
pub fn month_abbr(lang: Lang, month: u32) -> (r: &'static str)
    ensures
        r@ == month_names(lang)[month_index(month)],
{
    let m = if month < 1 {
        1
    } else if month > 12 {
        12
    } else {
        month
    };
    let i = (m - 1) as usize;
    let names: [&'static str; 12] = match lang {
        Lang::En => ["Jan", "Feb", "Mar", "Apr", "May", "Jun", "Jul", "Aug", "Sep", "Oct", "Nov", "Dec"],
        Lang::Tr => ["Oca", "Şub", "Mar", "Nis", "May", "Haz", "Tem", "Ağu", "Eyl", "Eki", "Kas", "Ara"],
        Lang::De => ["Jan", "Feb", "Mär", "Apr", "Mai", "Jun", "Jul", "Aug", "Sep", "Okt", "Nov", "Dez"],
        Lang::Fr => [
            "janv.", "févr.", "mars", "avr.", "mai", "juin", "juil.", "août", "sept.", "oct.",
            "nov.", "déc.",
        ],
    };
    names[i]
}

/// The English month names, January first.
pub open spec fn english_month_names() -> Seq<Seq<char>> {
    seq!["January"@, "February"@, "March"@, "April"@, "May"@, "June"@, "July"@, "August"@, "September"@, "October"@, "November"@, "December"@]
}

/// In English, month `m` (1 = January) is abbreviated to the first three
/// letters of the `m`-th month's name, in calendar order, and a month number
/// outside `1..=12` is read as the nearest of them.
pub proof fn law_english_months_in_calendar_order(m: u32)
    ensures
        1 <= m <= 12 ==> month_names(Lang::En)[month_index(m)] == english_month_names()[m - 1].take(3),
        m < 1 ==> month_names(Lang::En)[month_index(m)] == english_month_names()[0].take(3),
        m > 12 ==> month_names(Lang::En)[month_index(m)] == english_month_names()[11].take(3),
{
    reveal_strlit("January");
    reveal_strlit("February");
    reveal_strlit("March");
    reveal_strlit("April");
    reveal_strlit("May");
    reveal_strlit("June");
    reveal_strlit("July");
    reveal_strlit("August");
    reveal_strlit("September");
    reveal_strlit("October");
    reveal_strlit("November");
    reveal_strlit("December");
    reveal_strlit("Jan");
    reveal_strlit("Feb");
    reveal_strlit("Mar");
    reveal_strlit("Apr");
    reveal_strlit("May");
    reveal_strlit("Jun");
    reveal_strlit("Jul");
    reveal_strlit("Aug");
    reveal_strlit("Sep");
    reveal_strlit("Oct");
    reveal_strlit("Nov");
    reveal_strlit("Dec");
    let full = english_month_names();
    let names = month_names(Lang::En);
    assert(full[0].take(3) =~= names[0]);
    assert(full[1].take(3) =~= names[1]);
    assert(full[2].take(3) =~= names[2]);
    assert(full[3].take(3) =~= names[3]);
    assert(full[4].take(3) =~= names[4]);
    assert(full[5].take(3) =~= names[5]);
    assert(full[6].take(3) =~= names[6]);
    assert(full[7].take(3) =~= names[7]);
    assert(full[8].take(3) =~= names[8]);
    assert(full[9].take(3) =~= names[9]);
    assert(full[10].take(3) =~= names[10]);
    assert(full[11].take(3) =~= names[11]);
}

/// Every language's code names it again.
pub proof fn law_code_roundtrip(l: Lang)
    ensures
        known_spec(code_spec(l)) == Some(l),
        from_code_spec(code_spec(l)) == l,
{
}

/// The character a `.po` escape `\c` stands for.
pub open spec fn escaped(c: char) -> char {
    if c == 'n' {
        '\n'
    } else if c == 't' {
        '\t'
    } else if c == 'r' {
        '\r'
    } else {
        c
    }
}

/// The text of a `.po` string body with its escapes resolved: `\n`, `\t`, `\r`
/// stand for control characters, any other escaped character for itself, and a
/// dangling final backslash is dropped.
pub open spec fn unescape(s: Seq<char>) -> Seq<char>
    decreases s.len(),
{
    if s.len() == 0 {
        s
    } else if s[0] == '\\' {
        if s.len() == 1 {
            Seq::<char>::empty()
        } else {
            seq![escaped(s[1])] + unescape(s.subrange(2, s.len() as int))
        }
    } else {
        seq![s[0]] + unescape(s.drop_first())
    }
}

/// A `.po` string literal unquoted: trimmed, the surrounding quotes removed when
/// both are there, then unescaped.
pub open spec fn unquote_spec(s: Seq<char>) -> Seq<char> {
    let t = trim(s);
    if t.len() >= 2 && t[0] == '"' && t.last() == '"' {
        unescape(t.subrange(1, t.len() - 1))
    } else {
        unescape(t)
    }
}

/// Which part of an entry quoted continuation lines extend.
#[derive(Clone, Copy, PartialEq, Eq, Structural)]
pub enum Field {
    Nothing,
    Id,
    Str,
}

/// The state of the `.po` reader between lines.
pub struct PoState {
    pub messages: Map<Seq<char>, Seq<char>>,
    pub id: Option<Seq<char>>,
    pub text: Option<Seq<char>>,
    pub field: Field,
}

/// The reader before the first line.
pub open spec fn po_init() -> PoState {
    PoState { messages: Map::empty(), id: None, text: None, field: Field::Nothing }
}

/// Store a completed entry, dropping the header (empty id) and untranslated
/// strings (empty text); the pending id and text are cleared either way.
pub open spec fn po_flush(st: PoState) -> PoState {
    let messages = match (st.id, st.text) {
        (Some(i), Some(t)) => if i.len() > 0 && t.len() > 0 {
            st.messages.insert(i, t)
        } else {
            st.messages
        },
        _ => st.messages,
    };
    PoState { messages, id: None, text: None, field: st.field }
}

/// `Some(x + piece)`, treating a missing `x` as empty.
pub open spec fn extend(x: Option<Seq<char>>, piece: Seq<char>) -> Option<Seq<char>> {
    match x {
        Some(y) => Some(y + piece),
        None => Some(piece),
    }
}

pub open spec fn kw_msgid() -> Seq<char> {
    seq!['m', 's', 'g', 'i', 'd', ' ']
}

pub open spec fn kw_msgstr() -> Seq<char> {
    seq!['m', 's', 'g', 's', 't', 'r', ' ']
}

/// One line of a `.po` file read into the state. The line is trimmed first; a
/// blank line ends an entry, `#` lines are comments, `msgid ` and `msgstr `
/// start the id and the text, a quoted line continues whichever is being read,
/// and any other keyword (`msgctxt`, `msgid_plural`) stops continuation.
pub open spec fn po_step(st: PoState, raw: Seq<char>) -> PoState {
    let line = trim(raw);
    if line.len() == 0 {
        let f = po_flush(st);
        PoState { field: Field::Nothing, ..f }
    } else if line[0] == '#' {
        st
    } else if has_prefix(line, kw_msgid()) {
        let f = po_flush(st);
        PoState {
            id: Some(unquote_spec(line.subrange(6, line.len() as int))),
            field: Field::Id,
            ..f
        }
    } else if has_prefix(line, kw_msgstr()) {
        PoState {
            text: Some(unquote_spec(line.subrange(7, line.len() as int))),
            field: Field::Str,
            ..st
        }
    } else if line[0] == '"' {
        match st.field {
            Field::Id => PoState { id: extend(st.id, unquote_spec(line)), ..st },
            Field::Str => PoState { text: extend(st.text, unquote_spec(line)), ..st },
            Field::Nothing => st,
        }
    } else {
        PoState { field: Field::Nothing, ..st }
    }
}

/// The state after reading `lines` in order.
pub open spec fn po_run(lines: Seq<Seq<char>>) -> PoState
    decreases lines.len(),
{
    if lines.len() == 0 {
        po_init()
    } else {
        po_step(po_run(lines.drop_last()), lines.last())
    }
}

/// The catalog a `.po` text describes: its lines (split at `\n`; a `\r` before
/// it is white space and trimmed away) read in order, then the last entry stored.
pub open spec fn po_catalog(src: Seq<char>) -> Map<Seq<char>, Seq<char>> {
    po_flush(po_run(split_spec(src, '\n'))).messages
}

/// The map an association list describes, a later pair overriding an earlier one.
pub open spec fn pairs_map(p: Seq<(Seq<char>, Seq<char>)>) -> Map<Seq<char>, Seq<char>>
    decreases p.len(),
{
    if p.len() == 0 {
        Map::empty()
    } else {
        pairs_map(p.drop_last()).insert(p.last().0, p.last().1)
    }
}

/// The characters of each pair of strings.
pub open spec fn pairs_view(v: Seq<(String, String)>) -> Seq<(Seq<char>, Seq<char>)> {
    v.map_values(|p: (String, String)| (p.0@, p.1@))
}

/// What a lookup of `k` in `m` shows: the translation, or `k` itself.
pub open spec fn lookup(m: Map<Seq<char>, Seq<char>>, k: Seq<char>) -> Seq<char> {
    if m.contains_key(k) {
        m[k]
    } else {
        k
    }
}

/// The last pair with key `k` decides what `pairs_map` holds for `k`.
pub proof fn lemma_pairs_map_last(p: Seq<(Seq<char>, Seq<char>)>, k: Seq<char>, i: int)
    requires
        -1 <= i < p.len(),
        forall|m: int| i < m < p.len() ==> (#[trigger] p[m]).0 != k,
        i >= 0 ==> p[i].0 == k,
    ensures
        i >= 0 ==> pairs_map(p).contains_key(k) && pairs_map(p)[k] == p[i].1,
        i < 0 ==> !pairs_map(p).contains_key(k),
    decreases p.len(),
{
    if p.len() > 0 {
        if i == p.len() - 1 {
        } else {
            lemma_pairs_map_last(p.drop_last(), k, i);
        }
    }
}

/// A parsed gettext catalog: `msgid` -> `msgstr` for one locale.
pub struct Catalog {
    messages: Vec<(String, String)>,
}

impl View for Catalog {
    type V = Map<Seq<char>, Seq<char>>;

    closed spec fn view(&self) -> Map<Seq<char>, Seq<char>> {
        pairs_map(pairs_view(self.messages@))
    }
}

/// The reader's state while parsing, in executable form.
struct Reader {
    messages: Vec<(String, String)>,
    id: Option<Vec<char>>,
    text: Option<Vec<char>>,
    field: Field,
}

spec fn opt_view(o: Option<Vec<char>>) -> Option<Seq<char>> {
    match o {
        Some(v) => Some(v@),
        None => None,
    }
}

impl Reader {
    spec fn state(&self) -> PoState {
        PoState {
            messages: pairs_map(pairs_view(self.messages@)),
            id: opt_view(self.id),
            text: opt_view(self.text),
            field: self.field,
        }
    }

    fn flush(&mut self)
        ensures
            final(self).state() == po_flush(old(self).state()),
    {
        let id = self.id.take();
        let text = self.text.take();
        if let (Some(i), Some(t)) = (id, text) {
            if i.len() > 0 && t.len() > 0 {
                let ghost before = self.messages@;
                let ks = string_of(&i, 0, i.len());
                let ts = string_of(&t, 0, t.len());
                assert(i@.subrange(0, i.len() as int) =~= i@);
                assert(t@.subrange(0, t.len() as int) =~= t@);
                self.messages.push((ks, ts));
                assert(pairs_view(self.messages@).drop_last() =~= pairs_view(before));
            }
        }
    }
}

/// `v[lo..hi]` with its `.po` escapes resolved.
fn unescape_range(v: &Vec<char>, lo: usize, hi: usize) -> (out: Vec<char>)
    requires
        lo <= hi <= v.len(),
    ensures
        out@ == unescape(v@.subrange(lo as int, hi as int)),
{
    let mut out: Vec<char> = Vec::new();
    let mut i = lo;
    while i < hi
        invariant
            lo <= i <= hi <= v.len(),
            out@ + unescape(v@.subrange(i as int, hi as int)) == unescape(
                v@.subrange(lo as int, hi as int),
            ),
        decreases hi - i,
    {
        let ghost rest = v@.subrange(i as int, hi as int);
        let c = v[i];
        if c == '\\' {
            if i + 1 < hi {
                let d = v[i + 1];
                let e = if d == 'n' {
                    '\n'
                } else if d == 't' {
                    '\t'
                } else if d == 'r' {
                    '\r'
                } else {
                    d
                };
                assert(rest.subrange(2, rest.len() as int) =~= v@.subrange(i + 2, hi as int));
                assert(out@.push(e) + unescape(v@.subrange(i + 2, hi as int)) =~= out@ + unescape(
                    rest,
                ));
                out.push(e);
                i = i + 2;
            } else {
                assert(unescape(rest) =~= Seq::<char>::empty());
                assert(v@.subrange(hi as int, hi as int) =~= Seq::<char>::empty());
                i = i + 1;
            }
        } else {
            assert(rest.drop_first() =~= v@.subrange(i + 1, hi as int));
            assert(out@.push(c) + unescape(v@.subrange(i + 1, hi as int)) =~= out@ + unescape(
                rest,
            ));
            out.push(c);
            i = i + 1;
        }
    }
    assert(v@.subrange(hi as int, hi as int) =~= Seq::<char>::empty());
    assert(out@ + Seq::<char>::empty() =~= out@);
    out
}

/// `v[lo..hi]` read as a `.po` string literal.
fn unquote_range(v: &Vec<char>, lo: usize, hi: usize) -> (out: Vec<char>)
    requires
        lo <= hi <= v.len(),
    ensures
        out@ == unquote_spec(v@.subrange(lo as int, hi as int)),
{
    let (a, b) = trim_bounds(v, lo, hi);
    let ghost t = v@.subrange(a as int, b as int);
    if b - a >= 2 && v[a] == '"' && v[b - 1] == '"' {
        assert(t.subrange(1, t.len() - 1) =~= v@.subrange(a + 1, b - 1));
        unescape_range(v, a + 1, b - 1)
    } else {
        unescape_range(v, a, b)
    }
}

impl Catalog {
    /// Parse the text of a gettext `.po` file.
    ///
    /// Handles comments, multi-line quoted strings and the standard escape
    /// sequences. The header entry (empty msgid) and entries with an empty
    /// msgstr are skipped, so those strings fall back to their msgid.
    pub fn parse(src: &str) -> (cat: Catalog)
        ensures
            cat@ == po_catalog(src@),
    {
        let v = chars_of(src);
        let lines = split_ranges(&v, 0, v.len(), '\n');
        let ghost ls = split_spec(v@.subrange(0, v.len() as int), '\n');
        assert(v@.subrange(0, v.len() as int) =~= src@);
        let msgid_kw: Vec<char> = vec!['m', 's', 'g', 'i', 'd', ' '];
        let msgstr_kw: Vec<char> = vec!['m', 's', 'g', 's', 't', 'r', ' '];
        assert(msgid_kw@ =~= kw_msgid());
        assert(msgstr_kw@ =~= kw_msgstr());
        let mut rd = Reader { messages: Vec::new(), id: None, text: None, field: Field::Nothing };
        assert(pairs_view(rd.messages@) =~= Seq::<(Seq<char>, Seq<char>)>::empty());
        assert(rd.state() == po_run(ls.subrange(0, 0)));
        let mut n: usize = 0;
        while n < lines.len()
            invariant
                n <= lines@.len(),
                lines@.len() == ls.len(),
                msgid_kw@ == kw_msgid(),
                msgstr_kw@ == kw_msgstr(),
                forall|k: int|
                    0 <= k < lines@.len() ==> (#[trigger] lines@[k]).0 <= lines@[k].1 <= v.len()
                        && v@.subrange(lines@[k].0 as int, lines@[k].1 as int) == ls[k],
                rd.state() == po_run(ls.subrange(0, n as int)),
            decreases lines@.len() - n,
        {
            let (lo, hi) = lines[n];
            let ghost before = rd.state();
            let ghost raw = ls[n as int];
            let (a, b) = trim_bounds(&v, lo, hi);
            let ghost line = v@.subrange(a as int, b as int);
            assert(line == crate::text::trim(raw));
            if a == b {
                rd.flush();
                rd.field = Field::Nothing;
            } else if v[a] == '#' {
            } else if starts_within(&v, a, b, &msgid_kw) {
                rd.flush();
                assert(line.subrange(6, line.len() as int) =~= v@.subrange(a + 6, b as int));
                rd.id = Some(unquote_range(&v, a + 6, b));
                rd.field = Field::Id;
            } else if starts_within(&v, a, b, &msgstr_kw) {
                assert(line.subrange(7, line.len() as int) =~= v@.subrange(a + 7, b as int));
                rd.text = Some(unquote_range(&v, a + 7, b));
                rd.field = Field::Str;
            } else if v[a] == '"' {
                let piece = unquote_range(&v, a, b);
                match rd.field {
                    Field::Id => {
                        let mut cur = match rd.id.take() {
                            Some(x) => x,
                            None => Vec::new(),
                        };
                        let ghost c0 = cur@;
                        let mut k: usize = 0;
                        while k < piece.len()
                            invariant
                                k <= piece.len(),
                                cur@ == c0 + piece@.subrange(0, k as int),
                            decreases piece.len() - k,
                        {
                            cur.push(piece[k]);
                            assert(piece@.subrange(0, k + 1) =~= piece@.subrange(0, k as int).push(
                                piece@[k as int],
                            ));
                            k = k + 1;
                        }
                        assert(piece@.subrange(0, piece.len() as int) =~= piece@);
                        rd.id = Some(cur);
                    },
                    Field::Str => {
                        let mut cur = match rd.text.take() {
                            Some(x) => x,
                            None => Vec::new(),
                        };
                        let ghost c0 = cur@;
                        let mut k: usize = 0;
                        while k < piece.len()
                            invariant
                                k <= piece.len(),
                                cur@ == c0 + piece@.subrange(0, k as int),
                            decreases piece.len() - k,
                        {
                            cur.push(piece[k]);
                            assert(piece@.subrange(0, k + 1) =~= piece@.subrange(0, k as int).push(
                                piece@[k as int],
                            ));
                            k = k + 1;
                        }
                        assert(piece@.subrange(0, piece.len() as int) =~= piece@);
                        rd.text = Some(cur);
                    },
                    Field::Nothing => {},
                }
            } else {
                rd.field = Field::Nothing;
            }
            proof {
                assert(ls.subrange(0, n + 1).drop_last() =~= ls.subrange(0, n as int));
                assert(rd.state() == po_step(before, raw));
            }
            n = n + 1;
        }
        rd.flush();
        assert(ls.subrange(0, n as int) =~= ls);
        Catalog { messages: rd.messages }
    }

    /// The translation for `msgid`, or `msgid` itself when untranslated.
    pub fn get<'a>(&'a self, msgid: &'a str) -> (r: &'a str)
        ensures
            r@ == lookup(self@, msgid@),
    {
        let ghost p = pairs_view(self.messages@);
        let mut k = self.messages.len();
        while k > 0
            invariant
                k <= self.messages@.len(),
                p == pairs_view(self.messages@),
                forall|m: int| k <= m < p.len() ==> (#[trigger] p[m]).0 != msgid@,
            decreases k,
        {
            k = k - 1;
            if str_eq(self.messages[k].0.as_str(), msgid) {
                proof {
                    lemma_pairs_map_last(p, msgid@, k as int);
                }
                return self.messages[k].1.as_str();
            }
        }
        proof {
            lemma_pairs_map_last(p, msgid@, -1);
        }
        msgid
    }
}

/// The catalogs of every translated locale (English is the source language
/// and needs none).
pub struct Translations {
    pub tr: Catalog,
    pub de: Catalog,
    pub fr: Catalog,
}

/// `msgid` in language `l`: the source string for English, else the catalog's
/// translation with the source string as the fallback.
pub open spec fn translate(tr: &Translations, l: Lang, msgid: Seq<char>) -> Seq<char> {
    match l {
        Lang::En => msgid,
        Lang::Tr => lookup(tr.tr@, msgid),
        Lang::De => lookup(tr.de@, msgid),
        Lang::Fr => lookup(tr.fr@, msgid),
    }
}

impl Translations {
    /// Parse the three locale catalogs from their `.po` texts.
    pub fn parse(tr: &str, de: &str, fr: &str) -> (r: Translations)
        ensures
            r.tr@ == po_catalog(tr@),
            r.de@ == po_catalog(de@),
            r.fr@ == po_catalog(fr@),
    {
        Translations { tr: Catalog::parse(tr), de: Catalog::parse(de), fr: Catalog::parse(fr) }
    }
}

impl Lang {
    /// Translate an English source string into this language, falling back to
    /// the source string when there is no translation.
    pub fn t<'a>(self, tr: &'a Translations, msgid: &'a str) -> (r: &'a str)
        ensures
            r@ == translate(tr, self, msgid@),
    {
        match self {
            Lang::En => msgid,
            Lang::Tr => tr.tr.get(msgid),
            Lang::De => tr.de.get(msgid),
            Lang::Fr => tr.fr.get(msgid),
        }
    }
}

/// The currently active language: the one resolved for the request being
/// handled, else (outside a request) the deployment default.
pub fn current(request: Option<Lang>, deployment: Lang) -> (r: Lang)
    ensures
        r == match request {
            Some(l) => l,
            None => deployment,
        },
{
    match request {
        Some(l) => l,
        None => deployment,
    }
}

/// Translate `msgid` in the request's `active` locale.
pub fn t<'a>(active: Lang, tr: &'a Translations, msgid: &'a str) -> (r: &'a str)
    ensures
        r@ == translate(tr, active, msgid@),
{
    active.t(tr, msgid)
}

/// Translate a runtime string (a short controlled-vocabulary value stored in
/// the source language) via the active locale's catalog, falling back to the
/// string itself.
pub fn t_dyn<'a>(active: Lang, tr: &'a Translations, s: &'a str) -> (r: &'a str)
    ensures
        r@ == translate(tr, active, s@),
{
    active.t(tr, s)
}

/// The active locale's `<html lang>` code.
pub fn lang_code(active: Lang) -> (r: &'static str)
    ensures
        r@ == code_spec(active),
{
    active.code()
}

/// The absolute URL of the current request, when one is known: `None` when no
/// address was recorded or it is empty.
pub fn request_url(recorded: Option<String>) -> (r: Option<String>)
    ensures
        r == match recorded {
            Some(u) => if u@.len() > 0 {
                Some(u)
            } else {
                None
            },
            None => None,
        },
{
    match recorded {
        Some(u) => if u.as_str().is_empty() {
            None
        } else {
            Some(u)
        },
        None => None,
    }
}

/// Every stored entry has a non-empty id and a non-empty text.
pub open spec fn entries_nonempty(m: Map<Seq<char>, Seq<char>>) -> bool {
    forall|k: Seq<char>| #[trigger] m.contains_key(k) ==> k.len() > 0 && m[k].len() > 0
}

proof fn lemma_run_nonempty(lines: Seq<Seq<char>>)
    ensures
        entries_nonempty(po_run(lines).messages),
    decreases lines.len(),
{
    if lines.len() > 0 {
        lemma_run_nonempty(lines.drop_last());
    }
}

/// The header entry (empty msgid) and untranslated entries (empty msgstr) are
/// never stored, so such strings always fall back to their msgid.
pub proof fn law_catalog_skips_empty(src: Seq<char>, k: Seq<char>)
    ensures
        po_catalog(src).contains_key(k) ==> k.len() > 0 && po_catalog(src)[k].len() > 0,
        lookup(po_catalog(src), Seq::<char>::empty()) == Seq::<char>::empty(),
{
    lemma_run_nonempty(split_spec(src, '\n'));
    let m = po_catalog(src);
    assert(!m.contains_key(Seq::<char>::empty()));
}

/// English is the identity locale: every string translates to itself.
pub proof fn law_english_is_identity(tr: &Translations, msgid: Seq<char>)
    ensures
        translate(tr, Lang::En, msgid) == msgid,
{
}

/// A string the catalog does not hold falls back to itself in every language.
pub proof fn law_untranslated_falls_back(tr: &Translations, l: Lang, msgid: Seq<char>)
    requires
        !tr.tr@.contains_key(msgid),
        !tr.de@.contains_key(msgid),
        !tr.fr@.contains_key(msgid),
    ensures
        translate(tr, l, msgid) == msgid,
{
}

} // verus!
