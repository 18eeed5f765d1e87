//! Dates as the pages show them: `DD Mon YYYY`, with the month abbreviated in
//! the reader's language, and `?` for a date nobody recorded.

use vstd::prelude::*;

use crate::i18n::{month_abbr, month_index, month_names, translate, Lang, Translations};
use crate::num::{decimal, i64_to_string, signed_decimal, u64_to_string};
use crate::text::{push_char, push_str};

verus! {

/// A calendar date as its parts: the year, the month (1 = January) and the day
/// of the month.
#[derive(Clone, Copy, Debug, PartialEq, Eq, Structural)]
pub struct Date {
    pub year: i32,
    pub month: u32,
    pub day: u32,
}

/// `n` written with at least two digits (`{:02}`).
pub open spec fn two_digits(n: nat) -> Seq<char> {
    if n < 10 {
        seq!['0'] + decimal(n)
    } else {
        decimal(n)
    }
}

/// `DD Mon YYYY` in language `l`.
pub open spec fn date_text(d: Date, l: Lang) -> Seq<char> {
    two_digits(d.day as nat) + seq![' '] + month_names(l)[month_index(d.month)] + seq![' ']
        + signed_decimal(d.year as int)
}

/// `?`
pub open spec fn unknown_date() -> Seq<char> {
    seq!['?']
}

/// A date in the page's language: `DD Mon YYYY`.
pub fn date_naive(d: Date, lang: Lang) -> (r: String)
    ensures
        r@ == date_text(d, lang),
{
    let mut s = String::new();
    if d.day < 10 {
        push_char(&mut s, '0');
    }
    let day = u64_to_string(d.day as u64);
    push_str(&mut s, day.as_str());
    push_char(&mut s, ' ');
    push_str(&mut s, month_abbr(lang, d.month));
    push_char(&mut s, ' ');
    let year = i64_to_string(d.year as i64);
    push_str(&mut s, year.as_str());
    assert(s@ =~= date_text(d, lang));
    s
}

/// A recorded date, or `?` when there is none.
pub fn date(d: Option<Date>, lang: Lang) -> (r: String)
    ensures
        r@ == match d {
            Some(d) => date_text(d, lang),
            None => unknown_date(),
        },
{
    match d {
        Some(d) => date_naive(d, lang),
        None => {
            let mut s = String::new();
            push_char(&mut s, '?');
            s
        },
    }
}

/// The text of a date range: both ends when known, `present` in place of a
/// missing end, `?` in place of a missing start, and `?` alone when neither is
/// known.
pub open spec fn date_range_text(
    start: Option<Date>,
    end: Option<Date>,
    l: Lang,
    present: Seq<char>,
) -> Seq<char> {
    let sep = seq![' ', '-', ' '];
    match (start, end) {
        (Some(s), Some(e)) => date_text(s, l) + sep + date_text(e, l),
        (Some(s), None) => date_text(s, l) + sep + present,
        (None, Some(e)) => unknown_date() + sep + date_text(e, l),
        (None, None) => unknown_date(),
    }
}

/// A period such as a term of office, in the page's language.
pub fn date_range(start: Option<Date>, end: Option<Date>, lang: Lang, tr: &Translations) -> (r:
    String)
    ensures
        r@ == date_range_text(start, end, lang, translate(tr, lang, "present"@)),
{
    let present = lang.t(tr, "present");
    let mut s = String::new();
    match (start, end) {
        (Some(a), Some(b)) => {
            push_str(&mut s, date_naive(a, lang).as_str());
            push_str(&mut s, " - ");
            push_str(&mut s, date_naive(b, lang).as_str());
        },
        (Some(a), None) => {
            push_str(&mut s, date_naive(a, lang).as_str());
            push_str(&mut s, " - ");
            push_str(&mut s, present);
        },
        (None, Some(b)) => {
            push_str(&mut s, "? - ");
            push_str(&mut s, date_naive(b, lang).as_str());
        },
        (None, None) => {
            push_char(&mut s, '?');
        },
    }
    proof {
        reveal_strlit(" - ");
        reveal_strlit("? - ");
    }
    assert(s@ =~= date_range_text(start, end, lang, translate(tr, lang, "present"@)));
    s
}

} // verus!
