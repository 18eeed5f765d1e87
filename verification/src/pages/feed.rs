//! The personal feed of followed people, parties and countries.

use vstd::prelude::*;

use crate::i18n::{translate, Lang, Translations};
use crate::text::str_eq;

verus! {

/// How many items the feed shows.
pub const FEED_LIMIT: i64 = 40;

/// The English tag of a feed item kind; news for any other kind.
pub open spec fn feed_label(kind: Seq<char>) -> Seq<char> {
    if kind == "poll"@ {
        "Poll"@
    } else if kind == "election"@ {
        "Election"@
    } else {
        "News"@
    }
}

/// A short localized tag for a feed item kind.
pub fn kind_label<'a>(kind: &str, lang: Lang, tr: &'a Translations) -> (r: &'a str)
    ensures
        r@ == translate(tr, lang, feed_label(kind@)),
{
    let source = if str_eq(kind, "poll") {
        "Poll"
    } else if str_eq(kind, "election") {
        "Election"
    } else {
        "News"
    };
    lang.t(tr, source)
}

} // verus!
