//! The polls index: its search parameter and the labels of poll kinds.

use vstd::prelude::*;

use crate::i18n::{translate, Lang, Translations};
use crate::pages::rows::{picked, split_indices};
use crate::text::str_eq;

verus! {

/// The index's query parameters: the search text.
pub struct Params {
    pub q: Option<String>,
}

/// Whether a poll has closed at `now`: it has a close time and that time has
/// come. A poll with no close time, or a future one, is open.
pub open spec fn closed_at(closes_at: Option<i64>, now: i64) -> bool {
    match closes_at {
        Some(c) => c <= now,
        None => false,
    }
}

/// For each poll, whether it has closed at `now`.
pub open spec fn closed_flags(closes_at: Seq<Option<i64>>, now: i64) -> Seq<bool> {
    closes_at.map_values(|c: Option<i64>| closed_at(c, now))
}

/// The polls split by their close times (seconds since the epoch) at `now`:
/// the indices of the open ones, then of the closed ones, each in the listed
/// order.
pub fn open_and_closed(closes_at: &Vec<Option<i64>>, now: i64) -> (r: (Vec<usize>, Vec<usize>))
    ensures
        r.0@ == picked(closed_flags(closes_at@, now), false),
        r.1@ == picked(closed_flags(closes_at@, now), true),
{
    let mut flags: Vec<bool> = Vec::new();
    let mut i: usize = 0;
    while i < closes_at.len()
        invariant
            i <= closes_at@.len(),
            flags@ == closed_flags(closes_at@, now).take(i as int),
        decreases closes_at.len() - i,
    {
        let closed = match closes_at[i] {
            Some(c) => c <= now,
            None => false,
        };
        flags.push(closed);
        i = i + 1;
        proof {
            assert(flags@ =~= closed_flags(closes_at@, now).take(i as int));
        }
    }
    proof {
        assert(closed_flags(closes_at@, now).take(closes_at@.len() as int) =~= closed_flags(
            closes_at@,
            now,
        ));
    }
    let (closed, open) = split_indices(&flags);
    (open, closed)
}

/// The English label of a poll kind; single choice for any other kind.
pub open spec fn poll_kind_label(kind: Seq<char>) -> Seq<char> {
    if kind == "multi"@ {
        "Multiple choice"@
    } else if kind == "yesno"@ {
        "Yes / No"@
    } else if kind == "scale"@ {
        "Rating scale"@
    } else {
        "Single choice"@
    }
}

/// A short localized label for a poll kind, shown on the index rows.
pub fn kind_label<'a>(kind: &str, lang: Lang, tr: &'a Translations) -> (r: &'a str)
    ensures
        r@ == translate(tr, lang, poll_kind_label(kind@)),
{
    let source = if str_eq(kind, "multi") {
        "Multiple choice"
    } else if str_eq(kind, "yesno") {
        "Yes / No"
    } else if str_eq(kind, "scale") {
        "Rating scale"
    } else {
        "Single choice"
    };
    lang.t(tr, source)
}

} // verus!
