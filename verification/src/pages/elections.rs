//! The elections index: its search parameter and the labels of election kinds.

use vstd::prelude::*;

use crate::i18n::{translate, Lang, Translations};
use crate::text::str_eq;

verus! {

/// The index's query parameters: the search text.
pub struct Params {
    pub q: Option<String>,
}

/// The English label of an election kind; parliamentary when the kind is
/// unknown or unset.
pub open spec fn election_label(kind: Option<Seq<char>>) -> Seq<char> {
    match kind {
        Some(k) => if k == "presidential"@ {
            "Presidential"@
        } else if k == "referendum"@ {
            "Referendum"@
        } else if k == "local"@ {
            "Local"@
        } else {
            "Parliamentary"@
        },
        None => "Parliamentary"@,
    }
}

/// A localized label for an election kind.
pub fn kind_label<'a>(kind: Option<&str>, lang: Lang, tr: &'a Translations) -> (r: &'a str)
    ensures
        r@ == translate(
            tr,
            lang,
            election_label(
                match kind {
                    Some(k) => Some(k@),
                    None => None,
                },
            ),
        ),
{
    let source = match kind {
        Some(k) => if str_eq(k, "presidential") {
            "Presidential"
        } else if str_eq(k, "referendum") {
            "Referendum"
        } else if str_eq(k, "local") {
            "Local"
        } else {
            "Parliamentary"
        },
        None => "Parliamentary",
    };
    lang.t(tr, source)
}

} // verus!
