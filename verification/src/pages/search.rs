//! Global search across people and parties.

use vstd::prelude::*;

use crate::text::{chars_of, trim, trim_bounds};

verus! {

/// The search's query parameters: the search text.
pub struct Params {
    pub q: Option<String>,
}

/// The query as typed, empty when none was given.
pub open spec fn query_text(q: Option<String>) -> Seq<char> {
    match q {
        Some(s) => s@,
        None => Seq::empty(),
    }
}

/// Whether a text has anything to search for: it is not blank.
pub fn is_searchable(text: &str) -> (r: bool)
    ensures
        r == (trim(text@).len() > 0),
{
    let v = chars_of(text);
    let (a, b) = trim_bounds(&v, 0, v.len());
    proof {
        assert(v@.subrange(0, v@.len() as int) =~= text@);
    }
    a < b
}

impl Params {
    /// The query as typed (searched as it is), empty when none was given.
    pub fn text(&self) -> (r: &str)
        ensures
            r@ == query_text(self.q),
    {
        match &self.q {
            Some(s) => s.as_str(),
            None => {
                proof {
                    reveal_strlit("");
                }
                ""
            },
        }
    }

    /// Whether the store is searched at all: only for a query that is not
    /// blank; otherwise the page shows no hits.
    pub fn has_query(&self) -> (r: bool)
        ensures
            r == (trim(query_text(self.q)).len() > 0),
    {
        is_searchable(self.text())
    }
}

} // verus!
