//! What a party's page reads off its record: its members split into current
//! and former ones, and the paths it links to.

use vstd::prelude::*;

use crate::fmt::Date;
use crate::pages::rows::{picked, split_indices};
use crate::text::push_str;

verus! {

/// For each membership, whether it is still running (it has no end date).
pub open spec fn running(ends: Seq<Option<Date>>) -> Seq<bool> {
    ends.map_values(|e: Option<Date>| e is None)
}

/// The members split by their memberships' end dates: the indices of those
/// whose membership still runs, then of those whose membership has ended,
/// each in the listed order.
pub fn current_and_former(ends: &Vec<Option<Date>>) -> (r: (Vec<usize>, Vec<usize>))
    ensures
        r.0@ == picked(running(ends@), true),
        r.1@ == picked(running(ends@), false),
{
    let mut flags: Vec<bool> = Vec::new();
    let mut i: usize = 0;
    while i < ends.len()
        invariant
            i <= ends@.len(),
            flags@ == running(ends@).take(i as int),
        decreases ends.len() - i,
    {
        flags.push(ends[i].is_none());
        i = i + 1;
        proof {
            assert(flags@ =~= running(ends@).take(i as int));
        }
    }
    proof {
        assert(running(ends@).take(ends@.len() as int) =~= running(ends@));
    }
    split_indices(&flags)
}

/// The manage page of a party in a country.
pub open spec fn party_manage_spec(slug: Seq<char>, country: Seq<char>) -> Seq<char> {
    "/admin/party/"@ + slug + "?country="@ + country
}

/// The path an admin follows from a party's page to the page where it is
/// edited.
pub fn party_manage_path(slug: &str, country: &str) -> (r: String)
    ensures
        r@ == party_manage_spec(slug@, country@),
{
    let mut s = String::new();
    push_str(&mut s, "/admin/party/");
    push_str(&mut s, slug);
    push_str(&mut s, "?country=");
    push_str(&mut s, country);
    s
}

/// A party's own page.
pub open spec fn party_page_spec(country: Seq<char>, slug: Seq<char>) -> Seq<char> {
    "/"@ + country + "/parties/"@ + slug
}

/// The path of a party's page, where a follow toggle sends the reader back.
pub fn party_page(country: &str, slug: &str) -> (r: String)
    ensures
        r@ == party_page_spec(country@, slug@),
{
    let mut s = String::new();
    push_str(&mut s, "/");
    push_str(&mut s, country);
    push_str(&mut s, "/parties/");
    push_str(&mut s, slug);
    s
}

} // verus!
