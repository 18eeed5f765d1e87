//! What a person's page reads off their record: the party they belong to now,
//! the role they hold now, and how a role is headed and placed.

use vstd::prelude::*;

use crate::fmt::Date;
use crate::text::push_str;

verus! {

/// A role a person holds or held, as the page reads it.
pub struct Role {
    /// The kind of role, shown when it has no title of its own.
    pub role_type: String,
    pub title: Option<String>,
    /// The organisation the role is in.
    pub org: Option<String>,
    /// The district it represents.
    pub district: Option<String>,
    pub start_date: Option<Date>,
    /// When it ended; none while it is held.
    pub end_date: Option<Date>,
}

/// Chronological order on dates that may be unrecorded, an unrecorded date
/// coming first.
pub open spec fn no_later(a: Option<Date>, b: Option<Date>) -> bool {
    match (a, b) {
        (None, _) => true,
        (Some(_), None) => false,
        (Some(x), Some(y)) => x.year < y.year || (x.year == y.year && (x.month < y.month || (
        x.month == y.month && x.day <= y.day))),
    }
}

/// Whether `a` is no later than `b`.
pub fn is_no_later(a: Option<Date>, b: Option<Date>) -> (r: bool)
    ensures
        r == no_later(a, b),
{
    match (a, b) {
        (None, _) => true,
        (Some(_), None) => false,
        (Some(x), Some(y)) => x.year < y.year || (x.year == y.year && (x.month < y.month || (
        x.month == y.month && x.day <= y.day))),
    }
}

/// The text of an optional string.
pub open spec fn text_of(s: Option<String>) -> Option<Seq<char>> {
    match s {
        Some(t) => Some(t@),
        None => None,
    }
}

/// A role's heading: its title, or its kind when it has none.
pub open spec fn heading_spec(r: Role) -> Seq<char> {
    match r.title {
        Some(t) => t@,
        None => r.role_type@,
    }
}

/// A role's subtitle: its organisation and its district, each when recorded,
/// joined by a middle dot.
pub open spec fn subtitle_spec(org: Option<Seq<char>>, district: Option<Seq<char>>) -> Seq<char> {
    match (org, district) {
        (Some(o), Some(d)) => o + " · "@ + d,
        (Some(o), None) => o,
        (None, Some(d)) => d,
        (None, None) => Seq::empty(),
    }
}

impl Role {
    /// The role's heading.
    pub fn heading(&self) -> (r: String)
        ensures
            r@ == heading_spec(*self),
    {
        let mut s = String::new();
        match &self.title {
            Some(t) => push_str(&mut s, t.as_str()),
            None => push_str(&mut s, self.role_type.as_str()),
        }
        s
    }

    /// The line under the role's heading.
    pub fn subtitle(&self) -> (r: String)
        ensures
            r@ == subtitle_spec(text_of(self.org), text_of(self.district)),
    {
        let mut s = String::new();
        match (&self.org, &self.district) {
            (Some(o), Some(d)) => {
                push_str(&mut s, o.as_str());
                push_str(&mut s, " · ");
                push_str(&mut s, d.as_str());
                proof {
                    reveal_strlit(" · ");
                }
            },
            (Some(o), None) => push_str(&mut s, o.as_str()),
            (None, Some(d)) => push_str(&mut s, d.as_str()),
            (None, None) => {
                proof {
                    assert(s@ =~= Seq::<char>::empty());
                }
            },
        }
        s
    }
}

/// The role a person holds now: among the roles not ended, the one that began
/// latest, the later-listed one among those that began together; none when
/// every role has ended.
pub fn current_role(roles: &Vec<Role>) -> (r: Option<usize>)
    ensures
        r is None <==> forall|j: int| 0 <= j < roles@.len() ==> (#[trigger] roles@[j]).end_date is Some,
        r matches Some(i) ==> {
            &&& i < roles@.len()
            &&& roles@[i as int].end_date is None
            &&& forall|j: int|
                0 <= j < roles@.len() && (#[trigger] roles@[j]).end_date is None ==> no_later(
                    roles@[j].start_date,
                    roles@[i as int].start_date,
                )
            &&& forall|j: int|
                i < j < roles@.len() && (#[trigger] roles@[j]).end_date is None ==> !no_later(
                    roles@[i as int].start_date,
                    roles@[j].start_date,
                )
        },
{
    let mut best: Option<usize> = None;
    let mut k: usize = 0;
    while k < roles.len()
        invariant
            k <= roles@.len(),
            best is None <==> forall|j: int| 0 <= j < k ==> (#[trigger] roles@[j]).end_date is Some,
            best matches Some(i) ==> {
                &&& i < k
                &&& roles@[i as int].end_date is None
                &&& forall|j: int|
                    0 <= j < k && (#[trigger] roles@[j]).end_date is None ==> no_later(
                        roles@[j].start_date,
                        roles@[i as int].start_date,
                    )
                &&& forall|j: int|
                    i < j < k && (#[trigger] roles@[j]).end_date is None ==> !no_later(
                        roles@[i as int].start_date,
                        roles@[j].start_date,
                    )
            },
        decreases roles.len() - k,
    {
        if roles[k].end_date.is_none() {
            match best {
                None => {
                    best = Some(k);
                },
                Some(i) => {
                    if is_no_later(roles[i].start_date, roles[k].start_date) {
                        best = Some(k);
                    }
                },
            }
        }
        k = k + 1;
    }
    best
}

/// The first of a list of spells (a party membership, say) that has not ended.
pub fn first_ongoing(ends: &Vec<Option<Date>>) -> (r: Option<usize>)
    ensures
        r is None <==> forall|j: int| 0 <= j < ends@.len() ==> (#[trigger] ends@[j]) is Some,
        r matches Some(i) ==> i < ends@.len() && ends@[i as int] is None && forall|j: int|
            0 <= j < i ==> (#[trigger] ends@[j]) is Some,
{
    let mut k: usize = 0;
    while k < ends.len()
        invariant
            k <= ends@.len(),
            forall|j: int| 0 <= j < k ==> (#[trigger] ends@[j]) is Some,
        decreases ends.len() - k,
    {
        if ends[k].is_none() {
            return Some(k);
        }
        k = k + 1;
    }
    None
}

} // verus!
