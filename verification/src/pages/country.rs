//! The figures a country page derives from what the store lists: the seats the
//! legislature's members hold, the seats sitting empty, and where the compass
//! of each coming election is.

use vstd::prelude::*;

use crate::text::{push_str, str_eq};

verus! {

/// The sum of a list of seat counts.
pub open spec fn seat_sum(seats: Seq<i64>) -> int
    decreases seats.len(),
{
    if seats.len() == 0 {
        0
    } else {
        seat_sum(seats.drop_last()) + seats.last()
    }
}

/// Every running total of the seat counts, and the total with the members who
/// sit for no party, fits in an `i64`.
pub open spec fn totals_fit(seats: Seq<i64>, independents: i64) -> bool {
    &&& forall|k: int|
        0 <= k <= seats.len() ==> i64::MIN <= #[trigger] seat_sum(seats.take(k)) <= i64::MAX
    &&& i64::MIN <= seat_sum(seats) + independents <= i64::MAX
}

/// The seats held: every party's seats plus the members who sit for none.
pub fn total_seats(seats: &Vec<i64>, independents: i64) -> (r: i64)
    requires
        totals_fit(seats@, independents),
    ensures
        r == seat_sum(seats@) + independents,
{
    let mut sum: i64 = 0;
    let mut i: usize = 0;
    proof {
        assert(seats@.take(0) =~= Seq::<i64>::empty());
    }
    while i < seats.len()
        invariant
            i <= seats@.len(),
            totals_fit(seats@, independents),
            sum == seat_sum(seats@.take(i as int)),
        decreases seats.len() - i,
    {
        proof {
            assert(seats@.take(i + 1).drop_last() =~= seats@.take(i as int));
            assert(i64::MIN <= seat_sum(seats@.take(i + 1)) <= i64::MAX);
        }
        sum = sum + seats[i];
        i = i + 1;
    }
    proof {
        assert(seats@.take(seats@.len() as int) =~= seats@);
    }
    sum + independents
}

/// The seats sitting empty: how many fewer members are seated than the chamber
/// holds, when there are fewer; none when the size is unknown or the chamber
/// is full.
pub open spec fn vacant_spec(chamber_size: Option<i64>, seated: i64) -> Option<int> {
    match chamber_size {
        Some(c) => if c - seated > 0 {
            Some(c - seated)
        } else {
            None
        },
        None => None,
    }
}

/// The seats sitting empty between elections.
pub fn vacant_seats(chamber_size: Option<i64>, seated: i64) -> (r: Option<i64>)
    requires
        chamber_size matches Some(c) ==> i64::MIN <= c - seated <= i64::MAX,
    ensures
        r matches Some(v) ==> vacant_spec(chamber_size, seated) == Some(v as int),
        r is None <==> vacant_spec(chamber_size, seated) is None,
{
    match chamber_size {
        Some(c) => {
            let v = c - seated;
            if v > 0 {
                Some(v)
            } else {
                None
            }
        },
        None => None,
    }
}

/// A legislature's composition as the country page reads it.
pub struct Composition {
    /// The seats held, by parties and by members who sit for none.
    pub total: i64,
    /// Whether it has more than one chamber, each then shown on its own.
    pub bicameral: bool,
    /// The seats sitting empty, when fewer members are seated than the
    /// chamber holds.
    pub vacant: Option<i64>,
}

/// The composition from each party's seats, the members who sit for no party,
/// the chamber's size when it is recorded, and the number of chambers.
pub fn composition(
    seats: &Vec<i64>,
    independents: i64,
    chamber_size: Option<i64>,
    chambers: usize,
) -> (r: Composition)
    requires
        totals_fit(seats@, independents),
        chamber_size matches Some(c) ==> i64::MIN <= c - (seat_sum(seats@) + independents)
            <= i64::MAX,
    ensures
        r.total == seat_sum(seats@) + independents,
        r.bicameral == (chambers > 1),
        r.vacant matches Some(v) ==> vacant_spec(chamber_size, r.total) == Some(v as int),
        r.vacant is None <==> vacant_spec(chamber_size, r.total) is None,
{
    let total = total_seats(seats, independents);
    Composition { total, bicameral: chambers > 1, vacant: vacant_seats(chamber_size, total) }
}

/// Whether an election kind is a presidential one, contested by people.
pub open spec fn is_presidential(kind: Option<Seq<char>>) -> bool {
    kind == Some("presidential"@)
}

/// Whether the kind of an election, when recorded, is presidential.
pub fn presidential(kind: Option<&str>) -> (r: bool)
    ensures
        r == is_presidential(
            match kind {
                Some(k) => Some(k@),
                None => None,
            },
        ),
{
    match kind {
        Some(k) => {
            proof {
                reveal_strlit("presidential");
            }
            str_eq(k, "presidential")
        },
        None => false,
    }
}

/// Whether any of the coming elections is presidential, so that the candidate
/// compass's questions are worth counting.
pub fn any_presidential(kinds: &Vec<Option<String>>) -> (r: bool)
    ensures
        r <==> exists|i: int|
            0 <= i < kinds@.len() && is_presidential(
                match #[trigger] kinds@[i] {
                    Some(k) => Some(k@),
                    None => None,
                },
            ),
{
    let mut i: usize = 0;
    while i < kinds.len()
        invariant
            i <= kinds@.len(),
            forall|j: int|
                0 <= j < i ==> !is_presidential(
                    match #[trigger] kinds@[j] {
                        Some(k) => Some(k@),
                        None => None,
                    },
                ),
        decreases kinds.len() - i,
    {
        let found = match &kinds[i] {
            Some(k) => presidential(Some(k.as_str())),
            None => presidential(None),
        };
        if found {
            return true;
        }
        i = i + 1;
    }
    false
}

/// Where a coming election's compass is: for a presidential election the
/// candidate compass, under `person_scope`, once it has questions; for any
/// other the party compass once it has questions; nowhere otherwise.
pub open spec fn compass_link_spec(
    country: Seq<char>,
    kind: Option<Seq<char>>,
    party_theses: i64,
    person_theses: i64,
    person_scope: Seq<char>,
) -> Option<Seq<char>> {
    if is_presidential(kind) {
        if person_theses > 0 {
            Some("/"@ + country + "/compass/"@ + person_scope)
        } else {
            None
        }
    } else if party_theses > 0 {
        Some("/"@ + country + "/compass"@)
    } else {
        None
    }
}

/// The link from a coming election to the compass that matches it.
pub fn compass_link(
    country: &str,
    kind: Option<&str>,
    party_theses: i64,
    person_theses: i64,
    person_scope: &str,
) -> (r: Option<String>)
    ensures
        (match r {
            Some(s) => Some(s@),
            None => None,
        }) == compass_link_spec(
            country@,
            match kind {
                Some(k) => Some(k@),
                None => None,
            },
            party_theses,
            person_theses,
            person_scope@,
        ),
{
    if presidential(kind) {
        if person_theses > 0 {
            let mut s = String::new();
            push_str(&mut s, "/");
            push_str(&mut s, country);
            push_str(&mut s, "/compass/");
            push_str(&mut s, person_scope);
            Some(s)
        } else {
            None
        }
    } else if party_theses > 0 {
        let mut s = String::new();
        push_str(&mut s, "/");
        push_str(&mut s, country);
        push_str(&mut s, "/compass");
        Some(s)
    } else {
        None
    }
}

} // verus!
