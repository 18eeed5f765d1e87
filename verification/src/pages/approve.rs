//! Monthly approval of a person, party or coalition by signed-in users.

use vstd::prelude::*;

use crate::pages::follow::{home, in_site_path};
use crate::text::{chars_of, str_eq};

verus! {

/// The approval form: the choice made and where a no-JavaScript submit
/// returns.
pub struct CastForm {
    /// `approve` | `disapprove` | `no_opinion`.
    pub choice: Option<String>,
    /// Where a no-JavaScript submit returns. Same-origin paths only.
    pub next: Option<String>,
}

/// What can be approved of.
#[derive(Debug, Clone, Copy, PartialEq, Eq, Structural)]
pub enum Entity {
    Person(i64),
    Party(i64),
    Coalition(i64),
}

/// The entity an approval route names, `None` for an unknown kind (a 404).
pub open spec fn entity_spec(kind: Seq<char>, id: i64) -> Option<Entity> {
    if kind == "person"@ {
        Some(Entity::Person(id))
    } else if kind == "party"@ {
        Some(Entity::Party(id))
    } else if kind == "coalition"@ {
        Some(Entity::Coalition(id))
    } else {
        None
    }
}

/// The entity an approval route names.
pub fn entity(kind: &str, id: i64) -> (r: Option<Entity>)
    ensures
        r == entity_spec(kind@, id),
{
    if str_eq(kind, "person") {
        Some(Entity::Person(id))
    } else if str_eq(kind, "party") {
        Some(Entity::Party(id))
    } else if str_eq(kind, "coalition") {
        Some(Entity::Coalition(id))
    } else {
        None
    }
}

/// A position a user can take on an entity for the month.
#[derive(Debug, Clone, Copy, PartialEq, Eq, Structural)]
pub enum Position {
    Approve,
    Disapprove,
    NoOpinion,
}

/// The position a form's choice names; anything else records nothing.
pub open spec fn position_spec(choice: Option<Seq<char>>) -> Option<Position> {
    match choice {
        Some(c) => if c == "approve"@ {
            Some(Position::Approve)
        } else if c == "disapprove"@ {
            Some(Position::Disapprove)
        } else if c == "no_opinion"@ {
            Some(Position::NoOpinion)
        } else {
            None
        },
        None => None,
    }
}

/// A return path safe to redirect to: in-site, and without a backslash
/// (which a browser turns into a slash in a `Location` header).
pub open spec fn safe_return(p: Seq<char>) -> bool {
    in_site_path(p) && !p.contains('\\')
}

impl CastForm {
    /// The position the form chooses.
    pub fn position(&self) -> (r: Option<Position>)
        ensures
            r == position_spec(
                match self.choice {
                    Some(c) => Some(c@),
                    None => None,
                },
            ),
    {
        match &self.choice {
            Some(c) => if str_eq(c.as_str(), "approve") {
                Some(Position::Approve)
            } else if str_eq(c.as_str(), "disapprove") {
                Some(Position::Disapprove)
            } else if str_eq(c.as_str(), "no_opinion") {
                Some(Position::NoOpinion)
            } else {
                None
            },
            None => None,
        }
    }

    /// Where to send the visitor back to: `next` when it is a safe in-site
    /// path, else the home page. Never an off-origin bounce.
    pub fn return_path(self) -> (r: String)
        ensures
            r@ == match self.next {
                Some(n) => if safe_return(n@) {
                    n@
                } else {
                    seq!['/']
                },
                None => seq!['/'],
            },
            safe_return(r@),
    {
        match self.next {
            Some(n) => {
                let v = chars_of(n.as_str());
                let mut ok = v.len() >= 1 && v[0] == '/' && !(v.len() >= 2 && v[1] == '/');
                proof {
                    if v.len() >= 1 {
                        assert(v@.subrange(0, 1) =~= seq![v@[0]]);
                    }
                    if v.len() >= 2 {
                        assert(v@.subrange(0, 2) =~= seq![v@[0], v@[1]]);
                    }
                    if v.len() >= 1 && v@[0] != '/' {
                        assert(v@.subrange(0, 1)[0] != seq!['/'][0]);
                    }
                    assert(!ok ==> !in_site_path(n@));
                }
                let mut k: usize = 0;
                while k < v.len()
                    invariant
                        k <= v@.len(),
                        v@ == n@,
                        ok ==> forall|m: int| 0 <= m < k ==> v@[m] != '\\',
                        !ok ==> !safe_return(n@),
                        ok ==> in_site_path(n@),
                    decreases v.len() - k,
                {
                    if v[k] == '\\' {
                        ok = false;
                    }
                    k = k + 1;
                }
                if ok {
                    n
                } else {
                    let h = home();
                    proof {
                        assert(!h@.contains('\\')) by {
                            assert(h@.len() == 1);
                        }
                    }
                    h
                }
            },
            None => {
                let h = home();
                proof {
                    assert(!h@.contains('\\')) by {
                        assert(h@.len() == 1);
                    }
                }
                h
            },
        }
    }
}

/// Who is looking at an approval panel: signed out, signed in with no answer
/// yet this month, or signed in having answered.
#[derive(Clone, Copy, Debug, PartialEq, Eq, Structural)]
pub enum ApprovalViewer {
    Anonymous,
    CanVote,
    Voted(Position),
}

/// The panel's viewer: a signed-out visitor is anonymous; a signed-in one has
/// voted when the store holds their answer for the month, and can vote
/// otherwise.
pub fn approval_viewer(signed_in: bool, my_choice: Option<Position>) -> (r: ApprovalViewer)
    ensures
        !signed_in ==> r == ApprovalViewer::Anonymous,
        signed_in ==> r == match my_choice {
            Some(p) => ApprovalViewer::Voted(p),
            None => ApprovalViewer::CanVote,
        },
{
    if !signed_in {
        ApprovalViewer::Anonymous
    } else {
        match my_choice {
            Some(p) => ApprovalViewer::Voted(p),
            None => ApprovalViewer::CanVote,
        }
    }
}

} // verus!
