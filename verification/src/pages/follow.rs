//! Following people, parties and countries.

use vstd::prelude::*;

use crate::text::{chars_of, has_prefix};

verus! {

/// The follow toggle's form: where to return without JavaScript.
pub struct ToggleForm {
    pub next: Option<String>,
}

/// Whether a return path stays on this site: it starts with `/` but not `//`
/// (which a browser reads as another host).
pub open spec fn in_site_path(p: Seq<char>) -> bool {
    has_prefix(p, seq!['/']) && !has_prefix(p, seq!['/', '/'])
}

impl ToggleForm {
    /// Where to send the visitor back to: the form's `next` when it is an
    /// in-site path, else the home page. Only in-site paths are honoured, so the
    /// toggle cannot be used as an open redirect.
    pub fn return_path(self) -> (r: String)
        ensures
            r@ == match self.next {
                Some(n) => if in_site_path(n@) {
                    n@
                } else {
                    seq!['/']
                },
                None => seq!['/'],
            },
            in_site_path(r@),
    {
        match self.next {
            Some(n) => {
                let v = chars_of(n.as_str());
                let ok = v.len() >= 1 && v[0] == '/' && !(v.len() >= 2 && v[1] == '/');
                proof {
                    if v.len() >= 1 {
                        assert(v@.subrange(0, 1) =~= seq![v@[0]]);
                    }
                    if v.len() >= 2 {
                        assert(v@.subrange(0, 2) =~= seq![v@[0], v@[1]]);
                    }
                }
                if ok {
                    n
                } else {
                    home()
                }
            },
            None => home(),
        }
    }
}

/// How a follow toggle shows for a reader: signed out, following, or not.
#[derive(Clone, Copy, Debug, PartialEq, Eq, Structural)]
pub enum FollowState {
    Anonymous,
    Following,
    NotFollowing,
}

/// The toggle's state: a signed-out reader cannot follow; a signed-in one is
/// following or not, as the store says.
pub fn follow_state(signed_in: bool, following: bool) -> (r: FollowState)
    ensures
        !signed_in ==> r == FollowState::Anonymous,
        signed_in && following ==> r == FollowState::Following,
        signed_in && !following ==> r == FollowState::NotFollowing,
{
    if !signed_in {
        FollowState::Anonymous
    } else if following {
        FollowState::Following
    } else {
        FollowState::NotFollowing
    }
}

/// `/`
pub fn home() -> (r: String)
    ensures
        r@ == seq!['/'],
        in_site_path(r@),
{
    let mut s = String::new();
    crate::text::push_char(&mut s, '/');
    assert(s@.subrange(0, 1) =~= seq!['/']);
    s
}

} // verus!
