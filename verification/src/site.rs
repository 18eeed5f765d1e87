//! Site-wide request decisions that are not tied to one page: where the
//! language switch sends a visitor back to.

use vstd::prelude::*;

use crate::i18n::{known_spec, Lang};
use crate::text::{chars_of, has_prefix, head_before, head_end, starts_within, string_of};

verus! {

/// `http://`
pub open spec fn http_scheme() -> Seq<char> {
    seq!['h', 't', 't', 'p', ':', '/', '/']
}

/// `https://`
pub open spec fn https_scheme() -> Seq<char> {
    seq!['h', 't', 't', 'p', 's', ':', '/', '/']
}

/// Whether a path stays on this site: it starts with `/` but not with `//`,
/// which a browser reads as the address of another host.
pub open spec fn stays_on_site(p: Seq<char>) -> bool {
    has_prefix(p, seq!['/']) && !has_prefix(p, seq!['/', '/'])
}

/// The path kept, when it stays on this site.
pub open spec fn on_site(p: Seq<char>) -> Option<Seq<char>> {
    if stays_on_site(p) {
        Some(p)
    } else {
        None
    }
}

/// What follows the host of a URL whose scheme was already removed: the text
/// from its first `/` on.
pub open spec fn path_after_host(rest: Seq<char>) -> Seq<char> {
    rest.subrange(head_before(rest, '/', '/').len() as int, rest.len() as int)
}

/// The same-site path a referer leads back to: for an `http://` or `https://`
/// URL the part from the first `/` after the scheme on, for any other text the
/// text itself; in either case only when it is a path that stays on this site
/// (starting with `/`, not with `//`), and nothing otherwise.
pub open spec fn same_site_path_spec(referer: Seq<char>) -> Option<Seq<char>> {
    if has_prefix(referer, http_scheme()) {
        on_site(path_after_host(referer.subrange(7, referer.len() as int)))
    } else if has_prefix(referer, https_scheme()) {
        on_site(path_after_host(referer.subrange(8, referer.len() as int)))
    } else {
        on_site(referer)
    }
}

/// Whether `v[lo..]` is a path that stays on this site.
fn stays_from(v: &Vec<char>, lo: usize) -> (r: bool)
    requires
        lo <= v.len(),
    ensures
        r == stays_on_site(v@.subrange(lo as int, v.len() as int)),
{
    let ghost p = v@.subrange(lo as int, v.len() as int);
    let first = lo < v.len() && v[lo] == '/';
    let second = lo < v.len() && v.len() - lo >= 2 && v[lo + 1] == '/';
    proof {
        if p.len() >= 1 {
            assert(p[0] == v@[lo as int]);
            assert(p.subrange(0, 1) =~= seq![p[0]]);
        }
        if p.len() >= 2 {
            assert(p[1] == v@[lo + 1]);
            assert(p.subrange(0, 2) =~= seq![p[0], p[1]]);
        }
        if has_prefix(p, seq!['/']) {
            assert(p.subrange(0, 1)[0] == p[0]);
        }
        if has_prefix(p, seq!['/', '/']) {
            assert(p.subrange(0, 2)[1] == p[1]);
        }
    }
    first && !second
}

pub proof fn lemma_head_before_bound(s: Seq<char>, a: char, b: char)
    ensures
        head_before(s, a, b).len() <= s.len(),
        head_before(s, a, b).len() < s.len() ==> (s[head_before(s, a, b).len() as int] == a
            || s[head_before(s, a, b).len() as int] == b),
    decreases s.len(),
{
    if s.len() > 0 && s[0] != a && s[0] != b {
        lemma_head_before_bound(s.drop_first(), a, b);
    }
}

/// The path portion of a referer, so the redirect after a language switch
/// stays on this site: an absolute URL collapses to its path, a bare path is
/// kept, and anything else (or a URL with no path) gives `None`.
pub fn same_site_path(referer: &str) -> (r: Option<String>)
    ensures
        match r {
            Some(p) => same_site_path_spec(referer@) == Some(p@),
            None => same_site_path_spec(referer@) is None,
        },
{
    let v = chars_of(referer);
    let http: Vec<char> = vec!['h', 't', 't', 'p', ':', '/', '/'];
    let https: Vec<char> = vec!['h', 't', 't', 'p', 's', ':', '/', '/'];
    assert(v@.subrange(0, v.len() as int) =~= v@);
    assert(http@ =~= http_scheme());
    assert(https@ =~= https_scheme());
    let start: usize;
    if starts_within(&v, 0, v.len(), &http) {
        start = 7;
    } else if starts_within(&v, 0, v.len(), &https) {
        start = 8;
    } else {
        if stays_from(&v, 0) {
            return Some(string_of(&v, 0, v.len()));
        } else {
            return None;
        }
    }
    let k = head_end(&v, start, v.len(), '/', '/');
    proof {
        let rest = v@.subrange(start as int, v.len() as int);
        lemma_head_before_bound(rest, '/', '/');
        assert(rest.subrange(head_before(rest, '/', '/').len() as int, rest.len() as int)
            =~= v@.subrange(k as int, v.len() as int));
    }
    if stays_from(&v, k) {
        Some(string_of(&v, k, v.len()))
    } else {
        None
    }
}

/// Whatever a referer leads back to is a path on this site: it starts with
/// `/`, and never with `//`, so a redirect to it never leaves the site.
pub proof fn law_same_site_path_is_a_path(referer: Seq<char>)
    ensures
        same_site_path_spec(referer) matches Some(p) ==> p.len() > 0 && p[0] == '/' && !(p.len()
            >= 2 && p[1] == '/'),
{
    if let Some(p) = same_site_path_spec(referer) {
        assert(stays_on_site(p));
        assert(p.subrange(0, 1)[0] == p[0]);
        if p.len() >= 2 && p[1] == '/' {
            assert(p.subrange(0, 2) =~= seq!['/', '/']);
        }
    }
}

/// What a referer leads back to is always a part of the referer itself, its
/// tail: nothing is added to it.
pub proof fn law_same_site_path_is_a_tail(referer: Seq<char>)
    ensures
        same_site_path_spec(referer) matches Some(p) ==> exists|k: int|
            0 <= k <= referer.len() && p == referer.subrange(k, referer.len() as int),
{
    if let Some(p) = same_site_path_spec(referer) {
        if has_prefix(referer, http_scheme()) || has_prefix(referer, https_scheme()) {
            let n: int = if has_prefix(referer, http_scheme()) {
                7
            } else {
                8
            };
            let rest = referer.subrange(n, referer.len() as int);
            lemma_head_before_bound(rest, '/', '/');
            let h = head_before(rest, '/', '/').len() as int;
            assert(rest.subrange(h, rest.len() as int) =~= referer.subrange(n + h, referer.len() as int));
            assert(p == referer.subrange(n + h, referer.len() as int));
        } else {
            assert(referer.subrange(0, referer.len() as int) =~= referer);
        }
    }
}

/// The language a `/lang/{code}` request switches to: the language the code
/// names, English for an unknown code.
pub open spec fn chosen_lang(code: Seq<char>) -> Lang {
    match known_spec(code) {
        Some(l) => l,
        None => Lang::En,
    }
}

/// What a language switch does: the language to store in the cookie, and the
/// same-site path to return to (the referer's path, or `/`).
pub fn language_switch(code: &str, referer: Option<&str>) -> (r: (Lang, String))
    ensures
        r.0 == chosen_lang(code@),
        r.1@ == match referer {
            Some(h) => match same_site_path_spec(h@) {
                Some(p) => p,
                None => seq!['/'],
            },
            None => seq!['/'],
        },
{
    let lang = match Lang::known(code) {
        Some(l) => l,
        None => Lang::En,
    };
    let back = match referer {
        Some(h) => match same_site_path(h) {
            Some(p) => p,
            None => root_path(),
        },
        None => root_path(),
    };
    (lang, back)
}

/// A value the deployment supplies (such as the running image's digest):
/// `None` when it is unset or empty.
pub fn deployment_value(recorded: Option<String>) -> (r: Option<String>)
    ensures
        r == match recorded {
            Some(v) => if v@.len() > 0 {
                Some(v)
            } else {
                None
            },
            None => None,
        },
{
    match recorded {
        Some(v) => if v.as_str().is_empty() {
            None
        } else {
            Some(v)
        },
        None => None,
    }
}

/// The site root, `/`.
fn root_path() -> (s: String)
    ensures
        s@ == seq!['/'],
{
    let mut s = String::new();
    crate::text::push_char(&mut s, '/');
    s
}

} // verus!
