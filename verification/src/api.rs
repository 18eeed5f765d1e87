//! The admin ingest API: the authenticated, machine-to-machine path for
//! editorial content to enter an instance. It writes editorial data only, and
//! has no endpoint that touches a vote, a ballot, an entitlement, a tally or a
//! chain.
//!
//! Authentication is a single admin bearer key. Without it, or with the wrong
//! one, every endpoint answers 404; with no key configured the API is disabled
//! entirely.

use vstd::prelude::*;

pub use crate::auth::constant_time_eq;
use crate::text::{chars_of, has_prefix, str_eq, string_of, trim, trim_bounds};

verus! {

/// `Bearer `
pub open spec fn bearer_prefix() -> Seq<char> {
    seq!['B', 'e', 'a', 'r', 'e', 'r', ' ']
}

/// The key an `Authorization` header presents: what follows `Bearer `, empty
/// when the header is missing or has another form.
pub open spec fn presented_key(header: Option<Seq<char>>) -> Seq<char> {
    match header {
        Some(h) => if has_prefix(h, bearer_prefix()) {
            h.subrange(7, h.len() as int)
        } else {
            Seq::<char>::empty()
        },
        None => Seq::<char>::empty(),
    }
}

/// Whether a request may use the API: a key is configured and the request
/// presents exactly it.
pub open spec fn accepted_spec(configured: Option<Seq<char>>, header: Option<Seq<char>>) -> bool {
    match configured {
        Some(k) => vstd::utf8::encode_utf8(presented_key(header)) == vstd::utf8::encode_utf8(k),
        None => false,
    }
}

/// The text of an optional string slice.
pub open spec fn opt_str(o: Option<&str>) -> Option<Seq<char>> {
    match o {
        Some(s) => Some(s@),
        None => None,
    }
}

/// Check a request's bearer key against the configured one, in constant time.
/// A missing configured key, a missing header and a wrong key are
/// indistinguishable from outside: each is refused.
pub fn key_accepted(configured: Option<&str>, authorization: Option<&str>) -> (r: bool)
    ensures
        r == accepted_spec(opt_str(configured), opt_str(authorization)),
{
    let key = match configured {
        Some(k) => k,
        None => return false,
    };
    let presented = match authorization {
        Some(h) => {
            let v = chars_of(h);
            let p: Vec<char> = vec!['B', 'e', 'a', 'r', 'e', 'r', ' '];
            assert(p@ =~= bearer_prefix());
            assert(v@.subrange(0, v.len() as int) =~= v@);
            if crate::text::starts_within(&v, 0, v.len(), &p) {
                string_of(&v, 7, v.len())
            } else {
                String::new()
            }
        },
        None => String::new(),
    };
    constant_time_eq(presented.as_str().as_bytes(), key.as_bytes())
}

/// With no key configured, nothing is accepted, whatever a request presents.
pub proof fn law_disabled_without_key(header: Option<Seq<char>>)
    ensures
        !accepted_spec(None, header),
{
}

/// A request is accepted exactly when it presents the configured key.
pub proof fn law_accepts_exactly_the_key(k: Seq<char>, header: Option<Seq<char>>)
    ensures
        accepted_spec(Some(k), header) <==> presented_key(header) == k,
{
    if accepted_spec(Some(k), header) {
        vstd::utf8::encode_utf8_decode_utf8(presented_key(header));
        vstd::utf8::encode_utf8_decode_utf8(k);
    }
}

/// A failure a caller can act on: a bad payload (with what is wrong) or an
/// internal error.
#[derive(Debug, Clone, Copy)]
pub enum ApiError {
    BadRequest(&'static str),
    Internal,
}

impl ApiError {
    /// The HTTP status and the message of the JSON error body.
    pub fn status_and_message(self) -> (r: (u16, &'static str))
        ensures
            r == match self {
                ApiError::BadRequest(m) => (400u16, m),
                ApiError::Internal => (500u16, "internal error"),
            },
    {
        match self {
            ApiError::BadRequest(m) => (400, m),
            ApiError::Internal => (500, "internal error"),
        }
    }
}

fn trim_text(s: &str) -> (r: String)
    ensures
        r@ == trim(s@),
{
    let v = chars_of(s);
    let (a, b) = trim_bounds(&v, 0, v.len());
    assert(v@.subrange(0, v.len() as int) =~= s@);
    string_of(&v, a, b)
}

/// A required field, trimmed, or the request refused with `missing`.
pub open spec fn required_spec(field: Seq<char>, missing: &'static str, r: Result<String, ApiError>) -> bool {
    match r {
        Ok(v) => trim(field).len() > 0 && v@ == trim(field),
        Err(e) => trim(field).len() == 0 && e == ApiError::BadRequest(missing),
    }
}

fn required(field: &str, missing: &'static str) -> (r: Result<String, ApiError>)
    ensures
        required_spec(field@, missing, r),
{
    let t = trim_text(field);
    if t.as_str().is_empty() {
        Err(ApiError::BadRequest(missing))
    } else {
        Ok(t)
    }
}

/// An optional field, trimmed; blank counts as absent.
pub open spec fn optional_spec(field: Option<Seq<char>>) -> Option<Seq<char>> {
    match field {
        Some(f) => if trim(f).len() > 0 {
            Some(trim(f))
        } else {
            None
        },
        None => None,
    }
}

/// The text of an optional string.
pub open spec fn opt_string(o: Option<String>) -> Option<Seq<char>> {
    match o {
        Some(s) => Some(s@),
        None => None,
    }
}

fn optional(field: Option<&str>) -> (r: Option<String>)
    ensures
        opt_string(r) == optional_spec(opt_str(field)),
{
    match field {
        Some(f) => {
            let t = trim_text(f);
            if t.as_str().is_empty() {
                None
            } else {
                Some(t)
            }
        },
        None => None,
    }
}

/// A source delivery's required fields, trimmed: the URL, then the kind.
pub fn check_source(url: &str, kind: &str) -> (r: Result<(String, String), ApiError>)
    ensures
        match r {
            Ok((u, k)) => trim(url@).len() > 0 && trim(kind@).len() > 0 && u@ == trim(url@) && k@
                == trim(kind@),
            Err(e) => (trim(url@).len() == 0 && e == ApiError::BadRequest("url is required")) || (
            trim(url@).len() > 0 && trim(kind@).len() == 0 && e == ApiError::BadRequest(
                "kind is required",
            )),
        },
{
    let u = match required(url, "url is required") {
        Ok(u) => u,
        Err(e) => return Err(e),
    };
    let k = match required(kind, "kind is required") {
        Ok(k) => k,
        Err(e) => return Err(e),
    };
    Ok((u, k))
}

/// A news delivery's fields: the URL and headline required (in that order),
/// both trimmed, and the summary draft trimmed, blank meaning none.
pub fn check_news(url: &str, headline: &str, summary: Option<&str>) -> (r: Result<
    (String, String, Option<String>),
    ApiError,
>)
    ensures
        match r {
            Ok((u, h, s)) => trim(url@).len() > 0 && trim(headline@).len() > 0 && u@ == trim(url@)
                && h@ == trim(headline@) && opt_string(s) == optional_spec(opt_str(summary)),
            Err(e) => (trim(url@).len() == 0 && e == ApiError::BadRequest("url is required")) || (
            trim(url@).len() > 0 && trim(headline@).len() == 0 && e == ApiError::BadRequest(
                "headline is required",
            )),
        },
{
    let u = match required(url, "url is required") {
        Ok(u) => u,
        Err(e) => return Err(e),
    };
    let h = match required(headline, "headline is required") {
        Ok(h) => h,
        Err(e) => return Err(e),
    };
    Ok((u, h, optional(summary)))
}

/// The five points of the outlet leaning spectrum.
pub open spec fn leaning_allowed(l: Seq<char>) -> bool {
    l == "left"@ || l == "lean_left"@ || l == "center"@ || l == "lean_right"@ || l == "right"@
}

/// What an outlet delivery comes to: the slug refused when blank, then the
/// name; otherwise the trimmed slug and name, the trimmed leaning (blank
/// meaning none) unless it is off the spectrum, and the trimmed summary.
pub open spec fn outlet_spec(
    slug: Seq<char>,
    name: Seq<char>,
    leaning: Option<Seq<char>>,
    summary: Option<Seq<char>>,
) -> Result<(Seq<char>, Seq<char>, Option<Seq<char>>, Option<Seq<char>>), ApiError> {
    if trim(slug).len() == 0 {
        Err(ApiError::BadRequest("slug is required"))
    } else if trim(name).len() == 0 {
        Err(ApiError::BadRequest("name is required"))
    } else {
        match optional_spec(leaning) {
            Some(x) => if leaning_allowed(x) {
                Ok((trim(slug), trim(name), Some(x), optional_spec(summary)))
            } else {
                Err(
                    ApiError::BadRequest(
                        "leaning must be one of: left, lean_left, center, lean_right, right",
                    ),
                )
            },
            None => Ok((trim(slug), trim(name), None, optional_spec(summary))),
        }
    }
}

/// The checked outlet fields as plain values.
pub open spec fn outlet_view(r: Result<(String, String, Option<String>, Option<String>), ApiError>) -> Result<
    (Seq<char>, Seq<char>, Option<Seq<char>>, Option<Seq<char>>),
    ApiError,
> {
    match r {
        Ok((s, n, l, d)) => Ok((s@, n@, opt_string(l), opt_string(d))),
        Err(e) => Err(e),
    }
}

/// Each of the five documented leanings (left, lean_left, center, lean_right,
/// right), with any surrounding space, is accepted and kept trimmed when the
/// slug and name are given; any other non-blank leaning is refused.
pub proof fn law_documented_leanings_accepted(
    slug: Seq<char>,
    name: Seq<char>,
    leaning: Seq<char>,
    summary: Option<Seq<char>>,
)
    requires
        trim(slug).len() > 0,
        trim(name).len() > 0,
    ensures
        (trim(leaning) == "left"@ || trim(leaning) == "lean_left"@ || trim(leaning) == "center"@
            || trim(leaning) == "lean_right"@ || trim(leaning) == "right"@) ==> outlet_spec(
            slug,
            name,
            Some(leaning),
            summary,
        ) == Ok::<(Seq<char>, Seq<char>, Option<Seq<char>>, Option<Seq<char>>), ApiError>(
            (trim(slug), trim(name), Some(trim(leaning)), optional_spec(summary)),
        ),
        !(trim(leaning) == "left"@ || trim(leaning) == "lean_left"@ || trim(leaning) == "center"@
            || trim(leaning) == "lean_right"@ || trim(leaning) == "right"@) && trim(leaning).len()
            > 0 ==> outlet_spec(slug, name, Some(leaning), summary) is Err,
{
    reveal_strlit("left");
    reveal_strlit("lean_left");
    reveal_strlit("center");
    reveal_strlit("lean_right");
    reveal_strlit("right");
}

/// An outlet delivery's fields: the slug and name required (in that order),
/// trimmed; the leaning trimmed, blank meaning none, and otherwise one of the
/// five spectrum values; the summary trimmed, blank meaning none.
pub fn check_outlet(slug: &str, name: &str, leaning: Option<&str>, summary: Option<&str>) -> (r:
    Result<(String, String, Option<String>, Option<String>), ApiError>)
    ensures
        outlet_view(r) == outlet_spec(slug@, name@, opt_str(leaning), opt_str(summary)),
        match r {
            Ok((s, n, l, d)) => {
                &&& trim(slug@).len() > 0 && s@ == trim(slug@)
                &&& trim(name@).len() > 0 && n@ == trim(name@)
                &&& opt_string(l) == optional_spec(opt_str(leaning))
                &&& (l matches Some(x) ==> leaning_allowed(x@))
                &&& opt_string(d) == optional_spec(opt_str(summary))
            },
            Err(e) => {
                ||| trim(slug@).len() == 0 && e == ApiError::BadRequest("slug is required")
                ||| trim(slug@).len() > 0 && trim(name@).len() == 0 && e == ApiError::BadRequest(
                    "name is required",
                )
                ||| trim(slug@).len() > 0 && trim(name@).len() > 0 && (optional_spec(opt_str(leaning))
                    matches Some(x) && !leaning_allowed(x)) && e == ApiError::BadRequest(
                    "leaning must be one of: left, lean_left, center, lean_right, right",
                )
            },
        },
{
    let s = match required(slug, "slug is required") {
        Ok(s) => s,
        Err(e) => return Err(e),
    };
    let n = match required(name, "name is required") {
        Ok(n) => n,
        Err(e) => return Err(e),
    };
    let l = optional(leaning);
    match &l {
        Some(x) => {
            let t = x.as_str();
            if !(str_eq(t, "left") || str_eq(t, "lean_left") || str_eq(t, "center") || str_eq(
                t,
                "lean_right",
            ) || str_eq(t, "right")) {
                return Err(
                    ApiError::BadRequest(
                        "leaning must be one of: left, lean_left, center, lean_right, right",
                    ),
                );
            }
        },
        None => {},
    }
    Ok((s, n, l, optional(summary)))
}

} // verus!
