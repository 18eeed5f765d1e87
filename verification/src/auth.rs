//! Accounts and sessions: email hashing, passwords, session tokens and cookies.

use vstd::prelude::*;

use crate::crypto::{
    argon2_check, argon2_hash, argon2_verify, hmac_sha256, hmac_sha256_tag, random_bytes, sha256,
    sha256_digest,
};
use crate::text::{all_ascii, ascii_lower, hex_encode, hex_spec, push_char, to_lowercase, trim, trim_bounds, chars_of,
    string_of, unicode_lowercase};

verus! {

/// The name of the session cookie.
pub const SESSION_COOKIE: &'static str = "op_session";

/// How long a session lasts, in hours.
pub const SESSION_TTL_HOURS: i64 = 72;

/// The URL-safe base64 alphabet symbol for `n < 64`.
pub open spec fn b64_symbol(n: int) -> char {
    if n < 26 {
        ((n + 65) as u8) as char
    } else if n < 52 {
        ((n + 71) as u8) as char
    } else if n < 62 {
        ((n - 4) as u8) as char
    } else if n == 62 {
        '-'
    } else {
        '_'
    }
}

/// Whether `c` belongs to the URL-safe base64 alphabet.
pub open spec fn url_safe(c: char) -> bool {
    ('A' <= c <= 'Z') || ('a' <= c <= 'z') || ('0' <= c <= '9') || c == '-' || c == '_'
}

/// Unpadded URL-safe base64 of `b`: each group of three bytes becomes four
/// symbols, a trailing pair three, a trailing single byte two.
pub open spec fn base64_url_spec(b: Seq<u8>) -> Seq<char>
    decreases b.len(),
{
    let x0 = if b.len() > 0 { b[0] as int } else { 0 };
    let x1 = if b.len() > 1 { b[1] as int } else { 0 };
    let x2 = if b.len() > 2 { b[2] as int } else { 0 };
    if b.len() == 0 {
        Seq::<char>::empty()
    } else if b.len() == 1 {
        seq![b64_symbol(x0 / 4), b64_symbol((x0 % 4) * 16)]
    } else if b.len() == 2 {
        seq![b64_symbol(x0 / 4), b64_symbol((x0 % 4) * 16 + x1 / 16), b64_symbol((x1 % 16) * 4)]
    } else {
        seq![
            b64_symbol(x0 / 4),
            b64_symbol((x0 % 4) * 16 + x1 / 16),
            b64_symbol((x1 % 16) * 4 + x2 / 64),
            b64_symbol(x2 % 64),
        ] + base64_url_spec(b.subrange(3, b.len() as int))
    }
}

/// The alphabet symbol for `n < 64`.
fn b64_char(n: u32) -> (c: char)
    requires
        n < 64,
    ensures
        c == b64_symbol(n as int),
{
    if n < 26 {
        ((n + 65) as u8) as char
    } else if n < 52 {
        ((n + 71) as u8) as char
    } else if n < 62 {
        ((n - 4) as u8) as char
    } else if n == 62 {
        '-'
    } else {
        '_'
    }
}

proof fn lemma_b64_bits(b0: u32, b1: u32, b2: u32)
    requires
        b0 < 256,
        b1 < 256,
        b2 < 256,
    ensures
        ((((b0 << 16) | (b1 << 8) | b2) >> 18) & 63) == b0 / 4,
        ((((b0 << 16) | (b1 << 8) | b2) >> 12) & 63) == (b0 % 4) * 16 + b1 / 16,
        ((((b0 << 16) | (b1 << 8) | b2) >> 6) & 63) == (b1 % 16) * 4 + b2 / 64,
        (((b0 << 16) | (b1 << 8) | b2) & 63) == b2 % 64,
{
    assert(((((b0 << 16) | (b1 << 8) | b2) >> 18) & 63) == b0 / 4) by (bit_vector)
        requires
            b0 < 256 && b1 < 256 && b2 < 256,
    ;
    assert(((((b0 << 16) | (b1 << 8) | b2) >> 12) & 63) == (b0 % 4) * 16 + b1 / 16) by (bit_vector)
        requires
            b0 < 256 && b1 < 256 && b2 < 256,
    ;
    assert(((((b0 << 16) | (b1 << 8) | b2) >> 6) & 63) == (b1 % 16) * 4 + b2 / 64) by (bit_vector)
        requires
            b0 < 256 && b1 < 256 && b2 < 256,
    ;
    assert((((b0 << 16) | (b1 << 8) | b2) & 63) == b2 % 64) by (bit_vector)
        requires
            b0 < 256 && b1 < 256 && b2 < 256,
    ;
}

/// Unpadded URL-safe base64 (RFC 4648 §5) of `bytes`.
pub fn base64_url(bytes: &[u8]) -> (out: String)
    ensures
        out@ == base64_url_spec(bytes@),
{
    let mut out = String::new();
    let n = bytes.len();
    let mut i: usize = 0;
    assert(bytes@.subrange(0, n as int) =~= bytes@);
    assert(out@ + base64_url_spec(bytes@) =~= base64_url_spec(bytes@));
    while i < n
        invariant
            i <= n == bytes@.len(),
            out@ + base64_url_spec(bytes@.subrange(i as int, n as int)) == base64_url_spec(bytes@),
        decreases n - i,
    {
        let ghost rest = bytes@.subrange(i as int, n as int);
        let len = if n - i >= 3 {
            3
        } else {
            n - i
        };
        let b0 = bytes[i] as u32;
        let b1 = if len > 1 {
            bytes[i + 1] as u32
        } else {
            0
        };
        let b2 = if len > 2 {
            bytes[i + 2] as u32
        } else {
            0
        };
        proof {
            lemma_b64_bits(b0, b1, b2);
        }
        let w = (b0 << 16) | (b1 << 8) | b2;
        let ghost before = out@;
        push_char(&mut out, b64_char((w >> 18) & 63));
        push_char(&mut out, b64_char((w >> 12) & 63));
        if len > 1 {
            push_char(&mut out, b64_char((w >> 6) & 63));
        }
        if len > 2 {
            push_char(&mut out, b64_char(w & 63));
        }
        proof {
            if len == 3 {
                assert(rest.subrange(3, rest.len() as int) =~= bytes@.subrange(i + 3, n as int));
                assert(out@ =~= before + base64_url_spec(rest).subrange(0, 4));
                assert(base64_url_spec(rest) =~= base64_url_spec(rest).subrange(0, 4)
                    + base64_url_spec(bytes@.subrange(i + 3, n as int)));
            } else {
                assert(bytes@.subrange(n as int, n as int) =~= Seq::<u8>::empty());
                assert(out@ =~= before + base64_url_spec(rest));
            }
        }
        i = i + len;
    }
    assert(bytes@.subrange(n as int, n as int) =~= Seq::<u8>::empty());
    assert(out@ + Seq::<char>::empty() =~= out@);
    out
}

proof fn lemma_symbol_safe(n: int)
    requires
        0 <= n < 64,
    ensures
        url_safe(b64_symbol(n)),
{
    if n < 26 {
        assert(((n + 65) as u8) as char == (n + 65) as char);
    } else if n < 52 {
        assert(((n + 71) as u8) as char == (n + 71) as char);
    } else if n < 62 {
        assert(((n - 4) as u8) as char == (n - 4) as char);
    }
}

/// Every symbol of `base64_url_spec` is URL-safe, and `3k` bytes give `4k`
/// symbols.
pub proof fn law_base64_url_shape(b: Seq<u8>)
    ensures
        forall|k: int| 0 <= k < base64_url_spec(b).len() ==> url_safe(#[trigger] base64_url_spec(b)[k]),
        b.len() % 3 == 0 ==> base64_url_spec(b).len() == b.len() / 3 * 4,
    decreases b.len(),
{
    let x0 = if b.len() > 0 { b[0] as int } else { 0 };
    let x1 = if b.len() > 1 { b[1] as int } else { 0 };
    let x2 = if b.len() > 2 { b[2] as int } else { 0 };
    lemma_symbol_safe(x0 / 4);
    lemma_symbol_safe((x0 % 4) * 16);
    lemma_symbol_safe((x0 % 4) * 16 + x1 / 16);
    lemma_symbol_safe((x1 % 16) * 4);
    lemma_symbol_safe((x1 % 16) * 4 + x2 / 64);
    lemma_symbol_safe(x2 % 64);
    if b.len() >= 3 {
        let rest = b.subrange(3, b.len() as int);
        law_base64_url_shape(rest);
        let head = seq![
            b64_symbol(x0 / 4),
            b64_symbol((x0 % 4) * 16 + x1 / 16),
            b64_symbol((x1 % 16) * 4 + x2 / 64),
            b64_symbol(x2 % 64),
        ];
        assert(base64_url_spec(b) == head + base64_url_spec(rest));
        assert forall|k: int| 0 <= k < base64_url_spec(b).len() implies url_safe(
            #[trigger] base64_url_spec(b)[k],
        ) by {
            if k >= 4 {
                assert(base64_url_spec(b)[k] == base64_url_spec(rest)[k - 4]);
            }
        }
    }
}

/// Constant-time byte comparison: `true` exactly when the two are equal. Every
/// byte is compared whatever the earlier ones were, so a wrong secret cannot be
/// recovered by timing.
pub fn constant_time_eq(a: &[u8], b: &[u8]) -> (r: bool)
    ensures
        r == (a@ == b@),
{
    if a.len() != b.len() {
        return false;
    }
    let mut diff: u8 = 0;
    let mut i: usize = 0;
    while i < a.len()
        invariant
            i <= a@.len() == b@.len(),
            (diff == 0) == (forall|k: int| 0 <= k < i ==> a@[k] == b@[k]),
        decreases a@.len() - i,
    {
        let x = a[i];
        let y = b[i];
        assert((diff | (x ^ y)) == 0 <==> (diff == 0 && x == y)) by (bit_vector);
        diff = diff | (x ^ y);
        i = i + 1;
    }
    if diff == 0 {
        assert(a@ =~= b@);
    }
    diff == 0
}

/// The normalized form of an email address that is hashed: trimmed, then
/// lowercased.
pub open spec fn normalized_email(email: Seq<char>) -> Seq<char> {
    unicode_lowercase(trim(email))
}

/// The stored key of an email: the hex HMAC-SHA256 of its normalized UTF-8
/// bytes under the instance secret.
pub open spec fn email_hash_spec(email: Seq<char>, secret: Seq<u8>) -> Seq<char> {
    hex_spec(hmac_sha256(secret, vstd::utf8::encode_utf8(normalized_email(email))))
}

/// HMAC-hash an email so we can key users on it without storing the plaintext.
/// `None` is returned only if the HMAC refuses the key, which HMAC-SHA256 never
/// does.
pub fn hash_email(email: &str, secret: &[u8]) -> (r: Option<String>)
    ensures
        r == Some(r->0),
        r->0@ == email_hash_spec(email@, secret@),
        r->0@.len() == 64,
        all_ascii(trim(email@)) ==> r->0@ == hex_spec(
            hmac_sha256(secret@, vstd::utf8::encode_utf8(ascii_lower(trim(email@)))),
        ),
{
    let v = chars_of(email);
    let (a, b) = trim_bounds(&v, 0, v.len());
    assert(v@.subrange(0, v.len() as int) =~= email@);
    let trimmed = string_of(&v, a, b);
    let normalized = to_lowercase(trimmed.as_str());
    let tag = hmac_sha256_tag(secret, normalized.as_str().as_bytes())?;
    proof {
        crate::text::lemma_hex_len(tag@);
    }
    Some(hex_encode(tag.as_slice()))
}

/// Surrounding white space never changes an address's key, so an address
/// typed with stray spaces finds the same account.
pub proof fn law_email_hash_ignores_surrounding_space(email: Seq<char>, secret: Seq<u8>)
    ensures
        email_hash_spec(trim(email), secret) == email_hash_spec(email, secret),
{
    crate::text::lemma_trim_twice(email);
}

/// The stored form of a session token: the hex SHA-256 of its UTF-8 bytes.
pub open spec fn token_hash_spec(token: Seq<char>) -> Seq<char> {
    hex_spec(sha256(vstd::utf8::encode_utf8(token)))
}

/// Hash a session token for storage, so a database leak does not leak sessions.
pub fn hash_token(token: &str) -> (r: String)
    ensures
        r@ == token_hash_spec(token@),
{
    let digest = sha256_digest(token.as_bytes());
    hex_encode(digest.as_slice())
}

/// Hash a password with argon2 and a fresh random salt; `None` when hashing
/// fails, which happens only for a password longer than argon2 accepts
/// (`0xFFFFFFFF` bytes). A hash it returns verifies the password it was made
/// from.
pub fn hash_password(password: &str) -> (r: Option<String>)
    ensures
        r is Some <==> vstd::utf8::encode_utf8(password@).len() <= 0xFFFF_FFFF,
        r matches Some(h) ==> argon2_verify(vstd::utf8::encode_utf8(password@), h@) == Some(true),
{
    argon2_hash(password.as_bytes())
}

/// Check a password against a stored argon2 hash: `None` when the hash does not
/// parse, else whether it matches.
pub fn verify_password(password: &str, hash: &str) -> (r: Option<bool>)
    ensures
        r == argon2_verify(vstd::utf8::encode_utf8(password@), hash@),
{
    argon2_check(password.as_bytes(), hash)
}

/// Verify a password, always doing the argon2 work even when there is no stored
/// hash: without one, `dummy` (a hash made once at startup) is checked instead,
/// so login timing does not reveal whether the account exists, but the answer
/// is then always `false`: no password gets in without a stored hash. Any
/// parse failure counts as a mismatch.
pub fn verify_password_or_dummy(password: &str, stored: Option<&str>, dummy: &str) -> (r: bool)
    ensures
        r == match stored {
            Some(h) => argon2_verify(vstd::utf8::encode_utf8(password@), h@) == Some(true),
            None => false,
        },
        stored is None ==> !r,
{
    let hash = match stored {
        Some(h) => h,
        None => dummy,
    };
    let checked = verify_password(password, hash);
    match stored {
        Some(_) => match checked {
            Some(ok) => ok,
            None => false,
        },
        None => false,
    }
}

/// A fresh session token: 48 random bytes as URL-safe base64, 64 characters
/// from the URL-safe alphabet.
pub fn generate_session_token() -> (r: String)
    ensures
        r@.len() == 64,
        forall|k: int| 0 <= k < r@.len() ==> url_safe(#[trigger] r@[k]),
{
    let bytes = random_bytes(48);
    let r = base64_url(bytes.as_slice());
    proof {
        law_base64_url_shape(bytes@);
    }
    r
}

/// The signed-in account behind a request.
#[derive(Debug, Clone)]
pub struct AuthSession {
    pub user_id: i64,
    pub is_admin: bool,
    pub session_id: i64,
}

/// `SameSite` policy of a cookie.
#[derive(Debug, Clone, Copy, PartialEq, Eq, Structural)]
pub enum SameSitePolicy {
    Lax,
    Strict,
}

/// The attributes of a cookie the server sets; the HTTP layer renders it.
#[derive(Debug, Clone)]
pub struct CookieSpec {
    pub name: String,
    pub value: String,
    pub path: String,
    pub http_only: bool,
    pub secure: bool,
    pub same_site: SameSitePolicy,
    pub max_age_hours: i64,
}

/// The session cookie set after login: host-wide, HTTP-only, `SameSite=Lax`,
/// lasting the session lifetime, and `Secure` exactly when the site is served
/// over https.
pub fn session_cookie(token: String, secure: bool) -> (c: CookieSpec)
    ensures
        c.name@ == SESSION_COOKIE@,
        c.value == token,
        c.path@ == seq!['/'],
        c.http_only,
        c.secure == secure,
        c.same_site == SameSitePolicy::Lax,
        c.max_age_hours == SESSION_TTL_HOURS,
{
    let mut path = String::new();
    push_char(&mut path, '/');
    CookieSpec {
        name: String::from_str(SESSION_COOKIE),
        value: token,
        path,
        http_only: true,
        secure,
        same_site: SameSitePolicy::Lax,
        max_age_hours: SESSION_TTL_HOURS,
    }
}

/// A removal cookie that clears the session on logout: empty, expired at once.
pub fn clear_session_cookie() -> (c: CookieSpec)
    ensures
        c.name@ == SESSION_COOKIE@,
        c.value@.len() == 0,
        c.path@ == seq!['/'],
        c.http_only,
        !c.secure,
        c.same_site == SameSitePolicy::Lax,
        c.max_age_hours == 0,
{
    let mut path = String::new();
    push_char(&mut path, '/');
    CookieSpec {
        name: String::from_str(SESSION_COOKIE),
        value: String::new(),
        path,
        http_only: true,
        secure: false,
        same_site: SameSitePolicy::Lax,
        max_age_hours: 0,
    }
}

} // verus!
