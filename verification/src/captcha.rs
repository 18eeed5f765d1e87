//! Proof-of-work captcha (ALTCHA's SHA-256 scheme).
//!
//! The challenge is `SHA-256(salt + n)` for a secret number `n` the browser
//! recovers by counting up from zero; the salt carries the expiry, and the
//! challenge is signed with an HMAC of the app secret so a solution can be
//! checked later without the server storing anything but the spent signature.

use vstd::prelude::*;

pub use crate::auth::constant_time_eq;
use crate::crypto::{
    base64_standard_decode, decode_base64_standard, hmac_sha256, hmac_sha256_tag, random_bytes,
    random_u64, sha256, sha256_digest,
};
use crate::num::{
    decimal, i64_to_string, parse_i64, parse_in_range, signed_decimal, u64_to_string,
};
use crate::text::{
    chars_of, find_from, find_in, head_before, head_end, hex_encode, hex_spec, push_str, str_eq,
    string_of, trim, trim_bounds,
};

verus! {

/// How long a challenge is solvable before it expires, in seconds.
pub const TTL_SECONDS: i64 = 600;

/// The upper bound on the secret number.
pub const MAX_NUMBER: u64 = 120_000;

/// The challenge the widget fetches (ALTCHA's field names).
pub struct Challenge {
    pub algorithm: String,
    pub challenge: String,
    pub maxnumber: u64,
    pub salt: String,
    pub signature: String,
}

/// What the widget submits back.
pub struct Solution {
    pub algorithm: String,
    pub challenge: String,
    pub number: u64,
    pub salt: String,
    pub signature: String,
}

/// The hex HMAC-SHA256 of a message's UTF-8 bytes under the secret.
pub open spec fn hmac_hex_spec(secret: Seq<u8>, message: Seq<char>) -> Seq<char> {
    hex_spec(hmac_sha256(secret, vstd::utf8::encode_utf8(message)))
}

/// The challenge for a salt and number: hex SHA-256 of the salt followed by the
/// number in decimal.
pub open spec fn challenge_hash_spec(salt: Seq<char>, number: u64) -> Seq<char> {
    hex_spec(
        sha256(vstd::utf8::encode_utf8(salt) + vstd::utf8::encode_utf8(decimal(number as nat))),
    )
}

pub open spec fn expires_marker() -> Seq<char> {
    seq!['?', 'e', 'x', 'p', 'i', 'r', 'e', 's', '=']
}

/// The expiry encoded in a salt: the text after the first `?expires=` up to any
/// `&`, read as an `i64`.
pub open spec fn salt_expiry_spec(salt: Seq<char>) -> Option<int> {
    match find_from(salt, expires_marker(), 0) {
        Some(k) => parse_in_range(
            head_before(salt.subrange(k + 9, salt.len() as int), '&', '&'),
            true,
            i64::MIN as int,
            i64::MAX as int,
        ),
        None => None,
    }
}

/// The salt for random bytes and an expiry: their hex, `?expires=`, the expiry.
pub open spec fn salt_spec(salt_bytes: Seq<u8>, expires: int) -> Seq<char> {
    hex_spec(salt_bytes) + expires_marker() + signed_decimal(expires)
}

/// Whether a solution is accepted at time `now` (before the replay check): the
/// algorithm is `SHA-256`, the signature is ours for the challenge, the number
/// solves the challenge, and the salt's expiry has not passed.
pub open spec fn solution_valid(
    secret: Seq<u8>,
    algorithm: Seq<char>,
    challenge: Seq<char>,
    number: u64,
    salt: Seq<char>,
    signature: Seq<char>,
    now: int,
) -> bool {
    &&& algorithm == "SHA-256"@
    &&& vstd::utf8::encode_utf8(hmac_hex_spec(secret, challenge)) == vstd::utf8::encode_utf8(
        signature,
    )
    &&& challenge_hash_spec(salt, number) == challenge
    &&& salt_expiry_spec(salt) matches Some(exp) && now <= exp
}

/// The hex HMAC of `message` under `secret`; `None` only if the key is refused,
/// which HMAC-SHA256 never does.
pub fn hmac_hex(secret: &[u8], message: &str) -> (r: Option<String>)
    ensures
        r is Some,
        r->0@ == hmac_hex_spec(secret@, message@),
{
    let tag = hmac_sha256_tag(secret, message.as_bytes())?;
    Some(hex_encode(tag.as_slice()))
}

/// The challenge for `salt` and `number`.
pub fn challenge_hash(salt: &str, number: u64) -> (r: String)
    ensures
        r@ == challenge_hash_spec(salt@, number),
{
    let digits = u64_to_string(number);
    let a = salt.as_bytes();
    let b = digits.as_str().as_bytes();
    let mut data: Vec<u8> = Vec::new();
    let mut i: usize = 0;
    while i < a.len()
        invariant
            i <= a@.len(),
            data@ == a@.subrange(0, i as int),
        decreases a@.len() - i,
    {
        data.push(a[i]);
        assert(a@.subrange(0, i + 1) =~= a@.subrange(0, i as int).push(a@[i as int]));
        i = i + 1;
    }
    let mut j: usize = 0;
    while j < b.len()
        invariant
            j <= b@.len(),
            data@ == a@ + b@.subrange(0, j as int),
        decreases b@.len() - j,
    {
        data.push(b[j]);
        assert(b@.subrange(0, j + 1) =~= b@.subrange(0, j as int).push(b@[j as int]));
        j = j + 1;
    }
    assert(a@.subrange(0, a@.len() as int) =~= a@);
    assert(b@.subrange(0, b@.len() as int) =~= b@);
    let digest = sha256_digest(data.as_slice());
    hex_encode(digest.as_slice())
}

/// The expiry unix timestamp encoded in the salt, if present.
pub fn salt_expiry(salt: &str) -> (r: Option<i64>)
    ensures
        r matches Some(x) ==> salt_expiry_spec(salt@) == Some(x as int),
        r is None ==> salt_expiry_spec(salt@) is None,
{
    let v = chars_of(salt);
    let marker: Vec<char> = vec!['?', 'e', 'x', 'p', 'i', 'r', 'e', 's', '='];
    assert(marker@ =~= expires_marker());
    assert(v@.subrange(0, v.len() as int) =~= salt@);
    match find_in(&v, 0, v.len(), &marker) {
        Some(k) => {
            let end = head_end(&v, k + 9, v.len(), '&', '&');
            let text = string_of(&v, k + 9, end);
            parse_i64(text.as_str())
        },
        None => None,
    }
}

/// The challenge for the given salt bytes, expiry and secret number, signed
/// with `secret`.
pub fn build_challenge(secret: &[u8], salt_bytes: &[u8], expires: i64, number: u64) -> (c: Challenge)
    ensures
        c.algorithm@ == "SHA-256"@,
        c.salt@ == salt_spec(salt_bytes@, expires as int),
        c.challenge@ == challenge_hash_spec(c.salt@, number),
        c.maxnumber == MAX_NUMBER,
        c.signature@ == hmac_hex_spec(secret@, c.challenge@),
{
    let mut salt = hex_encode(salt_bytes);
    push_str(&mut salt, "?expires=");
    proof {
        reveal_strlit("?expires=");
        assert("?expires="@ =~= expires_marker());
    }
    let exp = i64_to_string(expires);
    push_str(&mut salt, exp.as_str());
    let challenge = challenge_hash(salt.as_str(), number);
    let signature = match hmac_hex(secret, challenge.as_str()) {
        Some(s) => s,
        None => String::new(),
    };
    Challenge {
        algorithm: String::from_str("SHA-256"),
        challenge,
        maxnumber: MAX_NUMBER,
        salt,
        signature,
    }
}

/// A fresh challenge issued at unix time `now`: twelve random salt bytes, a
/// random secret number in `0..=MAX_NUMBER`, and an expiry `TTL_SECONDS` on.
pub fn challenge(secret: &[u8], now: i64) -> (c: Challenge)
    requires
        now <= i64::MAX - TTL_SECONDS,
    ensures
        c.algorithm@ == "SHA-256"@,
        c.maxnumber == MAX_NUMBER,
        exists|salt_bytes: Seq<u8>, number: u64|
            #![trigger salt_spec(salt_bytes, now + TTL_SECONDS), challenge_hash_spec(c.salt@, number)]
            salt_bytes.len() == 12 && number <= MAX_NUMBER && c.salt@ == salt_spec(
                salt_bytes,
                now + TTL_SECONDS,
            ) && challenge_hash_spec(c.salt@, number) == c.challenge@,
        c.signature@ == hmac_hex_spec(secret@, c.challenge@),
{
    let salt_bytes = random_bytes(12);
    let number = random_u64() % (MAX_NUMBER + 1);
    let c = build_challenge(secret, salt_bytes.as_slice(), now + TTL_SECONDS, number);
    assert(challenge_hash_spec(c.salt@, number) == c.challenge@);
    assert(c.salt@ == salt_spec(salt_bytes@, now + TTL_SECONDS));
    c
}

/// Whether a submitted solution is valid at unix time `now`: cryptographically
/// sound and unexpired. The replay check is the caller's.
pub fn verify_solution(secret: &[u8], sol: &Solution, now: i64) -> (ok: bool)
    ensures
        ok == solution_valid(
            secret@,
            sol.algorithm@,
            sol.challenge@,
            sol.number,
            sol.salt@,
            sol.signature@,
            now as int,
        ),
{
    proof {
        reveal_strlit("SHA-256");
    }
    if !str_eq(sol.algorithm.as_str(), "SHA-256") {
        return false;
    }
    let expected_sig = match hmac_hex(secret, sol.challenge.as_str()) {
        Some(s) => s,
        None => return false,
    };
    if !constant_time_eq(expected_sig.as_str().as_bytes(), sol.signature.as_str().as_bytes()) {
        return false;
    }
    let h = challenge_hash(sol.salt.as_str(), sol.number);
    if !str_eq(h.as_str(), sol.challenge.as_str()) {
        return false;
    }
    match salt_expiry(sol.salt.as_str()) {
        Some(exp) => now <= exp,
        None => false,
    }
}

proof fn lemma_find_at(s: Seq<char>, p: Seq<char>, j: int, h: int)
    requires
        0 <= j <= h,
        h + p.len() <= s.len(),
        s.subrange(h, h + p.len()) == p,
        p.len() > 0,
        forall|k: int| j <= k < h ==> s[k] != p[0],
    ensures
        find_from(s, p, j) == Some(h),
    decreases h - j,
{
    if j < h {
        assert(s.subrange(j, j + p.len())[0] == s[j]);
        lemma_find_at(s, p, j + 1, h);
    }
}

proof fn lemma_head_whole(s: Seq<char>, a: char)
    requires
        forall|k: int| 0 <= k < s.len() ==> s[k] != a,
    ensures
        head_before(s, a, a) == s,
    decreases s.len(),
{
    if s.len() > 0 {
        lemma_head_whole(s.drop_first(), a);
        assert(seq![s[0]] + s.drop_first() =~= s);
    }
}

/// The expiry written into a salt is the expiry read back from it.
pub proof fn law_salt_expiry_roundtrip(salt_bytes: Seq<u8>, expires: i64)
    ensures
        salt_expiry_spec(salt_spec(salt_bytes, expires as int)) == Some(expires as int),
{
    let h = hex_spec(salt_bytes);
    let d = signed_decimal(expires as int);
    let s = salt_spec(salt_bytes, expires as int);
    crate::text::lemma_hex_chars(salt_bytes);
    assert(s.subrange(h.len() as int, h.len() + 9 as int) =~= expires_marker());
    assert forall|k: int| 0 <= k < h.len() implies s[k] != expires_marker()[0] by {
        assert(s[k] == h[k]);
        assert(crate::text::is_hex_char(h[k]));
    }
    lemma_find_at(s, expires_marker(), 0, h.len() as int);
    assert(s.subrange(h.len() as int + 9, s.len() as int) =~= d);
    if expires < 0 {
        crate::num::lemma_decimal_digits((-(expires as int)) as nat);
        assert forall|k: int| 0 <= k < d.len() implies d[k] != '&' by {
            if k > 0 {
                assert(d[k] == decimal((-(expires as int)) as nat)[k - 1]);
            }
        }
    } else {
        crate::num::lemma_decimal_digits(expires as nat);
        assert forall|k: int| 0 <= k < d.len() implies d[k] != '&' by {
            assert(crate::num::is_digit(d[k]));
        }
    }
    lemma_head_whole(d, '&');
    crate::num::law_signed_decimal_roundtrip(expires);
}

/// A challenge this server issued, answered with its own secret number, is
/// accepted at any time up to its expiry and refused after it.
pub proof fn law_issued_challenge_verifies(
    secret: Seq<u8>,
    salt_bytes: Seq<u8>,
    expires: i64,
    number: u64,
    now: int,
)
    ensures
        ({
            let salt = salt_spec(salt_bytes, expires as int);
            let challenge = challenge_hash_spec(salt, number);
            solution_valid(
                secret,
                "SHA-256"@,
                challenge,
                number,
                salt,
                hmac_hex_spec(secret, challenge),
                now,
            ) == (now <= expires)
        }),
{
    law_salt_expiry_roundtrip(salt_bytes, expires);
}

/// A solution whose signature is not the HMAC of its challenge under the
/// secret is refused, whatever else it carries.
pub proof fn law_forged_signature_refused(
    secret: Seq<u8>,
    algorithm: Seq<char>,
    challenge: Seq<char>,
    number: u64,
    salt: Seq<char>,
    signature: Seq<char>,
    now: int,
)
    requires
        signature != hmac_hex_spec(secret, challenge),
    ensures
        !solution_valid(secret, algorithm, challenge, number, salt, signature, now),
{
    vstd::utf8::encode_utf8_decode_utf8(signature);
    vstd::utf8::encode_utf8_decode_utf8(hmac_hex_spec(secret, challenge));
}

/// The bytes of a submitted `altcha` field: standard base64 of the solution's
/// JSON, surrounding white space ignored; `None` when it is not base64.
pub fn payload_bytes(payload: &str) -> (r: Option<Vec<u8>>)
    ensures
        match r {
            Some(b) => base64_standard_decode(trim(payload@)) == Some(b@),
            None => base64_standard_decode(trim(payload@)) is None,
        },
{
    let v = chars_of(payload);
    let (a, b) = trim_bounds(&v, 0, v.len());
    assert(v@.subrange(0, v.len() as int) =~= payload@);
    let t = string_of(&v, a, b);
    decode_base64_standard(t.as_str())
}

/// The signatures of solutions already accepted: a solution's signature is
/// its replay key, spent once it has been accepted.
pub struct SpentSignatures {
    keys: Vec<String>,
}

impl View for SpentSignatures {
    type V = Set<Seq<char>>;

    closed spec fn view(&self) -> Set<Seq<char>> {
        self.keys@.map_values(|k: String| k@).to_set()
    }
}

/// Whether a solution is accepted at `now` given the spent signatures: valid,
/// and its signature not yet spent.
pub open spec fn accepted(
    secret: Seq<u8>,
    sol: Solution,
    now: int,
    spent: Set<Seq<char>>,
) -> bool {
    solution_valid(
        secret,
        sol.algorithm@,
        sol.challenge@,
        sol.number,
        sol.salt@,
        sol.signature@,
        now,
    ) && !spent.contains(sol.signature@)
}

/// The spent signatures after a verification: the solution's signature is
/// added exactly when it was accepted.
pub open spec fn spent_after(
    secret: Seq<u8>,
    sol: Solution,
    now: int,
    spent: Set<Seq<char>>,
) -> Set<Seq<char>> {
    if accepted(secret, sol, now, spent) {
        spent.insert(sol.signature@)
    } else {
        spent
    }
}

impl SpentSignatures {
    /// No signature spent yet.
    pub fn new() -> (r: SpentSignatures)
        ensures
            r@ == Set::<Seq<char>>::empty(),
    {
        let r = SpentSignatures { keys: Vec::new() };
        assert(r@ =~= Set::<Seq<char>>::empty());
        r
    }

    /// Whether `key` has been spent.
    pub fn contains(&self, key: &str) -> (r: bool)
        ensures
            r == self@.contains(key@),
    {
        let ghost ks = self.keys@.map_values(|k: String| k@);
        let mut i: usize = 0;
        while i < self.keys.len()
            invariant
                i <= self.keys@.len(),
                ks == self.keys@.map_values(|k: String| k@),
                forall|j: int| 0 <= j < i ==> ks[j] != key@,
            decreases self.keys.len() - i,
        {
            if str_eq(self.keys[i].as_str(), key) {
                assert(ks[i as int] == key@);
                return true;
            }
            i = i + 1;
        }
        proof {
            if ks.to_set().contains(key@) {
                let j = choose|j: int| 0 <= j < ks.len() && ks[j] == key@;
                assert(ks[j] == key@);
            }
        }
        false
    }

    /// Spend `key`.
    fn spend(&mut self, key: String)
        ensures
            final(self)@ == old(self)@.insert(key@),
    {
        let ghost before = self.keys@.map_values(|k: String| k@);
        self.keys.push(key);
        proof {
            let after = self.keys@.map_values(|k: String| k@);
            assert(after =~= before.push(key@));
            assert(after.to_set() =~= before.to_set().insert(key@)) by {
                assert forall|x: Seq<char>| #[trigger] after.to_set().contains(x) <==> before.to_set().insert(
                    key@,
                ).contains(x) by {
                    if after.to_set().contains(x) {
                        let j = choose|j: int| 0 <= j < after.len() && after[j] == x;
                        if j < before.len() {
                            assert(before[j] == x);
                        }
                    }
                    if before.to_set().contains(x) {
                        let j = choose|j: int| 0 <= j < before.len() && before[j] == x;
                        assert(after[j] == x);
                    }
                    if x == key@ {
                        assert(after[before.len() as int] == x);
                    }
                }
            }
        }
    }
}

/// Verify a solution and spend it: accepted when it is valid at `now` and its
/// signature has not been spent, and then its signature is spent, so the same
/// payload is refused from then on.
pub fn verify_and_spend(secret: &[u8], sol: &Solution, now: i64, spent: &mut SpentSignatures) -> (ok:
    bool)
    ensures
        ok == accepted(secret@, *sol, now as int, old(spent)@),
        final(spent)@ == spent_after(secret@, *sol, now as int, old(spent)@),
{
    if !verify_solution(secret, sol, now) {
        return false;
    }
    if spent.contains(sol.signature.as_str()) {
        return false;
    }
    let mut key = String::new();
    push_str(&mut key, sol.signature.as_str());
    spent.spend(key);
    true
}

/// A solution is accepted at most once: whatever the spent signatures were,
/// once it has been accepted, verifying the same solution again, at any time,
/// is refused.
pub proof fn law_a_solution_is_accepted_once(
    secret: Seq<u8>,
    sol: Solution,
    now: int,
    later: int,
    spent: Set<Seq<char>>,
)
    ensures
        accepted(secret, sol, now, spent) ==> !accepted(
            secret,
            sol,
            later,
            spent_after(secret, sol, now, spent),
        ),
{
}

} // verus!
