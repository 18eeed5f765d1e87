use open_public::auth::{
    base64_url, clear_session_cookie, constant_time_eq, generate_session_token, hash_email,
    hash_password, hash_token, session_cookie, verify_password, verify_password_or_dummy,
    SameSitePolicy,
};

fn dummy() -> String {
    hash_password("timing-equalizer").unwrap_or_default()
}

#[test]
fn email_hash_is_stable_and_secret_dependent() {
    // Trims and lowercases, so the same address hashes the same way.
    let a = hash_email("User@Example.com", b"secret").unwrap();
    let b = hash_email("  user@example.com ", b"secret").unwrap();
    assert_eq!(a, b);
    // A different secret yields a different hash.
    assert_ne!(a, hash_email("user@example.com", b"other").unwrap());
}

#[test]
fn password_roundtrips() {
    let hash = hash_password("correct horse").unwrap();
    assert!(verify_password("correct horse", &hash).unwrap());
    assert!(!verify_password("wrong", &hash).unwrap());
}

#[test]
fn dummy_verify_is_false_without_a_hash() {
    assert!(!verify_password_or_dummy("anything", None, &dummy()));
}

#[test]
fn dummy_verify_checks_a_real_hash() {
    let hash = hash_password("pw").unwrap();
    assert!(verify_password_or_dummy("pw", Some(&hash), &dummy()));
    assert!(!verify_password_or_dummy("nope", Some(&hash), &dummy()));
}

#[test]
fn token_hash_is_deterministic() {
    assert_eq!(hash_token("abc"), hash_token("abc"));
    assert_ne!(hash_token("abc"), hash_token("abd"));
}

#[test]
fn session_tokens_are_unique_and_url_safe() {
    let a = generate_session_token();
    assert_ne!(a, generate_session_token());
    assert_eq!(a.len(), 64); // 48 random bytes -> 64 base64url chars
    assert!(a
        .chars()
        .all(|c| c.is_ascii_alphanumeric() || c == '-' || c == '_'));
}

#[test]
fn base64_url_encodes_known_values() {
    assert_eq!(base64_url(b""), "");
    assert_eq!(base64_url(&[0]), "AA");
    assert_eq!(base64_url(b"foo"), "Zm9v");
}

#[test]
fn session_cookie_is_hardened() {
    let secure = session_cookie("tok".into(), true);
    assert!(secure.http_only);
    assert!(matches!(secure.same_site, SameSitePolicy::Lax));
    assert!(secure.secure);
    // Over plain http the Secure attribute is dropped.
    let insecure = session_cookie("tok".into(), false);
    assert!(!insecure.secure);
}

#[test]
fn the_session_cookie_lasts_three_days_and_the_clearing_one_expires_it() {
    let c = session_cookie("tok".into(), false);
    assert_eq!(c.name, "op_session");
    assert_eq!(c.value, "tok");
    assert_eq!(c.path, "/");
    assert_eq!(c.max_age_hours, 72);
    let gone = clear_session_cookie();
    assert_eq!(gone.name, "op_session");
    assert_eq!(gone.value, "");
    assert_eq!(gone.max_age_hours, 0);
    assert!(gone.http_only);
}

#[test]
fn base64_url_pads_nothing_and_uses_the_url_alphabet() {
    assert_eq!(base64_url(&[0xfb, 0xff]), "-_8");
    assert_eq!(base64_url(b"fo"), "Zm8");
    assert_eq!(base64_url(b"foob"), "Zm9vYg");
}

#[test]
fn hashes_are_lowercase_hex_of_the_digest_length() {
    let h = hash_token("abc");
    assert_eq!(
        h,
        "ba7816bf8f01cfea414140de5dae2223b00361a396177a9cb410ff61f20015ad"
    );
    let e = hash_email("a@b.c", b"k").unwrap();
    assert_eq!(e.len(), 64);
    assert!(e.chars().all(|c| c.is_ascii_digit() || ('a'..='f').contains(&c)));
}

#[test]
fn constant_time_eq_compares_whole_inputs() {
    assert!(constant_time_eq(b"", b""));
    assert!(!constant_time_eq(b"a", b""));
    assert!(!constant_time_eq(b"ab", b"ba"));
}

#[test]
fn email_hashes_are_64_hex_characters() {
    let h = hash_email("someone@example.com", b"").unwrap();
    assert_eq!(h.len(), 64);
    assert!(h.bytes().all(|b| b.is_ascii_hexdigit()));
}
