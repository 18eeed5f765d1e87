use open_public::captcha::{
    build_challenge, challenge, challenge_hash, constant_time_eq, hmac_hex, payload_bytes,
    salt_expiry, verify_and_spend, verify_solution, Challenge, Solution, SpentSignatures, MAX_NUMBER,
    TTL_SECONDS,
};

const NOW: i64 = 1_700_000_000;

/// Solve a server-issued challenge the way the browser would (count up until
/// the hash matches) and return the solution the widget would submit.
fn solve(ch: &Challenge) -> Solution {
    let number = (0..=ch.maxnumber)
        .find(|n| challenge_hash(&ch.salt, *n) == ch.challenge)
        .expect("the challenge is solvable within maxnumber");
    Solution {
        algorithm: "SHA-256".to_string(),
        challenge: ch.challenge.clone(),
        number,
        salt: ch.salt.clone(),
        signature: ch.signature.clone(),
    }
}

#[test]
fn a_solved_challenge_carries_the_number_that_hashes_to_the_target() {
    let secret = b"a-server-secret-of-some-length!!";
    let ch = challenge(secret, NOW);
    let sol = solve(&ch);
    // The recovered number reproduces the published challenge hash.
    assert_eq!(challenge_hash(&sol.salt, sol.number), sol.challenge);
    // And the challenge is signed with our secret.
    assert_eq!(hmac_hex(secret, &sol.challenge).unwrap(), sol.signature);
}

#[test]
fn a_signature_from_a_different_secret_does_not_match() {
    let ch = challenge(b"secret-one-secret-one-secret-one", NOW);
    let sol = solve(&ch);
    // Verified against the wrong secret, the HMAC of the same challenge differs.
    assert_ne!(
        hmac_hex(b"secret-two-secret-two-secret-two", &sol.challenge).unwrap(),
        sol.signature
    );
}

#[test]
fn the_salt_carries_a_future_expiry() {
    let ch = challenge(b"any-secret-any-secret-any-secret", NOW);
    let exp = salt_expiry(&ch.salt).unwrap();
    assert!(exp > NOW);
    assert_eq!(exp, NOW + TTL_SECONDS);
}

#[test]
fn a_garbage_payload_is_rejected_not_a_panic() {
    // Not base64: the decode fails cleanly rather than panicking.
    assert!(payload_bytes("not base64!!!").is_none());
}

#[test]
fn constant_time_eq_matches_equal_and_rejects_different() {
    assert!(constant_time_eq(b"abc", b"abc"));
    assert!(!constant_time_eq(b"abc", b"abd"));
    assert!(!constant_time_eq(b"abc", b"ab"));
}

#[test]
fn an_issued_challenge_verifies_until_it_expires() {
    let secret = b"k";
    let ch = challenge(secret, NOW);
    assert_eq!(ch.algorithm, "SHA-256");
    assert_eq!(ch.maxnumber, MAX_NUMBER);
    let sol = solve(&ch);
    assert!(verify_solution(secret, &sol, NOW));
    assert!(verify_solution(secret, &sol, NOW + TTL_SECONDS));
    assert!(!verify_solution(secret, &sol, NOW + TTL_SECONDS + 1));
    assert!(!verify_solution(b"other", &sol, NOW));
}

#[test]
fn a_tampered_solution_is_refused() {
    let secret = b"k";
    let ch = challenge(secret, NOW);
    let mut sol = solve(&ch);
    sol.number = (sol.number + 1) % (MAX_NUMBER + 1);
    assert!(!verify_solution(secret, &sol, NOW));
    let mut other = solve(&ch);
    other.algorithm = "SHA-1".to_string();
    assert!(!verify_solution(secret, &other, NOW));
}

#[test]
fn a_built_challenge_has_the_documented_shape() {
    let ch = build_challenge(b"k", &[0xab; 12], 42, 7);
    assert_eq!(ch.salt, "abababababababababababab?expires=42");
    assert_eq!(ch.challenge, challenge_hash(&ch.salt, 7));
    assert_eq!(salt_expiry(&ch.salt), Some(42));
    assert_eq!(salt_expiry("abc?expires=-5&x=1"), Some(-5));
    assert_eq!(salt_expiry("abc"), None);
    assert_eq!(salt_expiry("abc?expires=soon"), None);
}

#[test]
fn the_challenge_hash_is_sha256_of_salt_then_number() {
    // SHA-256("abc") is the standard test vector; "ab" + "c" is not a number,
    // so use a salt whose concatenation with "0" is known.
    assert_eq!(
        challenge_hash("", 0),
        "5feceb66ffc86f38d952786c6d696c79c2dbc239dd4e91b46729d73a27fb57e9"
    );
}

#[test]
fn payload_bytes_decodes_standard_base64() {
    assert_eq!(payload_bytes("  Zm9v  "), Some(b"foo".to_vec()));
}

#[test]
fn a_solution_is_accepted_once() {
    let secret = b"a-server-secret-of-some-length!!";
    let ch = build_challenge(secret, &[7u8; 12], NOW + TTL_SECONDS, 42);
    let sol = solve(&ch);
    let mut spent = SpentSignatures::new();
    assert!(!spent.contains(&sol.signature));
    assert!(verify_and_spend(secret, &sol, NOW, &mut spent));
    assert!(spent.contains(&sol.signature));
    // The same payload again is a replay.
    assert!(!verify_and_spend(secret, &sol, NOW + 1, &mut spent));
    // An invalid one spends nothing.
    let mut other = SpentSignatures::new();
    assert!(!verify_and_spend(b"another-secret-another-secret-!!", &sol, NOW, &mut other));
    assert!(!other.contains(&sol.signature));
}
