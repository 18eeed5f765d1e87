use base64::Engine;

use open_public::pages::data::{export_ballot, group_tallies, BallotRow, TallyRow};
use open_public::pages::poll::{parse_ballot, BallotError, TokenRequest, MODULUS_BYTES};

fn b64(bytes: &[u8]) -> String {
    base64::engine::general_purpose::URL_SAFE_NO_PAD.encode(bytes)
}

#[test]
fn a_ballot_reads_its_token_signature_and_options() {
    let body = format!(
        "token={}&signature={}&option_id=2&option_id=99&option_id=3&junk&x=1",
        b64(b"tok"),
        b64(b"sig")
    );
    let b = parse_ballot(&body, &vec![1, 2, 3], "multi").ok().unwrap();
    assert_eq!(b.token, b"tok");
    assert_eq!(b.signature, b"sig");
    assert_eq!(b.randomizer, None);
    assert_eq!(b.options, vec![2, 3]);
    // A single-choice poll records only the first chosen option.
    let b = parse_ballot(&body, &vec![1, 2, 3], "single").ok().unwrap();
    assert_eq!(b.options, vec![2]);
}

#[test]
fn a_ballot_without_credentials_or_options_is_refused() {
    let sig = b64(b"sig");
    assert!(matches!(
        parse_ballot(&format!("signature={sig}&option_id=1"), &vec![1], "single"),
        Err(BallotError::MissingToken)
    ));
    assert!(matches!(
        parse_ballot(&format!("token=!!&signature={sig}&option_id=1"), &vec![1], "single"),
        Err(BallotError::MissingToken)
    ));
    assert!(matches!(
        parse_ballot(&format!("token={sig}&signature={sig}&option_id=7"), &vec![1], "single"),
        Err(BallotError::NoOption)
    ));
    // A later value replaces an earlier one, even an invalid one.
    let body = format!("token={}&randomizer={}&token=%%&signature={sig}&option_id=1", b64(b"t"), b64(b"r"));
    assert!(matches!(parse_ballot(&body, &vec![1], "single"), Err(BallotError::MissingToken)));
}

#[test]
fn a_blinded_token_request_must_be_the_modulus_length() {
    let good = base64::engine::general_purpose::STANDARD.encode(vec![7u8; MODULUS_BYTES]);
    let r = TokenRequest { blinded: format!(" {good}\n") };
    assert_eq!(r.blinded_message(), Some(vec![7u8; MODULUS_BYTES]));
    let short = base64::engine::general_purpose::STANDARD.encode(vec![7u8; 10]);
    assert_eq!(TokenRequest { blinded: short }.blinded_message(), None);
    assert_eq!(TokenRequest { blinded: "%%".to_string() }.blinded_message(), None);
}

fn row(slug: &str, option_id: i64, votes: i64) -> TallyRow {
    TallyRow {
        slug: slug.to_string(),
        question: format!("{slug}?"),
        kind: "single".to_string(),
        poll_id: slug.len() as i64,
        position: option_id as i32,
        option_id,
        label: format!("o{option_id}"),
        votes,
        public_key: Some(vec![1, 2, 3]),
        issued: 10,
        spent: 5,
        head_seq: Some(2),
        head_hash: Some(vec![0xab, 0xcd]),
    }
}

#[test]
fn tallies_group_into_polls_with_their_totals() {
    let polls = group_tallies(vec![row("a", 1, 3), row("a", 2, 4), row("bb", 3, 0)]);
    assert_eq!(polls.len(), 2);
    assert_eq!(polls[0].slug, "a");
    assert_eq!(polls[0].total_votes, 7);
    assert_eq!(polls[0].options.len(), 2);
    assert_eq!(polls[0].options[1].label, "o2");
    assert_eq!(polls[0].public_key.as_deref(), Some("AQID"));
    let chain = polls[0].chain.as_ref().unwrap();
    assert_eq!((chain.seq, chain.hash.as_str()), (2, "abcd"));
    assert_eq!(polls[1].total_votes, 0);
    let mut r = row("c", 1, 1);
    r.head_seq = Some(0);
    r.public_key = None;
    let polls = group_tallies(vec![r]);
    assert!(polls[0].chain.is_none());
    assert!(polls[0].public_key.is_none());
}

#[test]
fn ballots_are_exported_as_hex_without_identity() {
    let e = export_ballot(BallotRow {
        poll_slug: "p".to_string(),
        poll_id: 4,
        seq: 1,
        token: vec![0x01, 0xff],
        signature: vec![0x10],
        randomizer: None,
        option_ids: vec![3],
        cast_at: "2024-01-01T00:00:00+00:00".to_string(),
        content_hash: vec![0xaa],
        prev_hash: Some(vec![0x0b]),
    });
    assert_eq!(e.token, "01ff");
    assert_eq!(e.signature, "10");
    assert_eq!(e.randomizer, None);
    assert_eq!(e.content_hash, "aa");
    assert_eq!(e.prev_hash.as_deref(), Some("0b"));
    assert_eq!(e.options, vec![3]);
}
