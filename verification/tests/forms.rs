use open_public::pages::admin::{form_pairs, hex_val, trimmed, urldecode};
use open_public::pages::discovery::escape_xml;
use open_public::pages::people::percent_encode;
use open_public::pages::poll::hex_prefix;

#[test]
fn urldecode_handles_plus_percent_and_invalid() {
    assert_eq!(urldecode("a+b"), "a b"); // plus is a space
    assert_eq!(urldecode("%C3%A7"), "ç"); // percent-encoded UTF-8
    assert_eq!(urldecode("100%25"), "100%"); // encoded percent sign
    assert_eq!(urldecode("bad%zz"), "bad%zz"); // invalid escape left intact
    assert_eq!(urldecode("plain"), "plain");
}

#[test]
fn form_pairs_preserves_order_and_repeats() {
    let pairs = form_pairs("question=Q%3F&option=A&option=B&option=");
    let options: Vec<&str> = pairs
        .iter()
        .filter(|(k, _)| k == "option")
        .map(|(_, v)| v.as_str())
        .collect();
    assert_eq!(options, ["A", "B", ""]); // order and the empty trailing row kept
    assert_eq!(pairs.iter().find(|(k, _)| k == "question").unwrap().1, "Q?");
}

#[test]
fn percent_encodes_spaces_and_utf8() {
    assert_eq!(percent_encode("mehmet"), "mehmet");
    assert_eq!(percent_encode("ali veli"), "ali%20veli");
    // Non-ASCII is encoded per UTF-8 byte.
    assert_eq!(percent_encode("ş"), "%C5%9F");
}

#[test]
fn percent_encoding_round_trips_through_urldecode() {
    for s in ["a b&c=d", "ğüşiöç", "100%", "~-_."] {
        assert_eq!(urldecode(&percent_encode(s)), s);
    }
}

#[test]
fn form_pairs_skips_empty_pieces_and_keeps_valueless_keys() {
    let pairs = form_pairs("&a&&b=1=2&");
    assert_eq!(
        pairs,
        vec![("a".to_string(), String::new()), ("b".to_string(), "1=2".to_string())]
    );
    assert!(form_pairs("").is_empty());
}

#[test]
fn hex_digits_in_either_case() {
    assert_eq!(hex_val(b'0'), Some(0));
    assert_eq!(hex_val(b'a'), Some(10));
    assert_eq!(hex_val(b'F'), Some(15));
    assert_eq!(hex_val(b'g'), None);
    assert_eq!(urldecode("%e2%82%ac"), "€");
    // Invalid UTF-8 after decoding is replaced, not an error.
    assert_eq!(urldecode("%ff"), "\u{fffd}");
}

#[test]
fn xml_escaping_covers_the_five_entities() {
    assert_eq!(
        escape_xml("a&b<c>d\"e'f"),
        "a&amp;b&lt;c&gt;d&quot;e&apos;f"
    );
    assert_eq!(escape_xml("plain/path?x=1"), "plain/path?x=1");
}

#[test]
fn fingerprints_and_trimmed_fields() {
    assert_eq!(hex_prefix(&[0xde, 0xad, 0xbe, 0xef]), "deadbeef");
    assert_eq!(hex_prefix(&[0u8; 20]), "0000000000000000");
    assert_eq!(trimmed(Some("  x ".to_string())), Some("x".to_string()));
    assert_eq!(trimmed(Some("   ".to_string())), None);
    assert_eq!(trimmed(None), None);
}
