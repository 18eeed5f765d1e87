//! The people index: its query parameters, where a page of results starts, and
//! how a search query travels in a page link.

use vstd::prelude::*;

use crate::pages::admin::{hex_val_spec, url_bytes};
use crate::text::push_char;

verus! {

/// How many people one page of the index lists.
pub const PAGE_SIZE: i64 = 50;

/// The index's query parameters: the page number and the search text.
pub struct Params {
    pub page: Option<i64>,
    pub q: Option<String>,
}

/// The page shown (the requested one, at least the first) and the offset of
/// its first row.
pub fn page_window(page: Option<i64>) -> (r: (i64, i64))
    requires
        page matches Some(p) ==> p <= i64::MAX / PAGE_SIZE,
    ensures
        r.0 == match page {
            Some(p) => if p < 1 {
                1
            } else {
                p
            },
            None => 1,
        },
        r.1 == (r.0 - 1) * PAGE_SIZE,
{
    let p = match page {
        Some(p) => if p < 1 {
            1
        } else {
            p
        },
        None => 1,
    };
    (p, (p - 1) * PAGE_SIZE)
}

/// Whether a byte is left as is by percent-encoding (RFC 3986 unreserved).
pub open spec fn unreserved(b: u8) -> bool {
    (97 <= b <= 122) || (65 <= b <= 90) || (48 <= b <= 57) || b == 45 || b == 95 || b == 46
        || b == 126
}

/// The uppercase hex digit for `n < 16`.
pub open spec fn upper_hex(n: u8) -> char {
    if n < 10 {
        ((n + 48) as u8) as char
    } else {
        ((n + 55) as u8) as char
    }
}

/// Percent-encoding of bytes: unreserved bytes as themselves, every other
/// byte as `%XY` in uppercase hex.
pub open spec fn percent_spec(b: Seq<u8>) -> Seq<char>
    decreases b.len(),
{
    if b.len() == 0 {
        Seq::empty()
    } else {
        let c = b.last();
        percent_spec(b.drop_last()) + if unreserved(c) {
            seq![c as char]
        } else {
            seq!['%', upper_hex(c / 16), upper_hex(c % 16)]
        }
    }
}

/// Percent-encode a query for a URL parameter (each non-unreserved UTF-8 byte
/// as `%XX`, so spaces and non-ASCII round-trip).
pub fn percent_encode(s: &str) -> (r: String)
    ensures
        r@ == percent_spec(vstd::utf8::encode_utf8(s@)),
{
    let b = s.as_bytes();
    let mut out = String::new();
    let mut i: usize = 0;
    assert(b@.subrange(0, 0) =~= Seq::<u8>::empty());
    while i < b.len()
        invariant
            i <= b@.len(),
            out@ == percent_spec(b@.subrange(0, i as int)),
        decreases b@.len() - i,
    {
        let c = b[i];
        if (97u8 <= c && c <= 122u8) || (65u8 <= c && c <= 90u8) || (48u8 <= c && c <= 57u8) || c
            == 45u8 || c == 95u8 || c == 46u8 || c == 126u8 {
            push_char(&mut out, c as char);
        } else {
            let hi = c / 16;
            let lo = c % 16;
            push_char(&mut out, '%');
            push_char(&mut out, if hi < 10 { (hi + 48) as char } else { (hi + 55) as char });
            push_char(&mut out, if lo < 10 { (lo + 48) as char } else { (lo + 55) as char });
        }
        assert(b@.subrange(0, i + 1).drop_last() =~= b@.subrange(0, i as int));
        i = i + 1;
    }
    assert(b@.subrange(0, b@.len() as int) =~= b@);
    out
}

/// The characters of a percent-encoded byte: itself when unreserved, else
/// `%XY`.
pub open spec fn percent_token(c: u8) -> Seq<char> {
    if unreserved(c) {
        seq![c as char]
    } else {
        seq!['%', upper_hex(c / 16), upper_hex(c % 16)]
    }
}

/// Percent-encoding built from the front, a token per byte.
spec fn percent_front(b: Seq<u8>) -> Seq<char>
    decreases b.len(),
{
    if b.len() == 0 {
        Seq::empty()
    } else {
        percent_token(b[0]) + percent_front(b.drop_first())
    }
}

/// The bytes of ASCII characters.
spec fn ascii_bytes(p: Seq<char>) -> Seq<u8> {
    p.map_values(|c: char| c as u8)
}

proof fn lemma_front_back(b: Seq<u8>)
    ensures
        percent_front(b) == percent_spec(b),
    decreases b.len(),
{
    if b.len() > 0 {
        lemma_front_back(b.drop_last());
        if b.len() > 1 {
            lemma_front_back(b.drop_first());
            lemma_front_back(b.drop_first().drop_last());
            assert(b.drop_last().drop_first() =~= b.drop_first().drop_last());
            assert(b.drop_first().last() == b.last());
            assert(percent_spec(b.drop_first()) == percent_spec(b.drop_first().drop_last())
                + percent_token(b.last()));
            assert(percent_front(b.drop_last()) == percent_token(b[0]) + percent_front(
                b.drop_last().drop_first(),
            ));
        } else {
            assert(b.drop_first() =~= Seq::<u8>::empty());
            assert(b.drop_last() =~= Seq::<u8>::empty());
        }
    }
}

proof fn lemma_upper_hex_value(n: u8)
    requires
        n < 16,
    ensures
        (upper_hex(n) as u32) < 128,
        hex_val_spec(upper_hex(n) as u8) == Some(n),
{
    if n < 10 {
        assert(((n + 48) as u8) as char as u8 == (n + 48) as u8);
    } else {
        assert(((n + 55) as u8) as char as u8 == (n + 55) as u8);
    }
}

proof fn lemma_token_ascii(c: u8)
    ensures
        vstd::utf8::is_ascii_chars(percent_token(c)),
{
    if !unreserved(c) {
        lemma_upper_hex_value(c / 16);
        lemma_upper_hex_value(c % 16);
    }
}

proof fn lemma_front_ascii(b: Seq<u8>)
    ensures
        vstd::utf8::is_ascii_chars(percent_front(b)),
    decreases b.len(),
{
    if b.len() > 0 {
        lemma_token_ascii(b[0]);
        lemma_front_ascii(b.drop_first());
        let t = percent_token(b[0]);
        let r = percent_front(b.drop_first());
        assert forall|i: int| 0 <= i < (t + r).len() implies '\0' <= #[trigger] (t + r)[i] <= '\u{7f}' by {
            if i < t.len() {
                assert((t + r)[i] == t[i]);
            } else {
                assert((t + r)[i] == r[i - t.len()]);
            }
        }
    }
}

proof fn lemma_ascii_encode(p: Seq<char>)
    requires
        vstd::utf8::is_ascii_chars(p),
    ensures
        vstd::utf8::encode_utf8(p) == ascii_bytes(p),
{
    vstd::utf8::is_ascii_chars_encode_utf8(p);
    assert(vstd::utf8::encode_utf8(p) =~= ascii_bytes(p));
}

proof fn lemma_decode_front(b: Seq<u8>)
    ensures
        url_bytes(ascii_bytes(percent_front(b))) == b,
    decreases b.len(),
{
    if b.len() > 0 {
        lemma_decode_front(b.drop_first());
        let c = b[0];
        let t = percent_token(c);
        let rest = ascii_bytes(percent_front(b.drop_first()));
        let x = ascii_bytes(t + percent_front(b.drop_first()));
        assert(x =~= ascii_bytes(t) + rest);
        if unreserved(c) {
            assert(((c as char) as u8) == c);
            assert(x[0] == c);
            assert(x.drop_first() =~= rest);
            assert(url_bytes(x) == seq![c] + url_bytes(rest));
        } else {
            let hi = c / 16;
            let lo = c % 16;
            lemma_upper_hex_value(hi);
            lemma_upper_hex_value(lo);
            assert(x[0] == 37u8);
            assert(x[1] == upper_hex(hi) as u8);
            assert(x[2] == upper_hex(lo) as u8);
            assert(x.subrange(3, x.len() as int) =~= rest);
            assert((hi * 16 + lo) as u8 == c);
            assert(url_bytes(x) == seq![c] + url_bytes(rest));
        }
        assert(seq![c] + b.drop_first() =~= b);
    }
}

/// Percent-decoding undoes percent-encoding: the bytes of any text, encoded
/// with [`percent_encode`] and decoded as a form value, are the text's bytes
/// again, so the text comes back whole (spaces and non-ASCII included).
pub proof fn law_percent_encoding_round_trips(s: Seq<char>)
    ensures
        url_bytes(vstd::utf8::encode_utf8(percent_spec(vstd::utf8::encode_utf8(s))))
            == vstd::utf8::encode_utf8(s),
        vstd::utf8::valid_utf8(
            url_bytes(vstd::utf8::encode_utf8(percent_spec(vstd::utf8::encode_utf8(s)))),
        ),
        vstd::utf8::decode_utf8(
            url_bytes(vstd::utf8::encode_utf8(percent_spec(vstd::utf8::encode_utf8(s)))),
        ) == s,
{
    let b = vstd::utf8::encode_utf8(s);
    lemma_front_back(b);
    lemma_front_ascii(b);
    lemma_ascii_encode(percent_front(b));
    lemma_decode_front(b);
    vstd::utf8::encode_utf8_valid_utf8(s);
    vstd::utf8::encode_utf8_decode_utf8(s);
}

} // verus!
