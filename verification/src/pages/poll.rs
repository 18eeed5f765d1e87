//! A poll page's requests: the blinded token a voter asks to have signed, and
//! the anonymous ballot cast with a signed token.

use vstd::prelude::*;

use crate::crypto::{
    base64_standard_decode, base64_url_nopad_decode, decode_base64_standard,
    decode_base64_url_nopad,
};
use crate::num::{parse_i64, parse_in_range};
use crate::text::{
    chars_of, head_before, head_end, hex_encode_prefix, hex_spec, range_eq, split_ranges,
    split_spec, str_eq, string_of, trim, trim_bounds,
};

verus! {

/// The first eight bytes of a hash as hex, for a short fingerprint.
pub fn hex_prefix(bytes: &[u8]) -> (r: String)
    ensures
        r@ == hex_spec(bytes@.subrange(0, if bytes@.len() < 8 { bytes@.len() as int } else { 8 })),
{
    let k = if bytes.len() < 8 {
        bytes.len()
    } else {
        8
    };
    hex_encode_prefix(bytes, k)
}

/// Who is looking at a poll, as far as voting goes.
#[derive(Clone, Copy, Debug, PartialEq, Eq, Structural)]
pub enum Viewer {
    /// Signed out: invited to sign in.
    Anonymous,
    /// Signed in and not yet issued a token for this poll.
    CanVote,
    /// Signed in and already issued a token: they have taken part.
    Voted,
}

/// The viewer of a poll. Anonymous ballots cannot be linked to an account, so
/// whether a signed-in visitor has taken part is read from the entitlement
/// (were they issued a token), never from a ballot.
pub fn viewer(signed_in: bool, issued_token: bool) -> (r: Viewer)
    ensures
        !signed_in ==> r == Viewer::Anonymous,
        signed_in && issued_token ==> r == Viewer::Voted,
        signed_in && !issued_token ==> r == Viewer::CanVote,
{
    if !signed_in {
        Viewer::Anonymous
    } else if issued_token {
        Viewer::Voted
    } else {
        Viewer::CanVote
    }
}

/// Whether the page loads the issuer's public key and the voting script: only
/// for a viewer who can vote on an open poll.
pub fn offers_ballot(v: Viewer, open: bool) -> (r: bool)
    ensures
        r <==> (v == Viewer::CanVote && open),
{
    match v {
        Viewer::CanVote => open,
        _ => false,
    }
}

/// The length of a blinded message: the RSA-2048 modulus, in bytes.
pub const MODULUS_BYTES: usize = 256;

/// The blinded token request a client submits to be blind-signed. `blinded` is
/// base64 of the client's blinded message (it hides the real token from us).
pub struct TokenRequest {
    pub blinded: String,
}

/// The blinded message of a request: standard base64 of exactly the modulus
/// length. Anything else is refused before an entitlement is spent.
pub open spec fn blinded_spec(blinded: Seq<char>) -> Option<Seq<u8>> {
    match base64_standard_decode(trim(blinded)) {
        Some(b) => if b.len() == MODULUS_BYTES {
            Some(b)
        } else {
            None
        },
        None => None,
    }
}

impl TokenRequest {
    /// The blinded message to sign, when the request carries a well-formed one.
    pub fn blinded_message(&self) -> (r: Option<Vec<u8>>)
        ensures
            match r {
                Some(b) => blinded_spec(self.blinded@) == Some(b@),
                None => blinded_spec(self.blinded@) is None,
            },
    {
        let v = chars_of(self.blinded.as_str());
        let (a, b) = trim_bounds(&v, 0, v.len());
        assert(v@.subrange(0, v.len() as int) =~= self.blinded@);
        let t = string_of(&v, a, b);
        match decode_base64_standard(t.as_str()) {
            Some(bytes) => if bytes.len() == MODULUS_BYTES {
                Some(bytes)
            } else {
                None
            },
            None => None,
        }
    }
}

/// `token`
pub open spec fn token_key() -> Seq<char> {
    seq!['t', 'o', 'k', 'e', 'n']
}

/// `signature`
pub open spec fn signature_key() -> Seq<char> {
    seq!['s', 'i', 'g', 'n', 'a', 't', 'u', 'r', 'e']
}

/// `randomizer`
pub open spec fn randomizer_key() -> Seq<char> {
    seq!['r', 'a', 'n', 'd', 'o', 'm', 'i', 'z', 'e', 'r']
}

/// `option_id`
pub open spec fn option_key() -> Seq<char> {
    seq!['o', 'p', 't', 'i', 'o', 'n', '_', 'i', 'd']
}

/// What a ballot body has told so far: the last `token`, `signature` and
/// `randomizer` (each decoded, `None` when absent or not valid base64), and the
/// chosen options that belong to the poll, in order.
pub struct BallotScan {
    pub token: Option<Seq<u8>>,
    pub signature: Option<Seq<u8>>,
    pub randomizer: Option<Seq<u8>>,
    pub options: Seq<i64>,
}

/// The option a `option_id` value names, when it is an integer that is one of
/// the poll's option ids.
pub open spec fn chosen_option(value: Seq<char>, ids: Seq<i64>) -> Option<i64> {
    match parse_in_range(value, true, i64::MIN as int, i64::MAX as int) {
        Some(x) => if ids.contains(x as i64) {
            Some(x as i64)
        } else {
            None
        },
        None => None,
    }
}

/// Read the `key=value` pieces of a ballot body in order; a piece without `=`
/// and an unknown key are ignored, and a later value of a key replaces an
/// earlier one.
pub open spec fn scan_ballot(pieces: Seq<Seq<char>>, ids: Seq<i64>) -> BallotScan
    decreases pieces.len(),
{
    if pieces.len() == 0 {
        BallotScan { token: None, signature: None, randomizer: None, options: Seq::empty() }
    } else {
        let prev = scan_ballot(pieces.drop_last(), ids);
        let p = pieces.last();
        let key = head_before(p, '=', '=');
        if key.len() == p.len() {
            prev
        } else {
            let value = p.subrange(key.len() as int + 1, p.len() as int);
            if key == token_key() {
                BallotScan { token: base64_url_nopad_decode(value), ..prev }
            } else if key == signature_key() {
                BallotScan { signature: base64_url_nopad_decode(value), ..prev }
            } else if key == randomizer_key() {
                BallotScan { randomizer: base64_url_nopad_decode(value), ..prev }
            } else if key == option_key() {
                match chosen_option(value, ids) {
                    Some(id) => BallotScan { options: prev.options.push(id), ..prev },
                    None => prev,
                }
            } else {
                prev
            }
        }
    }
}

/// Why a ballot body is refused.
#[derive(Debug, Clone, Copy, PartialEq, Eq, Structural)]
pub enum BallotError {
    /// The token or its signature is missing or not valid base64.
    MissingToken,
    /// No option of this poll was chosen.
    NoOption,
}

/// A ballot ready to verify and cast.
pub struct Ballot {
    pub token: Vec<u8>,
    pub signature: Vec<u8>,
    pub randomizer: Option<Vec<u8>>,
    pub options: Vec<i64>,
}

/// The options a ballot records: all chosen ones for a multiple-choice poll,
/// else only the first.
pub open spec fn recorded_options(chosen: Seq<i64>, multi: bool) -> Seq<i64> {
    if !multi && chosen.len() > 1 {
        chosen.take(1)
    } else {
        chosen
    }
}

/// The ballot a body casts, or why it is refused.
pub open spec fn ballot_spec(body: Seq<char>, ids: Seq<i64>, multi: bool) -> Result<
    (Seq<u8>, Seq<u8>, Option<Seq<u8>>, Seq<i64>),
    BallotError,
> {
    let s = scan_ballot(split_spec(body, '&'), ids);
    match (s.token, s.signature) {
        (Some(t), Some(sig)) => {
            let opts = recorded_options(s.options, multi);
            if opts.len() == 0 {
                Err(BallotError::NoOption)
            } else {
                Ok((t, sig, s.randomizer, opts))
            }
        },
        _ => Err(BallotError::MissingToken),
    }
}

/// The view of an optional byte vector.
pub open spec fn opt_bytes(o: Option<Vec<u8>>) -> Option<Seq<u8>> {
    match o {
        Some(b) => Some(b@),
        None => None,
    }
}

fn key_chars(which: u8) -> (r: Vec<char>)
    requires
        which < 4,
    ensures
        which == 0 ==> r@ == token_key(),
        which == 1 ==> r@ == signature_key(),
        which == 2 ==> r@ == randomizer_key(),
        which == 3 ==> r@ == option_key(),
{
    let r = if which == 0 {
        vec!['t', 'o', 'k', 'e', 'n']
    } else if which == 1 {
        vec!['s', 'i', 'g', 'n', 'a', 't', 'u', 'r', 'e']
    } else if which == 2 {
        vec!['r', 'a', 'n', 'd', 'o', 'm', 'i', 'z', 'e', 'r']
    } else {
        vec!['o', 'p', 't', 'i', 'o', 'n', '_', 'i', 'd']
    };
    assert(which == 0 ==> r@ =~= token_key());
    assert(which == 1 ==> r@ =~= signature_key());
    assert(which == 2 ==> r@ =~= randomizer_key());
    assert(which == 3 ==> r@ =~= option_key());
    r
}

/// Whether `id` is one of `ids`.
fn holds_id(ids: &Vec<i64>, id: i64) -> (r: bool)
    ensures
        r == ids@.contains(id),
{
    let mut k: usize = 0;
    while k < ids.len()
        invariant
            k <= ids@.len(),
            forall|m: int| 0 <= m < k ==> ids@[m] != id,
        decreases ids.len() - k,
    {
        if ids[k] == id {
            assert(ids@[k as int] == id);
            return true;
        }
        k = k + 1;
    }
    false
}

/// Read an anonymous ballot from its urlencoded body. `token`, `signature`
/// and the optional `randomizer` are URL-safe base64 without padding;
/// `option_id` fields carry the chosen options, of which only those among the
/// poll's `option_ids` count. A poll whose kind is not `multi` records one
/// option.
pub fn parse_ballot(body: &str, option_ids: &Vec<i64>, kind: &str) -> (r: Result<Ballot, BallotError>)
    ensures
        match r {
            Ok(b) => ballot_spec(body@, option_ids@, kind@ == "multi"@) == Ok::<
                (Seq<u8>, Seq<u8>, Option<Seq<u8>>, Seq<i64>),
                BallotError,
            >((b.token@, b.signature@, opt_bytes(b.randomizer), b.options@)),
            Err(e) => ballot_spec(body@, option_ids@, kind@ == "multi"@) == Err::<
                (Seq<u8>, Seq<u8>, Option<Seq<u8>>, Seq<i64>),
                BallotError,
            >(e),
        },
{
    let v = chars_of(body);
    assert(v@.subrange(0, v.len() as int) =~= body@);
    let parts = split_ranges(&v, 0, v.len(), '&');
    let ghost ps = split_spec(body@, '&');
    let k_token = key_chars(0);
    let k_sig = key_chars(1);
    let k_rand = key_chars(2);
    let k_opt = key_chars(3);
    let mut token: Option<Vec<u8>> = None;
    let mut signature: Option<Vec<u8>> = None;
    let mut randomizer: Option<Vec<u8>> = None;
    let mut options: Vec<i64> = Vec::new();
    let mut i: usize = 0;
    while i < parts.len()
        invariant
            i <= parts@.len() == ps.len(),
            ps == split_spec(body@, '&'),
            k_token@ == token_key(),
            k_sig@ == signature_key(),
            k_rand@ == randomizer_key(),
            k_opt@ == option_key(),
            forall|q: int|
                0 <= q < parts@.len() ==> (#[trigger] parts@[q]).0 <= parts@[q].1 <= v@.len()
                    && v@.subrange(parts@[q].0 as int, parts@[q].1 as int) == ps[q],
            ({
                let s = scan_ballot(ps.take(i as int), option_ids@);
                &&& s.token == opt_bytes(token)
                &&& s.signature == opt_bytes(signature)
                &&& s.randomizer == opt_bytes(randomizer)
                &&& s.options == options@
            }),
        decreases parts@.len() - i,
    {
        let (lo, hi) = parts[i];
        let ghost part = ps[i as int];
        assert(ps.take(i + 1).drop_last() =~= ps.take(i as int));
        assert(ps.take(i + 1).last() == part);
        let eq = head_end(&v, lo, hi, '=', '=');
        if eq < hi {
            let ghost key = head_before(part, '=', '=');
            assert(key == v@.subrange(lo as int, eq as int));
            assert(part.subrange(key.len() as int + 1, part.len() as int) =~= v@.subrange(
                eq + 1,
                hi as int,
            ));
            let value = string_of(&v, eq + 1, hi);
            if range_eq(&v, lo, eq, &k_token) {
                token = decode_base64_url_nopad(value.as_str());
            } else if range_eq(&v, lo, eq, &k_sig) {
                signature = decode_base64_url_nopad(value.as_str());
            } else if range_eq(&v, lo, eq, &k_rand) {
                randomizer = decode_base64_url_nopad(value.as_str());
            } else if range_eq(&v, lo, eq, &k_opt) {
                match parse_i64(value.as_str()) {
                    Some(id) => {
                        if holds_id(option_ids, id) {
                            options.push(id);
                        }
                    },
                    None => {},
                }
            }
        }
        i = i + 1;
    }
    assert(ps.take(parts@.len() as int) =~= ps);
    let multi = str_eq(kind, "multi");
    let (t, sig) = match (token, signature) {
        (Some(t), Some(s)) => (t, s),
        _ => return Err(BallotError::MissingToken),
    };
    if !multi && options.len() > 1 {
        options.truncate(1);
        assert(options@ =~= recorded_options(scan_ballot(ps, option_ids@).options, false));
    }
    if options.len() == 0 {
        return Err(BallotError::NoOption);
    }
    Ok(Ballot { token: t, signature: sig, randomizer, options })
}

proof fn lemma_scan_options(pieces: Seq<Seq<char>>, ids: Seq<i64>)
    ensures
        forall|k: int|
            0 <= k < scan_ballot(pieces, ids).options.len() ==> ids.contains(
                #[trigger] scan_ballot(pieces, ids).options[k],
            ),
    decreases pieces.len(),
{
    if pieces.len() > 0 {
        lemma_scan_options(pieces.drop_last(), ids);
    }
}

/// The value of the last `key=value` piece with the given key, when one was
/// sent.
pub open spec fn last_value(pieces: Seq<Seq<char>>, key: Seq<char>) -> Option<Seq<char>>
    decreases pieces.len(),
{
    if pieces.len() == 0 {
        None
    } else {
        let p = pieces.last();
        let k = head_before(p, '=', '=');
        if k.len() < p.len() && k == key {
            Some(p.subrange(k.len() as int + 1, p.len() as int))
        } else {
            last_value(pieces.drop_last(), key)
        }
    }
}

/// The bytes the last value of `key` decodes to as URL-safe base64 without
/// padding; none when no such field was sent or its last value is not base64.
pub open spec fn decoded_field(pieces: Seq<Seq<char>>, key: Seq<char>) -> Option<Seq<u8>> {
    match last_value(pieces, key) {
        Some(v) => base64_url_nopad_decode(v),
        None => None,
    }
}

proof fn lemma_scan_reads_last_fields(pieces: Seq<Seq<char>>, ids: Seq<i64>)
    ensures
        scan_ballot(pieces, ids).token == decoded_field(pieces, "token"@),
        scan_ballot(pieces, ids).signature == decoded_field(pieces, "signature"@),
        scan_ballot(pieces, ids).randomizer == decoded_field(pieces, "randomizer"@),
    decreases pieces.len(),
{
    reveal_strlit("token");
    reveal_strlit("signature");
    reveal_strlit("randomizer");
    assert(token_key() =~= "token"@);
    assert(signature_key() =~= "signature"@);
    assert(randomizer_key() =~= "randomizer"@);
    if pieces.len() > 0 {
        lemma_scan_reads_last_fields(pieces.drop_last(), ids);
        crate::site::lemma_head_before_bound(pieces.last(), '=', '=');
    }
}

/// A cast ballot carries what the voter sent: its token, its signature and its
/// randomizer are the bytes of the last `token`, `signature` and `randomizer`
/// fields of the body, and the randomizer is absent only when no such field
/// was sent or its last value is not base64.
pub proof fn law_ballot_keeps_what_was_sent(body: Seq<char>, ids: Seq<i64>, multi: bool)
    ensures
        ballot_spec(body, ids, multi) matches Ok(b) ==> {
            let pieces = split_spec(body, '&');
            &&& decoded_field(pieces, "token"@) == Some(b.0)
            &&& decoded_field(pieces, "signature"@) == Some(b.1)
            &&& decoded_field(pieces, "randomizer"@) == b.2
        },
        ballot_spec(body, ids, multi) is Err ==> (decoded_field(split_spec(body, '&'), "token"@)
            is None || decoded_field(split_spec(body, '&'), "signature"@) is None
            || ballot_spec(body, ids, multi) == Err::<
            (Seq<u8>, Seq<u8>, Option<Seq<u8>>, Seq<i64>),
            BallotError,
        >(BallotError::NoOption)),
{
    lemma_scan_reads_last_fields(split_spec(body, '&'), ids);
}

/// A ballot records only options of its own poll, at least one, and exactly
/// one on a poll that is not multiple choice.
pub proof fn law_ballot_options_belong_to_the_poll(body: Seq<char>, ids: Seq<i64>, multi: bool)
    ensures
        ballot_spec(body, ids, multi) matches Ok(b) ==> {
            &&& b.3.len() >= 1
            &&& (!multi ==> b.3.len() == 1)
            &&& forall|k: int| 0 <= k < b.3.len() ==> ids.contains(#[trigger] b.3[k])
        },
{
    let s = scan_ballot(split_spec(body, '&'), ids);
    lemma_scan_options(split_spec(body, '&'), ids);
    let opts = recorded_options(s.options, multi);
    assert forall|k: int| 0 <= k < opts.len() implies ids.contains(#[trigger] opts[k]) by {
        assert(opts[k] == s.options[k]);
    }
}

} // verus!
