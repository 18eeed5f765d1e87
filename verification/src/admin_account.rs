//! Creating the first administrator.
//!
//! An instance starts with no accounts at all. The command that appoints the
//! first administrator checks what it was given, keys the account on the
//! address's HMAC hash exactly as registration does, and discards the address.

use vstd::prelude::*;

use crate::auth::{email_hash_spec, hash_email};
use crate::text::{chars_of, split_ranges, split_spec, string_of, trim, trim_bounds};

verus! {

/// What happened, so the caller can report it without inspecting the database.
#[derive(Debug, PartialEq, Eq, Structural, Clone, Copy)]
pub enum Outcome {
    /// The account did not exist and was created as a verified admin.
    Created,
    /// The account existed; it is now a verified admin, and its password was
    /// left alone.
    Promoted,
}

/// Why the command refused its input.
#[derive(Debug, PartialEq, Eq, Structural, Clone, Copy)]
pub enum AdminInputError {
    /// The address is not one `@` between a non-empty local part and a dotted
    /// domain that neither starts nor ends with a dot.
    ImplausibleAddress,
    /// The password has fewer than eight characters.
    ShortPassword,
}

/// The typo guard on an (already trimmed) address: exactly one `@`, something
/// before it, and after it a domain that holds a dot but neither starts nor
/// ends with one.
pub open spec fn plausible_address(t: Seq<char>) -> bool {
    let parts = split_spec(t, '@');
    &&& parts.len() == 2
    &&& parts[0].len() > 0
    &&& parts[1].contains('.')
    &&& parts[1].len() > 0 && parts[1][0] != '.' && parts[1].last() != '.'
}

/// The key an administrator account is found or created under, or why the input
/// was refused (the address is checked before the password).
pub open spec fn admin_key_spec(email: Seq<char>, password: Seq<char>, secret: Seq<u8>) -> Result<
    Seq<char>,
    AdminInputError,
> {
    if !plausible_address(trim(email)) {
        Err(AdminInputError::ImplausibleAddress)
    } else if password.len() < 8 {
        Err(AdminInputError::ShortPassword)
    } else {
        Ok(email_hash_spec(trim(email), secret))
    }
}

/// Whether `v[lo..hi]` holds `c`.
fn holds(v: &Vec<char>, lo: usize, hi: usize, c: char) -> (r: bool)
    requires
        lo <= hi <= v.len(),
    ensures
        r == v@.subrange(lo as int, hi as int).contains(c),
{
    let mut k = lo;
    while k < hi
        invariant
            lo <= k <= hi <= v.len(),
            forall|m: int| lo <= m < k ==> v@[m] != c,
        decreases hi - k,
    {
        if v[k] == c {
            assert(v@.subrange(lo as int, hi as int)[k - lo] == c);
            return true;
        }
        k = k + 1;
    }
    proof {
        let s = v@.subrange(lo as int, hi as int);
        assert forall|m: int| 0 <= m < s.len() implies s[m] != c by {
            assert(s[m] == v@[lo + m]);
        }
    }
    false
}

/// The typo guard on an address, after trimming it.
pub fn is_plausible_address(email: &str) -> (r: bool)
    ensures
        r == plausible_address(trim(email@)),
{
    let v = chars_of(email);
    let (a, b) = trim_bounds(&v, 0, v.len());
    assert(v@.subrange(0, v.len() as int) =~= email@);
    let parts = split_ranges(&v, a, b, '@');
    if parts.len() != 2 {
        return false;
    }
    let (l0, l1) = parts[0];
    let (d0, d1) = parts[1];
    assert(parts@[0] == parts[0]);
    assert(parts@[1] == parts[1]);
    if l1 == l0 || d1 == d0 {
        return false;
    }
    let dot = holds(&v, d0, d1, '.');
    proof {
        let dom = v@.subrange(d0 as int, d1 as int);
        assert(dom[0] == v@[d0 as int]);
        assert(dom.last() == v@[d1 - 1]);
    }
    dot && v[d0] != '.' && v[d1 - 1] != '.'
}

/// Check the command's input and compute the account key: the HMAC hash of the
/// trimmed address under the instance secret.
pub fn admin_key(email: &str, password: &str, secret: &[u8]) -> (r: Result<String, AdminInputError>)
    ensures
        match r {
            Ok(h) => admin_key_spec(email@, password@, secret@) == Ok::<Seq<char>, AdminInputError>(h@),
            Err(e) => admin_key_spec(email@, password@, secret@) == Err::<Seq<char>, AdminInputError>(e),
        },
{
    if !is_plausible_address(email) {
        return Err(AdminInputError::ImplausibleAddress);
    }
    let pv = chars_of(password);
    if pv.len() < 8 {
        return Err(AdminInputError::ShortPassword);
    }
    let v = chars_of(email);
    let (a, b) = trim_bounds(&v, 0, v.len());
    assert(v@.subrange(0, v.len() as int) =~= email@);
    let trimmed = string_of(&v, a, b);
    match hash_email(trimmed.as_str(), secret) {
        Some(h) => {
            proof {
                crate::text::lemma_trim_twice(email@);
            }
            Ok(h)
        },
        None => Err(AdminInputError::ImplausibleAddress),
    }
}

/// `create-admin`
pub open spec fn create_admin_word() -> Seq<char> {
    seq!['c', 'r', 'e', 'a', 't', 'e', '-', 'a', 'd', 'm', 'i', 'n']
}

/// The address of a `create-admin <email>` command line (the arguments after
/// the program name), or nothing when the command is another one.
pub open spec fn admin_command_spec(args: Seq<Seq<char>>) -> Option<Seq<char>> {
    if args.len() >= 2 && args[0] == create_admin_word() {
        Some(args[1])
    } else {
        None
    }
}

/// The address a `create-admin` command names.
pub fn admin_command(args: &Vec<String>) -> (r: Option<String>)
    ensures
        match r {
            Some(e) => admin_command_spec(args@.map_values(|a: String| a@)) == Some(e@),
            None => admin_command_spec(args@.map_values(|a: String| a@)) is None,
        },
{
    if args.len() < 2 {
        return None;
    }
    let word: Vec<char> = vec!['c', 'r', 'e', 'a', 't', 'e', '-', 'a', 'd', 'm', 'i', 'n'];
    assert(word@ =~= create_admin_word());
    let first = chars_of(args[0].as_str());
    assert(first@.subrange(0, first.len() as int) =~= first@);
    if crate::text::range_eq(&first, 0, first.len(), &word) {
        Some(args[1].clone())
    } else {
        None
    }
}

/// `s` without its trailing line breaks (`\n` and `\r`).
pub open spec fn without_line_ends(s: Seq<char>) -> Seq<char>
    decreases s.len(),
{
    if s.len() > 0 && (s.last() == '\n' || s.last() == '\r') {
        without_line_ends(s.drop_last())
    } else {
        s
    }
}

proof fn lemma_without_line_ends(s: Seq<char>, j: int)
    requires
        0 <= j <= s.len(),
        forall|m: int| j <= m < s.len() ==> s[m] == '\n' || s[m] == '\r',
        j == 0 || (s[j - 1] != '\n' && s[j - 1] != '\r'),
    ensures
        without_line_ends(s) == s.subrange(0, j),
    decreases s.len(),
{
    if j < s.len() {
        lemma_without_line_ends(s.drop_last(), j);
        assert(s.drop_last().subrange(0, j) == s.subrange(0, j));
    } else {
        assert(s.subrange(0, j) =~= s);
    }
}

/// The password piped to the command: the input without its trailing line
/// breaks; `None` when nothing is left.
pub fn password_from_input(input: &str) -> (r: Option<String>)
    ensures
        match r {
            Some(p) => without_line_ends(input@).len() > 0 && p@ == without_line_ends(input@),
            None => without_line_ends(input@).len() == 0,
        },
{
    let v = chars_of(input);
    let mut b = v.len();
    while b > 0 && (v[b - 1] == '\n' || v[b - 1] == '\r')
        invariant
            b <= v@.len(),
            v@ == input@,
            forall|m: int| b <= m < v@.len() ==> v@[m] == '\n' || v@[m] == '\r',
        decreases b,
    {
        b = b - 1;
    }
    proof {
        lemma_without_line_ends(v@, b as int);
    }
    if b == 0 {
        None
    } else {
        Some(string_of(&v, 0, b))
    }
}

} // verus!
