//! Decimal integers in text: parsing as `str::parse` does and formatting as
//! `to_string` does.

use vstd::prelude::*;
use crate::text::{chars_of, push_char};

verus! {

pub open spec fn is_digit(c: char) -> bool {
    '0' <= c <= '9'
}

pub open spec fn all_digits(s: Seq<char>) -> bool {
    forall|k: int| 0 <= k < s.len() ==> is_digit(#[trigger] s[k])
}

/// The value of a run of decimal digits.
pub open spec fn digits_value(s: Seq<char>) -> int
    decreases s.len(),
{
    if s.len() == 0 {
        0
    } else {
        digits_value(s.drop_last()) * 10 + (s.last() as int - '0' as int)
    }
}

/// The unsigned value `str::parse` reads: an optional `+`, then at least one
/// digit and nothing else (the range check is the caller's).
pub open spec fn unsigned_value(s: Seq<char>) -> Option<int> {
    let body = if s.len() > 0 && s[0] == '+' {
        s.drop_first()
    } else {
        s
    };
    if body.len() > 0 && all_digits(body) {
        Some(digits_value(body))
    } else {
        None
    }
}

/// The signed value `str::parse` reads: an optional `+` or `-`, then at least
/// one digit and nothing else (the range check is the caller's).
pub open spec fn signed_value(s: Seq<char>) -> Option<int> {
    if s.len() > 0 && s[0] == '-' {
        let body = s.drop_first();
        if body.len() > 0 && all_digits(body) {
            Some(-digits_value(body))
        } else {
            None
        }
    } else {
        unsigned_value(s)
    }
}

/// `str::parse::<T>` for an integer type with values `lo..=hi`.
pub open spec fn parse_in_range(s: Seq<char>, signed: bool, lo: int, hi: int) -> Option<int> {
    let v = if signed {
        signed_value(s)
    } else {
        unsigned_value(s)
    };
    match v {
        Some(x) => if lo <= x <= hi {
            Some(x)
        } else {
            None
        },
        None => None,
    }
}

proof fn lemma_digits_nonneg(s: Seq<char>)
    requires
        all_digits(s),
    ensures
        digits_value(s) >= 0,
    decreases s.len(),
{
    if s.len() > 0 {
        lemma_digits_nonneg(s.drop_last());
    }
}

/// A longer run of digits is worth at least as much as its prefix.
proof fn lemma_digits_prefix(s: Seq<char>, k: int)
    requires
        0 <= k <= s.len(),
        all_digits(s),
    ensures
        digits_value(s.subrange(0, k)) <= digits_value(s),
    decreases s.len() - k,
{
    if k < s.len() {
        lemma_digits_prefix(s.drop_last(), k);
        assert(s.drop_last().subrange(0, k) == s.subrange(0, k));
        lemma_digits_nonneg(s.drop_last());
    } else {
        assert(s.subrange(0, k) =~= s);
    }
}

/// The value of the digits `v[lo..hi]` if they are all digits, there is at
/// least one, and the value fits in a `u64`.
fn digits_u64(v: &Vec<char>, lo: usize, hi: usize) -> (r: Option<u64>)
    requires
        lo <= hi <= v.len(),
    ensures
        r is Some <==> (hi > lo && all_digits(v@.subrange(lo as int, hi as int)) && digits_value(
            v@.subrange(lo as int, hi as int),
        ) <= u64::MAX),
        r matches Some(x) ==> x == digits_value(v@.subrange(lo as int, hi as int)),
{
    let ghost s = v@.subrange(lo as int, hi as int);
    if hi == lo {
        return None;
    }
    let mut acc: u64 = 0;
    let mut i = lo;
    while i < hi
        invariant
            lo <= i <= hi <= v.len(),
            s == v@.subrange(lo as int, hi as int),
            all_digits(v@.subrange(lo as int, i as int)),
            acc == digits_value(v@.subrange(lo as int, i as int)),
        decreases hi - i,
    {
        let c = v[i];
        assert(v@.subrange(lo as int, i + 1).drop_last() =~= v@.subrange(lo as int, i as int));
        if !('0' <= c && c <= '9') {
            assert(!is_digit(s[i - lo]));
            return None;
        }
        let d = (c as u32 - '0' as u32) as u64;
        if acc > (u64::MAX - d) / 10 {
            proof {
                assert(all_digits(v@.subrange(lo as int, i + 1)));
                assert(digits_value(v@.subrange(lo as int, i + 1)) > u64::MAX) by (nonlinear_arith)
                    requires
                        digits_value(v@.subrange(lo as int, i + 1)) == acc * 10 + d,
                        acc > (u64::MAX - d) / 10,
                        d <= 9,
                ;
                if all_digits(s) {
                    assert(s.subrange(0, i + 1 - lo) =~= v@.subrange(lo as int, i + 1));
                    lemma_digits_prefix(s, i + 1 - lo);
                }
            }
            return None;
        }
        assert(acc * 10 + d <= u64::MAX) by (nonlinear_arith)
            requires
                acc <= (u64::MAX - d) / 10,
                d <= 9,
        ;
        acc = acc * 10 + d;
        i = i + 1;
    }
    Some(acc)
}

/// `str::parse::<u64>`.
pub fn parse_u64(s: &str) -> (r: Option<u64>)
    ensures
        r matches Some(x) ==> parse_in_range(s@, false, 0, u64::MAX as int) == Some(x as int),
        r is None ==> parse_in_range(s@, false, 0, u64::MAX as int) is None,
{
    let v = chars_of(s);
    let start: usize = if v.len() > 0 && v[0] == '+' {
        1
    } else {
        0
    };
    assert(v@.subrange(start as int, v.len() as int) =~= if v@.len() > 0 && v@[0] == '+' {
        v@.drop_first()
    } else {
        v@
    });
    let r = digits_u64(&v, start, v.len());
    proof {
        if all_digits(v@.subrange(start as int, v.len() as int)) {
            lemma_digits_nonneg(v@.subrange(start as int, v.len() as int));
        }
    }
    r
}

/// `str::parse::<u16>`.
pub fn parse_u16(s: &str) -> (r: Option<u16>)
    ensures
        r matches Some(x) ==> parse_in_range(s@, false, 0, u16::MAX as int) == Some(x as int),
        r is None ==> parse_in_range(s@, false, 0, u16::MAX as int) is None,
{
    match parse_u64(s) {
        Some(x) => if x <= u16::MAX as u64 {
            Some(x as u16)
        } else {
            None
        },
        None => {
            proof {
                let v = unsigned_value(s@);
                if v is Some {
                    assert(v->0 > u64::MAX || v->0 < 0);
                }
            }
            None
        },
    }
}

/// `str::parse::<i64>`.
pub fn parse_i64(s: &str) -> (r: Option<i64>)
    ensures
        r matches Some(x) ==> parse_in_range(s@, true, i64::MIN as int, i64::MAX as int) == Some(
            x as int,
        ),
        r is None ==> parse_in_range(s@, true, i64::MIN as int, i64::MAX as int) is None,
{
    let v = chars_of(s);
    if v.len() > 0 && v[0] == '-' {
        assert(v@.subrange(1, v.len() as int) =~= v@.drop_first());
        match digits_u64(&v, 1, v.len()) {
            Some(m) => if m <= 9223372036854775808u64 {
                if m == 9223372036854775808u64 {
                    Some(i64::MIN)
                } else {
                    Some(-(m as i64))
                }
            } else {
                None
            },
            None => None,
        }
    } else {
        let start: usize = if v.len() > 0 && v[0] == '+' {
            1
        } else {
            0
        };
        assert(v@.subrange(start as int, v.len() as int) =~= if v@.len() > 0 && v@[0] == '+' {
            v@.drop_first()
        } else {
            v@
        });
        proof {
            if all_digits(v@.subrange(start as int, v.len() as int)) {
                lemma_digits_nonneg(v@.subrange(start as int, v.len() as int));
            }
        }
        match digits_u64(&v, start, v.len()) {
            Some(m) => if m <= i64::MAX as u64 {
                Some(m as i64)
            } else {
                None
            },
            None => None,
        }
    }
}

/// `str::parse::<i8>`.
pub fn parse_i8(s: &str) -> (r: Option<i8>)
    ensures
        r matches Some(x) ==> parse_in_range(s@, true, i8::MIN as int, i8::MAX as int) == Some(
            x as int,
        ),
        r is None ==> parse_in_range(s@, true, i8::MIN as int, i8::MAX as int) is None,
{
    match parse_i64(s) {
        Some(x) => if i8::MIN as i64 <= x && x <= i8::MAX as i64 {
            Some(x as i8)
        } else {
            None
        },
        None => None,
    }
}

/// The decimal digit character for `d < 10`.
pub open spec fn digit_char(d: int) -> char {
    ((d + 48) as u8) as char
}

/// The decimal text of `n` as `to_string` writes it: no sign, no leading zeros.
pub open spec fn decimal(n: nat) -> Seq<char>
    decreases n,
{
    if n < 10 {
        seq![digit_char(n as int)]
    } else {
        decimal(n / 10).push(digit_char((n % 10) as int))
    }
}

/// The decimal text of a signed `n`: a `-` before the magnitude when negative.
pub open spec fn signed_decimal(n: int) -> Seq<char> {
    if n < 0 {
        seq!['-'] + decimal((-n) as nat)
    } else {
        decimal(n as nat)
    }
}

proof fn lemma_digit_char(d: int)
    requires
        0 <= d < 10,
    ensures
        digit_char(d) as int == d + 48,
        is_digit(digit_char(d)),
{
    assert(((d + 48) as u8) as int == d + 48);
    assert(digit_char(d) as int == d + 48);
}

pub proof fn lemma_decimal_digits(n: nat)
    ensures
        all_digits(decimal(n)),
        decimal(n).len() > 0,
        digits_value(decimal(n)) == n,
    decreases n,
{
    if n >= 10 {
        lemma_decimal_digits(n / 10);
        lemma_digit_char((n % 10) as int);
        assert(decimal(n).drop_last() == decimal(n / 10));
        assert(decimal(n).last() == digit_char((n % 10) as int));
        assert(digits_value(decimal(n)) == digits_value(decimal(n / 10)) * 10 + (n % 10));
        assert forall|k: int| 0 <= k < decimal(n).len() implies is_digit(#[trigger] decimal(n)[k]) by {
            if k < decimal(n).len() - 1 {
                assert(decimal(n)[k] == decimal(n / 10)[k]);
            }
        }
    } else {
        lemma_digit_char(n as int);
        assert(decimal(n).drop_last() =~= Seq::<char>::empty());
        assert(decimal(n).last() == digit_char(n as int));
        assert(digits_value(decimal(n)) == digits_value(Seq::<char>::empty()) * 10 + n);
    }
}

/// Reading back the text `to_string` writes gives the number again.
pub proof fn law_decimal_roundtrip(n: u64)
    ensures
        parse_in_range(decimal(n as nat), false, 0, u64::MAX as int) == Some(n as int),
        parse_in_range(decimal(n as nat), true, i64::MIN as int, i64::MAX as int) == if n
            <= i64::MAX {
            Some(n as int)
        } else {
            None::<int>
        },
{
    lemma_decimal_digits(n as nat);
    assert(decimal(n as nat)[0] != '+' && decimal(n as nat)[0] != '-');
}

/// Reading back the text a signed `to_string` writes gives the number again.
pub proof fn law_signed_decimal_roundtrip(n: i64)
    ensures
        parse_in_range(signed_decimal(n as int), true, i64::MIN as int, i64::MAX as int) == Some(
            n as int,
        ),
{
    if n < 0 {
        let m = (-(n as int)) as nat;
        lemma_decimal_digits(m);
        let s = signed_decimal(n as int);
        assert(s.drop_first() =~= decimal(m));
    } else {
        lemma_decimal_digits(n as nat);
        assert(decimal(n as nat)[0] != '+' && decimal(n as nat)[0] != '-');
    }
}

/// `to_string` of a `u64`.
pub fn u64_to_string(n: u64) -> (s: String)
    ensures
        s@ == decimal(n as nat),
{
    let mut rev: Vec<char> = Vec::new();
    let mut m = n;
    assert(decimal(n as nat) =~= decimal(m as nat) + rev@.reverse());
    while m >= 10
        invariant
            m <= n,
            decimal(n as nat) == decimal(m as nat) + rev@.reverse(),
        decreases m,
    {
        let d = m % 10;
        let c = ((d + 48) as u8) as char;
        let ghost old_rev = rev@;
        rev.push(c);
        proof {
            assert(decimal(m as nat) == decimal((m / 10) as nat).push(c));
            assert(rev@.reverse() =~= seq![c] + old_rev.reverse());
            assert(decimal(n as nat) =~= decimal((m / 10) as nat) + rev@.reverse());
        }
        m = m / 10;
    }
    let c = ((m + 48) as u8) as char;
    let ghost old_rev = rev@;
    rev.push(c);
    proof {
        assert(decimal(m as nat) == seq![c]);
        assert(rev@.reverse() =~= seq![c] + old_rev.reverse());
    }
    let mut s = String::new();
    let mut k = rev.len();
    assert(Seq::<char>::empty() + rev@.reverse() =~= rev@.reverse());
    while k > 0
        invariant
            k <= rev@.len(),
            s@ == rev@.reverse().subrange(0, rev@.len() - k),
            decimal(n as nat) == rev@.reverse(),
        decreases k,
    {
        k = k - 1;
        push_char(&mut s, rev[k]);
        assert(rev@.reverse().subrange(0, rev@.len() - k) =~= rev@.reverse().subrange(
            0,
            rev@.len() - k - 1,
        ).push(rev@[k as int]));
    }
    assert(rev@.reverse().subrange(0, rev@.len() as int) =~= rev@.reverse());
    s
}

/// `to_string` of an `i64`.
pub fn i64_to_string(n: i64) -> (s: String)
    ensures
        s@ == signed_decimal(n as int),
{
    if n < 0 {
        let m: u64 = if n == i64::MIN {
            9223372036854775808u64
        } else {
            (-n) as u64
        };
        let digits = u64_to_string(m);
        let mut s = String::new();
        push_char(&mut s, '-');
        crate::text::push_str(&mut s, digits.as_str());
        s
    } else {
        u64_to_string(n as u64)
    }
}

} // verus!
