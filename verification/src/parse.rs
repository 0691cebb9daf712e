//! Verified text helpers for the dispatcher: string comparison and the
//! parsing of integer path parameters. A non-numeric id or lookup number
//! must become a client error, never a crash, so the parsers state
//! exactly which strings they accept and what value those denote.

use vstd::prelude::*;

verus! {

/// Whether `c` is a decimal digit.
pub open spec fn is_digit(c: char) -> bool {
    48 <= c as int <= 57
}

/// Whether every character of `s` is a decimal digit.
pub open spec fn all_digits(s: Seq<char>) -> bool {
    forall|i: int| 0 <= i < s.len() ==> is_digit(#[trigger] s[i])
}

/// The number a run of decimal digits denotes, most significant first.
pub open spec fn digits_val(s: Seq<char>) -> int
    decreases s.len(),
{
    if s.len() == 0 {
        0
    } else {
        digits_val(s.drop_last()) * 10 + (s.last() as int - 48)
    }
}

/// A digit string denotes a value no smaller than zero.
pub proof fn lemma_digits_val_nonneg(s: Seq<char>)
    requires
        all_digits(s),
    ensures
        digits_val(s) >= 0,
    decreases s.len(),
{
    if s.len() > 0 {
        assert(all_digits(s.drop_last()));
        lemma_digits_val_nonneg(s.drop_last());
    }
}

/// Extending a digit string can only grow the value it denotes.
pub proof fn lemma_digits_prefix_le(s: Seq<char>, i: int)
    requires
        all_digits(s),
        0 <= i <= s.len(),
    ensures
        digits_val(s.take(i)) <= digits_val(s),
    decreases s.len() - i,
{
    if i == s.len() {
        assert(s.take(i) =~= s);
    } else {
        assert(s.take(i + 1).drop_last() =~= s.take(i));
        assert(s.take(i + 1).last() == s[i]);
        assert(all_digits(s.take(i)));
        lemma_digits_val_nonneg(s.take(i));
        lemma_digits_prefix_le(s, i + 1);
    }
}

/// Character-for-character string equality, decided without trust.
pub fn str_eq(a: &str, b: &str) -> (r: bool)
    ensures
        r == (a@ == b@),
{
    let la = a.unicode_len();
    let lb = b.unicode_len();
    if la != lb {
        return false;
    }
    let mut i: usize = 0;
    while i < la
        invariant
            la == a@.len(),
            lb == b@.len(),
            la == lb,
            i <= la,
            forall|j: int| 0 <= j < i ==> a@[j] == b@[j],
        decreases la - i,
    {
        if a.get_char(i) != b.get_char(i) {
            return false;
        }
        i = i + 1;
    }
    proof {
        assert(a@ =~= b@);
    }
    true
}

/// Parses the decimal digits of `s` from position `start` to the end.
/// The answer is the denoted value exactly when that tail is a nonempty
/// run of digits whose value fits in a `u64`; otherwise there is none.
pub fn parse_digits(s: &str, start: usize) -> (r: Option<u64>)
    requires
        start <= s@.len(),
    ensures
        ({
            let d = s@.subrange(start as int, s@.len() as int);
            match r {
                Some(n) => d.len() > 0 && all_digits(d) && digits_val(d) == n,
                None => !(d.len() > 0 && all_digits(d) && digits_val(d) <= u64::MAX),
            }
        }),
{
    let ghost d = s@.subrange(start as int, s@.len() as int);
    let len = s.unicode_len();
    if start >= len {
        return None;
    }
    let mut val: u64 = 0;
    let mut i: usize = start;
    while i < len
        invariant
            start <= i <= len,
            len == s@.len(),
            start < len,
            d == s@.subrange(start as int, s@.len() as int),
            all_digits(d.take((i - start) as int)),
            val == digits_val(d.take((i - start) as int)),
        decreases len - i,
    {
        let c = s.get_char(i);
        let cu = c as u32;
        proof {
            assert(d[(i - start) as int] == s@[i as int]);
        }
        if cu < 48 || cu > 57 {
            proof {
                assert(!is_digit(d[(i - start) as int]));
            }
            return None;
        }
        let digit: u64 = ((cu - 48) as u8) as u64;
        if val > (u64::MAX - digit) / 10 {
            proof {
                let k = (i - start) as int;
                assert(d.take(k + 1).drop_last() =~= d.take(k));
                assert(d.take(k + 1).last() == d[k]);
                assert(digits_val(d.take(k + 1)) == val * 10 + digit);
                assert(val * 10 + digit > u64::MAX) by (nonlinear_arith)
                    requires
                        val > (u64::MAX - digit) / 10,
                        digit <= 9,
                ;
                if all_digits(d) {
                    assert(all_digits(d.take(k + 1)));
                    lemma_digits_prefix_le(d, k + 1);
                }
            }
            return None;
        }
        proof {
            let k = (i - start) as int;
            assert(d.take(k + 1).drop_last() =~= d.take(k));
            assert(d.take(k + 1).last() == d[k]);
            assert(val * 10 + digit <= u64::MAX) by (nonlinear_arith)
                requires
                    val <= (u64::MAX - digit) / 10,
                    digit <= 9,
            ;
        }
        val = val * 10 + digit;
        i = i + 1;
    }
    proof {
        assert(d.take((len - start) as int) =~= d);
    }
    Some(val)
}

/// Parses `s` as a decimal `u64`: accepted exactly when the whole string
/// is a nonempty run of digits denoting a value that fits.
pub fn parse_u64(s: &str) -> (r: Option<u64>)
    ensures
        match r {
            Some(n) => s@.len() > 0 && all_digits(s@) && digits_val(s@) == n,
            None => !(s@.len() > 0 && all_digits(s@) && digits_val(s@) <= u64::MAX),
        },
{
    let r = parse_digits(s, 0);
    proof {
        assert(s@.subrange(0, s@.len() as int) =~= s@);
    }
    r
}

/// The integer a decimal literal with an optional leading minus denotes.
pub open spec fn signed_val(s: Seq<char>) -> int {
    if s.len() > 0 && s[0] == '-' {
        -digits_val(s.drop_first())
    } else {
        digits_val(s)
    }
}

/// Whether `s` is a decimal integer literal: digits, or a minus sign
/// followed by digits, either part nonempty.
pub open spec fn is_int_literal(s: Seq<char>) -> bool {
    if s.len() > 0 && s[0] == '-' {
        s.drop_first().len() > 0 && all_digits(s.drop_first())
    } else {
        s.len() > 0 && all_digits(s)
    }
}

/// Parses `s` as a decimal `i32`: accepted exactly when `s` is an
/// integer literal whose value lies within the `i32` range.
pub fn parse_i32(s: &str) -> (r: Option<i32>)
    ensures
        match r {
            Some(n) => is_int_literal(s@) && signed_val(s@) == n,
            None => !(is_int_literal(s@) && i32::MIN <= signed_val(s@) <= i32::MAX),
        },
{
    let len = s.unicode_len();
    if len == 0 {
        return None;
    }
    if s.get_char(0) == '-' {
        let magnitude = parse_digits(s, 1);
        proof {
            assert(s@.subrange(1, s@.len() as int) =~= s@.drop_first());
        }
        match magnitude {
            Some(m) => {
                if m > 2147483648 {
                    proof {
                        lemma_digits_val_nonneg(s@.drop_first());
                    }
                    return None;
                }
                Some((-(m as i64)) as i32)
            },
            None => {
                proof {
                    if is_int_literal(s@) {
                        lemma_digits_val_nonneg(s@.drop_first());
                    }
                }
                None
            },
        }
    } else {
        let magnitude = parse_digits(s, 0);
        proof {
            assert(s@.subrange(0, s@.len() as int) =~= s@);
        }
        match magnitude {
            Some(m) => {
                if m > 2147483647 {
                    return None;
                }
                Some(m as i32)
            },
            None => {
                proof {
                    if is_int_literal(s@) {
                        assert(s@[0] != '-');
                    }
                }
                None
            },
        }
    }
}

} // verus!
