//! Credentials of the form `<username>-<nonce>`: the username runs up to the
//! last `-`, and the nonce is the decimal number after it.

use vstd::prelude::*;
use vstd::string::StrSliceExecFns;

verus! {

pub open spec fn is_digit(c: char) -> bool {
    '0' <= c && c <= '9'
}

pub open spec fn all_digits(s: Seq<char>) -> bool {
    forall|i: int| 0 <= i < s.len() ==> is_digit(#[trigger] s[i])
}

pub open spec fn digit_value(c: char) -> nat {
    ((c as u32) - 48) as nat
}

/// The number that a string of decimal digits writes, most significant first.
pub open spec fn decimal_value(s: Seq<char>) -> nat
    decreases s.len(),
{
    if s.len() == 0 {
        0
    } else {
        decimal_value(s.drop_last()) * 10 + digit_value(s.last())
    }
}

/// The position of the last `-` in `s`.
pub open spec fn last_dash(s: Seq<char>) -> Option<int>
    decreases s.len(),
{
    if s.len() == 0 {
        None
    } else if s.last() == '-' {
        Some(s.len() - 1)
    } else {
        last_dash(s.drop_last())
    }
}

/// The username and the nonce that a credential names, or none where it is
/// malformed: no `-`, or no decimal number that fits in 64 bits after the last one.
pub open spec fn parse_credential(s: Seq<char>) -> Option<(Seq<char>, u64)> {
    match last_dash(s) {
        None => None,
        Some(k) => {
            let digits = s.subrange(k + 1, s.len() as int);
            if digits.len() > 0 && all_digits(digits) && decimal_value(digits) <= u64::MAX {
                Some((s.subrange(0, k), decimal_value(digits) as u64))
            } else {
                None
            }
        },
    }
}

proof fn lemma_decimal_prefix_le(s: Seq<char>, m: int)
    requires
        0 <= m <= s.len(),
        all_digits(s),
    ensures
        decimal_value(s.subrange(0, m)) <= decimal_value(s),
    decreases s.len(),
{
    if m < s.len() {
        let t = s.drop_last();
        assert(t.subrange(0, m) =~= s.subrange(0, m));
        assert(all_digits(t)) by {
            assert forall|i: int| 0 <= i < t.len() implies is_digit(#[trigger] t[i]) by {
                assert(t[i] == s[i]);
            }
        }
        lemma_decimal_prefix_le(t, m);
    } else {
        assert(s.subrange(0, m) =~= s);
    }
}

proof fn lemma_last_dash_bounds(s: Seq<char>)
    ensures
        match last_dash(s) {
            None => true,
            Some(k) => 0 <= k < s.len() && s[k] == '-',
        },
    decreases s.len(),
{
    if s.len() > 0 && s.last() != '-' {
        lemma_last_dash_bounds(s.drop_last());
    }
}

fn find_last_dash(s: &str) -> (r: Option<usize>)
    ensures
        match last_dash(s@) {
            None => r.is_none(),
            Some(k) => r == Some(k as usize) && k < s@.len(),
        },
{
    proof {
        lemma_last_dash_bounds(s@);
    }
    let n = s.unicode_len();
    let mut found: Option<usize> = None;
    let mut i: usize = 0;
    while i < n
        invariant
            0 <= i <= n,
            n == s@.len(),
            match last_dash(s@.subrange(0, i as int)) {
                None => found.is_none(),
                Some(k) => found == Some(k as usize),
            },
        decreases n - i,
    {
        let c = s.get_char(i);
        assert(s@.subrange(0, i + 1).drop_last() =~= s@.subrange(0, i as int));
        if c == '-' {
            found = Some(i);
        }
        i = i + 1;
    }
    assert(s@.subrange(0, n as int) =~= s@);
    found
}

/// Splits a credential into its username and its nonce.
pub fn parse(credential: &str) -> (r: Option<(String, u64)>)
    ensures
        match parse_credential(credential@) {
            None => r.is_none(),
            Some((name, nonce)) => r.is_some() && r.unwrap().0@ == name && r.unwrap().1 == nonce,
        },
{
    let n = credential.unicode_len();
    let found = find_last_dash(credential);
    if found.is_none() {
        return None;
    }
    let k = found.unwrap();
    proof {
        lemma_last_dash_bounds(credential@);
    }
    assert(last_dash(credential@) == Some(k as int));
    let ghost digits = credential@.subrange(k + 1, n as int);
    if k + 1 == n {
        return None;
    }
    let mut value: u64 = 0;
    let mut j: usize = k + 1;
    while j < n
        invariant
            k + 1 <= j <= n,
            last_dash(credential@) == Some(k as int),
            n == credential@.len(),
            digits == credential@.subrange(k + 1, n as int),
            all_digits(digits.subrange(0, j - k - 1)),
            value == decimal_value(digits.subrange(0, j - k - 1)),
        decreases n - j,
    {
        let c = credential.get_char(j);
        let ghost prefix = digits.subrange(0, j - k);
        assert(prefix.drop_last() =~= digits.subrange(0, j - k - 1));
        assert(prefix.last() == c);
        if c < '0' || c > '9' {
            assert(!all_digits(digits)) by {
                assert(digits[j - k - 1] == c);
            }
            return None;
        }
        let d = (c as u32 - 48) as u64;
        assert(decimal_value(prefix) == value * 10 + d);
        assert(all_digits(prefix)) by {
            assert forall|i: int| 0 <= i < prefix.len() implies is_digit(#[trigger] prefix[i]) by {
                if i < prefix.len() - 1 {
                    assert(prefix[i] == digits.subrange(0, j - k - 1)[i]);
                }
            }
        }
        if value > (u64::MAX - d) / 10 {
            assert(value * 10 + d > u64::MAX) by (nonlinear_arith)
                requires
                    value > (u64::MAX - d) / 10,
                    d <= 9,
            ;
            proof {
                if all_digits(digits) {
                    lemma_decimal_prefix_le(digits, j - k);
                }
            }
            return None;
        }
        assert(value * 10 + d <= u64::MAX) by (nonlinear_arith)
            requires
                value <= (u64::MAX - d) / 10,
                d <= 9,
        ;
        value = value * 10 + d;
        j = j + 1;
    }
    assert(digits.subrange(0, n - k - 1) =~= digits);
    let name = credential.substring_char(0, k).to_owned();
    Some((name, value))
}

} // verus!
