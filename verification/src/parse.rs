use vstd::prelude::*;
use vstd::string::*;

use crate::strutil::find_char;
use crate::strutil::spec_find_char;

verus! {

/// A decimal digit.
pub open spec fn is_digit(c: char) -> bool {
    '0' <= c && c <= '9'
}

/// The value of one decimal digit.
pub open spec fn digit_val(c: char) -> int {
    if c == '0' {
        0
    } else if c == '1' {
        1
    } else if c == '2' {
        2
    } else if c == '3' {
        3
    } else if c == '4' {
        4
    } else if c == '5' {
        5
    } else if c == '6' {
        6
    } else if c == '7' {
        7
    } else if c == '8' {
        8
    } else {
        9
    }
}

/// Whether every character is a decimal digit.
pub open spec fn all_digits(s: Seq<char>) -> bool {
    forall|i: int| 0 <= i < s.len() ==> is_digit(s[i])
}

/// The number a digit string denotes.
pub open spec fn digits_val(s: Seq<char>) -> int
    decreases s.len(),
{
    if s.len() == 0 {
        0
    } else {
        digits_val(s.take(s.len() - 1)) * 10 + digit_val(s.last())
    }
}

pub proof fn lemma_digits_val_nonneg(s: Seq<char>)
    ensures
        digits_val(s) >= 0,
    decreases s.len(),
{
    if s.len() > 0 {
        lemma_digits_val_nonneg(s.take(s.len() - 1));
        assert(digit_val(s.last()) >= 0);
    }
}

/// A digit string's value only grows as digits are appended.
pub proof fn lemma_digits_val_prefix(s: Seq<char>, k: int)
    requires
        0 <= k <= s.len(),
    ensures
        digits_val(s.take(k)) <= digits_val(s),
    decreases s.len() - k,
{
    if k < s.len() {
        let t = s.take(s.len() - 1);
        assert(t.take(k) =~= s.take(k));
        lemma_digits_val_prefix(t, k);
        lemma_digits_val_nonneg(t);
        assert(digit_val(s.last()) >= 0);
        assert(digits_val(t) * 10 >= digits_val(t)) by (nonlinear_arith)
            requires
                digits_val(t) >= 0,
        ;
    } else {
        assert(s.take(k) =~= s);
    }
}

/// The digit part of a number string: an optional leading `+` is skipped.
pub open spec fn spec_digits(s: Seq<char>) -> Seq<char> {
    if s.len() > 0 && s[0] == '+' {
        s.skip(1)
    } else {
        s
    }
}

/// What parsing an unsigned decimal number returns: the denoted value,
/// exactly when the string is an optional `+` followed by one or more
/// digits and the value fits.
pub open spec fn spec_parse_u64(s: Seq<char>) -> Option<u64> {
    let d = spec_digits(s);
    if d.len() > 0 && all_digits(d) && digits_val(d) <= u64::MAX {
        Some(digits_val(d) as u64)
    } else {
        None
    }
}

fn digit_of(c: char) -> (r: u64)
    requires
        is_digit(c),
    ensures
        r == digit_val(c),
        r < 10,
{
    match c {
        '0' => 0,
        '1' => 1,
        '2' => 2,
        '3' => 3,
        '4' => 4,
        '5' => 5,
        '6' => 6,
        '7' => 7,
        '8' => 8,
        _ => 9,
    }
}

/// Parses an unsigned decimal number, as `str::parse` reads one: an optional
/// leading `+`, then digits; too large a value, an empty digit part, or any
/// other character refuses the string.
pub fn parse_number(s: &str) -> (r: Option<u64>)
    ensures
        r == spec_parse_u64(s@),
{
    let n = s.unicode_len();
    let start: usize = if n > 0 && s.get_char(0) == '+' {
        1
    } else {
        0
    };
    let ghost d = spec_digits(s@);
    proof {
        assert(d =~= s@.skip(start as int));
    }
    if start >= n {
        proof {
            assert(d.len() == 0);
        }
        return None;
    }
    let mut val: u64 = 0;
    let mut i: usize = start;
    proof {
        assert(d.take(0) =~= Seq::<char>::empty());
    }
    while i < n
        invariant
            start <= i <= n,
            n == s@.len(),
            d == spec_digits(s@),
            d == s@.skip(start as int),
            all_digits(d.take(i - start)),
            val == digits_val(d.take(i - start)),
        decreases n - i,
    {
        let c = s.get_char(i);
        proof {
            assert(d[i - start] == s@[i as int]);
        }
        if !('0' <= c && c <= '9') {
            proof {
                assert(d.len() == n - start);
                assert(!is_digit(d[i - start]));
                assert(!all_digits(d));
            }
            return None;
        }
        let dv = digit_of(c);
        // Refuse on overflow: the denoted value cannot fit in u64.
        if val > u64::MAX / 10 || (val == u64::MAX / 10 && dv > u64::MAX % 10) {
            proof {
                let k = i - start + 1;
                assert(d.take(k).take(k - 1) =~= d.take(i - start));
                assert(d.take(k).last() == d[i - start]);
                assert(digits_val(d.take(k)) == val * 10 + dv);
                assert(val * 10 + dv > u64::MAX) by (nonlinear_arith)
                    requires
                        val > u64::MAX / 10 || (val == u64::MAX / 10 && dv > u64::MAX % 10),
                        val >= 0,
                        dv >= 0,
                ;
                lemma_digits_val_prefix(d, k);
                assert(digits_val(d) > u64::MAX);
                assert(spec_parse_u64(s@) is None);
            }
            return None;
        }
        proof {
            assert(val * 10 + dv <= u64::MAX) by (nonlinear_arith)
                requires
                    val <= u64::MAX / 10,
                    val == u64::MAX / 10 ==> dv <= u64::MAX % 10,
                    0 <= val,
                    0 <= dv < 10,
            ;
            let k = i - start + 1;
            assert(d.take(k).take(k - 1) =~= d.take(i - start));
            assert(d.take(k).last() == d[i - start]);
            assert(forall|j: int| 0 <= j < k ==> #[trigger] d.take(k)[j] == d.take(k)[j]);
            assert(all_digits(d.take(k))) by {
                assert(forall|j: int| 0 <= j < k - 1 ==> d.take(k)[j] == d.take(i - start)[j]);
            }
        }
        val = val * 10 + dv;
        i += 1;
    }
    proof {
        assert(d.take(n - start) =~= d);
    }
    Some(val)
}

/// What parsing a separated pair returns: the string splits at the first
/// occurrence of the separator, and both sides parse as numbers.
pub open spec fn spec_parse_pair(s: Seq<char>, separator: char) -> Option<(u64, u64)> {
    match spec_find_char(s, separator) {
        None => None,
        Some(i) => match (spec_parse_u64(s.take(i)), spec_parse_u64(s.skip(i + 1))) {
            (Some(a), Some(b)) => Some((a, b)),
            _ => None,
        },
    }
}

/// Parses a pair of numbers written around a separator, the way an image
/// size `400x600` is given.
pub fn parse_pair(s: &str, separator: char) -> (r: Option<(u64, u64)>)
    ensures
        r == spec_parse_pair(s@, separator),
{
    let n = s.unicode_len();
    match find_char(s, separator) {
        None => None,
        Some(i) => {
            let left = s.substring_char(0, i);
            let right = s.substring_char(i + 1, n);
            proof {
                assert(left@ =~= s@.take(i as int));
                assert(right@ =~= s@.skip(i as int + 1));
            }
            match (parse_number(left), parse_number(right)) {
                (Some(a), Some(b)) => Some((a, b)),
                _ => None,
            }
        },
    }
}

} // verus!
