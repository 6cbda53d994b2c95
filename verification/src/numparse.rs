//! Parsing the argument of `exit` as a signed 32-bit integer: an optional
//! sign, then one or more decimal digits, with the value in range.

use vstd::prelude::*;

verus! {

/// A decimal digit.
pub open spec fn is_decimal_digit(c: char) -> bool {
    48 <= c as u32 <= 57
}

/// The numeric value of a decimal digit.
pub open spec fn digit_val(c: char) -> int {
    c as u32 - 48
}

/// Every character of the text is a decimal digit.
pub open spec fn all_digits(s: Seq<char>) -> bool {
    forall|i: int| 0 <= i < s.len() ==> is_decimal_digit(s[i])
}

/// The value of a string of decimal digits, most significant first.
pub open spec fn digits_val(s: Seq<char>) -> int
    decreases s.len(),
{
    if s.len() == 0 {
        0
    } else {
        digits_val(s.take(s.len() - 1)) * 10 + digit_val(s[s.len() - 1])
    }
}

/// The value a signed-integer literal denotes, before any range check:
/// `None` when the text is not an optional sign followed by at least one
/// decimal digit.
pub open spec fn spec_int_literal(s: Seq<char>) -> Option<int> {
    if s.len() == 0 {
        None
    } else {
        let digits = if s[0] == '-' || s[0] == '+' {
            s.skip(1)
        } else {
            s
        };
        if digits.len() == 0 || !all_digits(digits) {
            None
        } else if s[0] == '-' {
            Some(-digits_val(digits))
        } else {
            Some(digits_val(digits))
        }
    }
}

/// What parsing the text as an `i32` returns: the denoted value when the
/// text is well formed and the value fits, `None` otherwise.
pub open spec fn spec_parse_i32(s: Seq<char>) -> Option<i32> {
    match spec_int_literal(s) {
        Some(v) => if i32::MIN <= v <= i32::MAX {
            Some(v as i32)
        } else {
            None
        },
        None => None,
    }
}

/// A digit string has a non-negative value, and no prefix of it exceeds it.
pub proof fn lemma_digits_val_prefix(s: Seq<char>, i: int)
    requires
        all_digits(s),
        0 <= i <= s.len(),
    ensures
        digits_val(s) >= 0,
        digits_val(s.take(i)) <= digits_val(s),
    decreases s.len(),
{
    if s.len() == 0 {
        assert(s.take(i) =~= s);
    } else {
        let head = s.take(s.len() - 1);
        assert(forall|j: int| 0 <= j < head.len() ==> head[j] == s[j]);
        lemma_digits_val_prefix(head, if i <= head.len() {
            i
        } else {
            head.len() as int
        });
        if i == s.len() {
            assert(s.take(i) =~= s);
        } else {
            assert(s.take(i) =~= head.take(i));
        }
    }
}

/// Parses the text as an `i32`: an optional `+` or `-` sign, then one or
/// more decimal digits; `None` on any other shape and on overflow.
pub fn parse_i32(s: &str) -> (r: Option<i32>)
    ensures
        r == spec_parse_i32(s@),
{
    let n = s.unicode_len();
    if n == 0 {
        return None;
    }
    let c0 = s.get_char(0);
    let neg = c0 == '-';
    let start: usize = if c0 == '-' || c0 == '+' {
        1
    } else {
        0
    };
    if start == n {
        return None;
    }
    let ghost digits = if start == 1 {
        s@.skip(1)
    } else {
        s@
    };
    proof {
        assert(forall|m: int| 0 <= m < digits.len() ==> digits[m] == s@[start + m]);
    }
    // the largest magnitude that still fits, by the sign
    let limit: u64 = if neg {
        2147483648
    } else {
        2147483647
    };
    let mut i: usize = start;
    let mut val: u64 = 0;
    while i < n
        invariant
            n == s@.len(),
            start <= i <= n,
            start < n,
            start <= 1,
            (start == 1) == (s@[0] == '-' || s@[0] == '+'),
            neg == (s@[0] == '-'),
            limit == if neg {
                2147483648u64
            } else {
                2147483647u64
            },
            digits == s@.subrange(start as int, n as int),
            forall|m: int| start <= m < i ==> is_decimal_digit(s@[m]),
            val == digits_val(s@.subrange(start as int, i as int)),
            val <= limit,
            limit <= 2147483648,
        decreases n - i,
    {
        let c = s.get_char(i);
        let u = c as u32;
        if u < 48 || u > 57 {
            // a non-digit inside the digit part: not an integer literal
            proof {
                assert(!is_decimal_digit(digits[i - start]));
            }
            return None;
        }
        let d: u64 = (u - 48) as u64;
        let nv: u64 = val * 10 + d;
        proof {
            assert(s@.subrange(start as int, i + 1).take(i - start) =~= s@.subrange(
                start as int,
                i as int,
            ));
            assert(digits_val(s@.subrange(start as int, i + 1)) == nv);
        }
        if nv > limit {
            // too large in magnitude, whatever follows
            proof {
                if all_digits(digits) {
                    assert(digits.take(i + 1 - start) =~= s@.subrange(start as int, i + 1));
                    lemma_digits_val_prefix(digits, i + 1 - start);
                    assert(digits_val(digits) >= nv);
                    assert(digits_val(digits) > limit);
                    if neg {
                        assert(spec_int_literal(s@) == Some(-digits_val(digits)));
                        assert(-digits_val(digits) < i32::MIN);
                    } else {
                        if start == 0 {
                            // without a sign the digit part is the whole text
                            assert(digits =~= s@);
                        }
                        assert(spec_int_literal(s@) == Some(digits_val(digits)));
                        assert(digits_val(digits) > i32::MAX);
                    }
                }
                assert(spec_parse_i32(s@) is None);
            }
            return None;
        }
        val = nv;
        i += 1;
    }
    proof {
        assert(digits =~= s@.subrange(start as int, n as int));
        assert(all_digits(digits));
        assert(val == digits_val(digits));
    }
    if neg {
        if val == 2147483648 {
            Some(i32::MIN)
        } else {
            Some(-(val as i32))
        }
    } else {
        Some(val as i32)
    }
}

} // verus!
