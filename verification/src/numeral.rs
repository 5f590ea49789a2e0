//! Integer numerals: the value of a digit string in a radix.

use vstd::prelude::*;
use vstd::string::StrSliceExecFns;

verus! {

/// The value of one digit in the given radix: `0`-`9`, then `a`-`z` or
/// `A`-`Z` for ten and up. `None` where the character is no digit of the
/// radix.
pub open spec fn digit_of(c: char, radix: int) -> Option<int> {
    let code = c as int;
    let d = if 48 <= code <= 57 {
        code - 48
    } else if 97 <= code <= 122 {
        code - 87
    } else if 65 <= code <= 90 {
        code - 55
    } else {
        radix
    };
    if d < radix {
        Some(d)
    } else {
        None
    }
}

/// The number that a string of digits denotes, most significant digit
/// first. `None` where a character is no digit of the radix.
pub open spec fn digits_value(s: Seq<char>, radix: int) -> Option<int>
    decreases s.len(),
{
    if s.len() == 0 {
        Some(0)
    } else {
        match (digits_value(s.drop_last(), radix), digit_of(s.last(), radix)) {
            (Some(v), Some(d)) => Some(v * radix + d),
            _ => None,
        }
    }
}

/// The number that a numeral denotes: an optional sign, then at least one
/// digit.
pub open spec fn numeral_value(s: Seq<char>, radix: int) -> Option<int> {
    if s.len() == 0 {
        None
    } else if s[0] == '-' || s[0] == '+' {
        if s.len() == 1 {
            None
        } else {
            match digits_value(s.subrange(1, s.len() as int), radix) {
                Some(v) => Some(
                    if s[0] == '-' {
                        -v
                    } else {
                        v
                    },
                ),
                None => None,
            }
        }
    } else {
        digits_value(s, radix)
    }
}

/// The numeral's value as a 128-bit signed integer, where it has one.
pub open spec fn integer_of(s: Seq<char>, radix: int) -> Option<i128> {
    match numeral_value(s, radix) {
        Some(v) => if i128::MIN <= v <= i128::MAX {
            Some(v as i128)
        } else {
            None
        },
        None => None,
    }
}

/// Every prefix of a digit string is a digit string, of a value that is
/// not negative and not above the whole string's.
pub proof fn lemma_digits_prefix(s: Seq<char>, k: int, radix: int)
    requires
        0 <= k <= s.len(),
        radix >= 1,
        digits_value(s, radix) is Some,
    ensures
        digits_value(s.take(k), radix) is Some,
        0 <= digits_value(s.take(k), radix)->0 <= digits_value(s, radix)->0,
        k < s.len() ==> digit_of(s[k], radix) is Some,
    decreases s.len(),
{
    if s.len() == 0 {
        assert(s.take(k) =~= s);
    } else {
        let init = s.drop_last();
        let v = digits_value(init, radix)->0;
        let d = digit_of(s.last(), radix)->0;
        lemma_digits_prefix(init, 0, radix);
        assert(init.take(0).len() == 0);
        assert(v * radix >= v) by (nonlinear_arith)
            requires
                v >= 0,
                radix >= 1,
        ;
        if k == s.len() {
            assert(s.take(k) =~= s);
        } else {
            lemma_digits_prefix(init, k, radix);
            assert(init.take(k) =~= s.take(k));
            if k < init.len() {
                assert(init[k] == s[k]);
            }
        }
    }
}

/// The value of a prefix that is one digit longer.
pub proof fn lemma_digits_step(s: Seq<char>, k: int, radix: int)
    requires
        0 <= k < s.len(),
    ensures
        digits_value(s.take(k + 1), radix) == match (
            digits_value(s.take(k), radix),
            digit_of(s[k], radix),
        ) {
            (Some(v), Some(d)) => Some(v * radix + d),
            _ => None,
        },
{
    assert(s.take(k + 1).drop_last() =~= s.take(k));
    assert(s.take(k + 1).last() == s[k]);
}

/// The value of a digit in the given radix.
pub fn digit(c: char, radix: u32) -> (r: Option<u32>)
    requires
        2 <= radix <= 36,
    ensures
        r is Some <==> digit_of(c, radix as int) is Some,
        r is Some ==> r->0 == digit_of(c, radix as int)->0,
{
    let code: u32 = c as u32;
    let d: u32 = if 48 <= code && code <= 57 {
        code - 48
    } else if 97 <= code && code <= 122 {
        code - 87
    } else if 65 <= code && code <= 90 {
        code - 55
    } else {
        radix
    };
    if d < radix {
        Some(d)
    } else {
        None
    }
}

/// Reads a numeral in the given radix: an optional `+` or `-`, then digits.
/// The result is `None` where the text is no numeral, or where its value
/// does not fit 128 bits.
pub fn parse_integer(text: &str, radix: u32) -> (r: Option<i128>)
    requires
        2 <= radix <= 36,
    ensures
        r == integer_of(text@, radix as int),
{
    let n = text.unicode_len();
    if n == 0 {
        return None;
    }
    let first = text.get_char(0);
    let negative = first == '-';
    let start: usize = if first == '-' || first == '+' {
        1
    } else {
        0
    };
    if start == n {
        return None;
    }
    let ghost body = text@.subrange(start as int, n as int);
    proof {
        if start == 0 {
            assert(body =~= text@);
        }
        assert(body.take(0).len() == 0);
    }
    let mut acc: i128 = 0;
    let mut i: usize = start;
    while i < n
        invariant
            2 <= radix <= 36,
            start <= i <= n,
            n == text@.len(),
            n > 0,
            negative == (text@[0] == '-'),
            start == (if text@[0] == '-' || text@[0] == '+' {
                1int
            } else {
                0int
            }),
            body == text@.subrange(start as int, n as int),
            negative ==> acc <= 0,
            !negative ==> acc >= 0,
            digits_value(body.take(i - start), radix as int) == Some(
                if negative {
                    -acc
                } else {
                    acc as int
                },
            ),
        decreases n - i,
    {
        let c = text.get_char(i);
        let ghost k = (i - start) as int;
        proof {
            assert(body[k] == c);
            if start == 0 {
                assert(body =~= text@);
            }
            lemma_digits_step(body, k, radix as int);
            assert((-acc) * radix == -(acc * radix)) by (nonlinear_arith);
            if digits_value(body, radix as int) is Some {
                lemma_digits_prefix(body, k, radix as int);
                lemma_digits_prefix(body, k + 1, radix as int);
            }
        }
        let d = match digit(c, radix) {
            Some(d) => d,
            None => {
                return None;
            },
        };
        let scaled = match acc.checked_mul(radix as i128) {
            Some(m) => m,
            None => {
                return None;
            },
        };
        let next = if negative {
            scaled.checked_sub(d as i128)
        } else {
            scaled.checked_add(d as i128)
        };
        match next {
            Some(v) => {
                acc = v;
            },
            None => {
                return None;
            },
        }
        i += 1;
    }
    proof {
        assert(body.take(n - start) =~= body);
        if start == 0 {
            assert(body =~= text@);
        }
    }
    Some(acc)
}

} // verus!
