//! Number utility functions similar to JavaScript number methods
//!
//! This module provides utility functions for working with numbers
//! that are commonly available in JavaScript but not natively in Rust.

use crate::text::chars_of;
use crate::text::chars_range;
use crate::text::spec_trim_ws;
use crate::text::str_to_string;
use crate::text::string_of;
use crate::text::trim_ws_chars;
use vstd::prelude::*;
use vstd::string::StringExecFns;

verus! {

/// Error type for number operations
#[derive(Debug, Clone, PartialEq)]
pub enum NumberUtilsError {
    /// Invalid number format
    InvalidFormat(String),
    /// Number out of range
    OutOfRange(String),
    /// Division by zero
    DivisionByZero,
}

/// The numeric value of one digit character, or 36 for any character that is
/// no digit in any radix.
pub open spec fn spec_digit_value(c: char) -> int {
    if 48 <= c as u32 <= 57 {
        c as u32 - 48
    } else if 97 <= c as u32 <= 122 {
        c as u32 - 97 + 10
    } else if 65 <= c as u32 <= 90 {
        c as u32 - 65 + 10
    } else {
        36
    }
}

/// Whether a character is a digit under the given radix.
pub open spec fn spec_valid_digit(c: char, radix: u32) -> bool {
    spec_digit_value(c) < radix
}

fn digit_value(c: char) -> (r: u32)
    ensures
        r == spec_digit_value(c),
{
    let u = c as u32;
    if 48 <= u && u <= 57 {
        u - 48
    } else if 97 <= u && u <= 122 {
        u - 97 + 10
    } else if 65 <= u && u <= 90 {
        u - 65 + 10
    } else {
        36
    }
}

/// The value of a digit string read most significant digit first.
pub open spec fn spec_digits_value(s: Seq<char>, radix: int) -> int
    decreases s.len(),
{
    if s.len() == 0 {
        0
    } else {
        spec_digits_value(s.drop_last(), radix) * radix + spec_digit_value(s.last())
    }
}

/// How many leading characters of `s` are digits under the radix.
pub open spec fn spec_digit_prefix_len(s: Seq<char>, radix: u32) -> int
    decreases s.len(),
{
    if s.len() == 0 || !spec_valid_digit(s[0], radix) {
        0
    } else {
        1 + spec_digit_prefix_len(s.drop_first(), radix)
    }
}

/// Whether the string starts with a minus sign.
pub open spec fn spec_leads_minus(t: Seq<char>) -> bool {
    t.len() > 0 && t[0] == '-'
}

/// The string with one leading sign character removed.
pub open spec fn spec_after_sign(t: Seq<char>) -> Seq<char> {
    if t.len() > 0 && (t[0] == '-' || t[0] == '+') {
        t.drop_first()
    } else {
        t
    }
}

proof fn lemma_prefix_len_characterize(s: Seq<char>, radix: u32, k: int)
    requires
        0 <= k <= s.len(),
        forall|j: int| 0 <= j < k ==> spec_valid_digit(s[j], radix),
        k < s.len() ==> !spec_valid_digit(s[k], radix),
    ensures
        spec_digit_prefix_len(s, radix) == k,
    decreases k,
{
    if k == 0 {
    } else {
        assert(spec_valid_digit(s[0], radix));
        lemma_prefix_len_characterize(s.drop_first(), radix, k - 1);
    }
}

pub(crate) proof fn lemma_digits_value_nonneg(s: Seq<char>, radix: int)
    requires
        radix >= 1,
    ensures
        spec_digits_value(s, radix) >= 0,
    decreases s.len(),
{
    if s.len() == 0 {
    } else {
        lemma_digits_value_nonneg(s.drop_last(), radix);
        let v = spec_digits_value(s.drop_last(), radix);
        assert(v * radix >= 0) by (nonlinear_arith)
            requires
                v >= 0,
                radix >= 1,
        ;
    }
}

pub(crate) proof fn lemma_digits_value_monotone(s: Seq<char>, radix: int, i: int, j: int)
    requires
        radix >= 2,
        0 <= i <= j <= s.len(),
    ensures
        spec_digits_value(s.subrange(0, i), radix) <= spec_digits_value(s.subrange(0, j), radix),
    decreases j - i,
{
    if i < j {
        let p = s.subrange(0, j - 1);
        let q = s.subrange(0, j);
        assert(q.drop_last() =~= p);
        lemma_digits_value_nonneg(p, radix);
        let v = spec_digits_value(p, radix);
        assert(v * radix >= v) by (nonlinear_arith)
            requires
                v >= 0,
                radix >= 2,
        ;
        assert(spec_digits_value(q, radix) >= v);
        lemma_digits_value_monotone(s, radix, i, j - 1);
    }
}

/// Parse a string to an integer with specified radix, reading the longest
/// digit prefix after optional surrounding whitespace and an optional sign.
///
/// The radix must lie between 2 and 36, the trimmed input must be nonempty and
/// hold at least one leading digit, and the digits' value must fit in an
/// `i64`; each violation is an `InvalidFormat` error, reported in that order.
pub fn parse_int(s: &str, radix: u32) -> (r: Result<i64, NumberUtilsError>)
    ensures
        !(2 <= radix <= 36) ==> (r matches Err(e) && e matches NumberUtilsError::InvalidFormat(m)
            && m@ == "Radix must be between 2 and 36"@),
        2 <= radix <= 36 ==> {
            let t = spec_trim_ws(s@);
            let rest = spec_after_sign(t);
            let k = spec_digit_prefix_len(rest, radix);
            let v = spec_digits_value(rest.subrange(0, k), radix as int);
            if t.len() == 0 {
                r matches Err(e) && e matches NumberUtilsError::InvalidFormat(m) && m@
                    == "Empty string"@
            } else if k == 0 {
                r matches Err(e) && e matches NumberUtilsError::InvalidFormat(m) && m@
                    == "No valid digits found"@
            } else if v > i64::MAX {
                r matches Err(e) && e matches NumberUtilsError::InvalidFormat(m) && m@
                    == "Cannot parse: "@ + rest.subrange(0, k)
            } else {
                r matches Ok(n) && n == (if spec_leads_minus(t) {
                    -v
                } else {
                    v
                })
            }
        },
{
    if !(2 <= radix && radix <= 36) {
        return Err(
            NumberUtilsError::InvalidFormat(str_to_string("Radix must be between 2 and 36")),
        );
    }
    let all = chars_of(s);
    let t = trim_ws_chars(&all);
    if t.len() == 0 {
        return Err(NumberUtilsError::InvalidFormat(str_to_string("Empty string")));
    }
    let ghost spec_t = spec_trim_ws(s@);
    let mut is_negative = false;
    let mut start: usize = 0;
    if t[0] == '-' {
        is_negative = true;
        start = 1;
    } else if t[0] == '+' {
        start = 1;
    }
    let ghost rest = spec_after_sign(spec_t);
    proof {
        assert(rest =~= t@.subrange(start as int, t@.len() as int));
    }
    // Scan the longest digit prefix.
    let mut end: usize = start;
    while end < t.len() && digit_value(t[end]) < radix
        invariant
            start <= end <= t@.len(),
            t@ == spec_t,
            spec_t == spec_trim_ws(s@),
            spec_t.len() > 0,
            is_negative == spec_leads_minus(spec_t),
            rest == spec_after_sign(spec_t),
            rest =~= t@.subrange(start as int, t@.len() as int),
            forall|j: int| 0 <= j < end - start ==> spec_valid_digit(rest[j], radix),
        decreases t@.len() - end,
    {
        end += 1;
    }
    let ghost k = spec_digit_prefix_len(rest, radix);
    proof {
        lemma_prefix_len_characterize(rest, radix, end - start);
        assert(k == end - start);
    }
    if end == start {
        return Err(NumberUtilsError::InvalidFormat(str_to_string("No valid digits found")));
    }
    let ghost digits = rest.subrange(0, k);
    // Accumulate the digits' value, watching for overflow.
    let mut acc: i64 = 0;
    let mut i: usize = start;
    while i < end
        invariant
            start <= i <= end <= t@.len(),
            t@ == spec_t,
            spec_t == spec_trim_ws(s@),
            spec_t.len() > 0,
            is_negative == spec_leads_minus(spec_t),
            rest == spec_after_sign(spec_t),
            rest =~= t@.subrange(start as int, t@.len() as int),
            k == end - start,
            k == spec_digit_prefix_len(rest, radix),
            digits == rest.subrange(0, k),
            forall|j: int| 0 <= j < k ==> spec_valid_digit(rest[j], radix),
            2 <= radix <= 36,
            acc == spec_digits_value(digits.subrange(0, i - start), radix as int),
            acc >= 0,
        decreases end - i,
    {
        let d = digit_value(t[i]);
        proof {
            assert(rest.subrange(0, i + 1 - start).drop_last() =~= rest.subrange(0, i - start));
            assert(digits.subrange(0, i - start) =~= rest.subrange(0, i - start));
            assert(rest.subrange(0, i + 1 - start).last() == rest[i - start]);
            assert(rest[i - start] == t@[i as int]);
            assert(spec_digits_value(rest.subrange(0, i + 1 - start), radix as int) == acc * (
            radix as int) + spec_digit_value(t@[i as int]));
            assert(spec_digit_value(t@[i as int]) >= 0);
        }
        let prod = acc.checked_mul(radix as i64);
        let next = match prod {
            Some(m) => m.checked_add(d as i64),
            None => None,
        };
        match next {
            Some(n) => {
                acc = n;
                proof {
                    assert(digits.subrange(0, i + 1 - start) =~= rest.subrange(0, i + 1 - start));
                }
            },
            None => {
                proof {
                    assert(acc * (radix as int) + spec_digit_value(t@[i as int]) > i64::MAX);
                    lemma_digits_value_monotone(rest, radix as int, i + 1 - start, k);
                    assert(digits =~= rest.subrange(0, k));
                    assert(spec_digits_value(rest.subrange(0, k), radix as int) > i64::MAX);
                }
                let dv = chars_range(&t, start, end);
                proof {
                    assert(dv@ =~= rest.subrange(0, k));
                }
                let num_str = string_of(&dv);
                let mut m = str_to_string("Cannot parse: ");
                m.append(num_str.as_str());
                return Err(NumberUtilsError::InvalidFormat(m));
            },
        }
        i += 1;
    }
    proof {
        assert(digits.subrange(0, k) =~= digits);
    }
    if is_negative {
        Ok(-acc)
    } else {
        Ok(acc)
    }
}

} // verus!
