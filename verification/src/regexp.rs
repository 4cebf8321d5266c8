//! Pattern validation utilities
//!
//! This module provides the common validation predicates (user names, email
//! addresses, phone numbers, IP addresses, colors, card numbers) as verified
//! character-level parsers with exact specifications, a password strength
//! analysis, and helpers that hand caller-supplied patterns to the regex
//! engine.

use crate::lang::ascii_digit;
use crate::lang::spec_ascii_digit;
use crate::number_utils::spec_digits_value;
use crate::text::chars_of;
use vstd::prelude::*;

verus! {

/// Whether a character is an ASCII letter.
pub open spec fn spec_ascii_alpha(c: char) -> bool {
    65 <= c as u32 <= 90 || 97 <= c as u32 <= 122
}

fn ascii_alpha(c: char) -> (r: bool)
    ensures
        r == spec_ascii_alpha(c),
{
    let u = c as u32;
    (65 <= u && u <= 90) || (97 <= u && u <= 122)
}

/// Whether a character is a hexadecimal digit of either case.
pub open spec fn spec_hex_digit(c: char) -> bool {
    spec_ascii_digit(c) || 65 <= c as u32 <= 70 || 97 <= c as u32 <= 102
}

fn hex_digit(c: char) -> (r: bool)
    ensures
        r == spec_hex_digit(c),
{
    let u = c as u32;
    (48 <= u && u <= 57) || (65 <= u && u <= 70) || (97 <= u && u <= 102)
}

/// Whether a character may appear in a user name: a letter, a digit, an
/// underscore or a dash.
pub open spec fn spec_username_char(c: char) -> bool {
    spec_ascii_alpha(c) || spec_ascii_digit(c) || c == '_' || c == '-'
}

fn username_char(c: char) -> (r: bool)
    ensures
        r == spec_username_char(c),
{
    ascii_alpha(c) || ascii_digit(c) || c == '_' || c == '-'
}

/// A valid user name: 4 to 16 characters, each a letter, a digit, an
/// underscore or a dash.
pub open spec fn spec_valid_username(s: Seq<char>) -> bool {
    4 <= s.len() <= 16 && forall|i: int| 0 <= i < s.len() ==> spec_username_char(s[i])
}

/// Validate a username (4-16 characters: letters, digits, underscore, dash).
pub fn is_valid_username(username: &str) -> (r: bool)
    ensures
        r == spec_valid_username(username@),
{
    let chars = chars_of(username);
    if chars.len() < 4 || chars.len() > 16 {
        return false;
    }
    let mut i: usize = 0;
    while i < chars.len()
        invariant
            i <= chars@.len(),
            chars@ == username@,
            forall|j: int| 0 <= j < i ==> spec_username_char(username@[j]),
        decreases chars@.len() - i,
    {
        if !username_char(chars[i]) {
            return false;
        }
        i += 1;
    }
    true
}

/// Whether a character may appear in an email local part.
pub open spec fn spec_email_local_char(c: char) -> bool {
    spec_ascii_alpha(c) || spec_ascii_digit(c) || c == '.' || c == '_' || c == '%' || c == '+'
        || c == '-'
}

fn email_local_char(c: char) -> (r: bool)
    ensures
        r == spec_email_local_char(c),
{
    ascii_alpha(c) || ascii_digit(c) || c == '.' || c == '_' || c == '%' || c == '+' || c == '-'
}

/// Whether a character may appear in an email domain before the last dot.
pub open spec fn spec_email_domain_char(c: char) -> bool {
    spec_ascii_alpha(c) || spec_ascii_digit(c) || c == '.' || c == '-'
}

fn email_domain_char(c: char) -> (r: bool)
    ensures
        r == spec_email_domain_char(c),
{
    ascii_alpha(c) || ascii_digit(c) || c == '.' || c == '-'
}

/// A valid email address: a nonempty local part, one `@`, a nonempty domain,
/// a dot, and a final label of at least two letters.
pub open spec fn spec_valid_email(s: Seq<char>) -> bool {
    exists|at: int, dot: int| spec_email_at(s, at, dot)
}

/// The email shape with the `@` and the final dot at fixed positions.
pub open spec fn spec_email_at(s: Seq<char>, at: int, dot: int) -> bool {
    &&& 1 <= at
    &&& at + 2 <= dot
    &&& dot + 2 < s.len()
    &&& s[at] == '@'
    &&& s[dot] == '.'
    &&& forall|i: int| 0 <= i < at ==> spec_email_local_char(s[i])
    &&& forall|i: int| at < i < dot ==> spec_email_domain_char(s[i])
    &&& forall|i: int| dot < i < s.len() ==> spec_ascii_alpha(#[trigger] s[i])
}

/// Any witness positions equal the first `@` and the last dot.
proof fn lemma_email_at_unique(s: Seq<char>, a: int, d: int, first_at: int, last_dot: int)
    requires
        spec_email_at(s, a, d),
        0 <= first_at < s.len(),
        s[first_at] == '@',
        forall|j: int| 0 <= j < first_at ==> s[j] != '@',
        0 <= last_dot < s.len(),
        s[last_dot] == '.',
        forall|j: int| last_dot < j < s.len() ==> s[j] != '.',
    ensures
        a == first_at,
        d == last_dot,
{
    if a < first_at {
        assert(s[a] != '@');
        assert(false);
    }
    if a > first_at {
        assert(spec_email_local_char(s[first_at]));
        assert(false);
    }
    if d > last_dot {
        assert(s[d] != '.');
        assert(false);
    }
    if d < last_dot {
        assert(spec_ascii_alpha(s[last_dot]));
        assert(false);
    }
}

fn first_index_of(chars: &Vec<char>, c: char) -> (r: Option<usize>)
    ensures
        r matches Some(i) ==> i < chars@.len() && chars@[i as int] == c && forall|j: int|
            0 <= j < i ==> chars@[j] != c,
        r is None ==> forall|j: int| 0 <= j < chars@.len() ==> chars@[j] != c,
{
    let mut i: usize = 0;
    while i < chars.len()
        invariant
            i <= chars@.len(),
            forall|j: int| 0 <= j < i ==> chars@[j] != c,
        decreases chars@.len() - i,
    {
        if chars[i] == c {
            return Some(i);
        }
        i += 1;
    }
    None
}

fn last_index_of(chars: &Vec<char>, c: char) -> (r: Option<usize>)
    ensures
        r matches Some(i) ==> i < chars@.len() && chars@[i as int] == c && forall|j: int|
            i < j < chars@.len() ==> chars@[j] != c,
        r is None ==> forall|j: int| 0 <= j < chars@.len() ==> chars@[j] != c,
{
    let mut i: usize = chars.len();
    while i > 0
        invariant
            i <= chars@.len(),
            forall|j: int| i <= j < chars@.len() ==> chars@[j] != c,
        decreases i,
    {
        i -= 1;
        if chars[i] == c {
            return Some(i);
        }
    }
    None
}

fn all_in_range(chars: &Vec<char>, a: usize, b: usize, kind: u8) -> (r: bool)
    requires
        a <= b <= chars@.len(),
        kind == 0 || kind == 1 || kind == 2 || kind == 3,
    ensures
        kind == 0 ==> r == forall|i: int| a <= i < b ==> spec_email_local_char(chars@[i]),
        kind == 1 ==> r == forall|i: int| a <= i < b ==> spec_email_domain_char(chars@[i]),
        kind == 2 ==> r == forall|i: int| a <= i < b ==> spec_ascii_alpha(chars@[i]),
        kind == 3 ==> r == forall|i: int| a <= i < b ==> spec_ascii_digit(chars@[i]),
{
    let mut i: usize = a;
    while i < b
        invariant
            a <= i <= b <= chars@.len(),
            kind == 0 ==> forall|j: int| a <= j < i ==> spec_email_local_char(chars@[j]),
            kind == 1 ==> forall|j: int| a <= j < i ==> spec_email_domain_char(chars@[j]),
            kind == 2 ==> forall|j: int| a <= j < i ==> spec_ascii_alpha(chars@[j]),
            kind == 3 ==> forall|j: int| a <= j < i ==> spec_ascii_digit(chars@[j]),
        decreases b - i,
    {
        let ok = if kind == 0 {
            email_local_char(chars[i])
        } else if kind == 1 {
            email_domain_char(chars[i])
        } else if kind == 2 {
            ascii_alpha(chars[i])
        } else {
            ascii_digit(chars[i])
        };
        if !ok {
            return false;
        }
        i += 1;
    }
    true
}

/// Validate an email address.
pub fn is_valid_email(email: &str) -> (r: bool)
    ensures
        r == spec_valid_email(email@),
{
    let chars = chars_of(email);
    let n = chars.len();
    let at = match first_index_of(&chars, '@') {
        Some(a) => a,
        None => {
            proof {
                if spec_valid_email(email@) {
                    let (a, d) = choose|a: int, d: int| spec_email_at(email@, a, d);
                    assert(spec_email_at(email@, a, d));
                    assert(email@[a] == '@');
                    assert(false);
                }
            }
            return false;
        },
    };
    let dot = match last_index_of(&chars, '.') {
        Some(d) => d,
        None => {
            proof {
                if spec_valid_email(email@) {
                    let (a, d) = choose|a: int, d: int| spec_email_at(email@, a, d);
                    assert(spec_email_at(email@, a, d));
                    assert(email@[d] == '.');
                    assert(false);
                }
            }
            return false;
        },
    };
    let ok = 1 <= at && at < dot && dot - at >= 2 && dot < n && n - dot > 2 && all_in_range(
        &chars,
        0,
        at,
        0,
    ) && all_in_range(&chars, at + 1, dot, 1) && all_in_range(&chars, dot + 1, n, 2);
    proof {
        if ok {
            assert(spec_email_at(email@, at as int, dot as int));
        } else {
            if spec_valid_email(email@) {
                let (a, d) = choose|a: int, d: int| spec_email_at(email@, a, d);
                assert(spec_email_at(email@, a, d));
                lemma_email_at_unique(email@, a, d, at as int, dot as int);
                assert(false);
            }
        }
    }
    ok
}

/// Whether a character may appear in a CJK-aware email local part: an ASCII
/// letter or digit, or a character in the common CJK range.
pub open spec fn spec_email_cn_local_char(c: char) -> bool {
    spec_ascii_alpha(c) || spec_ascii_digit(c) || (0x4e00 <= c as u32 <= 0x9fa5)
}

fn email_cn_local_char(c: char) -> (r: bool)
    ensures
        r == spec_email_cn_local_char(c),
{
    let u = c as u32;
    ascii_alpha(c) || ascii_digit(c) || (0x4e00 <= u && u <= 0x9fa5)
}

/// Whether a character may appear in a CJK-aware email domain label.
pub open spec fn spec_email_cn_domain_char(c: char) -> bool {
    spec_ascii_alpha(c) || spec_ascii_digit(c) || c == '_' || c == '-'
}

fn email_cn_domain_char(c: char) -> (r: bool)
    ensures
        r == spec_email_cn_domain_char(c),
{
    ascii_alpha(c) || ascii_digit(c) || c == '_' || c == '-'
}

/// A valid CJK-aware email address: a nonempty local part of letters, digits
/// or CJK characters, one `@`, and two or more nonempty domain labels of
/// letters, digits, underscores or dashes, separated by dots.
pub open spec fn spec_valid_email_cn(s: Seq<char>) -> bool {
    exists|at: int| spec_email_cn_at(s, at)
}

/// The CJK email shape with the `@` at a fixed position.
pub open spec fn spec_email_cn_at(s: Seq<char>, at: int) -> bool {
    &&& 1 <= at < s.len()
    &&& #[trigger] s[at] == '@'
    &&& forall|i: int| 0 <= i < at ==> spec_email_cn_local_char(s[i])
    &&& forall|i: int|
        at < i < s.len() ==> (spec_email_cn_domain_char(#[trigger] s[i]) || s[i] == '.')
    &&& exists|i: int| at < i < s.len() && #[trigger] s[i] == '.'
    &&& s[s.len() - 1] != '.'
    &&& at + 1 < s.len() && s[at + 1] != '.'
    &&& forall|i: int| at < i < s.len() - 1 ==> !(#[trigger] s[i] == '.' && s[i + 1] == '.')
}

/// Any witness `@` position equals the first index holding an `@`.
proof fn lemma_email_cn_at_unique(s: Seq<char>, a: int, first_at: int)
    requires
        spec_email_cn_at(s, a),
        0 <= first_at < s.len(),
        s[first_at] == '@',
        forall|j: int| 0 <= j < first_at ==> s[j] != '@',
    ensures
        a == first_at,
{
    if a < first_at {
        assert(s[a] != '@');
        assert(false);
    }
    if a > first_at {
        assert(spec_email_cn_local_char(s[first_at]));
        assert(false);
    }
}

fn all_cn_local(chars: &Vec<char>, a: usize, b: usize) -> (r: bool)
    requires
        a <= b <= chars@.len(),
    ensures
        r == forall|i: int| a <= i < b ==> spec_email_cn_local_char(chars@[i]),
{
    let mut i: usize = a;
    while i < b
        invariant
            a <= i <= b <= chars@.len(),
            forall|j: int| a <= j < i ==> spec_email_cn_local_char(chars@[j]),
        decreases b - i,
    {
        if !email_cn_local_char(chars[i]) {
            return false;
        }
        i += 1;
    }
    true
}

fn all_cn_domain_or_dot(chars: &Vec<char>, a: usize, b: usize) -> (r: bool)
    requires
        a <= b <= chars@.len(),
    ensures
        r == forall|i: int|
            a <= i < b ==> (spec_email_cn_domain_char(#[trigger] chars@[i]) || chars@[i] == '.'),
{
    let mut i: usize = a;
    while i < b
        invariant
            a <= i <= b <= chars@.len(),
            forall|j: int|
                a <= j < i ==> (spec_email_cn_domain_char(#[trigger] chars@[j]) || chars@[j]
                    == '.'),
        decreases b - i,
    {
        if !(email_cn_domain_char(chars[i]) || chars[i] == '.') {
            return false;
        }
        i += 1;
    }
    true
}

fn has_char_between(chars: &Vec<char>, a: usize, b: usize, c: char) -> (r: bool)
    requires
        a <= b <= chars@.len(),
    ensures
        r == exists|i: int| a <= i < b && #[trigger] chars@[i] == c,
{
    let mut i: usize = a;
    while i < b
        invariant
            a <= i <= b <= chars@.len(),
            forall|j: int| a <= j < i ==> chars@[j] != c,
        decreases b - i,
    {
        if chars[i] == c {
            return true;
        }
        i += 1;
    }
    false
}

fn has_adjacent_dots(chars: &Vec<char>, a: usize, b: usize) -> (r: bool)
    requires
        a <= b <= chars@.len(),
    ensures
        r == exists|i: int|
            a <= i < b - 1 && #[trigger] chars@[i] == '.' && chars@[i + 1] == '.',
{
    if b == 0 {
        return false;
    }
    let mut i: usize = a;
    while i < b - 1
        invariant
            a <= i,
            b <= chars@.len(),
            b > 0,
            i <= b,
            forall|j: int| a <= j < i ==> !(#[trigger] chars@[j] == '.' && chars@[j + 1] == '.'),
        decreases b - i,
    {
        if chars[i] == '.' && chars[i + 1] == '.' {
            return true;
        }
        i += 1;
    }
    false
}

/// Validate an email address that may hold CJK characters in its local part.
pub fn is_valid_email_cn(email: &str) -> (r: bool)
    ensures
        r == spec_valid_email_cn(email@),
{
    let chars = chars_of(email);
    let n = chars.len();
    let at = match first_index_of(&chars, '@') {
        Some(a) => a,
        None => {
            proof {
                if spec_valid_email_cn(email@) {
                    let a = choose|a: int| spec_email_cn_at(email@, a);
                    assert(email@[a] == '@');
                    assert(false);
                }
            }
            return false;
        },
    };
    let ok = 1 <= at && at + 1 < n && all_cn_local(&chars, 0, at) && all_cn_domain_or_dot(
        &chars,
        at + 1,
        n,
    ) && has_char_between(&chars, at + 1, n, '.') && chars[n - 1] != '.' && chars[at + 1] != '.'
        && !has_adjacent_dots(&chars, at + 1, n);
    proof {
        if ok {
            assert(forall|i: int|
                at < i < email@.len() - 1 ==> !(#[trigger] email@[i] == '.' && email@[i + 1]
                    == '.'));
            assert(spec_email_cn_at(email@, at as int));
        } else {
            if spec_valid_email_cn(email@) {
                let a = choose|a: int| spec_email_cn_at(email@, a);
                assert(spec_email_cn_at(email@, a));
                lemma_email_cn_at_unique(email@, a, at as int);
                assert(false);
            }
        }
    }
    ok
}

/// A valid mainland mobile number: eleven digits, starting `1` then one of
/// `3`, `4`, `5`, `7`, `8`.
pub open spec fn spec_valid_mobile_cn(s: Seq<char>) -> bool {
    &&& s.len() == 11
    &&& s[0] == '1'
    &&& (s[1] == '3' || s[1] == '4' || s[1] == '5' || s[1] == '7' || s[1] == '8')
    &&& forall|i: int| 2 <= i < 11 ==> spec_ascii_digit(#[trigger] s[i])
}

/// Validate a Chinese mobile phone number.
pub fn is_valid_mobile_cn(mobile: &str) -> (r: bool)
    ensures
        r == spec_valid_mobile_cn(mobile@),
{
    let chars = chars_of(mobile);
    if chars.len() != 11 {
        return false;
    }
    if chars[0] != '1' {
        return false;
    }
    let c1 = chars[1];
    if !(c1 == '3' || c1 == '4' || c1 == '5' || c1 == '7' || c1 == '8') {
        return false;
    }
    all_in_range(&chars, 2, 11, 3)
}

/// Whether a character separates groups in a US phone number: a dash, a dot,
/// or whitespace.
pub open spec fn spec_phone_sep(c: char) -> bool {
    c == '-' || c == '.' || crate::text::spec_whitespace_char(c)
}

fn phone_sep(c: char) -> (r: bool)
    ensures
        r == spec_phone_sep(c),
{
    c == '-' || c == '.' || crate::text::whitespace_char(c)
}

/// The tail of a US phone number from index `i0`: an optional separator, an
/// optional opening parenthesis, three digits, an optional closing
/// parenthesis, an optional separator, three digits, an optional separator,
/// and four final digits.
pub open spec fn spec_phone_us_tail(s: Seq<char>, i0: int) -> bool {
    let i1 = if 0 <= i0 < s.len() && spec_phone_sep(s[i0]) {
        i0 + 1
    } else {
        i0
    };
    let i2 = if 0 <= i1 < s.len() && s[i1] == '(' {
        i1 + 1
    } else {
        i1
    };
    let j = i2 + 3;
    let j1 = if 0 <= j < s.len() && s[j] == ')' {
        j + 1
    } else {
        j
    };
    let j2 = if 0 <= j1 < s.len() && spec_phone_sep(s[j1]) {
        j1 + 1
    } else {
        j1
    };
    let k = j2 + 3;
    let k1 = if 0 <= k < s.len() && spec_phone_sep(s[k]) {
        k + 1
    } else {
        k
    };
    &&& 0 <= i0
    &&& j <= s.len() && (forall|i: int| i2 <= i < j ==> spec_ascii_digit(#[trigger] s[i]))
    &&& k <= s.len() && (forall|i: int| j2 <= i < k ==> spec_ascii_digit(#[trigger] s[i]))
    &&& k1 + 4 == s.len() && (forall|i: int| k1 <= i < s.len() ==> spec_ascii_digit(#[trigger] s[i]))
}

/// A valid US phone number: an optional `+`, an optional leading `1`, then
/// the separated digit groups of [`spec_phone_us_tail`].
pub open spec fn spec_valid_phone_us(s: Seq<char>) -> bool {
    let p = if s.len() > 0 && s[0] == '+' {
        1int
    } else {
        0int
    };
    ||| (p < s.len() && s[p] == '1' && spec_phone_us_tail(s, p + 1))
    ||| spec_phone_us_tail(s, p)
}

fn phone_us_tail(chars: &Vec<char>, i0: usize) -> (r: bool)
    requires
        i0 <= chars@.len(),
    ensures
        r == spec_phone_us_tail(chars@, i0 as int),
{
    let n = chars.len();
    let i1 = if i0 < n && phone_sep(chars[i0]) {
        i0 + 1
    } else {
        i0
    };
    let i2 = if i1 < n && chars[i1] == '(' {
        i1 + 1
    } else {
        i1
    };
    if i2 > n || n - i2 < 3 {
        return false;
    }
    if !all_in_range(chars, i2, i2 + 3, 3) {
        return false;
    }
    let j = i2 + 3;
    let j1 = if j < n && chars[j] == ')' {
        j + 1
    } else {
        j
    };
    let j2 = if j1 < n && phone_sep(chars[j1]) {
        j1 + 1
    } else {
        j1
    };
    if n - j2 < 3 {
        return false;
    }
    if !all_in_range(chars, j2, j2 + 3, 3) {
        return false;
    }
    let k = j2 + 3;
    let k1 = if k < n && phone_sep(chars[k]) {
        k + 1
    } else {
        k
    };
    if n - k1 != 4 {
        return false;
    }
    all_in_range(chars, k1, n, 3)
}

/// Validate a US phone number.
pub fn is_valid_phone_us(phone: &str) -> (r: bool)
    ensures
        r == spec_valid_phone_us(phone@),
{
    let chars = chars_of(phone);
    let n = chars.len();
    let p: usize = if n > 0 && chars[0] == '+' {
        1
    } else {
        0
    };
    if p < n && chars[p] == '1' {
        if phone_us_tail(&chars, p + 1) {
            return true;
        }
    }
    phone_us_tail(&chars, p)
}

/// A positive decimal number: digits with at most one dot, ending in a digit,
/// with at least one digit.
pub open spec fn spec_positive_number(s: Seq<char>) -> bool {
    &&& s.len() >= 1
    &&& spec_ascii_digit(s[s.len() - 1])
    &&& forall|i: int| 0 <= i < s.len() ==> (spec_ascii_digit(#[trigger] s[i]) || s[i] == '.')
    &&& forall|i: int, j: int|
        0 <= i < j < s.len() ==> !(#[trigger] s[i] == '.' && #[trigger] s[j] == '.')
}

/// Check if a string is a positive number.
pub fn is_positive_number(s: &str) -> (r: bool)
    ensures
        r == spec_positive_number(s@),
{
    let chars = chars_of(s);
    let n = chars.len();
    if n == 0 {
        return false;
    }
    if !ascii_digit(chars[n - 1]) {
        return false;
    }
    let mut dots: usize = 0;
    let mut i: usize = 0;
    while i < n
        invariant
            i <= n,
            n == chars@.len(),
            chars@ == s@,
            forall|j: int| 0 <= j < i ==> (spec_ascii_digit(#[trigger] s@[j]) || s@[j] == '.'),
            dots <= 1,
            (exists|j: int| 0 <= j < i && #[trigger] s@[j] == '.') <==> dots > 0,
            forall|j1: int, j2: int|
                0 <= j1 < j2 < i ==> !(#[trigger] s@[j1] == '.' && #[trigger] s@[j2] == '.'),
        decreases n - i,
    {
        let c = chars[i];
        if c == '.' {
            if dots > 0 {
                proof {
                    let j1 = choose|j: int| 0 <= j < i && #[trigger] s@[j] == '.';
                    assert(s@[j1] == '.' && s@[i as int] == '.');
                }
                return false;
            }
            dots = 1;
        } else if !ascii_digit(c) {
            return false;
        }
        i += 1;
    }
    true
}

/// A negative decimal number: a minus sign followed by a positive number.
pub open spec fn spec_negative_number(s: Seq<char>) -> bool {
    s.len() >= 2 && s[0] == '-' && spec_positive_number(s.drop_first())
}

/// Check if a string is a negative number.
pub fn is_negative_number(s: &str) -> (r: bool)
    ensures
        r == spec_negative_number(s@),
{
    let chars = chars_of(s);
    if chars.len() < 2 || chars[0] != '-' {
        return false;
    }
    let tail = crate::text::chars_range(&chars, 1, chars.len());
    let tail_string = crate::text::string_of(&tail);
    let r = is_positive_number(tail_string.as_str());
    proof {
        assert(tail@ =~= s@.drop_first());
    }
    r
}

/// Whether a character may start what follows a URL scheme: anything but
/// whitespace, `/`, `$`, `.`, `?` or `#`.
pub open spec fn spec_url_head_char(c: char) -> bool {
    !crate::text::spec_whitespace_char(c) && c != '/' && c != '$' && c != '.' && c != '?' && c
        != '#'
}

/// A URL with a scheme of length `k` (7 for `http://`, 8 for `https://`):
/// the scheme, one acceptable head character, one further character that is
/// no newline, then no whitespace to the end.
pub open spec fn spec_url_with_scheme(s: Seq<char>, k: int) -> bool {
    let scheme = if k == 7 {
        seq!['h', 't', 't', 'p', ':', '/', '/']
    } else {
        seq!['h', 't', 't', 'p', 's', ':', '/', '/']
    };
    &&& k + 2 <= s.len()
    &&& s.subrange(0, k) == scheme
    &&& spec_url_head_char(s[k])
    &&& s[k + 1] != '\n'
    &&& forall|i: int| k + 2 <= i < s.len() ==> !crate::text::spec_whitespace_char(#[trigger] s[i])
}

/// A valid URL: `http://` or `https://`, one acceptable head character, one
/// further character that is no newline, then no whitespace to the end.
pub open spec fn spec_valid_url(s: Seq<char>) -> bool {
    spec_url_with_scheme(s, 7) || spec_url_with_scheme(s, 8)
}

fn url_tail_ok(chars: &Vec<char>, k: usize) -> (r: bool)
    requires
        k <= chars@.len(),
    ensures
        r == (k + 2 <= chars@.len() && spec_url_head_char(chars@[k as int]) && chars@[k + 1]
            != '\n' && forall|i: int|
            k + 2 <= i < chars@.len() ==> !crate::text::spec_whitespace_char(#[trigger] chars@[i])),
{
    let n = chars.len();
    if n - k < 2 {
        return false;
    }
    let c = chars[k];
    let head_ok = !crate::text::whitespace_char(c) && c != '/' && c != '$' && c != '.' && c != '?'
        && c != '#';
    if !head_ok || chars[k + 1] == '\n' {
        return false;
    }
    let mut i: usize = k + 2;
    while i < n
        invariant
            k + 2 <= i <= n,
            n == chars@.len(),
            forall|j: int| k + 2 <= j < i ==> !crate::text::spec_whitespace_char(chars@[j]),
        decreases n - i,
    {
        if crate::text::whitespace_char(chars[i]) {
            return false;
        }
        i += 1;
    }
    true
}

/// Validate a URL.
pub fn is_valid_url(url: &str) -> (r: bool)
    ensures
        r == spec_valid_url(url@),
{
    let chars = chars_of(url);
    let n = chars.len();
    let https = n >= 8 && chars[0] == 'h' && chars[1] == 't' && chars[2] == 't' && chars[3] == 'p'
        && chars[4] == 's' && chars[5] == ':' && chars[6] == '/' && chars[7] == '/';
    let http = n >= 7 && chars[0] == 'h' && chars[1] == 't' && chars[2] == 't' && chars[3] == 'p'
        && chars[4] == ':' && chars[5] == '/' && chars[6] == '/';
    proof {
        if https {
            assert(url@.subrange(0, 8) =~= seq!['h', 't', 't', 'p', 's', ':', '/', '/']);
        }
        if http {
            assert(url@.subrange(0, 7) =~= seq!['h', 't', 't', 'p', ':', '/', '/']);
        }
        if !https && !http {
            if spec_url_with_scheme(url@, 7) {
                assert(url@.subrange(0, 7)[0] == url@[0]);
                assert(url@.subrange(0, 7)[1] == url@[1]);
                assert(url@.subrange(0, 7)[2] == url@[2]);
                assert(url@.subrange(0, 7)[3] == url@[3]);
                assert(url@.subrange(0, 7)[4] == url@[4]);
                assert(url@.subrange(0, 7)[5] == url@[5]);
                assert(url@.subrange(0, 7)[6] == url@[6]);
                assert(false);
            }
            if spec_url_with_scheme(url@, 8) {
                assert(url@.subrange(0, 8)[0] == url@[0]);
                assert(url@.subrange(0, 8)[1] == url@[1]);
                assert(url@.subrange(0, 8)[2] == url@[2]);
                assert(url@.subrange(0, 8)[3] == url@[3]);
                assert(url@.subrange(0, 8)[4] == url@[4]);
                assert(url@.subrange(0, 8)[5] == url@[5]);
                assert(url@.subrange(0, 8)[6] == url@[6]);
                assert(url@.subrange(0, 8)[7] == url@[7]);
                assert(false);
            }
        }
    }
    if https {
        let r = url_tail_ok(&chars, 8);
        proof {
            if spec_url_with_scheme(url@, 7) {
                assert(url@.subrange(0, 7)[4] == ':');
                assert(false);
            }
        }
        r
    } else if http {
        let r = url_tail_ok(&chars, 7);
        proof {
            if spec_url_with_scheme(url@, 8) {
                assert(url@.subrange(0, 8)[4] == 's');
                assert(url@.subrange(0, 8)[4] == url@[4]);
                assert(false);
            }
        }
        r
    } else {
        false
    }
}

/// A valid IPv4 address: four dot-separated octets, each one to three digits
/// with a value at most 255.
pub open spec fn spec_ipv4_octet(p: Seq<char>) -> bool {
    &&& 1 <= p.len() <= 3
    &&& forall|i: int| 0 <= i < p.len() ==> spec_ascii_digit(#[trigger] p[i])
    &&& spec_digits_value(p, 10) <= 255
}

/// A valid IPv4 address in terms of its dot-separated parts.
pub open spec fn spec_valid_ipv4(s: Seq<char>) -> bool {
    let parts = crate::string::spec_split_seq(s, seq!['.']);
    parts.len() == 4 && forall|i: int| 0 <= i < 4 ==> spec_ipv4_octet(#[trigger] parts[i])
}

fn ipv4_octet_ok(part: &String) -> (r: bool)
    ensures
        r == spec_ipv4_octet(part@),
{
    let chars = chars_of(part.as_str());
    let n = chars.len();
    if n < 1 || n > 3 {
        return false;
    }
    if !all_in_range(&chars, 0, n, 3) {
        return false;
    }
    let mut value: u32 = 0;
    let mut i: usize = 0;
    proof {
        assert(part@.subrange(0, 0) =~= Seq::<char>::empty());
    }
    while i < n
        invariant
            i <= n <= 3,
            n == chars@.len(),
            chars@ == part@,
            forall|j: int| 0 <= j < n ==> spec_ascii_digit(#[trigger] part@[j]),
            value == spec_digits_value(part@.subrange(0, i as int), 10),
            i == 0 ==> value == 0,
            i == 1 ==> value <= 9,
            i == 2 ==> value <= 99,
            i == 3 ==> value <= 999,
        decreases n - i,
    {
        let d = (chars[i] as u32) - 48;
        proof {
            assert(part@.subrange(0, i + 1).drop_last() =~= part@.subrange(0, i as int));
            assert(part@.subrange(0, i + 1).last() == part@[i as int]);
            assert(crate::number_utils::spec_digit_value(part@[i as int]) == d);
        }
        value = value * 10 + d;
        i += 1;
    }
    proof {
        assert(part@.subrange(0, n as int) =~= part@);
    }
    value <= 255
}

/// Validate an IPv4 address.
pub fn is_valid_ipv4(ip: &str) -> (r: bool)
    ensures
        r == spec_valid_ipv4(ip@),
{
    proof {
        reveal_strlit(".");
        assert("."@ =~= seq!['.']);
    }
    let parts = crate::string::split(ip, ".");
    let ghost views = parts@.map_values(|p: String| p@);
    if parts.len() != 4 {
        return false;
    }
    let mut i: usize = 0;
    while i < 4
        invariant
            i <= 4,
            parts@.len() == 4,
            views == parts@.map_values(|p: String| p@),
            views == crate::string::spec_split_seq(ip@, seq!['.']),
            forall|j: int| 0 <= j < i ==> spec_ipv4_octet(#[trigger] views[j]),
        decreases 4 - i,
    {
        if !ipv4_octet_ok(&parts[i]) {
            proof {
                assert(!spec_ipv4_octet(crate::string::spec_split_seq(ip@, seq!['.'])[i as int]));
            }
            return false;
        }
        i += 1;
    }
    proof {
        let parts_spec = crate::string::spec_split_seq(ip@, seq!['.']);
        assert(views == parts_spec);
        assert forall|j: int| 0 <= j < 4 implies #[trigger] spec_ipv4_octet(parts_spec[j]) by {
            assert(spec_ipv4_octet(views[j]));
            assert(views[j] == parts_spec[j]);
        }
        assert(spec_valid_ipv4(ip@));
    }
    true
}

/// A valid full-form IPv6 address: eight colon-separated groups of one to
/// four hexadecimal digits.
pub open spec fn spec_ipv6_group(p: Seq<char>) -> bool {
    1 <= p.len() <= 4 && forall|i: int| 0 <= i < p.len() ==> spec_hex_digit(#[trigger] p[i])
}

/// A valid IPv6 address in terms of its colon-separated parts.
pub open spec fn spec_valid_ipv6(s: Seq<char>) -> bool {
    let parts = crate::string::spec_split_seq(s, seq![':']);
    parts.len() == 8 && forall|i: int| 0 <= i < 8 ==> spec_ipv6_group(#[trigger] parts[i])
}

fn ipv6_group_ok(part: &String) -> (r: bool)
    ensures
        r == spec_ipv6_group(part@),
{
    let chars = chars_of(part.as_str());
    let n = chars.len();
    if n < 1 || n > 4 {
        return false;
    }
    let mut i: usize = 0;
    while i < n
        invariant
            i <= n,
            n == chars@.len(),
            chars@ == part@,
            forall|j: int| 0 <= j < i ==> spec_hex_digit(#[trigger] part@[j]),
        decreases n - i,
    {
        if !hex_digit(chars[i]) {
            return false;
        }
        i += 1;
    }
    true
}

/// Validate a full-form IPv6 address.
pub fn is_valid_ipv6(ip: &str) -> (r: bool)
    ensures
        r == spec_valid_ipv6(ip@),
{
    proof {
        reveal_strlit(":");
        assert(":"@ =~= seq![':']);
    }
    let parts = crate::string::split(ip, ":");
    let ghost views = parts@.map_values(|p: String| p@);
    if parts.len() != 8 {
        return false;
    }
    let mut i: usize = 0;
    while i < 8
        invariant
            i <= 8,
            parts@.len() == 8,
            views == parts@.map_values(|p: String| p@),
            views == crate::string::spec_split_seq(ip@, seq![':']),
            forall|j: int| 0 <= j < i ==> spec_ipv6_group(#[trigger] views[j]),
        decreases 8 - i,
    {
        if !ipv6_group_ok(&parts[i]) {
            proof {
                assert(!spec_ipv6_group(crate::string::spec_split_seq(ip@, seq![':'])[i as int]));
            }
            return false;
        }
        i += 1;
    }
    proof {
        let parts_spec = crate::string::spec_split_seq(ip@, seq![':']);
        assert(views == parts_spec);
        assert forall|j: int| 0 <= j < 8 implies #[trigger] spec_ipv6_group(parts_spec[j]) by {
            assert(spec_ipv6_group(views[j]));
            assert(views[j] == parts_spec[j]);
        }
        assert(spec_valid_ipv6(ip@));
    }
    true
}

/// A valid hex color: `#` followed by three or six hexadecimal digits.
pub open spec fn spec_valid_hex_color(s: Seq<char>) -> bool {
    &&& s.len() == 4 || s.len() == 7
    &&& s.len() > 0 && s[0] == '#'
    &&& forall|i: int| 1 <= i < s.len() ==> spec_hex_digit(#[trigger] s[i])
}

/// Validate a hex color code.
pub fn is_valid_hex_color(color: &str) -> (r: bool)
    ensures
        r == spec_valid_hex_color(color@),
{
    let chars = chars_of(color);
    let n = chars.len();
    if !(n == 4 || n == 7) {
        return false;
    }
    if chars[0] != '#' {
        return false;
    }
    let mut i: usize = 1;
    while i < n
        invariant
            1 <= i <= n,
            n == chars@.len(),
            chars@ == color@,
            forall|j: int| 1 <= j < i ==> spec_hex_digit(#[trigger] color@[j]),
        decreases n - i,
    {
        if !hex_digit(chars[i]) {
            return false;
        }
        i += 1;
    }
    true
}

/// A valid card number: all digits, in one of the accepted brand shapes by
/// leading digits and length.
pub open spec fn spec_valid_credit_card(s: Seq<char>) -> bool {
    &&& forall|i: int| 0 <= i < s.len() ==> spec_ascii_digit(#[trigger] s[i])
    &&& s.len() > 0
    &&& {
        ||| (s[0] == '4' && (s.len() == 13 || s.len() == 16))
        ||| (s[0] == '5' && s.len() == 16 && ('1' <= s[1] && s[1] <= '5'))
        ||| (s[0] == '3' && s.len() == 15 && (s[1] == '4' || s[1] == '7'))
        ||| (s[0] == '3' && s.len() == 14)
        ||| (s[0] == '6' && s.len() == 16 && ((s[1] == '0' && s[2] == '1' && s[3] == '1') || s[1]
            == '5'))
    }
}

/// Validate a credit card number.
pub fn is_valid_credit_card(card: &str) -> (r: bool)
    ensures
        r == spec_valid_credit_card(card@),
{
    let chars = chars_of(card);
    let n = chars.len();
    if n == 0 {
        return false;
    }
    if !all_in_range(&chars, 0, n, 3) {
        return false;
    }
    let c0 = chars[0];
    if c0 == '4' && (n == 13 || n == 16) {
        return true;
    }
    if c0 == '5' && n == 16 {
        let c1 = chars[1];
        if '1' <= c1 && c1 <= '5' {
            return true;
        }
    }
    if c0 == '3' && n == 15 {
        let c1 = chars[1];
        if c1 == '4' || c1 == '7' {
            return true;
        }
    }
    if c0 == '3' && n == 14 {
        return true;
    }
    if c0 == '6' && n == 16 {
        if (chars[1] == '0' && chars[2] == '1' && chars[3] == '1') || chars[1] == '5' {
            return true;
        }
    }
    false
}

#[verifier::external_type_specification]
#[verifier::external_body]
pub struct ExRegexError(regex::Error);

/// Whether the regex engine accepts a pattern; it depends on the pattern
/// alone.
pub uninterp spec fn spec_pattern_ok(p: Seq<char>) -> bool;

/// What the regex engine's match test returns for a pattern and a text; it
/// depends on the two alone.
pub uninterp spec fn spec_pattern_matches(p: Seq<char>, t: Seq<char>) -> bool;

/// The non-overlapping matches the regex engine finds, in order; they depend
/// on the pattern and the text alone.
pub uninterp spec fn spec_pattern_found(p: Seq<char>, t: Seq<char>) -> Seq<Seq<char>>;

/// The text with every engine match replaced; it depends on the pattern, the
/// text and the replacement alone.
pub uninterp spec fn spec_pattern_replaced(p: Seq<char>, t: Seq<char>, r: Seq<char>) -> Seq<char>;

/// The pieces the regex engine splits a text into; they depend on the pattern
/// and the text alone.
pub uninterp spec fn spec_pattern_split(p: Seq<char>, t: Seq<char>) -> Seq<Seq<char>>;

/// Extract all matches from text using a regex pattern.
///
/// Relies on the regex crate's `Regex::new` and `find_iter`: the
/// non-overlapping matches of the pattern, in order; `Err` reports exactly
/// the patterns the engine rejects.
#[verifier::external_body]
pub fn extract_matches(text: &str, pattern: &str) -> (r: Result<Vec<String>, regex::Error>)
    ensures
        r is Ok <==> spec_pattern_ok(pattern@),
        r matches Ok(v) ==> v@.map_values(|s: String| s@) == spec_pattern_found(pattern@, text@),
{
    let re = regex::Regex::new(pattern)?;
    Ok(re.find_iter(text).map(|m| m.as_str().to_string()).collect())
}

/// Replace all matches in text using a regex pattern.
///
/// Relies on the regex crate's `Regex::new` and `replace_all`: the text with
/// every match replaced; `Err` reports exactly the patterns the engine
/// rejects.
#[verifier::external_body]
pub fn replace_all_matches(text: &str, pattern: &str, replacement: &str) -> (r: Result<
    String,
    regex::Error,
>)
    ensures
        r is Ok <==> spec_pattern_ok(pattern@),
        r matches Ok(s) ==> s@ == spec_pattern_replaced(pattern@, text@, replacement@),
{
    let re = regex::Regex::new(pattern)?;
    Ok(re.replace_all(text, replacement).to_string())
}

/// Split text by a regex pattern.
///
/// Relies on the regex crate's `Regex::new` and `split`: the pieces between
/// the matches; `Err` reports exactly the patterns the engine rejects.
#[verifier::external_body]
pub fn split_by_pattern(text: &str, pattern: &str) -> (r: Result<Vec<String>, regex::Error>)
    ensures
        r is Ok <==> spec_pattern_ok(pattern@),
        r matches Ok(v) ==> v@.map_values(|s: String| s@) == spec_pattern_split(pattern@, text@),
{
    let re = regex::Regex::new(pattern)?;
    Ok(re.split(text).map(|s| s.to_string()).collect())
}

/// Check if text matches a regex pattern.
///
/// Relies on the regex crate's `Regex::new` and `is_match`; `Err` reports
/// exactly the patterns the engine rejects.
#[verifier::external_body]
pub fn matches_pattern(text: &str, pattern: &str) -> (r: Result<bool, regex::Error>)
    ensures
        r is Ok <==> spec_pattern_ok(pattern@),
        r matches Ok(b) ==> b == spec_pattern_matches(pattern@, text@),
{
    let re = regex::Regex::new(pattern)?;
    Ok(re.is_match(text))
}

/// Password strength analysis
#[derive(Debug, Clone)]
pub struct PasswordStrength {
    pub min_length: bool,
    pub has_lowercase: bool,
    pub has_uppercase: bool,
    pub has_digit: bool,
    pub has_special_char: bool,
    pub score: u8,
}

/// Whether a character is an ASCII lowercase letter.
pub open spec fn spec_ascii_lower_alpha(c: char) -> bool {
    97 <= c as u32 <= 122
}

/// Whether a character is an ASCII uppercase letter.
pub open spec fn spec_ascii_upper_alpha(c: char) -> bool {
    65 <= c as u32 <= 90
}

/// Whether a character counts as a special password character.
pub open spec fn spec_password_special(c: char) -> bool {
    c == '!' || c == '@' || c == '#' || c == '$' || c == '%' || c == '^' || c == '&' || c == '*'
        || c == '(' || c == ')' || c == '_' || c == '+' || c == '-' || c == '=' || c == '[' || c
        == ']' || c == '{' || c == '}' || c == '|' || c == ';' || c == '\'' || c == ':' || c == ','
        || c == '.' || c == '<' || c == '>' || c == '?'
}

fn password_special(c: char) -> (r: bool)
    ensures
        r == spec_password_special(c),
{
    c == '!' || c == '@' || c == '#' || c == '$' || c == '%' || c == '^' || c == '&' || c == '*'
        || c == '(' || c == ')' || c == '_' || c == '+' || c == '-' || c == '=' || c == '[' || c
        == ']' || c == '{' || c == '}' || c == '|' || c == ';' || c == '\'' || c == ':' || c == ','
        || c == '.' || c == '<' || c == '>' || c == '?'
}

/// What each strength field means, and that the score counts the criteria met.
pub open spec fn spec_password_strength(s: Seq<char>, r: PasswordStrength) -> bool {
    &&& r.min_length == (s.len() >= 8)
    &&& r.has_lowercase == exists|i: int| 0 <= i < s.len() && spec_ascii_lower_alpha(#[trigger] s[i])
    &&& r.has_uppercase == exists|i: int| 0 <= i < s.len() && spec_ascii_upper_alpha(#[trigger] s[i])
    &&& r.has_digit == exists|i: int| 0 <= i < s.len() && spec_ascii_digit(#[trigger] s[i])
    &&& r.has_special_char == exists|i: int|
        0 <= i < s.len() && spec_password_special(#[trigger] s[i])
    &&& r.score == (if r.min_length {
        1int
    } else {
        0int
    }) + (if r.has_lowercase {
        1int
    } else {
        0int
    }) + (if r.has_uppercase {
        1int
    } else {
        0int
    }) + (if r.has_digit {
        1int
    } else {
        0int
    }) + (if r.has_special_char {
        1int
    } else {
        0int
    })
}

/// Analyze password strength. The password's length is measured in
/// characters.
pub fn analyze_password_strength(password: &str) -> (r: PasswordStrength)
    ensures
        spec_password_strength(password@, r),
{
    let chars = chars_of(password);
    let n = chars.len();
    let min_length = n >= 8;
    let mut has_lowercase = false;
    let mut has_uppercase = false;
    let mut has_digit = false;
    let mut has_special_char = false;
    let mut i: usize = 0;
    while i < n
        invariant
            i <= n,
            n == chars@.len(),
            chars@ == password@,
            has_lowercase == exists|j: int|
                0 <= j < i && spec_ascii_lower_alpha(#[trigger] password@[j]),
            has_uppercase == exists|j: int|
                0 <= j < i && spec_ascii_upper_alpha(#[trigger] password@[j]),
            has_digit == exists|j: int| 0 <= j < i && spec_ascii_digit(#[trigger] password@[j]),
            has_special_char == exists|j: int|
                0 <= j < i && spec_password_special(#[trigger] password@[j]),
        decreases n - i,
    {
        let c = chars[i];
        let u = c as u32;
        if 97 <= u && u <= 122 {
            has_lowercase = true;
        }
        if 65 <= u && u <= 90 {
            has_uppercase = true;
        }
        if 48 <= u && u <= 57 {
            has_digit = true;
        }
        if password_special(c) {
            has_special_char = true;
        }
        i += 1;
    }
    let mut score: u8 = 0;
    if min_length {
        score = score + 1;
    }
    if has_lowercase {
        score = score + 1;
    }
    if has_uppercase {
        score = score + 1;
    }
    if has_digit {
        score = score + 1;
    }
    if has_special_char {
        score = score + 1;
    }
    PasswordStrength { min_length, has_lowercase, has_uppercase, has_digit, has_special_char, score }
}

/// Calculate a password strength level between 0 and 4: 0 below the minimum
/// length, otherwise the number of character-class criteria met.
pub fn calculate_password_strength_level(password: &str) -> (r: u8)
    ensures
        password@.len() < 8 ==> r == 0,
        password@.len() >= 8 ==> r as int == (if exists|i: int|
            0 <= i < password@.len() && spec_ascii_lower_alpha(#[trigger] password@[i]) {
            1int
        } else {
            0int
        }) + (if exists|i: int|
            0 <= i < password@.len() && spec_ascii_upper_alpha(#[trigger] password@[i]) {
            1int
        } else {
            0int
        }) + (if exists|i: int|
            0 <= i < password@.len() && spec_ascii_digit(#[trigger] password@[i]) {
            1int
        } else {
            0int
        }) + (if exists|i: int|
            0 <= i < password@.len() && spec_password_special(#[trigger] password@[i]) {
            1int
        } else {
            0int
        }),
{
    let strength = analyze_password_strength(password);
    if !strength.min_length {
        0
    } else {
        strength.score - 1
    }
}

} // verus!
