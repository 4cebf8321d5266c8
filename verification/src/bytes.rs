//! Bytes utilities module
//!
//! This module provides utilities for byte unit conversion and formatting.
//! Quantities are decimal numbers of binary-prefixed units; all arithmetic
//! here is exact integer arithmetic.

use crate::lang::spec_ascii_digit;
use crate::number_utils::spec_digit_value;
use crate::number_utils::spec_digits_value;
use crate::text::chars_of;
use crate::text::chars_range;
use crate::text::spec_decimal;
use crate::text::spec_digit_char;
use crate::text::spec_trim_ws;
use crate::text::spec_whitespace_char;
use crate::text::str_to_string;
use crate::text::string_of;
use crate::text::trim_ws_chars;
use crate::text::whitespace_char;
use vstd::prelude::*;
use vstd::string::StringExecFns;

verus! {

/// Error types for bytes operations
#[derive(Debug, Clone, PartialEq)]
pub enum BytesError {
    InvalidInput(String),
    ParseError(String),
    InvalidUnit(String),
}

/// Byte unit types
#[derive(Debug, Clone, Copy, PartialEq, Eq, Hash, Structural)]
pub enum ByteUnit {
    B,
    KB,
    MB,
    GB,
    TB,
    PB,
}

/// The number of bytes in one of the given unit.
pub open spec fn spec_multiplier(u: ByteUnit) -> u64 {
    match u {
        ByteUnit::B => 1,
        ByteUnit::KB => 1024,
        ByteUnit::MB => 1048576,
        ByteUnit::GB => 1073741824,
        ByteUnit::TB => 1099511627776,
        ByteUnit::PB => 1125899906842624,
    }
}

/// The display name of a unit.
pub open spec fn spec_unit_name(u: ByteUnit) -> Seq<char> {
    match u {
        ByteUnit::B => seq!['B'],
        ByteUnit::KB => seq!['K', 'B'],
        ByteUnit::MB => seq!['M', 'B'],
        ByteUnit::GB => seq!['G', 'B'],
        ByteUnit::TB => seq!['T', 'B'],
        ByteUnit::PB => seq!['P', 'B'],
    }
}

/// A character with ASCII uppercase letters lowered, all others unchanged.
pub open spec fn spec_ascii_lower_char(c: char) -> char {
    if 65 <= c as u32 <= 90 {
        ((c as u32 + 32) as u8) as char
    } else {
        c
    }
}

pub(crate) fn ascii_lower_char(c: char) -> (r: char)
    ensures
        r == spec_ascii_lower_char(c),
{
    let u = c as u32;
    if 65 <= u && u <= 90 {
        ((u + 32) as u8) as char
    } else {
        c
    }
}

/// The unit named by a string, compared with ASCII case folded.
pub open spec fn spec_unit_of(s: Seq<char>) -> Option<ByteUnit> {
    let t = s.map_values(|c: char| spec_ascii_lower_char(c));
    if t == seq!['b'] {
        Some(ByteUnit::B)
    } else if t == seq!['k', 'b'] {
        Some(ByteUnit::KB)
    } else if t == seq!['m', 'b'] {
        Some(ByteUnit::MB)
    } else if t == seq!['g', 'b'] {
        Some(ByteUnit::GB)
    } else if t == seq!['t', 'b'] {
        Some(ByteUnit::TB)
    } else if t == seq!['p', 'b'] {
        Some(ByteUnit::PB)
    } else {
        None
    }
}

fn unit_of_chars(s: &Vec<char>) -> (r: Option<ByteUnit>)
    ensures
        r == spec_unit_of(s@),
{
    let ghost t = s@.map_values(|c: char| spec_ascii_lower_char(c));
    if s.len() == 1 {
        let c0 = ascii_lower_char(s[0]);
        proof {
            assert(t =~= seq![spec_ascii_lower_char(s@[0])]);
        }
        if c0 == 'b' {
            proof {
                assert(t =~= seq!['b']);
            }
            Some(ByteUnit::B)
        } else {
            proof {
                assert(t[0] == spec_ascii_lower_char(s@[0]));
                assert(seq!['b'][0] == 'b');
                assert(t != seq!['b']);
            }
            None
        }
    } else if s.len() == 2 {
        let c0 = ascii_lower_char(s[0]);
        let c1 = ascii_lower_char(s[1]);
        proof {
            assert(t =~= seq![spec_ascii_lower_char(s@[0]), spec_ascii_lower_char(s@[1])]);
            assert(t != seq!['b']);
        }
        if c1 != 'b' {
            proof {
                assert(t[1] != 'b');
            }
            return None;
        }
        if c0 == 'k' {
            proof {
                assert(t =~= seq!['k', 'b']);
            }
            Some(ByteUnit::KB)
        } else if c0 == 'm' {
            proof {
                assert(t =~= seq!['m', 'b']);
            }
            Some(ByteUnit::MB)
        } else if c0 == 'g' {
            proof {
                assert(t =~= seq!['g', 'b']);
            }
            Some(ByteUnit::GB)
        } else if c0 == 't' {
            proof {
                assert(t =~= seq!['t', 'b']);
            }
            Some(ByteUnit::TB)
        } else if c0 == 'p' {
            proof {
                assert(t =~= seq!['p', 'b']);
            }
            Some(ByteUnit::PB)
        } else {
            proof {
                assert(t[0] != 'k' && t[0] != 'm' && t[0] != 'g' && t[0] != 't' && t[0] != 'p');
            }
            None
        }
    } else {
        proof {
            assert(t.len() != 1 && t.len() != 2);
        }
        None
    }
}

impl ByteUnit {
    /// Get the multiplier for this unit
    pub fn multiplier(&self) -> (r: u64)
        ensures
            r == spec_multiplier(*self),
    {
        match self {
            ByteUnit::B => 1,
            ByteUnit::KB => 1024,
            ByteUnit::MB => 1048576,
            ByteUnit::GB => 1073741824,
            ByteUnit::TB => 1099511627776,
            ByteUnit::PB => 1125899906842624,
        }
    }

    /// Parse a unit from its name, compared with ASCII case folded.
    ///
    /// Returns `BytesError::InvalidUnit` holding the input if and only if the
    /// string names no unit.
    pub fn from_str(s: &str) -> (r: Result<Self, BytesError>)
        ensures
            r matches Ok(u) ==> spec_unit_of(s@) == Some(u),
            r matches Err(e) ==> spec_unit_of(s@) is None && (e matches BytesError::InvalidUnit(m)
                && m@ == s@),
    {
        let chars = chars_of(s);
        match unit_of_chars(&chars) {
            Some(u) => Ok(u),
            None => Err(BytesError::InvalidUnit(str_to_string(s))),
        }
    }

    /// The unit's display name.
    pub fn to_string(&self) -> (r: String)
        ensures
            r@ == spec_unit_name(*self),
    {
        let mut r = String::new();
        match self {
            ByteUnit::B => {
                r.push('B');
            },
            ByteUnit::KB => {
                r.push('K');
                r.push('B');
            },
            ByteUnit::MB => {
                r.push('M');
                r.push('B');
            },
            ByteUnit::GB => {
                r.push('G');
                r.push('B');
            },
            ByteUnit::TB => {
                r.push('T');
                r.push('B');
            },
            ByteUnit::PB => {
                r.push('P');
                r.push('B');
            },
        }
        proof {
            assert(r@ =~= spec_unit_name(*self));
        }
        r
    }
}

/// Options for byte formatting
#[derive(Debug, Clone)]
pub struct BytesOptions {
    pub unit: Option<ByteUnit>,
    pub decimal_places: usize,
    pub fixed_decimals: bool,
    pub thousands_separator: String,
    pub unit_separator: String,
}

impl Default for BytesOptions {
    /// The default options: automatic unit, two decimal places, trailing
    /// zeros trimmed, no separators.
    fn default() -> (r: Self)
        ensures
            r.unit is None,
            r.decimal_places == 2,
            !r.fixed_decimals,
            r.thousands_separator@.len() == 0,
            r.unit_separator@.len() == 0,
    {
        BytesOptions {
            unit: None,
            decimal_places: 2,
            fixed_decimals: false,
            thousands_separator: String::new(),
            unit_separator: String::new(),
        }
    }
}

/// Bytes utility struct for conversion and formatting
pub struct Bytes;

/// The unit picked automatically for a value: the largest whose multiplier
/// the value reaches, bytes otherwise.
pub open spec fn spec_auto_unit(value: u64) -> ByteUnit {
    if value >= 1125899906842624 {
        ByteUnit::PB
    } else if value >= 1099511627776 {
        ByteUnit::TB
    } else if value >= 1073741824 {
        ByteUnit::GB
    } else if value >= 1048576 {
        ByteUnit::MB
    } else if value >= 1024 {
        ByteUnit::KB
    } else {
        ByteUnit::B
    }
}

/// Ten to the given power.
pub open spec fn spec_pow10(p: nat) -> int
    decreases p,
{
    if p == 0 {
        1
    } else {
        10 * spec_pow10((p - 1) as nat)
    }
}

fn pow10_u128(p: usize) -> (r: u128)
    requires
        p <= 18,
    ensures
        r == spec_pow10(p as nat),
        1 <= r <= 1000000000000000000,
{
    let mut r: u128 = 1;
    let mut i: usize = 0;
    while i < p
        invariant
            i <= p <= 18,
            r == spec_pow10(i as nat),
            1 <= r,
            r <= 1000000000000000000,
        decreases p - i,
    {
        proof {
            lemma_pow10_bound(i as nat);
            lemma_pow10_bound((i + 1) as nat);
        }
        r = r * 10;
        i += 1;
    }
    proof {
        lemma_pow10_bound(p as nat);
    }
    r
}

proof fn lemma_pow10_18()
    ensures
        spec_pow10(18) == 1000000000000000000,
{
    assert(spec_pow10(0) == 1);
    assert(spec_pow10(1) == 10);
    assert(spec_pow10(2) == 100);
    assert(spec_pow10(3) == 1000);
    assert(spec_pow10(4) == 10000);
    assert(spec_pow10(5) == 100000);
    assert(spec_pow10(6) == 1000000);
    assert(spec_pow10(7) == 10000000);
    assert(spec_pow10(8) == 100000000);
    assert(spec_pow10(9) == 1000000000);
    assert(spec_pow10(10) == 10000000000);
    assert(spec_pow10(11) == 100000000000);
    assert(spec_pow10(12) == 1000000000000);
    assert(spec_pow10(13) == 10000000000000);
    assert(spec_pow10(14) == 100000000000000);
    assert(spec_pow10(15) == 1000000000000000);
    assert(spec_pow10(16) == 10000000000000000);
    assert(spec_pow10(17) == 100000000000000000);
    assert(spec_pow10(18) == 1000000000000000000);
}

pub(crate) proof fn lemma_pow10_bound(p: nat)
    requires
        p <= 18,
    ensures
        1 <= spec_pow10(p) <= 1000000000000000000,
{
    lemma_pow10_mono(p, 18);
    lemma_pow10_18();
}

proof fn lemma_pow10_pos(p: nat)
    ensures
        spec_pow10(p) >= 1,
    decreases p,
{
    if p > 0 {
        lemma_pow10_pos((p - 1) as nat);
        assert(10 * spec_pow10((p - 1) as nat) >= 1) by (nonlinear_arith)
            requires
                spec_pow10((p - 1) as nat) >= 1,
        ;
    }
}

proof fn lemma_pow10_mono(p: nat, q: nat)
    requires
        p <= q,
    ensures
        spec_pow10(p) <= spec_pow10(q),
        spec_pow10(p) >= 1,
    decreases q,
{
    lemma_pow10_pos(p);
    if p < q {
        lemma_pow10_mono(p, (q - 1) as nat);
        assert(spec_pow10(q) == 10 * spec_pow10((q - 1) as nat));
        assert(10 * spec_pow10((q - 1) as nat) >= spec_pow10((q - 1) as nat)) by (nonlinear_arith)
            requires
                spec_pow10((q - 1) as nat) >= 1,
        ;
    }
}

/// `num / den` rounded to the nearest integer, ties to even.
pub open spec fn spec_round_half_even(num: int, den: int) -> int {
    let q = num / den;
    let r = num % den;
    if 2 * r > den {
        q + 1
    } else if 2 * r < den {
        q
    } else if q % 2 == 0 {
        q
    } else {
        q + 1
    }
}

/// The decimal digits of `n`, zero-padded on the left to exactly `p` digits.
pub open spec fn spec_fixed_width_decimal(n: nat, p: nat) -> Seq<char>
    decreases p,
{
    if p == 0 {
        Seq::empty()
    } else {
        spec_fixed_width_decimal(n / 10, (p - 1) as nat).push(spec_digit_char((n % 10) as int))
    }
}

fn fixed_width_decimal(n: u128, p: usize) -> (r: Vec<char>)
    ensures
        r@ == spec_fixed_width_decimal(n as nat, p as nat),
        r@.len() == p,
    decreases p,
{
    if p == 0 {
        let r: Vec<char> = Vec::new();
        proof {
            assert(r@ =~= spec_fixed_width_decimal(n as nat, 0));
        }
        r
    } else {
        let mut r = fixed_width_decimal(n / 10, p - 1);
        let d = (n % 10) as u64;
        let c = crate::bytes::digit_char_of(d);
        r.push(c);
        r
    }
}

pub(crate) fn digit_char_of(d: u64) -> (c: char)
    requires
        d < 10,
    ensures
        c == spec_digit_char(d as int),
{
    if d == 0 {
        '0'
    } else if d == 1 {
        '1'
    } else if d == 2 {
        '2'
    } else if d == 3 {
        '3'
    } else if d == 4 {
        '4'
    } else if d == 5 {
        '5'
    } else if d == 6 {
        '6'
    } else if d == 7 {
        '7'
    } else if d == 8 {
        '8'
    } else {
        '9'
    }
}

/// A digit string grouped from the right in threes with a separator.
pub open spec fn spec_grouped(digits: Seq<char>, sep: Seq<char>) -> Seq<char>
    decreases digits.len(),
{
    if digits.len() <= 3 {
        digits
    } else {
        spec_grouped(digits.subrange(0, digits.len() - 3), sep) + sep + digits.subrange(
            digits.len() - 3,
            digits.len() as int,
        )
    }
}

fn grouped(digits: &Vec<char>, sep: &str) -> (r: String)
    ensures
        r@ == spec_grouped(digits@, sep@),
    decreases digits@.len(),
{
    if digits.len() <= 3 {
        string_of(digits)
    } else {
        let head = chars_range(digits, 0, digits.len() - 3);
        let tail = chars_range(digits, digits.len() - 3, digits.len());
        let mut r = grouped(&head, sep);
        r.append(sep);
        let tail_string = string_of(&tail);
        r.append(tail_string.as_str());
        r
    }
}

/// The rendered number: the rounded scaled value `q` shown with `p` decimal
/// places, trailing zeros (and a bare dot) trimmed unless fixed, the integer
/// digits grouped with the separator when one is given.
pub open spec fn spec_render_scaled(
    q: nat,
    p: nat,
    fixed: bool,
    thousands: Seq<char>,
) -> Seq<char> {
    let int_digits = spec_decimal(q / spec_pow10(p) as nat);
    let frac_digits = spec_fixed_width_decimal((q % spec_pow10(p) as nat) as nat, p);
    let kept_frac = if fixed {
        frac_digits
    } else {
        crate::text::spec_trim_end_zeros(frac_digits)
    };
    let grouped_int = if thousands.len() > 0 {
        spec_grouped(int_digits, thousands)
    } else {
        int_digits
    };
    if kept_frac.len() == 0 {
        grouped_int
    } else {
        grouped_int + seq!['.'] + kept_frac
    }
}

/// The whole formatted string for a value shown in a unit.
pub open spec fn spec_format_bytes(
    value: u64,
    unit: ByteUnit,
    p: nat,
    fixed: bool,
    thousands: Seq<char>,
    unit_sep: Seq<char>,
) -> Seq<char> {
    let q = spec_round_half_even(
        value * spec_pow10(p),
        spec_multiplier(unit) as int,
    );
    spec_render_scaled(q as nat, p, fixed, thousands) + unit_sep + spec_unit_name(unit)
}

impl Bytes {
    /// Create a new Bytes instance
    pub fn new() -> Self {
        Bytes
    }

    /// Format a number as a byte string; see [`format`](Self::format). At
    /// most eighteen decimal places are supported.
    pub fn convert_number(&self, value: u64, options: Option<BytesOptions>) -> (r: Result<
        String,
        BytesError,
    >)
        requires
            options matches Some(o) ==> o.decimal_places <= 18,
        ensures
            r matches Ok(t) ==> t@ == spec_format_bytes(
                value,
                spec_format_unit(value, options),
                spec_format_places(options),
                spec_format_fixed(options),
                spec_format_thousands(options),
                spec_format_unit_sep(options),
            ),
            r is Ok,
    {
        self.format(value, options)
    }

    /// Parse a byte string to a number; see [`parse`](Self::parse).
    pub fn convert_string(&self, value: &str) -> (r: Result<u64, BytesError>)
        ensures
            spec_parse_outcome(value@, r),
    {
        self.parse(value)
    }

    /// Parse a byte string: optional surrounding whitespace, an optional sign,
    /// decimal digits with an optional fraction (read to eighteen digits), then
    /// optional whitespace and an optional unit name. The result is the
    /// number of bytes, floored, saturating at the largest `u64`.
    ///
    /// A value below zero is a `ParseError` reading "Negative values not
    /// allowed"; anything that does not fit the shape above is a `ParseError`
    /// reading "Invalid format: " and the trimmed input.
    pub fn parse(&self, val: &str) -> (r: Result<u64, BytesError>)
        ensures
            spec_parse_outcome(val@, r),
    {
        parse_bytes_chars(val)
    }

    /// Format a number of bytes: in the unit the options pick (or the largest
    /// unit the value reaches), with the configured decimal places (rounded to
    /// nearest, ties to even, and trimmed of trailing zeros unless fixed), the
    /// integer digits grouped in threes when a thousands separator is given,
    /// then the unit separator and the unit name. At most eighteen decimal
    /// places are supported: the exact integer rendering covers that range.
    pub fn format(&self, value: u64, options: Option<BytesOptions>) -> (r: Result<
        String,
        BytesError,
    >)
        requires
            options matches Some(o) ==> o.decimal_places <= 18,
        ensures
            r matches Ok(t) ==> t@ == spec_format_bytes(
                value,
                spec_format_unit(value, options),
                spec_format_places(options),
                spec_format_fixed(options),
                spec_format_thousands(options),
                spec_format_unit_sep(options),
            ),
            r is Ok,
    {
        let opts = match options {
            Some(o) => o,
            None => BytesOptions {
                unit: None,
                decimal_places: 2,
                fixed_decimals: false,
                thousands_separator: String::new(),
                unit_separator: String::new(),
            },
        };
        let unit = match opts.unit {
            Some(u) => u,
            None => {
                if value >= 1125899906842624 {
                    ByteUnit::PB
                } else if value >= 1099511627776 {
                    ByteUnit::TB
                } else if value >= 1073741824 {
                    ByteUnit::GB
                } else if value >= 1048576 {
                    ByteUnit::MB
                } else if value >= 1024 {
                    ByteUnit::KB
                } else {
                    ByteUnit::B
                }
            },
        };
        let p = opts.decimal_places;
        let mult = unit.multiplier();
        let scale = pow10_u128(p);
        proof {
            let v = value as int;
            let sc = scale as int;
            assert(v * sc <= 0xFFFF_FFFF_FFFF_FFFF * 1000000000000000000) by (nonlinear_arith)
                requires
                    0 <= v <= 0xFFFF_FFFF_FFFF_FFFF,
                    0 <= sc <= 1000000000000000000,
            ;
        }
        let num: u128 = (value as u128) * scale;
        let den: u128 = mult as u128;
        let q0 = num / den;
        let rem = num % den;
        let q: u128 = if 2 * rem > den {
            q0 + 1
        } else if 2 * rem < den {
            q0
        } else if q0 % 2 == 0 {
            q0
        } else {
            q0 + 1
        };
        proof {
            assert(q == spec_round_half_even(num as int, den as int));
        }
        // Render the scaled value.
        let int_part = q / scale;
        let frac_part = q % scale;
        proof {
            assert(int_part <= q);
            assert(q <= num / den + 1);
            assert(num / den <= num);
            assert(int_part < 0x1_0000_0000_0000_0000u128 * 0x0de0_b6b3_a764_0001u128);
        }
        let int_digits_string = decimal_string_u128(int_part);
        let int_digits = chars_of(int_digits_string.as_str());
        let frac_digits = fixed_width_decimal(frac_part, p);
        let kept_frac = if opts.fixed_decimals {
            frac_digits
        } else {
            trim_end_zeros(&frac_digits)
        };
        let mut out: String;
        if opts.thousands_separator.as_str().unicode_len() > 0 {
            out = grouped(&int_digits, opts.thousands_separator.as_str());
        } else {
            out = string_of(&int_digits);
        }
        if kept_frac.len() > 0 {
            out.push('.');
            let frac_string = string_of(&kept_frac);
            out.append(frac_string.as_str());
        }
        out.append(opts.unit_separator.as_str());
        let name = unit.to_string();
        out.append(name.as_str());
        proof {
            if opts.thousands_separator@.len() == 0 {
                assert(out@ =~= spec_render_scaled(
                    q as nat,
                    p as nat,
                    opts.fixed_decimals,
                    opts.thousands_separator@,
                ) + opts.unit_separator@ + spec_unit_name(unit));
            } else {
                assert(out@ =~= spec_render_scaled(
                    q as nat,
                    p as nat,
                    opts.fixed_decimals,
                    opts.thousands_separator@,
                ) + opts.unit_separator@ + spec_unit_name(unit));
            }
        }
        Ok(out)
    }
}

/// The unit format uses: the options' choice, or the automatic one.
pub open spec fn spec_format_unit(value: u64, options: Option<BytesOptions>) -> ByteUnit {
    match options {
        Some(o) => match o.unit {
            Some(u) => u,
            None => spec_auto_unit(value),
        },
        None => spec_auto_unit(value),
    }
}

/// The decimal places format uses.
pub open spec fn spec_format_places(options: Option<BytesOptions>) -> nat {
    match options {
        Some(o) => o.decimal_places as nat,
        None => 2,
    }
}

/// Whether format keeps trailing zeros.
pub open spec fn spec_format_fixed(options: Option<BytesOptions>) -> bool {
    match options {
        Some(o) => o.fixed_decimals,
        None => false,
    }
}

/// The thousands separator format uses.
pub open spec fn spec_format_thousands(options: Option<BytesOptions>) -> Seq<char> {
    match options {
        Some(o) => o.thousands_separator@,
        None => Seq::empty(),
    }
}

/// The unit separator format uses.
pub open spec fn spec_format_unit_sep(options: Option<BytesOptions>) -> Seq<char> {
    match options {
        Some(o) => o.unit_separator@,
        None => Seq::empty(),
    }
}

fn decimal_string_u128(n: u128) -> (r: String)
    ensures
        r@ == spec_decimal(n as nat),
    decreases n,
{
    let d = (n % 10) as u64;
    let c = digit_char_of(d);
    if n < 10 {
        let mut s = String::new();
        s.push(c);
        proof {
            assert(s@ =~= spec_decimal(n as nat));
        }
        s
    } else {
        let mut s = decimal_string_u128(n / 10);
        s.push(c);
        s
    }
}

fn trim_end_zeros(v: &Vec<char>) -> (r: Vec<char>)
    ensures
        r@ == crate::text::spec_trim_end_zeros(v@),
{
    let mut b: usize = v.len();
    proof {
        assert(v@.subrange(0, v@.len() as int) =~= v@);
    }
    while b > 0 && v[b - 1] == '0'
        invariant
            b <= v@.len(),
            crate::text::spec_trim_end_zeros(v@) == crate::text::spec_trim_end_zeros(
                v@.subrange(0, b as int),
            ),
        decreases b,
    {
        proof {
            assert(v@.subrange(0, b as int).drop_last() =~= v@.subrange(0, b as int - 1));
        }
        b -= 1;
    }
    proof {
        assert(crate::text::spec_trim_end_zeros(v@) =~= v@.subrange(0, b as int));
    }
    chars_range(v, 0, b)
}

impl Default for Bytes {
    /// The default instance.
    fn default() -> Self {
        Bytes
    }
}

/// How many leading characters, at or after `from`, are ASCII digits.
pub open spec fn spec_digit_run(s: Seq<char>, from: int) -> int
    decreases s.len() - from,
{
    if from < 0 || from >= s.len() || !spec_ascii_digit(s[from]) {
        0
    } else {
        1 + spec_digit_run(s, from + 1)
    }
}

/// How many characters, at or after `from`, are whitespace.
pub open spec fn spec_ws_run(s: Seq<char>, from: int) -> int
    decreases s.len() - from,
{
    if from < 0 || from >= s.len() || !spec_whitespace_char(s[from]) {
        0
    } else {
        1 + spec_ws_run(s, from + 1)
    }
}

proof fn lemma_digit_run_characterize(s: Seq<char>, from: int, k: int)
    requires
        0 <= from,
        0 <= k,
        from + k <= s.len(),
        forall|j: int| from <= j < from + k ==> spec_ascii_digit(s[j]),
        from + k < s.len() ==> !spec_ascii_digit(s[from + k]),
    ensures
        spec_digit_run(s, from) == k,
    decreases k,
{
    if k > 0 {
        assert(spec_ascii_digit(s[from]));
        lemma_digit_run_characterize(s, from + 1, k - 1);
    }
}

proof fn lemma_ws_run_characterize(s: Seq<char>, from: int, k: int)
    requires
        0 <= from,
        0 <= k,
        from + k <= s.len(),
        forall|j: int| from <= j < from + k ==> spec_whitespace_char(s[j]),
        from + k < s.len() ==> !spec_whitespace_char(s[from + k]),
    ensures
        spec_ws_run(s, from) == k,
    decreases k,
{
    if k > 0 {
        assert(spec_whitespace_char(s[from]));
        lemma_ws_run_characterize(s, from + 1, k - 1);
    }
}

proof fn lemma_digits_value_upper(s: Seq<char>)
    requires
        forall|i: int| 0 <= i < s.len() ==> spec_ascii_digit(s[i]),
    ensures
        spec_digits_value(s, 10) < spec_pow10(s.len()),
        spec_digits_value(s, 10) >= 0,
    decreases s.len(),
{
    crate::number_utils::lemma_digits_value_nonneg(s, 10);
    if s.len() > 0 {
        assert(forall|i: int| 0 <= i < s.drop_last().len() ==> spec_ascii_digit(
            s.drop_last()[i],
        ));
        lemma_digits_value_upper(s.drop_last());
        let v = spec_digits_value(s.drop_last(), 10);
        let p = spec_pow10((s.len() - 1) as nat);
        let d = spec_digit_value(s.last());
        assert(spec_ascii_digit(s[s.len() - 1]));
        assert(0 <= d <= 9);
        assert(v * 10 + d < 10 * p) by (nonlinear_arith)
            requires
                0 <= v,
                v < p,
                0 <= d <= 9,
                p >= 1,
        ;
    }
}

fn digit_run_from(t: &Vec<char>, from: usize) -> (k: usize)
    requires
        from <= t@.len(),
    ensures
        from + k <= t@.len(),
        spec_digit_run(t@, from as int) == k,
        forall|j: int| from <= j < from + k ==> spec_ascii_digit(t@[j]),
{
    let mut i: usize = from;
    while i < t.len() && crate::lang::ascii_digit(t[i])
        invariant
            from <= i <= t@.len(),
            forall|j: int| from <= j < i ==> spec_ascii_digit(t@[j]),
        decreases t@.len() - i,
    {
        i += 1;
    }
    proof {
        lemma_digit_run_characterize(t@, from as int, i - from);
    }
    i - from
}

fn ws_run_from(t: &Vec<char>, from: usize) -> (k: usize)
    requires
        from <= t@.len(),
    ensures
        from + k <= t@.len(),
        spec_ws_run(t@, from as int) == k,
{
    let mut i: usize = from;
    while i < t.len() && whitespace_char(t[i])
        invariant
            from <= i <= t@.len(),
            forall|j: int| from <= j < i ==> spec_whitespace_char(t@[j]),
        decreases t@.len() - i,
    {
        i += 1;
    }
    proof {
        lemma_ws_run_characterize(t@, from as int, i - from);
    }
    i - from
}

/// The exact value of a digit run, or a flag that it exceeds `u64::MAX`.
fn digits_value_capped(t: &Vec<char>, a: usize, b: usize) -> (r: (u64, bool))
    requires
        a <= b <= t@.len(),
        forall|j: int| a <= j < b ==> spec_ascii_digit(t@[j]),
    ensures
        ({
            let v = spec_digits_value(t@.subrange(a as int, b as int), 10);
            if r.1 {
                v > u64::MAX
            } else {
                r.0 == v
            }
        }),
{
    let ghost digits = t@.subrange(a as int, b as int);
    let mut acc: u64 = 0;
    let mut over = false;
    let mut i: usize = a;
    proof {
        assert(digits.subrange(0, 0) =~= Seq::<char>::empty());
    }
    while i < b
        invariant
            a <= i <= b <= t@.len(),
            digits == t@.subrange(a as int, b as int),
            forall|j: int| a <= j < b ==> spec_ascii_digit(t@[j]),
            !over ==> acc == spec_digits_value(digits.subrange(0, i - a), 10),
            over ==> spec_digits_value(digits.subrange(0, i - a), 10) > u64::MAX,
        decreases b - i,
    {
        let ghost prev = spec_digits_value(digits.subrange(0, i - a), 10);
        let c = t[i];
        let u = c as u32;
        let d: u64 = (u - 48) as u64;
        proof {
            assert(digits.subrange(0, i + 1 - a).drop_last() =~= digits.subrange(0, i - a));
            assert(digits.subrange(0, i + 1 - a).last() == t@[i as int]);
            assert(spec_digit_value(t@[i as int]) == d);
            crate::number_utils::lemma_digits_value_nonneg(digits.subrange(0, i - a), 10);
            assert(prev * 10 + d >= prev) by (nonlinear_arith)
                requires
                    prev >= 0,
                    d >= 0,
            ;
        }
        if over {
        } else if acc <= 0x1999_9999_9999_9998 {
            acc = acc * 10 + d;
        } else {
            let wide: u128 = (acc as u128) * 10 + (d as u128);
            if wide > 0xFFFF_FFFF_FFFF_FFFF {
                over = true;
            } else {
                acc = wide as u64;
            }
        }
        i += 1;
    }
    proof {
        assert(digits.subrange(0, b - a) =~= digits);
    }
    (acc, over)
}

/// The exact value of a digit run of at most eighteen digits.
fn digits_value_small(t: &Vec<char>, a: usize, b: usize) -> (r: u64)
    requires
        a <= b <= t@.len(),
        b - a <= 18,
        forall|j: int| a <= j < b ==> spec_ascii_digit(t@[j]),
    ensures
        r == spec_digits_value(t@.subrange(a as int, b as int), 10),
        r < spec_pow10((b - a) as nat),
{
    let (v, over) = digits_value_capped(t, a, b);
    proof {
        assert(forall|i: int|
            0 <= i < (b - a) ==> spec_ascii_digit(t@.subrange(a as int, b as int)[i]));
        lemma_digits_value_upper(t@.subrange(a as int, b as int));
        lemma_pow10_bound((b - a) as nat);
    }
    v
}

/// Where one parsed piece of a byte string ends, and what it holds.
pub open spec fn spec_parse_value(t: Seq<char>) -> Option<(bool, int)> {
    let sign_len: int = if t.len() > 0 && (t[0] == '+' || t[0] == '-') {
        1
    } else {
        0
    };
    let neg = t.len() > 0 && t[0] == '-';
    let d1 = spec_digit_run(t, sign_len);
    let int_end = sign_len + d1;
    let has_frac = int_end < t.len() && t[int_end] == '.';
    let d2 = if has_frac {
        spec_digit_run(t, int_end + 1)
    } else {
        0
    };
    let num_end = if has_frac {
        int_end + 1 + d2
    } else {
        int_end
    };
    let ws = spec_ws_run(t, num_end);
    let unit_start = num_end + ws;
    let unit = if unit_start == t.len() {
        Some(ByteUnit::B)
    } else {
        spec_unit_of(t.subrange(unit_start, t.len() as int))
    };
    if d1 == 0 || (has_frac && d2 == 0) || unit is None {
        None
    } else {
        let kept: int = if d2 <= 18 {
            d2
        } else {
            18
        };
        let intval = spec_digits_value(t.subrange(sign_len, int_end), 10);
        let fracval = if has_frac {
            spec_digits_value(t.subrange(int_end + 1, int_end + 1 + kept), 10)
        } else {
            0
        };
        let mult = spec_multiplier(unit->0) as int;
        Some((neg, intval * mult + (fracval * mult) / spec_pow10(kept as nat)))
    }
}

/// What parsing a byte string returns: the floored, saturated byte count; a
/// "Negative values not allowed" parse error for a negative value; and an
/// "Invalid format" parse error naming the trimmed input for anything else.
pub open spec fn spec_parse_outcome(s: Seq<char>, r: Result<u64, BytesError>) -> bool {
    let t = spec_trim_ws(s);
    match spec_parse_value(t) {
        None => r matches Err(e) && e matches BytesError::ParseError(m) && m@ == "Invalid format: "@
            + t,
        Some((neg, total)) => if neg && total > 0 {
            r matches Err(e) && e matches BytesError::ParseError(m) && m@
                == "Negative values not allowed"@
        } else {
            r matches Ok(v) && v == (if total > u64::MAX {
                u64::MAX as int
            } else {
                total
            })
        },
    }
}

#[verifier::rlimit(100)]
fn parse_bytes_chars(val: &str) -> (r: Result<u64, BytesError>)
    ensures
        spec_parse_outcome(val@, r),
{
    let all = chars_of(val);
    let t = trim_ws_chars(&all);
    let ghost st = spec_trim_ws(val@);
    let n = t.len();
    let mut sign_len: usize = 0;
    let mut neg = false;
    if n > 0 && (t[0] == '+' || t[0] == '-') {
        sign_len = 1;
        neg = t[0] == '-';
    }
    let d1 = digit_run_from(&t, sign_len);
    let int_end = sign_len + d1;
    if d1 == 0 {
        let mut m = str_to_string("Invalid format: ");
        let ts = string_of(&t);
        m.append(ts.as_str());
        return Err(BytesError::ParseError(m));
    }
    let has_frac = int_end < n && t[int_end] == '.';
    let d2 = if has_frac {
        digit_run_from(&t, int_end + 1)
    } else {
        0
    };
    if has_frac && d2 == 0 {
        let mut m = str_to_string("Invalid format: ");
        let ts = string_of(&t);
        m.append(ts.as_str());
        return Err(BytesError::ParseError(m));
    }
    let num_end = if has_frac {
        int_end + 1 + d2
    } else {
        int_end
    };
    let ws = ws_run_from(&t, num_end);
    let unit_start = num_end + ws;
    let unit = if unit_start == n {
        ByteUnit::B
    } else {
        let unit_chars = chars_range(&t, unit_start, n);
        match unit_of_chars(&unit_chars) {
            Some(u) => u,
            None => {
                let mut m = str_to_string("Invalid format: ");
                let ts = string_of(&t);
                m.append(ts.as_str());
                return Err(BytesError::ParseError(m));
            },
        }
    };
    let kept = if d2 <= 18 {
        d2
    } else {
        18
    };
    let (intval, int_over) = digits_value_capped(&t, sign_len, int_end);
    let fracval = if has_frac {
        digits_value_small(&t, int_end + 1, int_end + 1 + kept)
    } else {
        0
    };
    let mult = unit.multiplier();
    let scale = pow10_u128(kept);
    let total_sat: u64;
    if int_over {
        proof {
            let iv = spec_digits_value(st.subrange(sign_len as int, int_end as int), 10);
            assert(iv * (mult as int) >= iv) by (nonlinear_arith)
                requires
                    iv >= 0,
                    mult >= 1,
            ;
            let fv = (if has_frac {
                spec_digits_value(st.subrange(int_end + 1, int_end + 1 + kept), 10)
            } else {
                0int
            });
            crate::number_utils::lemma_digits_value_nonneg(
                st.subrange(int_end + 1, int_end + 1 + kept),
                10,
            );
            assert(fv * (mult as int) >= 0) by (nonlinear_arith)
                requires
                    fv >= 0,
                    mult >= 1,
            ;
            assert((fv * (mult as int)) / spec_pow10(kept as nat) >= 0) by {
                lemma_pow10_bound(kept as nat);
            }
        }
        total_sat = u64::MAX;
    } else {
        proof {
            let iv = intval as int;
            let fv = fracval as int;
            let mu = mult as int;
            assert(iv * mu <= 0xFFFF_FFFF_FFFF_FFFF * 0x4_0000_0000_0000) by (nonlinear_arith)
                requires
                    0 <= iv <= 0xFFFF_FFFF_FFFF_FFFF,
                    0 <= mu <= 0x4_0000_0000_0000,
            ;
            assert(fv * mu <= 0xFFFF_FFFF_FFFF_FFFF * 0x4_0000_0000_0000) by (nonlinear_arith)
                requires
                    0 <= fv <= 0xFFFF_FFFF_FFFF_FFFF,
                    0 <= mu <= 0x4_0000_0000_0000,
            ;
            lemma_pow10_bound(kept as nat);
        }
        let product: u128 = (intval as u128) * (mult as u128);
        let frac_bytes: u128 = ((fracval as u128) * (mult as u128)) / scale;
        let total: u128 = product + frac_bytes;
        total_sat = if total > 0xFFFF_FFFF_FFFF_FFFF {
            u64::MAX
        } else {
            total as u64
        };
        proof {
            assert(total == (intval as int) * (mult as int) + ((fracval as int) * (mult as int))
                / spec_pow10(kept as nat));
        }
    }
    if neg && total_sat > 0 {
        return Err(BytesError::ParseError(str_to_string("Negative values not allowed")));
    }
    proof {
        if !(neg && total_sat > 0) {
            assert(spec_parse_value(st) matches Some(p) && !(p.0 && p.1 > 0));
        }
    }
    Ok(total_sat)
}

/// Convenience function for formatting a byte count with the default options.
pub fn bytes(value: u64) -> (r: Result<String, BytesError>)
    ensures
        r matches Ok(t) ==> t@ == spec_format_bytes(
            value,
            spec_auto_unit(value),
            2,
            false,
            Seq::empty(),
            Seq::empty(),
        ),
        r is Ok,
{
    let b = Bytes::new();
    b.convert_number(value, None)
}

/// Parse a byte string to a number; see [`Bytes::parse`].
pub fn parse_bytes(value: &str) -> (r: Result<u64, BytesError>)
    ensures
        spec_parse_outcome(value@, r),
{
    let b = Bytes::new();
    b.convert_string(value)
}

} // verus!
