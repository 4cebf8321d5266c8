//! Language utilities for type checking and value inspection
//!
//! This module provides utilities for checking types and inspecting values,
//! similar to JavaScript's type checking functions.

use crate::text::chars_of;
use std::collections::HashMap;
use std::collections::HashSet;
use std::hash::Hash;
use vstd::prelude::*;
use vstd::std_specs::cmp::PartialEqSpec;

verus! {

/// Check if a value is empty (a `None` value)
pub fn is_empty<T>(value: &Option<T>) -> (r: bool)
    ensures
        r == (value is None),
{
    value.is_none()
}

/// Check if a string is empty
pub fn is_empty_string(value: &str) -> (r: bool)
    ensures
        r == (value@.len() == 0),
{
    value.unicode_len() == 0
}

/// Check if a vector is empty
pub fn is_empty_vec<T>(value: &[T]) -> (r: bool)
    ensures
        r == (value@.len() == 0),
{
    value.len() == 0
}

/// Check if a HashMap is empty
pub fn is_empty_hashmap<K, V>(value: &HashMap<K, V>) -> (r: bool)
    ensures
        r == value@.is_empty(),
{
    value.is_empty()
}

/// Check if a HashSet is empty
pub fn is_empty_hashset<T>(value: &HashSet<T>) -> (r: bool)
    ensures
        r == value@.is_empty(),
{
    value.is_empty()
}

/// Check if a number is zero
pub fn is_zero_i32(value: i32) -> (r: bool)
    ensures
        r == (value == 0),
{
    value == 0
}

/// Check if a value is Some
pub fn is_some<T>(value: &Option<T>) -> (r: bool)
    ensures
        r == (value is Some),
{
    value.is_some()
}

/// Check if a value is None
pub fn is_none<T>(value: &Option<T>) -> (r: bool)
    ensures
        r == (value is None),
{
    value.is_none()
}

/// Check if two values are equal, as the type's own `==` decides it
pub fn is_equal<T: PartialEq>(a: &T, b: &T) -> (r: bool)
    ensures
        T::obeys_eq_spec() ==> r == a.eq_spec(b),
{
    a == b
}

/// Whether a character is an ASCII decimal digit.
pub open spec fn spec_ascii_digit(c: char) -> bool {
    48 <= c as u32 <= 57
}

pub fn ascii_digit(c: char) -> (r: bool)
    ensures
        r == spec_ascii_digit(c),
{
    let u = c as u32;
    48 <= u && u <= 57
}

/// What std's `char::is_alphabetic` returns; it depends on the character alone.
pub uninterp spec fn spec_alphabetic_char(c: char) -> bool;

/// Relies on std's `char::is_alphabetic`: the Unicode letter classification.
#[verifier::external_body]
pub(crate) fn alphabetic_char(c: char) -> (r: bool)
    ensures
        r == spec_alphabetic_char(c),
{
    c.is_alphabetic()
}

/// What std's `char::is_alphanumeric` returns; it depends on the character alone.
pub uninterp spec fn spec_alphanumeric_char(c: char) -> bool;

/// Relies on std's `char::is_alphanumeric`: the Unicode letter-or-digit
/// classification.
#[verifier::external_body]
pub(crate) fn alphanumeric_char(c: char) -> (r: bool)
    ensures
        r == spec_alphanumeric_char(c),
{
    c.is_alphanumeric()
}

/// Check if a string contains only digits
pub fn is_numeric(s: &str) -> (r: bool)
    ensures
        r == (s@.len() > 0 && forall|i: int| 0 <= i < s@.len() ==> spec_ascii_digit(s@[i])),
{
    let chars = chars_of(s);
    if chars.len() == 0 {
        return false;
    }
    let mut i: usize = 0;
    while i < chars.len()
        invariant
            i <= chars.len(),
            chars@ == s@,
            forall|j: int| 0 <= j < i ==> spec_ascii_digit(s@[j]),
        decreases chars.len() - i,
    {
        if !ascii_digit(chars[i]) {
            return false;
        }
        i += 1;
    }
    true
}

/// Check if a string contains only alphabetic characters
pub fn is_alphabetic(s: &str) -> (r: bool)
    ensures
        r == (s@.len() > 0 && forall|i: int| 0 <= i < s@.len() ==> spec_alphabetic_char(s@[i])),
{
    let chars = chars_of(s);
    if chars.len() == 0 {
        return false;
    }
    let mut i: usize = 0;
    while i < chars.len()
        invariant
            i <= chars.len(),
            chars@ == s@,
            forall|j: int| 0 <= j < i ==> spec_alphabetic_char(s@[j]),
        decreases chars.len() - i,
    {
        if !alphabetic_char(chars[i]) {
            return false;
        }
        i += 1;
    }
    true
}

/// Check if a string contains only alphanumeric characters
pub fn is_alphanumeric(s: &str) -> (r: bool)
    ensures
        r == (s@.len() > 0 && forall|i: int| 0 <= i < s@.len() ==> spec_alphanumeric_char(s@[i])),
{
    let chars = chars_of(s);
    if chars.len() == 0 {
        return false;
    }
    let mut i: usize = 0;
    while i < chars.len()
        invariant
            i <= chars.len(),
            chars@ == s@,
            forall|j: int| 0 <= j < i ==> spec_alphanumeric_char(s@[j]),
        decreases chars.len() - i,
    {
        if !alphanumeric_char(chars[i]) {
            return false;
        }
        i += 1;
    }
    true
}

/// Whether a string is a valid identifier: it starts with a letter or an
/// underscore, followed by letters, digits, or underscores.
pub open spec fn spec_identifier(s: Seq<char>) -> bool {
    &&& s.len() > 0
    &&& (spec_alphabetic_char(s[0]) || s[0] == '_')
    &&& forall|i: int| 1 <= i < s.len() ==> (spec_alphanumeric_char(s[i]) || s[i] == '_')
}

/// Check if a string is a valid identifier (starts with letter or underscore,
/// followed by letters, digits, or underscores)
pub fn is_identifier(s: &str) -> (r: bool)
    ensures
        r == spec_identifier(s@),
{
    let chars = chars_of(s);
    if chars.len() == 0 {
        return false;
    }
    let first = chars[0];
    if !(alphabetic_char(first) || first == '_') {
        return false;
    }
    let mut i: usize = 1;
    while i < chars.len()
        invariant
            1 <= i <= chars.len(),
            chars@ == s@,
            s@.len() > 0,
            spec_alphabetic_char(s@[0]) || s@[0] == '_',
            forall|j: int| 1 <= j < i ==> (spec_alphanumeric_char(s@[j]) || s@[j] == '_'),
        decreases chars.len() - i,
    {
        let c = chars[i];
        if !(alphanumeric_char(c) || c == '_') {
            return false;
        }
        i += 1;
    }
    true
}

} // verus!
