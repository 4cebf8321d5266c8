//! String utility functions for various string operations
//!
//! This module provides string manipulation utilities including case
//! conversion (camelCase, snake_case, PascalCase, dash-case), trimming with
//! custom characters, template parsing, random string generation, file
//! extension extraction, and fuzzy matching.

use crate::lang::alphabetic_char;
use std::collections::HashMap;
use crate::lang::spec_alphabetic_char;
use crate::math::random_below;
use crate::text::chars_of;
use crate::text::chars_range;
use crate::text::spec_whitespace_char;
use crate::text::str_to_string;
use crate::text::string_of;
use crate::text::whitespace_char;
use vstd::prelude::*;
use vstd::string::StringExecFns;

verus! {

/// Errors that can occur during string operations
#[derive(Debug, Clone, PartialEq)]
pub enum StringError {
    InvalidInput { message: String },
    RegexError { message: String },
}

/// The rendered message of a [`StringError`].
pub open spec fn spec_string_error_message(e: StringError) -> Seq<char> {
    match e {
        StringError::InvalidInput { message } => "Invalid input: "@ + message@,
        StringError::RegexError { message } => "Regex error: "@ + message@,
    }
}

impl StringError {
    /// The rendered message, as the error displays itself.
    pub fn to_string(&self) -> (r: String)
        ensures
            r@ == spec_string_error_message(*self),
    {
        match self {
            StringError::InvalidInput { message } => {
                let mut r = str_to_string("Invalid input: ");
                r.append(message.as_str());
                r
            },
            StringError::RegexError { message } => {
                let mut r = str_to_string("Regex error: ");
                r.append(message.as_str());
                r
            },
        }
    }
}

/// What std's `str::to_lowercase` returns; it depends on the characters alone.
pub uninterp spec fn spec_lower_of(s: Seq<char>) -> Seq<char>;

/// Relies on std's `str::to_lowercase`: the Unicode lowercase conversion,
/// which leaves an empty string empty.
#[verifier::external_body]
pub(crate) fn lowercase(s: &str) -> (r: String)
    ensures
        r@ == spec_lower_of(s@),
        s@.len() == 0 ==> r@.len() == 0,
{
    s.to_lowercase()
}

/// What std's `char::to_uppercase` yields for one character; it depends on the
/// character alone.
pub uninterp spec fn spec_upper_char_of(c: char) -> Seq<char>;

/// Relies on std's `char::to_uppercase`: the Unicode uppercase expansion of
/// one character.
#[verifier::external_body]
pub(crate) fn upper_char(c: char) -> (r: String)
    ensures
        r@ == spec_upper_char_of(c),
{
    c.to_uppercase().collect::<String>()
}

/// The first character of std's `char::to_lowercase`, or the character itself
/// when the conversion is empty; it depends on the character alone.
pub uninterp spec fn spec_lower_first(c: char) -> char;

/// Relies on std's `char::to_lowercase`: its first character, or the input.
#[verifier::external_body]
pub(crate) fn lower_first(c: char) -> (r: char)
    ensures
        r == spec_lower_first(c),
{
    c.to_lowercase().next().unwrap_or(c)
}

/// The first character of std's `char::to_uppercase`, or the character itself
/// when the conversion is empty; it depends on the character alone.
pub uninterp spec fn spec_upper_first(c: char) -> char;

/// Relies on std's `char::to_uppercase`: its first character, or the input.
#[verifier::external_body]
pub(crate) fn upper_first(c: char) -> (r: char)
    ensures
        r == spec_upper_first(c),
{
    c.to_uppercase().next().unwrap_or(c)
}

/// What std's `char::is_uppercase` returns; it depends on the character alone.
pub uninterp spec fn spec_upper_char(c: char) -> bool;

/// Relies on std's `char::is_uppercase`: the Unicode uppercase classification.
#[verifier::external_body]
pub(crate) fn is_upper_char(c: char) -> (r: bool)
    ensures
        r == spec_upper_char(c),
{
    c.is_uppercase()
}

/// What std's `char::is_lowercase` returns; it depends on the character alone.
pub uninterp spec fn spec_lower_char(c: char) -> bool;

/// Relies on std's `char::is_lowercase`: the Unicode lowercase classification.
#[verifier::external_body]
pub(crate) fn is_lower_char(c: char) -> (r: bool)
    ensures
        r == spec_lower_char(c),
{
    c.is_lowercase()
}

/// Whether a character separates words: whitespace, a dot, a dash, or an
/// underscore.
pub open spec fn spec_word_separator(c: char) -> bool {
    spec_whitespace_char(c) || c == '.' || c == '-' || c == '_'
}

fn word_separator(c: char) -> (r: bool)
    ensures
        r == spec_word_separator(c),
{
    whitespace_char(c) || c == '.' || c == '-' || c == '_'
}

/// The words remaining when splitting resumes at index `i` with the partial
/// word `cur` and the finished words `words`: separators close a word, and an
/// uppercase letter starting a new lowercase run opens one.
pub open spec fn spec_split_words_rec(
    s: Seq<char>,
    i: int,
    cur: Seq<char>,
    words: Seq<Seq<char>>,
) -> Seq<Seq<char>>
    decreases s.len() - i,
{
    if i < 0 || i >= s.len() {
        if cur.len() > 0 {
            words.push(cur)
        } else {
            words
        }
    } else {
        let c = s[i];
        if spec_word_separator(c) {
            spec_split_words_rec(
                s,
                i + 1,
                Seq::empty(),
                if cur.len() > 0 {
                    words.push(cur)
                } else {
                    words
                },
            )
        } else if spec_upper_char(c) && cur.len() > 0 && i + 1 < s.len() && spec_lower_char(
            s[i + 1],
        ) {
            spec_split_words_rec(s, i + 1, seq![c], words.push(cur))
        } else {
            spec_split_words_rec(s, i + 1, cur.push(c), words)
        }
    }
}

/// The words of a string: runs split at separators and at camel-case
/// boundaries.
pub open spec fn spec_split_words(s: Seq<char>) -> Seq<Seq<char>> {
    spec_split_words_rec(s, 0, Seq::empty(), Seq::empty())
}

/// Split a string into words based on common delimiters and camel-case
/// boundaries.
fn split_words(s: &str) -> (r: Vec<String>)
    ensures
        r@.map_values(|w: String| w@) == spec_split_words(s@),
{
    let chars = chars_of(s);
    let mut words: Vec<String> = Vec::new();
    let mut current: Vec<char> = Vec::new();
    let mut i: usize = 0;
    proof {
        assert(words@.map_values(|w: String| w@) =~= Seq::<Seq<char>>::empty());
    }
    while i < chars.len()
        invariant
            i <= chars@.len(),
            chars@ == s@,
            spec_split_words(s@) == spec_split_words_rec(
                s@,
                i as int,
                current@,
                words@.map_values(|w: String| w@),
            ),
        decreases chars@.len() - i,
    {
        let ghost old_views = words@.map_values(|w: String| w@);
        let ghost old_cur = current@;
        let c = chars[i];
        if word_separator(c) {
            if current.len() > 0 {
                let w = string_of(&current);
                words.push(w);
                current = Vec::new();
                proof {
                    assert(words@.map_values(|w0: String| w0@) =~= old_views.push(old_cur));
                    assert(current@ =~= Seq::<char>::empty());
                }
            } else {
                proof {
                    assert(current@ =~= Seq::<char>::empty());
                }
            }
        } else if is_upper_char(c) && current.len() > 0 && i + 1 < chars.len() && is_lower_char(
            chars[i + 1],
        ) {
            let w = string_of(&current);
            words.push(w);
            current = Vec::new();
            current.push(c);
            proof {
                assert(words@.map_values(|w0: String| w0@) =~= old_views.push(old_cur));
                assert(current@ =~= seq![s@[i as int]]);
            }
        } else {
            current.push(c);
        }
        i += 1;
    }
    if current.len() > 0 {
        let ghost old_views = words@.map_values(|w: String| w@);
        let w = string_of(&current);
        words.push(w);
        proof {
            assert(words@.map_values(|w0: String| w0@) =~= old_views.push(current@));
        }
    }
    words
}

/// The capitalisation of a word: its first character uppercased, the rest
/// lowercased.
pub open spec fn spec_capitalize(w: Seq<char>) -> Seq<char> {
    if w.len() == 0 {
        Seq::empty()
    } else {
        spec_upper_char_of(w[0]) + spec_lower_of(w.drop_first())
    }
}

/// Capitalize the first character of a string and lowercase the rest.
pub fn capitalize(s: &str) -> (r: String)
    ensures
        r@ == spec_capitalize(s@),
{
    let chars = chars_of(s);
    if chars.len() == 0 {
        return String::new();
    }
    let mut r = upper_char(chars[0]);
    let tail = chars_range(&chars, 1, chars.len());
    let tail_string = string_of(&tail);
    let lowered = lowercase(tail_string.as_str());
    r.append(lowered.as_str());
    proof {
        assert(tail@ =~= s@.drop_first());
    }
    r
}

/// The camel-case rendering of a word list: the first word lowercased, each
/// later word capitalised, all run together.
pub open spec fn spec_camel_join(parts: Seq<Seq<char>>) -> Seq<char>
    decreases parts.len(),
{
    if parts.len() == 0 {
        Seq::empty()
    } else if parts.len() == 1 {
        spec_lower_of(parts[0])
    } else {
        spec_camel_join(parts.drop_last()) + spec_capitalize(parts.last())
    }
}

/// Convert a string to camelCase.
pub fn camel_case(s: &str) -> (r: String)
    ensures
        r@ == spec_camel_join(spec_split_words(s@)),
{
    let parts = split_words(s);
    let ghost views = parts@.map_values(|w: String| w@);
    if parts.len() == 0 {
        return String::new();
    }
    let mut r = lowercase(parts[0].as_str());
    let mut i: usize = 1;
    proof {
        assert(views.subrange(0, 1) =~= seq![views[0]]);
        assert(spec_camel_join(views.subrange(0, 1)) == spec_lower_of(views[0]));
    }
    while i < parts.len()
        invariant
            1 <= i <= parts@.len(),
            views == parts@.map_values(|w: String| w@),
            views == spec_split_words(s@),
            r@ == spec_camel_join(views.subrange(0, i as int)),
        decreases parts@.len() - i,
    {
        let cap = capitalize(parts[i].as_str());
        r.append(cap.as_str());
        proof {
            assert(views.subrange(0, i + 1).drop_last() =~= views.subrange(0, i as int));
            assert(views.subrange(0, i + 1).last() == views[i as int]);
        }
        i += 1;
    }
    proof {
        assert(views.subrange(0, views.len() as int) =~= views);
    }
    r
}

/// The words lowercased and joined with a separator character.
pub open spec fn spec_lower_join(parts: Seq<Seq<char>>, sep: char) -> Seq<char>
    decreases parts.len(),
{
    if parts.len() == 0 {
        Seq::empty()
    } else if parts.len() == 1 {
        spec_lower_of(parts[0])
    } else {
        spec_lower_join(parts.drop_last(), sep).push(sep) + spec_lower_of(parts.last())
    }
}

fn lower_join(parts: &Vec<String>, sep: char) -> (r: String)
    ensures
        r@ == spec_lower_join(parts@.map_values(|w: String| w@), sep),
{
    let ghost views = parts@.map_values(|w: String| w@);
    if parts.len() == 0 {
        return String::new();
    }
    let mut r = lowercase(parts[0].as_str());
    let mut i: usize = 1;
    proof {
        assert(views.subrange(0, 1) =~= seq![views[0]]);
    }
    while i < parts.len()
        invariant
            1 <= i <= parts@.len(),
            views == parts@.map_values(|w: String| w@),
            r@ == spec_lower_join(views.subrange(0, i as int), sep),
        decreases parts@.len() - i,
    {
        r.push(sep);
        let low = lowercase(parts[i].as_str());
        r.append(low.as_str());
        proof {
            assert(views.subrange(0, i + 1).drop_last() =~= views.subrange(0, i as int));
            assert(views.subrange(0, i + 1).last() == views[i as int]);
        }
        i += 1;
    }
    proof {
        assert(views.subrange(0, views.len() as int) =~= views);
    }
    r
}

/// Convert a string to snake_case.
pub fn snake_case(s: &str) -> (r: String)
    ensures
        r@ == spec_lower_join(spec_split_words(s@), '_'),
{
    let parts = split_words(s);
    lower_join(&parts, '_')
}

/// Convert a string to dash-case.
pub fn dash_case(s: &str) -> (r: String)
    ensures
        r@ == spec_lower_join(spec_split_words(s@), '-'),
{
    let parts = split_words(s);
    lower_join(&parts, '-')
}

/// The words capitalised and run together.
pub open spec fn spec_pascal_join(parts: Seq<Seq<char>>) -> Seq<char>
    decreases parts.len(),
{
    if parts.len() == 0 {
        Seq::empty()
    } else {
        spec_pascal_join(parts.drop_last()) + spec_capitalize(parts.last())
    }
}

/// Convert a string to PascalCase.
pub fn pascal_case(s: &str) -> (r: String)
    ensures
        r@ == spec_pascal_join(spec_split_words(s@)),
{
    let parts = split_words(s);
    let ghost views = parts@.map_values(|w: String| w@);
    let mut r = String::new();
    let mut i: usize = 0;
    while i < parts.len()
        invariant
            i <= parts@.len(),
            views == parts@.map_values(|w: String| w@),
            views == spec_split_words(s@),
            r@ == spec_pascal_join(views.subrange(0, i as int)),
        decreases parts@.len() - i,
    {
        let cap = capitalize(parts[i].as_str());
        r.append(cap.as_str());
        proof {
            assert(views.subrange(0, i + 1).drop_last() =~= views.subrange(0, i as int));
            assert(views.subrange(0, i + 1).last() == views[i as int]);
        }
        i += 1;
    }
    proof {
        assert(views.subrange(0, views.len() as int) =~= views);
    }
    r
}

/// Whether `needle` occurs in `hay` as a contiguous run.
pub open spec fn spec_contains_seq(hay: Seq<char>, needle: Seq<char>) -> bool {
    exists|i: int|
        0 <= i <= hay.len() - needle.len() && #[trigger] hay.subrange(i, i + needle.len())
            == needle
}

/// Whether the characters of `hay` starting at `from` begin with `needle`.
fn matches_at(hay: &Vec<char>, needle: &Vec<char>, from: usize) -> (r: bool)
    requires
        from + needle@.len() <= hay@.len(),
    ensures
        r == (hay@.subrange(from as int, from + needle@.len()) == needle@),
{
    let n = hay.len();
    let mut k: usize = 0;
    while k < needle.len()
        invariant
            k <= needle@.len(),
            n == hay@.len(),
            from + needle@.len() <= hay@.len(),
            forall|j: int| 0 <= j < k ==> hay@[from + j] == needle@[j],
        decreases needle@.len() - k,
    {
        if hay[from + k] != needle[k] {
            proof {
                assert(hay@.subrange(from as int, from + needle@.len())[k as int] != needle@[k as int]);
            }
            return false;
        }
        k += 1;
    }
    proof {
        assert(hay@.subrange(from as int, from + needle@.len()) =~= needle@);
    }
    true
}

/// The first index at or after `from` where `needle` occurs in `hay`, if any.
fn find_sub(hay: &Vec<char>, needle: &Vec<char>, from: usize) -> (r: Option<usize>)
    requires
        needle@.len() > 0,
        from <= hay@.len(),
    ensures
        r matches Some(i) ==> from <= i && i + needle@.len() <= hay@.len() && hay@.subrange(
            i as int,
            i + needle@.len(),
        ) == needle@ && forall|j: int|
            from <= j < i ==> #[trigger] hay@.subrange(j, j + needle@.len()) != needle@,
        r is None ==> forall|j: int|
            from <= j <= hay@.len() - needle@.len() ==> #[trigger] hay@.subrange(
                j,
                j + needle@.len(),
            ) != needle@,
{
    if needle.len() > hay.len() || from > hay.len() - needle.len() {
        return None;
    }
    let mut i: usize = from;
    while i <= hay.len() - needle.len()
        invariant
            from <= i,
            i <= hay@.len(),
            needle@.len() > 0,
            needle@.len() <= hay@.len(),
            forall|j: int| from <= j < i ==> #[trigger] hay@.subrange(j, j + needle@.len())
                != needle@,
        decreases hay@.len() - i,
    {
        if matches_at(hay, needle, i) {
            return Some(i);
        }
        i += 1;
    }
    None
}

/// Check if string includes the specified substring.
pub fn includes(s: &str, search_string: &str) -> (r: bool)
    ensures
        r == spec_contains_seq(s@, search_string@),
{
    let hay = chars_of(s);
    let needle = chars_of(search_string);
    if needle.len() == 0 {
        proof {
            assert(s@.subrange(0, 0 + search_string@.len() as int) =~= search_string@);
            assert(spec_contains_seq(s@, search_string@));
        }
        return true;
    }
    match find_sub(&hay, &needle, 0) {
        Some(_) => true,
        None => false,
    }
}

/// Perform fuzzy matching on strings: whether the lowercased target contains
/// the lowercased search value.
pub fn fuzzy_match(search_value: &str, target_string: &str) -> (r: bool)
    ensures
        r == spec_contains_seq(spec_lower_of(target_string@), spec_lower_of(search_value@)),
{
    let t = lowercase(target_string);
    let q = lowercase(search_value);
    let hay = chars_of(t.as_str());
    let needle = chars_of(q.as_str());
    if needle.len() == 0 {
        proof {
            assert(spec_lower_of(target_string@).subrange(
                0,
                0 + spec_lower_of(search_value@).len() as int,
            ) =~= spec_lower_of(search_value@));
            assert(spec_contains_seq(spec_lower_of(target_string@), spec_lower_of(search_value@)));
        }
        return true;
    }
    match find_sub(&hay, &needle, 0) {
        Some(_) => true,
        None => false,
    }
}

/// Extract the file extension from a filename: everything after the last dot,
/// or the empty string when there is no dot.
pub fn get_file_ext(filename: &str) -> (r: String)
    ensures
        (forall|j: int| 0 <= j < filename@.len() ==> filename@[j] != '.') ==> r@.len() == 0,
        (exists|j: int| 0 <= j < filename@.len() && filename@[j] == '.') ==> exists|i: int|
            {
                &&& 0 <= i < filename@.len()
                &&& filename@[i] == '.'
                &&& forall|j: int| i < j < filename@.len() ==> filename@[j] != '.'
                &&& r@ == filename@.subrange(i + 1, filename@.len() as int)
            },
{
    let chars = chars_of(filename);
    let mut i: usize = chars.len();
    while i > 0
        invariant
            i <= chars@.len(),
            chars@ == filename@,
            forall|j: int| i <= j < chars@.len() ==> chars@[j] != '.',
        decreases i,
    {
        i -= 1;
        if chars[i] == '.' {
            let tail = chars_range(&chars, i + 1, chars.len());
            let r = string_of(&tail);
            return r;
        }
    }
    String::new()
}

/// Check if string starts with the specified substring.
pub fn starts_with(s: &str, search_string: &str) -> (r: bool)
    ensures
        r == (s@.len() >= search_string@.len() && s@.subrange(0, search_string@.len() as int)
            == search_string@),
{
    let hay = chars_of(s);
    let needle = chars_of(search_string);
    if needle.len() > hay.len() {
        return false;
    }
    matches_at(&hay, &needle, 0)
}

/// Check if string ends with the specified substring.
pub fn ends_with(s: &str, search_string: &str) -> (r: bool)
    ensures
        r == (s@.len() >= search_string@.len() && s@.subrange(
            s@.len() - search_string@.len(),
            s@.len() as int,
        ) == search_string@),
{
    let hay = chars_of(s);
    let needle = chars_of(search_string);
    if needle.len() > hay.len() {
        return false;
    }
    matches_at(&hay, &needle, hay.len() - needle.len())
}

/// Get the character at the specified index, if it is within bounds.
pub fn char_at(s: &str, index: usize) -> (r: Option<char>)
    ensures
        index < s@.len() ==> r == Some(s@[index as int]),
        index >= s@.len() ==> r is None,
{
    let chars = chars_of(s);
    if index < chars.len() {
        Some(chars[index])
    } else {
        None
    }
}

/// Get the substring between two character indices, both clamped to the
/// length; the result is empty when they cross.
pub fn substring(s: &str, start: usize, end: Option<usize>) -> (r: String)
    ensures
        ({
            let n = s@.len() as int;
            let a = if start <= n {
                start as int
            } else {
                n
            };
            let e0 = if end is Some {
                end->0 as int
            } else {
                n
            };
            let b = if e0 <= n {
                e0
            } else {
                n
            };
            if a >= b {
                r@.len() == 0
            } else {
                r@ == s@.subrange(a, b)
            }
        }),
{
    let chars = chars_of(s);
    let n = chars.len();
    let a = if start < n {
        start
    } else {
        n
    };
    let e0 = match end {
        Some(e) => e,
        None => n,
    };
    let b = if e0 < n {
        e0
    } else {
        n
    };
    if a >= b {
        return String::new();
    }
    let mid = chars_range(&chars, a, b);
    string_of(&mid)
}

/// Repeat a string `count` times.
pub open spec fn spec_repeat(s: Seq<char>, n: int) -> Seq<char>
    decreases n,
{
    if n <= 0 {
        Seq::empty()
    } else {
        spec_repeat(s, n - 1) + s
    }
}

/// Repeat the string the given number of times.
pub fn repeat(s: &str, count: usize) -> (r: String)
    requires
        s@.len() * count <= usize::MAX,
    ensures
        r@ == spec_repeat(s@, count as int),
{
    let mut r = String::new();
    let mut i: usize = 0;
    while i < count
        invariant
            i <= count,
            r@ == spec_repeat(s@, i as int),
        decreases count - i,
    {
        r.append(s);
        i += 1;
    }
    r
}

/// Remove a prefix from the string if it is there.
pub fn remove_prefix(s: &str, prefix: &str) -> (r: String)
    ensures
        s@.len() >= prefix@.len() && s@.subrange(0, prefix@.len() as int) == prefix@ ==> r@
            == s@.subrange(prefix@.len() as int, s@.len() as int),
        !(s@.len() >= prefix@.len() && s@.subrange(0, prefix@.len() as int) == prefix@) ==> r@
            == s@,
{
    let hay = chars_of(s);
    let needle = chars_of(prefix);
    if needle.len() <= hay.len() && matches_at(&hay, &needle, 0) {
        let tail = chars_range(&hay, needle.len(), hay.len());
        string_of(&tail)
    } else {
        str_to_string(s)
    }
}

/// Generate merge paths from a list of branches: each neighbouring pair, in
/// order.
pub fn generate_merge_paths(branches: &[String]) -> (r: Vec<Vec<String>>)
    ensures
        branches@.len() < 2 ==> r@.len() == 0,
        branches@.len() >= 2 ==> {
            &&& r@.len() == branches@.len() - 1
            &&& forall|i: int|
                0 <= i < r@.len() ==> (#[trigger] r@[i])@.len() == 2 && r@[i]@[0]@
                    == branches@[i]@ && r@[i]@[1]@ == branches@[i + 1]@
        },
{
    let mut r: Vec<Vec<String>> = Vec::new();
    if branches.len() < 2 {
        return r;
    }
    let mut i: usize = 0;
    while i < branches.len() - 1
        invariant
            branches@.len() >= 2,
            i <= branches@.len() - 1,
            r@.len() == i,
            forall|j: int|
                0 <= j < r@.len() ==> (#[trigger] r@[j])@.len() == 2 && r@[j]@[0]@
                    == branches@[j]@ && r@[j]@[1]@ == branches@[j + 1]@,
        decreases branches@.len() - 1 - i,
    {
        let mut pair: Vec<String> = Vec::new();
        pair.push(branches[i].clone());
        pair.push(branches[i + 1].clone());
        r.push(pair);
        i += 1;
    }
    r
}

/// The characters left after dropping leading characters found in `set`.
pub open spec fn spec_trim_start_set(s: Seq<char>, set: Seq<char>) -> Seq<char>
    decreases s.len(),
{
    if s.len() > 0 && set.contains(s[0]) {
        spec_trim_start_set(s.drop_first(), set)
    } else {
        s
    }
}

/// The characters left after dropping trailing characters found in `set`.
pub open spec fn spec_trim_end_set(s: Seq<char>, set: Seq<char>) -> Seq<char>
    decreases s.len(),
{
    if s.len() > 0 && set.contains(s.last()) {
        spec_trim_end_set(s.drop_last(), set)
    } else {
        s
    }
}

/// The trimming character set: the given characters, or a single space.
pub open spec fn spec_trim_set(chars_to_trim: Option<&str>) -> Seq<char> {
    match chars_to_trim {
        Some(t) => t@,
        None => seq![' '],
    }
}

fn set_contains(set: &Vec<char>, c: char) -> (r: bool)
    ensures
        r == set@.contains(c),
{
    let mut i: usize = 0;
    while i < set.len()
        invariant
            i <= set@.len(),
            forall|j: int| 0 <= j < i ==> set@[j] != c,
        decreases set@.len() - i,
    {
        if set[i] == c {
            return true;
        }
        i += 1;
    }
    false
}

fn trim_set_start_index(v: &Vec<char>, set: &Vec<char>) -> (a: usize)
    ensures
        a <= v@.len(),
        spec_trim_start_set(v@, set@) == v@.subrange(a as int, v@.len() as int),
{
    let n = v.len();
    proof {
        assert(v@.subrange(0, n as int) =~= v@);
    }
    let mut a: usize = 0;
    while a < n && set_contains(set, v[a])
        invariant
            a <= n,
            n == v@.len(),
            spec_trim_start_set(v@, set@) == spec_trim_start_set(
                v@.subrange(a as int, n as int),
                set@,
            ),
        decreases n - a,
    {
        proof {
            assert(v@.subrange(a as int, n as int).drop_first() =~= v@.subrange(
                a as int + 1,
                n as int,
            ));
        }
        a += 1;
    }
    proof {
        assert(spec_trim_start_set(v@, set@) =~= v@.subrange(a as int, n as int));
    }
    a
}

fn trim_set_end_index(v: &Vec<char>, set: &Vec<char>, a: usize) -> (b: usize)
    requires
        a <= v@.len(),
    ensures
        a <= b <= v@.len(),
        spec_trim_end_set(v@.subrange(a as int, v@.len() as int), set@) == v@.subrange(
            a as int,
            b as int,
        ),
{
    let n = v.len();
    let mut b: usize = n;
    while b > a && set_contains(set, v[b - 1])
        invariant
            a <= b <= n,
            n == v@.len(),
            spec_trim_end_set(v@.subrange(a as int, n as int), set@) == spec_trim_end_set(
                v@.subrange(a as int, b as int),
                set@,
            ),
        decreases b,
    {
        proof {
            assert(v@.subrange(a as int, b as int).drop_last() =~= v@.subrange(
                a as int,
                b as int - 1,
            ));
        }
        b -= 1;
    }
    proof {
        assert(spec_trim_end_set(v@.subrange(a as int, n as int), set@) =~= v@.subrange(
            a as int,
            b as int,
        ));
    }
    b
}

/// Trim the given characters (a single space when none are given) from both
/// ends of the string.
pub fn trim(s: &str, chars_to_trim: Option<&str>) -> (r: String)
    ensures
        r@ == spec_trim_end_set(
            spec_trim_start_set(s@, spec_trim_set(chars_to_trim)),
            spec_trim_set(chars_to_trim),
        ),
{
    let set = match chars_to_trim {
        Some(t) => chars_of(t),
        None => {
            let mut v: Vec<char> = Vec::new();
            v.push(' ');
            proof {
                assert(v@ =~= seq![' ']);
            }
            v
        },
    };
    let v = chars_of(s);
    let a = trim_set_start_index(&v, &set);
    let b = trim_set_end_index(&v, &set, a);
    let mid = chars_range(&v, a, b);
    string_of(&mid)
}

/// Trim the given characters (a single space when none are given) from the
/// start of the string.
pub fn trim_start(s: &str, chars_to_trim: Option<&str>) -> (r: String)
    ensures
        r@ == spec_trim_start_set(s@, spec_trim_set(chars_to_trim)),
{
    let set = match chars_to_trim {
        Some(t) => chars_of(t),
        None => {
            let mut v: Vec<char> = Vec::new();
            v.push(' ');
            proof {
                assert(v@ =~= seq![' ']);
            }
            v
        },
    };
    let v = chars_of(s);
    let a = trim_set_start_index(&v, &set);
    let mid = chars_range(&v, a, v.len());
    string_of(&mid)
}

/// Trim the given characters (a single space when none are given) from the
/// end of the string.
pub fn trim_end(s: &str, chars_to_trim: Option<&str>) -> (r: String)
    ensures
        r@ == spec_trim_end_set(s@, spec_trim_set(chars_to_trim)),
{
    let set = match chars_to_trim {
        Some(t) => chars_of(t),
        None => {
            let mut v: Vec<char> = Vec::new();
            v.push(' ');
            proof {
                assert(v@ =~= seq![' ']);
            }
            v
        },
    };
    let v = chars_of(s);
    let b = trim_set_end_index(&v, &set, 0);
    proof {
        assert(v@.subrange(0, v@.len() as int) =~= v@);
    }
    let mid = chars_range(&v, 0, b);
    string_of(&mid)
}

/// The first `n` characters of the padding string repeated over and over.
pub open spec fn spec_pad_cycle(pad: Seq<char>, n: int) -> Seq<char>
    decreases n,
{
    if n <= 0 || pad.len() == 0 {
        Seq::empty()
    } else {
        spec_pad_cycle(pad, n - 1).push(pad[(n - 1) % pad.len() as int])
    }
}

/// The padding characters: the given string, or a single space.
pub open spec fn spec_pad_source(pad_string: Option<&str>) -> Seq<char> {
    match pad_string {
        Some(p) => p@,
        None => seq![' '],
    }
}

fn pad_cycle(pad: &Vec<char>, n: usize) -> (r: Vec<char>)
    requires
        pad@.len() > 0,
    ensures
        r@ == spec_pad_cycle(pad@, n as int),
        r@.len() == n,
{
    let mut r: Vec<char> = Vec::new();
    let mut j: usize = 0;
    while j < n
        invariant
            j <= n,
            pad@.len() > 0,
            r@ == spec_pad_cycle(pad@, j as int),
            r@.len() == j,
        decreases n - j,
    {
        r.push(pad[j % pad.len()]);
        j += 1;
    }
    r
}

/// Pad the string on the left with the padding characters, cycled, up to the
/// target length in characters; a string already long enough is unchanged.
/// The padding string, when given, must not be empty.
pub fn pad_start(s: &str, target_length: usize, pad_string: Option<&str>) -> (r: String)
    requires
        pad_string matches Some(p) ==> p@.len() > 0,
    ensures
        s@.len() >= target_length ==> r@ == s@,
        s@.len() < target_length ==> r@ == spec_pad_cycle(
            spec_pad_source(pad_string),
            target_length - s@.len(),
        ) + s@,
{
    let v = chars_of(s);
    if v.len() >= target_length {
        return str_to_string(s);
    }
    let pad = match pad_string {
        Some(p) => chars_of(p),
        None => {
            let mut w: Vec<char> = Vec::new();
            w.push(' ');
            proof {
                assert(w@ =~= seq![' ']);
            }
            w
        },
    };
    let padding = pad_cycle(&pad, target_length - v.len());
    let mut r = string_of(&padding);
    r.append(s);
    r
}

/// Pad the string on the right with the padding characters, cycled, up to the
/// target length in characters; a string already long enough is unchanged.
/// The padding string, when given, must not be empty.
pub fn pad_end(s: &str, target_length: usize, pad_string: Option<&str>) -> (r: String)
    requires
        pad_string matches Some(p) ==> p@.len() > 0,
    ensures
        s@.len() >= target_length ==> r@ == s@,
        s@.len() < target_length ==> r@ == s@ + spec_pad_cycle(
            spec_pad_source(pad_string),
            target_length - s@.len(),
        ),
{
    let v = chars_of(s);
    if v.len() >= target_length {
        return str_to_string(s);
    }
    let pad = match pad_string {
        Some(p) => chars_of(p),
        None => {
            let mut w: Vec<char> = Vec::new();
            w.push(' ');
            proof {
                assert(w@ =~= seq![' ']);
            }
            w
        },
    };
    let padding = pad_cycle(&pad, target_length - v.len());
    let padding_string = string_of(&padding);
    let mut r = str_to_string(s);
    r.append(padding_string.as_str());
    r
}

/// The first index where `needle` occurs in `s`, or -1 when it never does.
pub open spec fn spec_first_match(s: Seq<char>, needle: Seq<char>) -> int
    decreases s.len(),
{
    if s.len() < needle.len() {
        -1
    } else if s.subrange(0, needle.len() as int) == needle {
        0
    } else if s.len() == 0 {
        -1
    } else {
        let m = spec_first_match(s.drop_first(), needle);
        if m < 0 {
            -1
        } else {
            m + 1
        }
    }
}

proof fn lemma_first_match_at(s: Seq<char>, needle: Seq<char>, m: int)
    requires
        needle.len() > 0,
        0 <= m,
        m + needle.len() <= s.len(),
        s.subrange(m, m + needle.len()) == needle,
        forall|j: int| 0 <= j < m ==> #[trigger] s.subrange(j, j + needle.len()) != needle,
    ensures
        spec_first_match(s, needle) == m,
    decreases m,
{
    let n = needle.len() as int;
    if m == 0 {
        assert(s.subrange(0, n) == needle);
    } else {
        assert(s.subrange(0int, 0int + n) != needle);
        assert(s.subrange(0, n) == s.subrange(0int, 0int + n));
        let t = s.drop_first();
        assert forall|j: int| 0 <= j < m - 1 implies #[trigger] t.subrange(j, j + needle.len())
            != needle by {
            assert(t.subrange(j, j + needle.len()) =~= s.subrange(j + 1, j + 1 + needle.len()));
        }
        assert(t.subrange(m - 1, m - 1 + needle.len()) =~= s.subrange(m, m + needle.len()));
        lemma_first_match_at(t, needle, m - 1);
    }
}

proof fn lemma_first_match_none(s: Seq<char>, needle: Seq<char>)
    requires
        needle.len() > 0,
        forall|j: int|
            0 <= j <= s.len() - needle.len() ==> #[trigger] s.subrange(j, j + needle.len())
                != needle,
    ensures
        spec_first_match(s, needle) == -1,
    decreases s.len(),
{
    let n = needle.len() as int;
    if s.len() >= needle.len() {
        assert(s.subrange(0int, 0int + n) != needle);
        assert(s.subrange(0, n) == s.subrange(0int, 0int + n));
        let t = s.drop_first();
        assert forall|j: int| 0 <= j <= t.len() - needle.len() implies #[trigger] t.subrange(
            j,
            j + needle.len(),
        ) != needle by {
            assert(t.subrange(j, j + needle.len()) =~= s.subrange(j + 1, j + 1 + needle.len()));
        }
        lemma_first_match_none(t, needle);
    }
}

/// The pieces of `s` between the occurrences of `sep`, scanned left to right.
pub open spec fn spec_split_seq(s: Seq<char>, sep: Seq<char>) -> Seq<Seq<char>>
    decreases s.len(),
{
    if sep.len() == 0 {
        seq![s]
    } else {
        let m = spec_first_match(s, sep);
        if m < 0 || m + sep.len() > s.len() {
            seq![s]
        } else {
            seq![s.subrange(0, m)] + spec_split_seq(
                s.subrange(m + sep.len(), s.len() as int),
                sep,
            )
        }
    }
}

proof fn lemma_first_match_bounds(s: Seq<char>, needle: Seq<char>)
    requires
        needle.len() > 0,
    ensures
        spec_first_match(s, needle) >= 0 ==> spec_first_match(s, needle) + needle.len() <= s.len(),
    decreases s.len(),
{
    if s.len() >= needle.len() && s.subrange(0, needle.len() as int) != needle && s.len() > 0 {
        lemma_first_match_bounds(s.drop_first(), needle);
    }
}

/// Split a string by a separator. With an empty separator every character is
/// its own piece; otherwise the pieces are the runs between occurrences of the
/// separator, left to right.
pub fn split(s: &str, separator: &str) -> (r: Vec<String>)
    ensures
        separator@.len() == 0 ==> r@.len() == s@.len() && forall|i: int|
            0 <= i < r@.len() ==> (#[trigger] r@[i])@ == seq![s@[i]],
        separator@.len() > 0 ==> r@.map_values(|p: String| p@) == spec_split_seq(s@, separator@),
{
    let hay = chars_of(s);
    let sep = chars_of(separator);
    let mut r: Vec<String> = Vec::new();
    if sep.len() == 0 {
        let mut i: usize = 0;
        while i < hay.len()
            invariant
                i <= hay@.len(),
                hay@ == s@,
                r@.len() == i,
                forall|j: int| 0 <= j < i ==> (#[trigger] r@[j])@ == seq![s@[j]],
            decreases hay@.len() - i,
        {
            let mut one: Vec<char> = Vec::new();
            one.push(hay[i]);
            let w = string_of(&one);
            proof {
                assert(one@ =~= seq![s@[i as int]]);
            }
            r.push(w);
            i += 1;
        }
        return r;
    }
    let hay_len = hay.len();
    let mut pos: usize = 0;
    proof {
        assert(r@.map_values(|p: String| p@) =~= Seq::<Seq<char>>::empty());
        assert(s@.subrange(0, s@.len() as int) =~= s@);
        assert(Seq::<Seq<char>>::empty() + spec_split_seq(s@, separator@) =~= spec_split_seq(
            s@,
            separator@,
        ));
    }
    loop
        invariant
            pos <= hay@.len(),
            hay_len == hay@.len(),
            hay@ == s@,
            sep@ == separator@,
            sep@.len() > 0,
            spec_split_seq(s@, separator@) == r@.map_values(|p: String| p@) + spec_split_seq(
                s@.subrange(pos as int, s@.len() as int),
                separator@,
            ),
        decreases hay@.len() - pos,
    {
        let ghost old_views = r@.map_values(|p: String| p@);
        let ghost rem = s@.subrange(pos as int, s@.len() as int);
        match find_sub(&hay, &sep, pos) {
            Some(m) => {
                proof {
                    assert forall|j: int| 0 <= j < m - pos implies #[trigger] rem.subrange(
                        j,
                        j + sep@.len(),
                    ) != sep@ by {
                        assert(rem.subrange(j, j + sep@.len()) =~= s@.subrange(
                            pos + j,
                            pos + j + sep@.len(),
                        ));
                    }
                    assert(rem.subrange(m - pos, m - pos + sep@.len()) =~= s@.subrange(
                        m as int,
                        m + sep@.len(),
                    ));
                    lemma_first_match_at(rem, sep@, m - pos);
                }
                let piece = chars_range(&hay, pos, m);
                let w = string_of(&piece);
                r.push(w);
                proof {
                    assert(r@.map_values(|p: String| p@) =~= old_views.push(piece@));
                    assert(piece@ =~= rem.subrange(0, m - pos));
                    assert(rem.subrange(m - pos + sep@.len(), rem.len() as int) =~= s@.subrange(
                        m + sep@.len(),
                        s@.len() as int,
                    ));
                    assert(old_views.push(piece@) + spec_split_seq(
                        s@.subrange(m + sep@.len(), s@.len() as int),
                        separator@,
                    ) =~= old_views + (seq![rem.subrange(0, m - pos)] + spec_split_seq(
                        rem.subrange(m - pos + sep@.len(), rem.len() as int),
                        separator@,
                    )));
                }
                pos = m + sep.len();
            },
            None => {
                proof {
                    assert forall|j: int| 0 <= j <= rem.len() - sep@.len() implies
                        #[trigger] rem.subrange(j, j + sep@.len()) != sep@ by {
                        assert(rem.subrange(j, j + sep@.len()) =~= s@.subrange(
                            pos + j,
                            pos + j + sep@.len(),
                        ));
                    }
                    lemma_first_match_none(rem, sep@);
                }
                let piece = chars_range(&hay, pos, hay.len());
                let w = string_of(&piece);
                r.push(w);
                proof {
                    assert(piece@ =~= rem);
                    assert(r@.map_values(|p: String| p@) =~= old_views.push(rem));
                    assert(old_views.push(rem) =~= old_views + seq![rem]);
                }
                return r;
            },
        }
    }
}

/// `s` with every occurrence of `needle`, scanned left to right, replaced.
pub open spec fn spec_replace_all(s: Seq<char>, needle: Seq<char>, repl: Seq<char>) -> Seq<char>
    decreases s.len(),
{
    if needle.len() == 0 {
        s
    } else {
        let m = spec_first_match(s, needle);
        if m < 0 || m + needle.len() > s.len() {
            s
        } else {
            s.subrange(0, m) + repl + spec_replace_all(
                s.subrange(m + needle.len(), s.len() as int),
                needle,
                repl,
            )
        }
    }
}

/// Replace all occurrences of a search string, scanned left to right; with an
/// empty search string the input is unchanged.
pub fn replace_all(s: &str, search: &str, replacement: &str) -> (r: String)
    ensures
        r@ == spec_replace_all(s@, search@, replacement@),
{
    let hay = chars_of(s);
    let needle = chars_of(search);
    if needle.len() == 0 {
        return str_to_string(s);
    }
    let hay_len = hay.len();
    let mut r = String::new();
    let mut pos: usize = 0;
    proof {
        assert(s@.subrange(0, s@.len() as int) =~= s@);
    }
    loop
        invariant
            pos <= hay@.len(),
            hay_len == hay@.len(),
            hay@ == s@,
            needle@ == search@,
            needle@.len() > 0,
            spec_replace_all(s@, search@, replacement@) == r@ + spec_replace_all(
                s@.subrange(pos as int, s@.len() as int),
                search@,
                replacement@,
            ),
        decreases hay@.len() - pos,
    {
        let ghost rem = s@.subrange(pos as int, s@.len() as int);
        match find_sub(&hay, &needle, pos) {
            Some(m) => {
                proof {
                    assert forall|j: int| 0 <= j < m - pos implies #[trigger] rem.subrange(
                        j,
                        j + needle@.len(),
                    ) != needle@ by {
                        assert(rem.subrange(j, j + needle@.len()) =~= s@.subrange(
                            pos + j,
                            pos + j + needle@.len(),
                        ));
                    }
                    assert(rem.subrange(m - pos, m - pos + needle@.len()) =~= s@.subrange(
                        m as int,
                        m + needle@.len(),
                    ));
                    lemma_first_match_at(rem, needle@, m - pos);
                    assert(rem.subrange(0, m - pos) =~= s@.subrange(pos as int, m as int));
                    assert(rem.subrange(m - pos + needle@.len(), rem.len() as int) =~= s@.subrange(
                        m + needle@.len(),
                        s@.len() as int,
                    ));
                }
                let piece = chars_range(&hay, pos, m);
                let piece_string = string_of(&piece);
                r.append(piece_string.as_str());
                r.append(replacement);
                pos = m + needle.len();
            },
            None => {
                proof {
                    assert forall|j: int| 0 <= j <= rem.len() - needle@.len() implies
                        #[trigger] rem.subrange(j, j + needle@.len()) != needle@ by {
                        assert(rem.subrange(j, j + needle@.len()) =~= s@.subrange(
                            pos + j,
                            pos + j + needle@.len(),
                        ));
                    }
                    lemma_first_match_none(rem, needle@);
                }
                let piece = chars_range(&hay, pos, hay.len());
                let piece_string = string_of(&piece);
                r.append(piece_string.as_str());
                proof {
                    assert(piece@ =~= rem);
                }
                return r;
            },
        }
    }
}

/// Every case combination of a string, depth first with the lowercase branch
/// before the uppercase branch, non-letters kept as they are.
pub open spec fn spec_case_combos(s: Seq<char>) -> Seq<Seq<char>>
    decreases s.len(),
{
    if s.len() == 0 {
        seq![Seq::<char>::empty()]
    } else {
        let rest = spec_case_combos(s.drop_first());
        if spec_alphabetic_char(s[0]) {
            rest.map_values(|t: Seq<char>| seq![spec_lower_first(s[0])] + t) + rest.map_values(
                |t: Seq<char>| seq![spec_upper_first(s[0])] + t,
            )
        } else {
            rest.map_values(|t: Seq<char>| seq![s[0]] + t)
        }
    }
}

fn prefixed_all(c: char, rest: &Vec<String>) -> (r: Vec<String>)
    ensures
        r@.map_values(|w: String| w@) == rest@.map_values(|w: String| w@).map_values(
            |t: Seq<char>| seq![c] + t,
        ),
{
    let ghost rest_views = rest@.map_values(|w: String| w@);
    let mut r: Vec<String> = Vec::new();
    let mut j: usize = 0;
    while j < rest.len()
        invariant
            j <= rest@.len(),
            rest_views == rest@.map_values(|w: String| w@),
            r@.len() == j,
            forall|k: int| 0 <= k < j ==> (#[trigger] r@[k])@ == seq![c] + rest_views[k],
        decreases rest@.len() - j,
    {
        let mut w = String::new();
        w.push(c);
        w.append(rest[j].as_str());
        proof {
            assert(w@ =~= seq![c] + rest_views[j as int]);
        }
        r.push(w);
        j += 1;
    }
    proof {
        assert(r@.map_values(|w: String| w@) =~= rest_views.map_values(
            |t: Seq<char>| seq![c] + t,
        ));
    }
    r
}

fn case_combos_from(chars: &Vec<char>, i: usize) -> (r: Vec<String>)
    requires
        i <= chars@.len(),
    ensures
        r@.map_values(|w: String| w@) == spec_case_combos(
            chars@.subrange(i as int, chars@.len() as int),
        ),
    decreases chars@.len() - i,
{
    let ghost tail = chars@.subrange(i as int, chars@.len() as int);
    if i == chars.len() {
        let mut r: Vec<String> = Vec::new();
        r.push(String::new());
        proof {
            assert(tail =~= Seq::<char>::empty());
            assert(r@.map_values(|w: String| w@) =~= seq![Seq::<char>::empty()]);
        }
        return r;
    }
    let rest = case_combos_from(chars, i + 1);
    let c = chars[i];
    proof {
        assert(tail.drop_first() =~= chars@.subrange(i as int + 1, chars@.len() as int));
        assert(tail[0] == chars@[i as int]);
    }
    if alphabetic_char(c) {
        let lo = lower_first(c);
        let up = upper_first(c);
        let mut r = prefixed_all(lo, &rest);
        let mut upper_half = prefixed_all(up, &rest);
        let ghost lower_views = r@.map_values(|w: String| w@);
        let ghost upper_views = upper_half@.map_values(|w: String| w@);
        let mut j: usize = 0;
        while j < upper_half.len()
            invariant
                j <= upper_half@.len(),
                upper_views == upper_half@.map_values(|w: String| w@),
                r@.map_values(|w: String| w@) =~= lower_views + upper_views.subrange(0, j as int),
            decreases upper_half@.len() - j,
        {
            let ghost before = r@.map_values(|w0: String| w0@);
            let w = upper_half[j].clone();
            proof {
                assert(w@ == upper_views[j as int]);
            }
            r.push(w);
            proof {
                assert(r@.map_values(|w0: String| w0@) =~= before.push(w@));
                assert(before.push(w@) =~= lower_views + upper_views.subrange(0, j + 1));
            }
            j += 1;
        }
        proof {
            assert(upper_views.subrange(0, upper_views.len() as int) =~= upper_views);
        }
        r
    } else {
        prefixed_all(c, &rest)
    }
}

/// Generate all case combinations for the letters in a string, depth first
/// with lowercase before uppercase at each letter.
pub fn gen_all_cases_combination(s: &str) -> (r: Vec<String>)
    ensures
        r@.map_values(|w: String| w@) == spec_case_combos(s@),
{
    let chars = chars_of(s);
    let r = case_combos_from(&chars, 0);
    proof {
        assert(chars@.subrange(0, chars@.len() as int) =~= s@);
    }
    r
}

/// Whether a character is a lowercase hexadecimal digit.
pub open spec fn spec_hex_lower(c: char) -> bool {
    48 <= c as u32 <= 57 || 97 <= c as u32 <= 102
}

fn hex_char(d: u64) -> (c: char)
    requires
        d < 16,
    ensures
        spec_hex_lower(c),
        d == 4 ==> c == '4',
        8 <= d < 12 ==> (c == '8' || c == '9' || c == 'a' || c == 'b'),
{
    let b: u8 = if d < 10 {
        48 + (d as u8)
    } else {
        97 + (d as u8) - 10
    };
    b as char
}

fn push_random_hex(out: &mut Vec<char>, count: usize)
    requires
        old(out)@.len() + count <= usize::MAX,
    ensures
        final(out)@.len() == old(out)@.len() + count,
        forall|i: int| 0 <= i < old(out)@.len() ==> final(out)@[i] == old(out)@[i],
        forall|i: int|
            old(out)@.len() <= i < final(out)@.len() ==> spec_hex_lower(#[trigger] final(out)@[i]),
{
    let ghost base = out@;
    let mut j: usize = 0;
    while j < count
        invariant
            j <= count,
            base.len() + count <= usize::MAX,
            out@.len() == base.len() + j,
            forall|i: int| 0 <= i < base.len() ==> out@[i] == base[i],
            forall|i: int| base.len() <= i < out@.len() ==> spec_hex_lower(#[trigger] out@[i]),
        decreases count - j,
    {
        let d = random_below(16) as u64;
        let c = hex_char(d);
        out.push(c);
        j += 1;
    }
}

/// Generate a version-4 UUID string: 36 characters, dashes at the four
/// standard positions, lowercase hexadecimal digits elsewhere, the version
/// digit 4, and a variant digit among 8, 9, a and b.
pub fn generate_uuid() -> (r: String)
    ensures
        r@.len() == 36,
        r@[8] == '-' && r@[13] == '-' && r@[18] == '-' && r@[23] == '-',
        r@[14] == '4',
        r@[19] == '8' || r@[19] == '9' || r@[19] == 'a' || r@[19] == 'b',
        forall|i: int|
            0 <= i < 36 && i != 8 && i != 13 && i != 18 && i != 23 ==> spec_hex_lower(
                #[trigger] r@[i],
            ),
{
    let mut out: Vec<char> = Vec::new();
    push_random_hex(&mut out, 8);
    out.push('-');
    push_random_hex(&mut out, 4);
    out.push('-');
    out.push('4');
    push_random_hex(&mut out, 3);
    out.push('-');
    let variant = 8 + random_below(4) as u64;
    let vc = hex_char(variant);
    out.push(vc);
    push_random_hex(&mut out, 3);
    out.push('-');
    push_random_hex(&mut out, 12);
    string_of(&out)
}

/// Whether a character is a decimal digit or an ASCII letter.
pub open spec fn spec_base62_char(c: char) -> bool {
    48 <= c as u32 <= 57 || 65 <= c as u32 <= 90 || 97 <= c as u32 <= 122
}

fn base62_char(d: usize) -> (c: char)
    requires
        d < 62,
    ensures
        spec_base62_char(c),
{
    let b: u8 = if d < 10 {
        48 + (d as u8)
    } else if d < 36 {
        65 + (d as u8) - 10
    } else {
        97 + (d as u8) - 36
    };
    b as char
}

/// Generate a random base62 string of the specified length.
///
/// Returns `StringError::InvalidInput` if and only if the length is 0;
/// otherwise the result has exactly the requested length and holds only
/// decimal digits and ASCII letters.
pub fn generate_base62_code(len: usize) -> (r: Result<String, StringError>)
    ensures
        len == 0 <==> r is Err,
        r matches Err(e) ==> (e matches StringError::InvalidInput { message } && message@
            == "Length must be greater than 0"@),
        r matches Ok(code) ==> code@.len() == len && forall|i: int|
            0 <= i < code@.len() ==> spec_base62_char(#[trigger] code@[i]),
{
    if len == 0 {
        return Err(
            StringError::InvalidInput { message: str_to_string("Length must be greater than 0") },
        );
    }
    let mut out: Vec<char> = Vec::new();
    let mut i: usize = 0;
    while i < len
        invariant
            i <= len,
            out@.len() == i,
            forall|j: int| 0 <= j < out@.len() ==> spec_base62_char(#[trigger] out@[j]),
        decreases len - i,
    {
        let d = random_below(62);
        out.push(base62_char(d));
        i += 1;
    }
    Ok(string_of(&out))
}

/// The full match and first capture group of each engine match of a pattern
/// in a text; they depend on the two alone, and there is no result exactly
/// when the engine rejects the pattern.
pub uninterp spec fn spec_template_captures(p: Seq<char>, t: Seq<char>) -> Option<
    Seq<(Seq<char>, Seq<char>)>,
>;

/// Relies on the regex crate's `Regex::new`, `captures_iter` and capture
/// group access: each full match of the pattern paired with its first capture
/// group, in order of appearance; matches without a first group are left out.
/// `None` reports a pattern the engine rejects.
#[verifier::external_body]
fn find_template_captures(pattern: &str, text: &str) -> (r: Option<Vec<(String, String)>>)
    ensures
        r is Some <==> spec_template_captures(pattern@, text@) is Some,
        r matches Some(v) ==> Some(
            v@.map_values(|p: (String, String)| (p.0@, p.1@)),
        ) == spec_template_captures(pattern@, text@),
{
    let re = regex::Regex::new(pattern).ok()?;
    Some(
        re.captures_iter(text).filter_map(
            |c| match (c.get(0), c.get(1)) {
                (Some(f), Some(k)) => Some((f.as_str().to_string(), k.as_str().to_string())),
                _ => None,
            },
        ).collect(),
    )
}

/// Parse a template and replace placeholders with data. Placeholders are
/// `{{key}}` runs; a custom pattern, when given, is handed to the regex
/// engine, with its first capture group as the key. A template without any
/// `{{` and with no custom pattern comes back unchanged.
pub fn parse_template(
    template: &str,
    data: &HashMap<String, String>,
    regex_pattern: Option<&str>,
) -> (r: String)
    ensures
        regex_pattern is None && !spec_contains_seq(template@, seq!['{', '{']) ==> r@ == template@,
{
    match regex_pattern {
        Some(pattern) => {
            let mut result = str_to_string(template);
            let pairs = match find_template_captures(pattern, template) {
                Some(pairs) => pairs,
                None => {
                    return result;
                },
            };
            let mut i: usize = 0;
            while i < pairs.len()
                decreases pairs@.len() - i,
            {
                let (full, key) = (&pairs[i].0, &pairs[i].1);
                match data.get(key.as_str()) {
                    Some(value) => {
                        result = replace_all(result.as_str(), full.as_str(), value.as_str());
                    },
                    None => {},
                }
                i += 1;
            }
            result
        },
        None => {
            let hay = chars_of(template);
            let mut opener: Vec<char> = Vec::new();
            opener.push('{');
            opener.push('{');
            let mut closer: Vec<char> = Vec::new();
            closer.push('}');
            closer.push('}');
            proof {
                assert(opener@ =~= seq!['{', '{']);
            }
            let mut out = String::new();
            let mut pos: usize = 0;
            let hay_len = hay.len();
            proof {
                assert(template@.subrange(0, template@.len() as int) =~= template@);
            }
            while pos < hay.len()
                invariant
                    pos <= hay@.len(),
                    hay_len == hay@.len(),
                    hay@ == template@,
                    opener@ == seq!['{', '{'],
                    closer@.len() == 2,
                    pos == 0 ==> out@.len() == 0,
                    pos > 0 ==> spec_contains_seq(template@, seq!['{', '{']),
                decreases hay@.len() - pos,
            {
                match find_sub(&hay, &opener, pos) {
                    Some(m) => {
                        proof {
                            assert(template@.subrange(m as int, m + 2) == seq!['{', '{']);
                            assert(spec_contains_seq(template@, seq!['{', '{']));
                        }
                        let head = chars_range(&hay, pos, m);
                        let head_string = string_of(&head);
                        out.append(head_string.as_str());
                        match find_sub(&hay, &closer, m + 2) {
                            Some(e) => {
                                if e > m + 2 {
                                    let key_chars = chars_range(&hay, m + 2, e);
                                    let key = string_of(&key_chars);
                                    match data.get(key.as_str()) {
                                        Some(value) => {
                                            out.append(value.as_str());
                                        },
                                        None => {
                                            let full = chars_range(&hay, m, e + 2);
                                            let full_string = string_of(&full);
                                            out.append(full_string.as_str());
                                        },
                                    }
                                    pos = e + 2;
                                } else {
                                    let brace = chars_range(&hay, m, m + 1);
                                    let brace_string = string_of(&brace);
                                    out.append(brace_string.as_str());
                                    pos = m + 1;
                                }
                            },
                            None => {
                                let tail = chars_range(&hay, m, hay.len());
                                let tail_string = string_of(&tail);
                                out.append(tail_string.as_str());
                                return out;
                            },
                        }
                    },
                    None => {
                        let tail = chars_range(&hay, pos, hay.len());
                        let tail_string = string_of(&tail);
                        out.append(tail_string.as_str());
                        proof {
                            if pos == 0 {
                                assert(tail@ =~= template@);
                            }
                        }
                        return out;
                    },
                }
            }
            proof {
                if pos == 0 {
                    assert(out@ =~= template@);
                }
            }
            out
        },
    }
}

} // verus!
