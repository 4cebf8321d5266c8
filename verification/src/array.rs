//! Array utility functions
//!
//! This module provides a collection of utility functions for working with
//! arrays and vectors.

use crate::math::random_below;
use std::collections::HashMap;
use std::collections::HashSet;
use vstd::std_specs::hash::obeys_key_model;
use vstd::pervasive::cloned;
use vstd::prelude::*;
use vstd::std_specs::cmp::PartialEqSpec;

verus! {

/// Error types for array operations
#[derive(Debug, Clone, PartialEq)]
pub enum ArrayError {
    ZeroStep,
    InvalidRange,
}

/// The rendered message of an [`ArrayError`].
pub open spec fn spec_array_error_message(e: ArrayError) -> Seq<char> {
    match e {
        ArrayError::ZeroStep => "Step cannot be zero"@,
        ArrayError::InvalidRange => "Invalid range parameters"@,
    }
}

impl ArrayError {
    /// The rendered message, as the error displays itself.
    pub fn to_string(&self) -> (r: String)
        ensures
            r@ == spec_array_error_message(*self),
    {
        match self {
            ArrayError::ZeroStep => crate::text::str_to_string("Step cannot be zero"),
            ArrayError::InvalidRange => crate::text::str_to_string("Invalid range parameters"),
        }
    }
}

/// Creates a range of integers from start to end (exclusive) with optional
/// step. With `end` absent the range is `[0, start)`; the default step is 1.
///
/// Returns `ArrayError::ZeroStep` if and only if the step is 0. Otherwise the
/// result holds `actual_start + i * step` for each index `i`, stays strictly
/// on the start side of `actual_end`, and goes as far as the step allows.
pub fn range(start: i32, end: Option<i32>, step: Option<i32>) -> (r: Result<Vec<i32>, ArrayError>)
    ensures
        ({
            let st = if step is Some {
                step->0
            } else {
                1
            };
            let a = if end is Some {
                start
            } else {
                0
            };
            let b = if end is Some {
                end->0
            } else {
                start
            };
            if st == 0 {
                r matches Err(e) && e == ArrayError::ZeroStep
            } else {
                r matches Ok(v) && {
                    &&& forall|i: int| 0 <= i < v@.len() ==> v@[i] == a + i * st
                    &&& st > 0 ==> (forall|i: int| 0 <= i < v@.len() ==> v@[i] < b) && a + v@.len()
                        * st >= b
                    &&& st < 0 ==> (forall|i: int| 0 <= i < v@.len() ==> v@[i] > b) && a + v@.len()
                        * st <= b
                }
            }
        }),
{
    let st = match step {
        Some(s) => s,
        None => 1,
    };
    if st == 0 {
        return Err(ArrayError::ZeroStep);
    }
    let (a, b) = match end {
        Some(e) => (start, e),
        None => (0, start),
    };
    let mut result: Vec<i32> = Vec::new();
    // A 64-bit cursor cannot overflow while stepping by an i32 from an i32.
    let mut i: i64 = a as i64;
    if st > 0 {
        while i < b as i64
            invariant
                st > 0,
                i == a + result@.len() * st,
                i >= a,
                i32::MIN <= a <= i32::MAX,
                i32::MIN <= b <= i32::MAX,
                forall|j: int| 0 <= j < result@.len() ==> result@[j] == a + j * st,
                forall|j: int| 0 <= j < result@.len() ==> result@[j] < b,
            decreases (if i < b as i64 { b as int - i as int } else { 0int }),
        {
            result.push(i as i32);
            proof {
                assert((result@.len() - 1) * st + st == result@.len() * st) by (nonlinear_arith);
            }
            i = i + st as i64;
        }
    } else {
        while i > b as i64
            invariant
                st < 0,
                i == a + result@.len() * st,
                i <= a,
                i32::MIN <= a <= i32::MAX,
                i32::MIN <= b <= i32::MAX,
                forall|j: int| 0 <= j < result@.len() ==> result@[j] == a + j * st,
                forall|j: int| 0 <= j < result@.len() ==> result@[j] > b,
            decreases (if i > b as i64 { i as int - b as int } else { 0int }),
        {
            result.push(i as i32);
            proof {
                assert((result@.len() - 1) * st + st == result@.len() * st) by (nonlinear_arith);
            }
            i = i + st as i64;
        }
    }
    Ok(result)
}

/// Splits a slice into chunks of the specified size: every chunk holds clones
/// of consecutive elements, each chunk but the last has exactly `size`
/// elements, and the last holds the remainder.
pub fn chunk<T: Clone>(list: &[T], size: usize) -> (r: Vec<Vec<T>>)
    ensures
        size == 0 || list@.len() == 0 ==> r@.len() == 0,
        size > 0 && list@.len() > 0 ==> {
            &&& (r@.len() - 1) * size < list@.len() <= r@.len() * size
            &&& forall|i: int|
                0 <= i < r@.len() ==> #[trigger] r@[i]@.len() == (if (i + 1) * size <= list@.len() {
                    size as int
                } else {
                    list@.len() - i * size
                })
            &&& forall|i: int, j: int|
                0 <= i < r@.len() && 0 <= j < r@[i]@.len() ==> cloned::<T>(
                    list@[i * size + j],
                    #[trigger] r@[i]@[j],
                )
        },
{
    let mut r: Vec<Vec<T>> = Vec::new();
    if size == 0 || list.len() == 0 {
        return r;
    }
    let mut pos: usize = 0;
    proof {
        assert(0int * (size as int) == 0) by (nonlinear_arith);
    }
    while pos < list.len()
        invariant
            0 < size,
            pos <= list@.len(),
            pos == r@.len() * size || pos == list@.len(),
            (r@.len() == 0 && pos == 0) || ((r@.len() - 1) * size < pos <= r@.len() * size),
            forall|i: int|
                0 <= i < r@.len() ==> #[trigger] r@[i]@.len() == (if (i + 1) * size <= list@.len() {
                    size as int
                } else {
                    list@.len() - i * size
                }),
            forall|i: int, j: int|
                0 <= i < r@.len() && 0 <= j < r@[i]@.len() ==> cloned::<T>(
                    list@[i * size + j],
                    #[trigger] r@[i]@[j],
                ),
        decreases list@.len() - pos,
    {
        let ghost chunk_index = r@.len() as int;
        let ghost start_pos = pos as int;
        proof {
            assert(pos == r@.len() * size);
        }
        let piece_end = if pos <= usize::MAX - size && pos + size <= list.len() {
            pos + size
        } else {
            list.len()
        };
        let piece = clone_range(list, pos, piece_end);
        r.push(piece);
        pos = piece_end;
        proof {
            assert((chunk_index + 1) * size == chunk_index * size + size) by (nonlinear_arith);
        }
    }
    r
}

/// Clones of the elements of a slice between two indices, in order.
fn clone_range<T: Clone>(list: &[T], a: usize, b: usize) -> (r: Vec<T>)
    requires
        a <= b <= list@.len(),
    ensures
        r@.len() == b - a,
        forall|j: int| 0 <= j < r@.len() ==> cloned::<T>(list@[a + j], #[trigger] r@[j]),
{
    let mut r: Vec<T> = Vec::new();
    let mut i: usize = a;
    while i < b
        invariant
            a <= i <= b <= list@.len(),
            r@.len() == i - a,
            forall|j: int| 0 <= j < r@.len() ==> cloned::<T>(list@[a + j], #[trigger] r@[j]),
        decreases b - i,
    {
        let c = list[i].clone();
        proof {
            assert(cloned::<T>(list@[i as int], c));
        }
        r.push(c);
        i += 1;
    }
    r
}

/// Gets the first element of a slice, or the default value for an empty slice.
pub fn first<'a, T>(array: &'a [T], default: &'a T) -> (r: &'a T)
    ensures
        array@.len() > 0 ==> r == &array@[0],
        array@.len() == 0 ==> r == default,
{
    if array.len() > 0 {
        &array[0]
    } else {
        default
    }
}

/// Gets the last element of a slice, or the default value for an empty slice.
pub fn last<'a, T>(array: &'a [T], default: &'a T) -> (r: &'a T)
    ensures
        array@.len() > 0 ==> r == &array@[array@.len() - 1],
        array@.len() == 0 ==> r == default,
{
    if array.len() > 0 {
        &array[array.len() - 1]
    } else {
        default
    }
}

/// Whether `item` is a clone of some element of `list` for which the
/// condition's contract admits the given verdict.
pub open spec fn spec_drawn_from<T: Clone, F: Fn(&T) -> bool>(
    list: Seq<T>,
    condition: F,
    item: T,
    verdict: bool,
) -> bool {
    exists|j: int|
        0 <= j < list.len() && cloned::<T>(list[j], item) && call_ensures(
            condition,
            (&list[j],),
            verdict,
        )
}

/// Whether `item` is a clone of some element of `list`.
pub open spec fn spec_clone_of_element<T: Clone>(list: Seq<T>, item: T) -> bool {
    exists|j: int| 0 <= j < list.len() && cloned::<T>(list[j], item)
}

/// Splits a slice into two vectors: clones of the elements the condition
/// accepted, then clones of those it rejected, together accounting for every
/// element.
pub fn fork<T: Clone, F: Fn(&T) -> bool>(list: &[T], condition: F) -> (r: (Vec<T>, Vec<T>))
    requires
        forall|i: int| 0 <= i < list@.len() ==> call_requires(condition, (&list@[i],)),
    ensures
        r.0@.len() + r.1@.len() == list@.len(),
        forall|i: int|
            0 <= i < r.0@.len() ==> spec_drawn_from(list@, condition, #[trigger] r.0@[i], true),
        forall|i: int|
            0 <= i < r.1@.len() ==> spec_drawn_from(list@, condition, #[trigger] r.1@[i], false),
{
    let mut true_items: Vec<T> = Vec::new();
    let mut false_items: Vec<T> = Vec::new();
    let mut i: usize = 0;
    while i < list.len()
        invariant
            i <= list@.len(),
            true_items@.len() + false_items@.len() == i,
            forall|k: int| 0 <= k < list@.len() ==> call_requires(condition, (&list@[k],)),
            forall|k: int|
                0 <= k < true_items@.len() ==> spec_drawn_from(
                    list@,
                    condition,
                    #[trigger] true_items@[k],
                    true,
                ),
            forall|k: int|
                0 <= k < false_items@.len() ==> spec_drawn_from(
                    list@,
                    condition,
                    #[trigger] false_items@[k],
                    false,
                ),
        decreases list@.len() - i,
    {
        let item = &list[i];
        let verdict = condition(item);
        let c = item.clone();
        proof {
            assert(cloned::<T>(list@[i as int], c));
            assert(spec_drawn_from(list@, condition, c, verdict));
        }
        if verdict {
            true_items.push(c);
        } else {
            false_items.push(c);
        }
        i += 1;
    }
    (true_items, false_items)
}

/// Counts occurrences of items by the keys a key function extracts. When the
/// key type obeys the hash-map key model, every key in the result was
/// extracted from some element of the list.
pub fn count_by<T, K: Eq + std::hash::Hash, F: Fn(&T) -> K>(list: &[T], key_fn: F) -> (r: HashMap<
    K,
    usize,
>)
    requires
        forall|i: int| 0 <= i < list@.len() ==> call_requires(key_fn, (&list@[i],)),
    ensures
        obeys_key_model::<K>() ==> forall|k: K|
            r@.dom().contains(k) ==> exists|i: int|
                0 <= i < list@.len() && call_ensures(key_fn, (&list@[i],), k),
{
    let mut counts: HashMap<K, usize> = HashMap::new();
    let mut i: usize = 0;
    while i < list.len()
        invariant
            i <= list@.len(),
            forall|j: int| 0 <= j < list@.len() ==> call_requires(key_fn, (&list@[j],)),
            obeys_key_model::<K>() ==> forall|k: K|
                counts@.dom().contains(k) ==> exists|j: int|
                    0 <= j < list@.len() && call_ensures(key_fn, (&list@[j],), k),
        decreases list@.len() - i,
    {
        let key = key_fn(&list[i]);
        let current = match counts.get(&key) {
            Some(c) => *c,
            None => 0,
        };
        counts.insert(key, current.saturating_add(1));
        i += 1;
    }
    counts
}

/// Returns clones of the elements of the first slice whose key is not among
/// the keys of the second slice, when the key type obeys the hash-set key
/// model; each returned element is a clone of an element of `root`.
pub fn diff<T: Clone, K: Eq + std::hash::Hash, F: Fn(&T) -> K>(root: &[T], other: &[T], key_fn: F) -> (r:
    Vec<T>)
    requires
        forall|i: int| 0 <= i < root@.len() ==> call_requires(key_fn, (&root@[i],)),
        forall|i: int| 0 <= i < other@.len() ==> call_requires(key_fn, (&other@[i],)),
    ensures
        r@.len() <= root@.len(),
        forall|i: int|
            0 <= i < r@.len() ==> spec_clone_of_element(root@, #[trigger] r@[i]),
{
    let mut other_keys: HashSet<K> = HashSet::new();
    let mut i: usize = 0;
    while i < other.len()
        invariant
            i <= other@.len(),
            forall|j: int| 0 <= j < other@.len() ==> call_requires(key_fn, (&other@[j],)),
        decreases other@.len() - i,
    {
        other_keys.insert(key_fn(&other[i]));
        i += 1;
    }
    let mut r: Vec<T> = Vec::new();
    let mut i: usize = 0;
    while i < root.len()
        invariant
            i <= root@.len(),
            r@.len() <= i,
            forall|j: int| 0 <= j < root@.len() ==> call_requires(key_fn, (&root@[j],)),
            forall|j: int| 0 <= j < r@.len() ==> spec_clone_of_element(root@, #[trigger] r@[j]),
        decreases root@.len() - i,
    {
        let key = key_fn(&root[i]);
        if !other_keys.contains(&key) {
            let c = root[i].clone();
            proof {
                assert(cloned::<T>(root@[i as int], c));
                assert(spec_clone_of_element(root@, c));
            }
            r.push(c);
        }
        i += 1;
    }
    r
}

/// The sum of a sequence of signed 64-bit integers, as an unbounded integer.
pub open spec fn spec_sum_i64(s: Seq<i64>) -> int
    decreases s.len(),
{
    if s.len() == 0 {
        0
    } else {
        spec_sum_i64(s.drop_last()) + s.last()
    }
}

/// Sums the values a getter extracts from each element. The getter's outputs
/// must fit in 32 signed bits and the slice must not be absurdly long, so the
/// running sum fits in an `i64`; the result is the sum of one sequence of
/// getter outputs, one per element.
pub fn sum<T, F: Fn(&T) -> i64>(array: &[T], getter: F) -> (r: i64)
    requires
        array@.len() <= 0x7FFF_FFFF,
        forall|i: int| 0 <= i < array@.len() ==> call_requires(getter, (&array@[i],)),
        forall|x: &T, y: i64| call_ensures(getter, (x,), y) ==> -0x8000_0000 <= y <= 0x7FFF_FFFF,
    ensures
        exists|ys: Seq<i64>|
            {
                &&& ys.len() == array@.len()
                &&& forall|i: int|
                    0 <= i < array@.len() ==> call_ensures(getter, (&array@[i],), #[trigger] ys[i])
                &&& r == spec_sum_i64(ys)
            },
{
    let mut acc: i64 = 0;
    let mut i: usize = 0;
    let ghost mut ys: Seq<i64> = Seq::empty();
    while i < array.len()
        invariant
            i <= array@.len(),
            array@.len() <= 0x7FFF_FFFF,
            forall|j: int| 0 <= j < array@.len() ==> call_requires(getter, (&array@[j],)),
            forall|x: &T, y: i64| call_ensures(getter, (x,), y) ==> -0x8000_0000 <= y
                <= 0x7FFF_FFFF,
            ys.len() == i,
            forall|j: int| 0 <= j < i ==> call_ensures(getter, (&array@[j],), #[trigger] ys[j]),
            acc == spec_sum_i64(ys),
            -0x8000_0000 * (i as int) <= acc <= 0x7FFF_FFFF * (i as int),
        decreases array@.len() - i,
    {
        let y = getter(&array[i]);
        proof {
            assert(-0x8000_0000 * (i as int) - 0x8000_0000 == -0x8000_0000 * (i as int + 1))
                by (nonlinear_arith);
            assert(0x7FFF_FFFF * (i as int) + 0x7FFF_FFFF == 0x7FFF_FFFF * (i as int + 1))
                by (nonlinear_arith);
            assert(-0x8000_0000 * (i as int + 1) >= -0x8000_0000 * 0x8000_0000i64)
                by (nonlinear_arith)
                requires
                    i + 1 <= 0x8000_0000i64,
            ;
            assert(0x7FFF_FFFF * (i as int + 1) <= 0x7FFF_FFFF * 0x8000_0000i64)
                by (nonlinear_arith)
                requires
                    i + 1 <= 0x8000_0000i64,
            ;
        }
        acc = acc + y;
        proof {
            let prev = ys;
            ys = ys.push(y);
            assert(ys.drop_last() =~= prev);
        }
        i += 1;
    }
    proof {
        assert(forall|j: int| 0 <= j < ys.len() ==> call_ensures(getter, (&array@[j],), #[trigger] ys[j]));
    }
    acc
}

/// Sums a slice of integers directly. Every prefix sum must fit in an `i64`;
/// the result is exactly the sum of the elements.
pub fn sum_direct(array: &[i64]) -> (r: i64)
    requires
        forall|i: int|
            0 <= i <= array@.len() ==> i64::MIN <= spec_sum_i64(#[trigger] array@.subrange(0, i))
                <= i64::MAX,
    ensures
        r == spec_sum_i64(array@),
{
    let mut acc: i64 = 0;
    let mut i: usize = 0;
    proof {
        assert(array@.subrange(0, 0) =~= Seq::<i64>::empty());
    }
    while i < array.len()
        invariant
            i <= array@.len(),
            forall|j: int|
                0 <= j <= array@.len() ==> i64::MIN <= spec_sum_i64(
                    #[trigger] array@.subrange(0, j),
                ) <= i64::MAX,
            acc == spec_sum_i64(array@.subrange(0, i as int)),
        decreases array@.len() - i,
    {
        proof {
            assert(array@.subrange(0, i + 1).drop_last() =~= array@.subrange(0, i as int));
            assert(array@.subrange(0, i + 1).last() == array@[i as int]);
        }
        acc = acc + array[i];
        i += 1;
    }
    proof {
        assert(array@.subrange(0, array@.len() as int) =~= array@);
    }
    acc
}

/// Returns clones of elements of the slice, keeping the first element for each
/// key the key function extracts, or every element when no key function is
/// given.
pub fn unique<T: Clone, K: Eq + std::hash::Hash, F: Fn(&T) -> K>(array: &[T], key_fn: Option<F>) -> (r:
    Vec<T>)
    requires
        forall|i: int, g: F|
            0 <= i < array@.len() && key_fn == Some(g) ==> call_requires(g, (&array@[i],)),
    ensures
        r@.len() <= array@.len(),
        forall|i: int| 0 <= i < r@.len() ==> spec_clone_of_element(array@, #[trigger] r@[i]),
        key_fn is None ==> r@.len() == array@.len() && forall|i: int|
            0 <= i < r@.len() ==> cloned::<T>(array@[i], #[trigger] r@[i]),
{
    let mut seen: HashSet<K> = HashSet::new();
    let mut r: Vec<T> = Vec::new();
    let mut i: usize = 0;
    while i < array.len()
        invariant
            i <= array@.len(),
            r@.len() <= i,
            forall|k: int, g: F|
                0 <= k < array@.len() && key_fn == Some(g) ==> call_requires(g, (&array@[k],)),
            forall|j: int| 0 <= j < r@.len() ==> spec_clone_of_element(array@, #[trigger] r@[j]),
            key_fn is None ==> r@.len() == i && forall|j: int|
                0 <= j < r@.len() ==> cloned::<T>(array@[j], #[trigger] r@[j]),
        decreases array@.len() - i,
    {
        match &key_fn {
            Some(f) => {
                let k = f(&array[i]);
                if seen.insert(k) {
                    let c = array[i].clone();
                    proof {
                        assert(cloned::<T>(array@[i as int], c));
                        assert(spec_clone_of_element(array@, c));
                    }
                    r.push(c);
                }
            },
            None => {
                let c = array[i].clone();
                proof {
                    assert(cloned::<T>(array@[i as int], c));
                    assert(spec_clone_of_element(array@, c));
                }
                r.push(c);
            },
        }
        i += 1;
    }
    r
}

/// Returns the slice's elements in a random order: the result has the same
/// length and every element of it is a clone of some element of the input.
pub fn shuffle<T: Clone>(array: &[T]) -> (r: Vec<T>)
    ensures
        r@.len() == array@.len(),
        forall|i: int| 0 <= i < r@.len() ==> spec_clone_of_element(array@, #[trigger] r@[i]),
{
    let mut pool = clone_range(array, 0, array.len());
    let mut r: Vec<T> = Vec::new();
    proof {
        assert(forall|j: int|
            0 <= j < pool@.len() ==> spec_clone_of_element(array@, #[trigger] pool@[j]));
    }
    while pool.len() > 0
        invariant
            pool@.len() + r@.len() == array@.len(),
            forall|j: int|
                0 <= j < pool@.len() ==> spec_clone_of_element(array@, #[trigger] pool@[j]),
            forall|j: int| 0 <= j < r@.len() ==> spec_clone_of_element(array@, #[trigger] r@[j]),
        decreases pool@.len(),
    {
        let idx = random_below(pool.len());
        let item = pool.swap_remove(idx);
        r.push(item);
    }
    r
}

/// Finds a maximum element of a slice, by the values a getter extracts or by
/// the element order itself. The result is `None` exactly for an empty slice,
/// and is otherwise a reference to the last element that every comparison
/// made left on top.
pub fn max<T: Ord, U: Ord, F: Fn(&T) -> U>(array: &[T], getter: Option<F>) -> (r: Option<&T>)
    requires
        forall|i: int, g: F|
            0 <= i < array@.len() && getter == Some(g) ==> call_requires(g, (&array@[i],)),
    ensures
        r is Some <==> array@.len() > 0,
        r matches Some(m) ==> exists|i: int| 0 <= i < array@.len() && m == &array@[i],
{
    if array.len() == 0 {
        return None;
    }
    match getter {
        Some(get_fn) => {
            let mut best: usize = 0;
            let mut best_key = get_fn(&array[0]);
            let mut i: usize = 1;
            while i < array.len()
                invariant
                    1 <= i <= array@.len(),
                    best < i,
                    forall|k: int, g: F|
                        0 <= k < array@.len() && getter == Some(g) ==> call_requires(
                            g,
                            (&array@[k],),
                        ),
                    getter == Some(get_fn),
                decreases array@.len() - i,
            {
                let key = get_fn(&array[i]);
                if !matches!(key.cmp(&best_key), core::cmp::Ordering::Less) {
                    best = i;
                    best_key = key;
                }
                i += 1;
            }
            Some(&array[best])
        },
        None => {
            let mut best: usize = 0;
            let mut i: usize = 1;
            while i < array.len()
                invariant
                    1 <= i <= array@.len(),
                    best < i,
                decreases array@.len() - i,
            {
                if matches!(array[i].cmp(&array[best]), core::cmp::Ordering::Greater) {
                    best = i;
                }
                i += 1;
            }
            Some(&array[best])
        },
    }
}

/// Find the index of the first element that matches the predicate: the
/// predicate's contract admits `true` there and admitted `false` at every
/// earlier index; `None` means it admitted `false` everywhere.
pub fn find_index<T, F: Fn(&T) -> bool>(vec: &[T], predicate: F) -> (r: Option<usize>)
    requires
        forall|i: int| 0 <= i < vec@.len() ==> call_requires(predicate, (&vec@[i],)),
    ensures
        r matches Some(i) ==> i < vec@.len() && call_ensures(predicate, (&vec@[i as int],), true)
            && forall|j: int| 0 <= j < i ==> call_ensures(predicate, (&vec@[j],), false),
        r is None ==> forall|j: int|
            0 <= j < vec@.len() ==> call_ensures(predicate, (&vec@[j],), false),
{
    let mut i: usize = 0;
    while i < vec.len()
        invariant
            i <= vec@.len(),
            forall|k: int| 0 <= k < vec@.len() ==> call_requires(predicate, (&vec@[k],)),
            forall|j: int| 0 <= j < i ==> call_ensures(predicate, (&vec@[j],), false),
        decreases vec@.len() - i,
    {
        if predicate(&vec[i]) {
            return Some(i);
        }
        i += 1;
    }
    None
}

/// Find the first element that matches the predicate: the reference points at
/// the first element whose predicate call returned `true`; `None` means every
/// call returned `false`.
pub fn find<'a, T, F: Fn(&T) -> bool>(vec: &'a [T], predicate: F) -> (r: Option<&'a T>)
    requires
        forall|i: int| 0 <= i < vec@.len() ==> call_requires(predicate, (&vec@[i],)),
    ensures
        r matches Some(x) ==> exists|i: int|
            0 <= i < vec@.len() && x == &vec@[i] && call_ensures(predicate, (&vec@[i],), true),
        r is None ==> forall|j: int|
            0 <= j < vec@.len() ==> call_ensures(predicate, (&vec@[j],), false),
{
    let mut i: usize = 0;
    while i < vec.len()
        invariant
            i <= vec@.len(),
            forall|k: int| 0 <= k < vec@.len() ==> call_requires(predicate, (&vec@[k],)),
            forall|j: int| 0 <= j < i ==> call_ensures(predicate, (&vec@[j],), false),
        decreases vec@.len() - i,
    {
        if predicate(&vec[i]) {
            return Some(&vec[i]);
        }
        i += 1;
    }
    None
}

/// Check if some element matches the predicate: `true` means some call
/// returned `true`, `false` means every call returned `false`.
pub fn some<T, F: Fn(&T) -> bool>(vec: &[T], predicate: F) -> (r: bool)
    requires
        forall|i: int| 0 <= i < vec@.len() ==> call_requires(predicate, (&vec@[i],)),
    ensures
        r ==> exists|i: int| 0 <= i < vec@.len() && call_ensures(predicate, (&vec@[i],), true),
        !r ==> forall|j: int| 0 <= j < vec@.len() ==> call_ensures(predicate, (&vec@[j],), false),
{
    let mut i: usize = 0;
    while i < vec.len()
        invariant
            i <= vec@.len(),
            forall|k: int| 0 <= k < vec@.len() ==> call_requires(predicate, (&vec@[k],)),
            forall|j: int| 0 <= j < i ==> call_ensures(predicate, (&vec@[j],), false),
        decreases vec@.len() - i,
    {
        if predicate(&vec[i]) {
            return true;
        }
        i += 1;
    }
    false
}

/// Check if every element matches the predicate: `true` means every call
/// returned `true`, `false` means some call returned `false`.
pub fn every<T, F: Fn(&T) -> bool>(vec: &[T], predicate: F) -> (r: bool)
    requires
        forall|i: int| 0 <= i < vec@.len() ==> call_requires(predicate, (&vec@[i],)),
    ensures
        r ==> forall|j: int| 0 <= j < vec@.len() ==> call_ensures(predicate, (&vec@[j],), true),
        !r ==> exists|i: int| 0 <= i < vec@.len() && call_ensures(predicate, (&vec@[i],), false),
{
    let mut i: usize = 0;
    while i < vec.len()
        invariant
            i <= vec@.len(),
            forall|k: int| 0 <= k < vec@.len() ==> call_requires(predicate, (&vec@[k],)),
            forall|j: int| 0 <= j < i ==> call_ensures(predicate, (&vec@[j],), true),
        decreases vec@.len() - i,
    {
        if !predicate(&vec[i]) {
            return false;
        }
        i += 1;
    }
    true
}

/// Filter the elements that match the predicate: each returned element is a
/// clone of an element the predicate accepted.
pub fn filter<T: Clone, F: Fn(&T) -> bool>(vec: &[T], predicate: F) -> (r: Vec<T>)
    requires
        forall|i: int| 0 <= i < vec@.len() ==> call_requires(predicate, (&vec@[i],)),
    ensures
        r@.len() <= vec@.len(),
        forall|i: int|
            0 <= i < r@.len() ==> spec_drawn_from(vec@, predicate, #[trigger] r@[i], true),
{
    let mut r: Vec<T> = Vec::new();
    let mut i: usize = 0;
    while i < vec.len()
        invariant
            i <= vec@.len(),
            r@.len() <= i,
            forall|k: int| 0 <= k < vec@.len() ==> call_requires(predicate, (&vec@[k],)),
            forall|j: int|
                0 <= j < r@.len() ==> spec_drawn_from(vec@, predicate, #[trigger] r@[j], true),
        decreases vec@.len() - i,
    {
        if predicate(&vec[i]) {
            let c = vec[i].clone();
            proof {
                assert(cloned::<T>(vec@[i as int], c));
                assert(spec_drawn_from(vec@, predicate, c, true));
            }
            r.push(c);
        }
        i += 1;
    }
    r
}

/// Transform each element using the provided function: the result has one
/// output of the function per element, in order.
pub fn map<T, U, F: Fn(&T) -> U>(vec: &[T], transform: F) -> (r: Vec<U>)
    requires
        forall|i: int| 0 <= i < vec@.len() ==> call_requires(transform, (&vec@[i],)),
    ensures
        r@.len() == vec@.len(),
        forall|i: int|
            0 <= i < vec@.len() ==> call_ensures(transform, (&vec@[i],), #[trigger] r@[i]),
{
    let mut r: Vec<U> = Vec::new();
    let mut i: usize = 0;
    while i < vec.len()
        invariant
            i <= vec@.len(),
            r@.len() == i,
            forall|k: int| 0 <= k < vec@.len() ==> call_requires(transform, (&vec@[k],)),
            forall|j: int|
                0 <= j < i ==> call_ensures(transform, (&vec@[j],), #[trigger] r@[j]),
        decreases vec@.len() - i,
    {
        r.push(transform(&vec[i]));
        i += 1;
    }
    r
}

/// Reduce the array to a single value: the result is the end of a chain of
/// accumulator values that starts at `initial` and steps through the reducer
/// once per element, in order.
pub fn reduce<T, U, F: Fn(U, &T) -> U>(vec: &[T], initial: U, reducer: F) -> (r: U)
    requires
        forall|acc: U, i: int| 0 <= i < vec@.len() ==> call_requires(reducer, (acc, &vec@[i])),
    ensures
        exists|us: Seq<U>|
            {
                &&& us.len() == vec@.len() + 1
                &&& us[0] == initial
                &&& forall|i: int|
                    0 <= i < vec@.len() ==> call_ensures(
                        reducer,
                        (us[i], &vec@[i]),
                        #[trigger] us[i + 1],
                    )
                &&& r == us[vec@.len() as int]
            },
{
    let ghost mut us: Seq<U> = seq![initial];
    let mut acc = initial;
    let mut i: usize = 0;
    while i < vec.len()
        invariant
            i <= vec@.len(),
            forall|a: U, k: int| 0 <= k < vec@.len() ==> call_requires(reducer, (a, &vec@[k])),
            us.len() == i + 1,
            us[0] == initial,
            acc == us[i as int],
            forall|j: int|
                0 <= j < i ==> call_ensures(reducer, (us[j], &vec@[j]), #[trigger] us[j + 1]),
        decreases vec@.len() - i,
    {
        acc = reducer(acc, &vec[i]);
        proof {
            us = us.push(acc);
        }
        i += 1;
    }
    proof {
        assert(us.len() == vec@.len() + 1);
        assert(us[0] == initial);
        assert(acc == us[vec@.len() as int]);
        assert(forall|j: int|
            0 <= j < vec@.len() ==> call_ensures(reducer, (us[j], &vec@[j]), #[trigger] us[j + 1]));
    }
    acc
}

/// Check if the array includes a specific element, by the type's own `==`.
/// When that `==` obeys its specification, the result says exactly whether
/// some element equals the one sought.
pub fn includes<T: PartialEq>(vec: &[T], element: &T) -> (r: bool)
    ensures
        T::obeys_eq_spec() ==> r == exists|i: int|
            0 <= i < vec@.len() && (#[trigger] vec@[i]).eq_spec(element),
{
    let mut i: usize = 0;
    while i < vec.len()
        invariant
            i <= vec@.len(),
            T::obeys_eq_spec() ==> forall|j: int|
                0 <= j < i ==> !(#[trigger] vec@[j]).eq_spec(element),
        decreases vec@.len() - i,
    {
        if vec[i] == *element {
            return true;
        }
        i += 1;
    }
    false
}

/// Find the index of the first element equal to the one sought, by the type's
/// own `==`. When that `==` obeys its specification, `Some` names the first
/// such index and `None` means there is none.
pub fn index_of<T: PartialEq>(vec: &[T], element: &T) -> (r: Option<usize>)
    ensures
        T::obeys_eq_spec() ==> match r {
            Some(i) => i < vec@.len() && vec@[i as int].eq_spec(element) && forall|j: int|
                0 <= j < i ==> !(#[trigger] vec@[j]).eq_spec(element),
            None => forall|j: int| 0 <= j < vec@.len() ==> !(#[trigger] vec@[j]).eq_spec(element),
        },
{
    let mut i: usize = 0;
    while i < vec.len()
        invariant
            i <= vec@.len(),
            T::obeys_eq_spec() ==> forall|j: int|
                0 <= j < i ==> !(#[trigger] vec@[j]).eq_spec(element),
        decreases vec@.len() - i,
    {
        if vec[i] == *element {
            return Some(i);
        }
        i += 1;
    }
    None
}

/// The strings of a sequence joined with a separator between neighbours.
pub open spec fn spec_join_strs(parts: Seq<Seq<char>>, sep: Seq<char>) -> Seq<char>
    decreases parts.len(),
{
    if parts.len() == 0 {
        Seq::empty()
    } else if parts.len() == 1 {
        parts[0]
    } else {
        spec_join_strs(parts.drop_last(), sep) + sep + parts.last()
    }
}

/// Join the elements into a string with a separator between neighbours.
pub fn join(vec: &[&str], separator: &str) -> (r: String)
    ensures
        r@ == spec_join_strs(vec@.map_values(|s: &str| s@), separator@),
{
    let ghost parts = vec@.map_values(|s: &str| s@);
    let mut r = String::new();
    let mut i: usize = 0;
    while i < vec.len()
        invariant
            i <= vec@.len(),
            parts == vec@.map_values(|s: &str| s@),
            r@ == spec_join_strs(parts.subrange(0, i as int), separator@),
        decreases vec@.len() - i,
    {
        if i > 0 {
            r.append(separator);
        }
        r.append(vec[i]);
        proof {
            assert(parts.subrange(0, i + 1).drop_last() =~= parts.subrange(0, i as int));
            assert(parts.subrange(0, i + 1).last() == parts[i as int]);
            if i == 0 {
                assert(spec_join_strs(parts.subrange(0, 1), separator@) == parts[0]);
            }
        }
        i += 1;
    }
    proof {
        assert(parts.subrange(0, parts.len() as int) =~= parts);
    }
    r
}

/// Reverse the array into a new vector of clones: element `i` of the result
/// is a clone of element `len - 1 - i` of the input.
pub fn reverse<T: Clone>(vec: &[T]) -> (r: Vec<T>)
    ensures
        r@.len() == vec@.len(),
        forall|i: int|
            0 <= i < r@.len() ==> cloned::<T>(vec@[vec@.len() - 1 - i], #[trigger] r@[i]),
{
    let mut r: Vec<T> = Vec::new();
    let mut i: usize = vec.len();
    while i > 0
        invariant
            i <= vec@.len(),
            r@.len() == vec@.len() - i,
            forall|j: int|
                0 <= j < r@.len() ==> cloned::<T>(vec@[vec@.len() - 1 - j], #[trigger] r@[j]),
        decreases i,
    {
        i -= 1;
        let c = vec[i].clone();
        proof {
            assert(cloned::<T>(vec@[i as int], c));
        }
        r.push(c);
    }
    r
}

/// Get a slice of the array from start to end (exclusive), both clamped to the
/// length, as a vector of clones.
pub fn slice<T: Clone>(vec: &[T], start: usize, end: Option<usize>) -> (r: Vec<T>)
    ensures
        ({
            let s = if start <= vec@.len() {
                start as int
            } else {
                vec@.len() as int
            };
            let e0 = if end is Some {
                end->0 as int
            } else {
                vec@.len() as int
            };
            let e = if e0 <= vec@.len() {
                e0
            } else {
                vec@.len() as int
            };
            if s >= e {
                r@.len() == 0
            } else {
                r@.len() == e - s && forall|j: int|
                    0 <= j < r@.len() ==> cloned::<T>(vec@[s + j], #[trigger] r@[j])
            }
        }),
{
    let len = vec.len();
    let start_idx = if start < len {
        start
    } else {
        len
    };
    let end_raw = match end {
        Some(e) => e,
        None => len,
    };
    let end_idx = if end_raw < len {
        end_raw
    } else {
        len
    };
    if start_idx >= end_idx {
        return Vec::new();
    }
    clone_range(vec, start_idx, end_idx)
}

/// Whether `item` is a clone of some element of some inner sequence.
pub open spec fn spec_clone_in_nested<T: Clone>(s: Seq<Seq<T>>, item: T) -> bool {
    exists|j: int, k: int| 0 <= j < s.len() && 0 <= k < s[j].len() && cloned::<T>(s[j][k], item)
}

/// The total length of a sequence of sequences.
pub open spec fn spec_nested_len<T>(s: Seq<Seq<T>>) -> int
    decreases s.len(),
{
    if s.len() == 0 {
        0
    } else {
        spec_nested_len(s.drop_last()) + s.last().len()
    }
}

/// Concatenate multiple arrays: the result has the lengths' total, and each
/// element is a clone of an element of one of the inputs.
pub fn concat<T: Clone>(arrays: &[&[T]]) -> (r: Vec<T>)
    requires
        spec_nested_len(arrays@.map_values(|a: &[T]| a@)) <= usize::MAX,
    ensures
        r@.len() == spec_nested_len(arrays@.map_values(|a: &[T]| a@)),
        forall|i: int|
            0 <= i < r@.len() ==> spec_clone_in_nested(
                arrays@.map_values(|a: &[T]| a@),
                #[trigger] r@[i],
            ),
{
    let ghost nested = arrays@.map_values(|a: &[T]| a@);
    let mut r: Vec<T> = Vec::new();
    let mut i: usize = 0;
    while i < arrays.len()
        invariant
            i <= arrays@.len(),
            nested == arrays@.map_values(|a: &[T]| a@),
            spec_nested_len(nested) <= usize::MAX,
            r@.len() == spec_nested_len(nested.subrange(0, i as int)),
            forall|j: int|
                0 <= j < r@.len() ==> spec_clone_in_nested(nested, #[trigger] r@[j]),
        decreases arrays@.len() - i,
    {
        proof {
            lemma_nested_len_prefix_bound(nested, i + 1);
            assert(nested.subrange(0, i + 1).drop_last() =~= nested.subrange(0, i as int));
            assert(nested.subrange(0, i + 1).last() == nested[i as int]);
        }
        let inner = arrays[i];
        let mut k: usize = 0;
        while k < inner.len()
            invariant
                k <= inner@.len(),
                i < arrays@.len(),
                nested == arrays@.map_values(|a: &[T]| a@),
                inner@ == nested[i as int],
                spec_nested_len(nested.subrange(0, i + 1)) <= usize::MAX,
                r@.len() == spec_nested_len(nested.subrange(0, i as int)) + k,
                spec_nested_len(nested.subrange(0, i as int)) + inner@.len() == spec_nested_len(
                    nested.subrange(0, i + 1),
                ),
                forall|j: int|
                    0 <= j < r@.len() ==> spec_clone_in_nested(nested, #[trigger] r@[j]),
            decreases inner@.len() - k,
        {
            let c = inner[k].clone();
            proof {
                assert(cloned::<T>(nested[i as int][k as int], c));
                assert(spec_clone_in_nested(nested, c));
            }
            r.push(c);
            k += 1;
        }
        i += 1;
    }
    proof {
        assert(nested.subrange(0, nested.len() as int) =~= nested);
    }
    r
}

/// Every prefix of a nested sequence has a total length at most the whole's.
proof fn lemma_nested_len_prefix_bound<T>(s: Seq<Seq<T>>, i: int)
    requires
        0 <= i <= s.len(),
    ensures
        spec_nested_len(s.subrange(0, i)) <= spec_nested_len(s),
        i > 0 ==> spec_nested_len(s.subrange(0, i - 1)) <= spec_nested_len(s.subrange(0, i)),
    decreases s.len() - i,
{
    if i == s.len() {
        assert(s.subrange(0, i) =~= s);
        if i > 0 {
            assert(s.subrange(0, i).drop_last() =~= s.subrange(0, i - 1));
        }
    } else {
        lemma_nested_len_prefix_bound(s, i + 1);
        assert(s.subrange(0, i + 1).drop_last() =~= s.subrange(0, i));
        if i > 0 {
            assert(s.subrange(0, i).drop_last() =~= s.subrange(0, i - 1));
        }
    }
}

/// Flatten nested arrays by one level: the result has the lengths' total, and
/// each element is a clone of an element of one of the inner vectors.
pub fn flat<T: Clone>(nested: &[Vec<T>]) -> (r: Vec<T>)
    requires
        spec_nested_len(nested@.map_values(|a: Vec<T>| a@)) <= usize::MAX,
    ensures
        r@.len() == spec_nested_len(nested@.map_values(|a: Vec<T>| a@)),
        forall|i: int|
            0 <= i < r@.len() ==> spec_clone_in_nested(
                nested@.map_values(|a: Vec<T>| a@),
                #[trigger] r@[i],
            ),
{
    let ghost seqs = nested@.map_values(|a: Vec<T>| a@);
    let mut r: Vec<T> = Vec::new();
    let mut i: usize = 0;
    while i < nested.len()
        invariant
            i <= nested@.len(),
            seqs == nested@.map_values(|a: Vec<T>| a@),
            spec_nested_len(seqs) <= usize::MAX,
            r@.len() == spec_nested_len(seqs.subrange(0, i as int)),
            forall|j: int|
                0 <= j < r@.len() ==> spec_clone_in_nested(seqs, #[trigger] r@[j]),
        decreases nested@.len() - i,
    {
        proof {
            lemma_nested_len_prefix_bound(seqs, i + 1);
            assert(seqs.subrange(0, i + 1).drop_last() =~= seqs.subrange(0, i as int));
            assert(seqs.subrange(0, i + 1).last() == seqs[i as int]);
        }
        let inner = &nested[i];
        let mut k: usize = 0;
        while k < inner.len()
            invariant
                k <= inner@.len(),
                i < nested@.len(),
                seqs == nested@.map_values(|a: Vec<T>| a@),
                inner@ == seqs[i as int],
                spec_nested_len(seqs.subrange(0, i + 1)) <= usize::MAX,
                r@.len() == spec_nested_len(seqs.subrange(0, i as int)) + k,
                spec_nested_len(seqs.subrange(0, i as int)) + inner@.len() == spec_nested_len(
                    seqs.subrange(0, i + 1),
                ),
                forall|j: int|
                    0 <= j < r@.len() ==> spec_clone_in_nested(seqs, #[trigger] r@[j]),
            decreases inner@.len() - k,
        {
            let c = inner[k].clone();
            proof {
                assert(cloned::<T>(seqs[i as int][k as int], c));
                assert(spec_clone_in_nested(seqs, c));
            }
            r.push(c);
            k += 1;
        }
        i += 1;
    }
    proof {
        assert(seqs.subrange(0, seqs.len() as int) =~= seqs);
    }
    r
}

/// Finds a minimum element of a slice, by the values a getter extracts or by
/// the element order itself. The result is `None` exactly for an empty slice,
/// and is otherwise a reference to the last element that every comparison
/// made left at the bottom.
pub fn min<T: Ord, U: Ord, F: Fn(&T) -> U>(array: &[T], getter: Option<F>) -> (r: Option<&T>)
    requires
        forall|i: int, g: F|
            0 <= i < array@.len() && getter == Some(g) ==> call_requires(g, (&array@[i],)),
    ensures
        r is Some <==> array@.len() > 0,
        r matches Some(m) ==> exists|i: int| 0 <= i < array@.len() && m == &array@[i],
{
    if array.len() == 0 {
        return None;
    }
    match getter {
        Some(get_fn) => {
            let mut best: usize = 0;
            let mut best_key = get_fn(&array[0]);
            let mut i: usize = 1;
            while i < array.len()
                invariant
                    1 <= i <= array@.len(),
                    best < i,
                    forall|k: int, g: F|
                        0 <= k < array@.len() && getter == Some(g) ==> call_requires(
                            g,
                            (&array@[k],),
                        ),
                    getter == Some(get_fn),
                decreases array@.len() - i,
            {
                let key = get_fn(&array[i]);
                if !matches!(key.cmp(&best_key), core::cmp::Ordering::Greater) {
                    best = i;
                    best_key = key;
                }
                i += 1;
            }
            Some(&array[best])
        },
        None => {
            let mut best: usize = 0;
            let mut i: usize = 1;
            while i < array.len()
                invariant
                    1 <= i <= array@.len(),
                    best < i,
                decreases array@.len() - i,
            {
                if matches!(array[i].cmp(&array[best]), core::cmp::Ordering::Less) {
                    best = i;
                }
                i += 1;
            }
            Some(&array[best])
        },
    }
}

} // verus!
