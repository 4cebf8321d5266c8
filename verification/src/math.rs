//! Math utilities for random number generation and array operations
//!
//! This module provides mathematical utility functions including random number
//! generation and array manipulation functions.

use crate::text::str_to_string;
use rand::RngExt;
use vstd::pervasive::cloned;
use vstd::prelude::*;
use vstd::string::StringExecFns;

verus! {

/// Errors that can occur during math operations
#[derive(Debug, Clone, PartialEq)]
pub enum MathError {
    InvalidArgument { message: String },
}

/// The rendered message of a [`MathError`].
pub open spec fn spec_math_error_message(e: MathError) -> Seq<char> {
    match e {
        MathError::InvalidArgument { message } => "Invalid argument: "@ + message@,
    }
}

impl MathError {
    /// The rendered message, as the error displays itself.
    pub fn to_string(&self) -> (r: String)
        ensures
            r@ == spec_math_error_message(*self),
    {
        match self {
            MathError::InvalidArgument { message } => {
                let mut r = str_to_string("Invalid argument: ");
                r.append(message.as_str());
                r
            },
        }
    }
}

/// Relies on rand's `RngExt::random_range` on the thread-local generator:
/// a random integer drawn from the half-open range, which must not be empty.
#[verifier::external_body]
fn random_in_range(start: i32, end: i32) -> (r: i32)
    requires
        start < end,
    ensures
        start <= r < end,
{
    rand::rng().random_range(start..end)
}

/// Relies on rand's `RngExt::random_range` on the thread-local generator:
/// a random index below the given positive bound.
#[verifier::external_body]
pub(crate) fn random_below(bound: usize) -> (r: usize)
    requires
        bound > 0,
    ensures
        r < bound,
{
    rand::rng().random_range(0..bound)
}

/// Generate a random integer in the range [start, end)
///
/// Returns `MathError::InvalidArgument` if and only if `start >= end`;
/// otherwise the value is within the range.
pub fn random_int(start: i32, end: i32) -> (r: Result<i32, MathError>)
    ensures
        start < end <==> r is Ok,
        r matches Ok(v) ==> start <= v < end,
        r matches Err(e) ==> (e matches MathError::InvalidArgument { message } && message@
            == "start should be less than end"@),
{
    if start >= end {
        return Err(
            MathError::InvalidArgument { message: str_to_string("start should be less than end") },
        );
    }
    Ok(random_in_range(start, end))
}

/// Generate a random integer in the range [0, max)
///
/// Returns `MathError::InvalidArgument` if and only if `max <= 0`;
/// otherwise the value is within the range.
pub fn random_int_max(max: i32) -> (r: Result<i32, MathError>)
    ensures
        max > 0 <==> r is Ok,
        r matches Ok(v) ==> 0 <= v < max,
        r matches Err(e) ==> (e matches MathError::InvalidArgument { message } && message@
            == "max should be greater than 0"@),
{
    if max <= 0 {
        return Err(
            MathError::InvalidArgument { message: str_to_string("max should be greater than 0") },
        );
    }
    Ok(random_in_range(0, max))
}

/// Get a random item from an array
///
/// Returns `MathError::InvalidArgument` if and only if the array is empty;
/// otherwise the value is a clone of one of the array's elements.
pub fn get_random_item_from_array<T: Clone>(arr: &[T]) -> (r: Result<T, MathError>)
    ensures
        arr@.len() > 0 <==> r is Ok,
        r matches Ok(v) ==> exists|i: int| 0 <= i < arr@.len() && cloned::<T>(arr@[i], v),
        r matches Err(e) ==> (e matches MathError::InvalidArgument { message } && message@
            == "array should not be empty"@),
{
    if arr.len() == 0 {
        return Err(
            MathError::InvalidArgument { message: str_to_string("array should not be empty") },
        );
    }
    let index = random_below(arr.len());
    let v = arr[index].clone();
    proof {
        assert(cloned::<T>(arr@[index as int], v));
    }
    Ok(v)
}

} // verus!
