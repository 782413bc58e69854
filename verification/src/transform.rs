//! The transforms used to shape a parser's output: collecting characters
//! into text, rendering a value as text, reading a number, and unwrapping
//! optional values.  Each returns a [`Transform`] for [`Parser::map`].
//!
//! [`Parser::map`]: crate::parser::Parser::map

use crate::sem::Transform;
use vstd::prelude::*;

verus! {

/// Collects a list of characters into a single text value.
pub fn collect() -> (r: Transform)
    ensures
        r == Transform::Flatten,
{
    Transform::Flatten
}

/// Renders a value as text: a character becomes one-character text.
pub fn to_string() -> (r: Transform)
    ensures
        r == Transform::Flatten,
{
    Transform::Flatten
}

/// Reads a value's text as an optionally signed decimal integer, with `0`
/// for anything that is not one in the 32-bit signed range.
pub fn to_number() -> (r: Transform)
    ensures
        r == Transform::ToNum,
{
    Transform::ToNum
}

/// Unwraps an optional value, with empty text for an absent one.
///
/// Parsed values are dynamic, so the fallback cannot depend on a result
/// type: an absent optional always becomes empty text here, whatever the
/// present case would have held.  Where the optional wraps a repetition or
/// a number, use [`unwrap_opt_list`] or [`unwrap_opt_number`], whose
/// fallbacks are the empty list and zero.
pub fn unwrap_opt() -> (r: Transform)
    ensures
        r == Transform::UnwrapDefault,
{
    Transform::UnwrapDefault
}

/// Unwraps an optional value, with the empty list for an absent one.
pub fn unwrap_opt_list() -> (r: Transform)
    ensures
        r == Transform::UnwrapList,
{
    Transform::UnwrapList
}

/// Unwraps an optional value, with the integer zero for an absent one.
pub fn unwrap_opt_number() -> (r: Transform)
    ensures
        r == Transform::UnwrapNum,
{
    Transform::UnwrapNum
}

} // verus!
