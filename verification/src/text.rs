//! The string functions of the standard library that the help texts are
//! built with, each behind a contract that is taken on trust.

use crate::definitions::str_models;
use vstd::prelude::*;

verus! {

/// Whether `char::is_whitespace` holds of the character: whether it has the
/// Unicode property `White_Space`.
pub uninterp spec fn whitespace(c: char) -> bool;

/// The lines that `str::lines` splits a text into.
pub uninterp spec fn lines_of(text: Seq<char>) -> Seq<Seq<char>>;

/// The upper case of a text, as `str::to_uppercase` gives it.
pub uninterp spec fn uppercase_of(text: Seq<char>) -> Seq<char>;

/// The text without the whitespace at its start.
pub open spec fn trim_start_of(text: Seq<char>) -> Seq<char>
    decreases text.len(),
{
    if text.len() > 0 && whitespace(text[0]) {
        trim_start_of(text.skip(1))
    } else {
        text
    }
}

/// The text without the whitespace at its end.
pub open spec fn trim_end_of(text: Seq<char>) -> Seq<char>
    decreases text.len(),
{
    if text.len() > 0 && whitespace(text.last()) {
        trim_end_of(text.drop_last())
    } else {
        text
    }
}

/// The text without the whitespace at its start and at its end.
pub open spec fn trim_of(text: Seq<char>) -> Seq<char> {
    trim_end_of(trim_start_of(text))
}

/// Calls `char::is_whitespace`. Trusted: the result is the property that
/// the contracts call `whitespace`.
#[verifier::external_body]
pub(crate) fn is_whitespace(c: char) -> (r: bool)
    ensures
        r == whitespace(c),
{
    c.is_whitespace()
}

/// Calls `str::lines`. Trusted: the result holds the lines of the text, in
/// order, each as a string of its own; the contracts call them `lines_of`.
#[verifier::external_body]
pub(crate) fn lines(text: &str) -> (r: Vec<String>)
    ensures
        str_models(r@) == lines_of(text@),
{
    text.lines().map(String::from).collect()
}

/// Calls `str::trim`. Trusted: the result is the text without the
/// characters at its start and at its end that `char::is_whitespace` holds
/// of.
#[verifier::external_body]
pub(crate) fn trim(text: &str) -> (r: String)
    ensures
        r@ == trim_of(text@),
{
    String::from(text.trim())
}

/// Calls `str::to_uppercase`. Trusted: the result is the upper case of the
/// text, which the contracts call `uppercase_of`.
#[verifier::external_body]
pub(crate) fn to_uppercase(text: &str) -> (r: String)
    ensures
        r@ == uppercase_of(text@),
{
    text.to_uppercase()
}

/// Calls `String::push`. Trusted: the character is added at the end.
#[verifier::external_body]
pub(crate) fn push_char(s: &mut String, c: char)
    ensures
        final(s)@ == old(s)@.push(c),
{
    s.push(c)
}

} // verus!
