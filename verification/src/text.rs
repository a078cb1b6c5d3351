//! String primitives of the standard library that the search is built on, each
//! with the contract the rest of the crate relies on.

use vstd::prelude::*;

verus! {

/// `needle` occurs in `hay` as a contiguous run of characters.
pub open spec fn is_substring(needle: Seq<char>, hay: Seq<char>) -> bool {
    exists|i: int|
        0 <= i && i + needle.len() <= hay.len() && #[trigger] hay.subrange(i, i + needle.len())
            == needle
}

/// The lowercase form that `str::to_lowercase` gives to a string.
pub uninterp spec fn lowercase(s: Seq<char>) -> Seq<char>;

/// `str::contains` with a string pattern: whether `needle` matches a sub-slice
/// of `hay`. Trusted: the result is stated as substring containment on the
/// characters of the two strings.
#[verifier::external_body]
pub(crate) fn contains(hay: &str, needle: &str) -> (found: bool)
    ensures
        found == is_substring(needle@, hay@),
{
    hay.contains(needle)
}

/// `str::to_lowercase`: the lowercase equivalent of `s` as a new `String`.
/// Trusted: the result is only named, as `lowercase` of the characters of `s`.
#[verifier::external_body]
pub(crate) fn to_lowercase(s: &str) -> (lower: String)
    ensures
        lower@ == lowercase(s@),
{
    s.to_lowercase()
}

/// `str::split_once` with the pattern `'\n'`: the text before the first
/// newline and the text after it, or `None` where `s` holds no newline.
/// Trusted: both cases are stated on the characters of `s`.
#[verifier::external_body]
pub(crate) fn split_at_newline<'a>(s: &'a str) -> (parts: Option<(&'a str, &'a str)>)
    ensures
        match parts {
            Some((head, tail)) => s@ == head@ + seq!['\n'] + tail@ && !head@.contains('\n'),
            None => !s@.contains('\n'),
        },
{
    s.split_once('\n')
}

/// `str::strip_suffix` with the pattern `'\r'`: `s` without its final carriage
/// return, or `None` where `s` does not end in one. Trusted: both cases are
/// stated on the characters of `s`.
#[verifier::external_body]
pub(crate) fn strip_carriage_return<'a>(s: &'a str) -> (stripped: Option<&'a str>)
    ensures
        match stripped {
            Some(head) => s@ == head@.push('\r'),
            None => s@.len() == 0 || s@.last() != '\r',
        },
{
    s.strip_suffix('\r')
}

} // verus!
