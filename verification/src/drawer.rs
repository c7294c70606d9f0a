//! The rule that decides whether a new bookmark may be submitted.

use vstd::prelude::*;

verus! {

/// Whether `link` begins with one of the two accepted schemes.
pub open spec fn has_web_scheme(link: Seq<char>) -> bool {
    "http://"@.is_prefix_of(link) || "https://"@.is_prefix_of(link)
}

/// `str::starts_with` with a string pattern tells whether the pattern is a
/// prefix of the string.
#[verifier::external_body]
fn starts_with(text: &str, prefix: &str) -> (r: bool)
    ensures
        r == prefix@.is_prefix_of(text@),
{
    text.starts_with(prefix)
}

/// Whether the form for a new bookmark is closed to submission: it is when
/// the title is empty or the link has neither accepted scheme.
pub fn is_drawer_disabled(title: &str, link: &str) -> (r: bool)
    ensures
        r == (title@.len() == 0 || !has_web_scheme(link@)),
{
    let http = starts_with(link, "http://");
    let https = starts_with(link, "https://");
    title.is_empty() || !(http || https)
}

} // verus!
