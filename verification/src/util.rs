//! String matching used to find host objects and component types by name.

use vstd::prelude::*;
use crate::text::{chars_of, lowercase, str_eq, to_lowercase};

verus! {

/// `needle` can be obtained from `haystack` by deleting characters: its
/// characters occur in `haystack` in the same order, not necessarily adjacent.
pub open spec fn is_subsequence(needle: Seq<char>, haystack: Seq<char>) -> bool
    decreases haystack.len(),
{
    if needle.len() == 0 {
        true
    } else if haystack.len() == 0 {
        false
    } else if needle[0] == haystack[0] {
        is_subsequence(needle.drop_first(), haystack.drop_first())
    } else {
        is_subsequence(needle, haystack.drop_first())
    }
}

/// Whether the characters of `needle` occur in `haystack` in order.
pub fn subsequence_match(haystack: &Vec<char>, needle: &Vec<char>) -> (found: bool)
    ensures
        found == is_subsequence(needle@, haystack@),
{
    let mut matched: usize = 0;
    let mut at: usize = 0;
    assert(needle@.skip(0) =~= needle@ && haystack@.skip(0) =~= haystack@);
    while at < haystack.len() && matched < needle.len()
        invariant
            at <= haystack.len(),
            matched <= needle.len(),
            is_subsequence(needle@, haystack@) == is_subsequence(
                needle@.skip(matched as int),
                haystack@.skip(at as int),
            ),
        decreases haystack.len() - at,
    {
        proof {
            let n = needle@.skip(matched as int);
            let h = haystack@.skip(at as int);
            assert(h.drop_first() =~= haystack@.skip(at as int + 1));
            assert(n.drop_first() =~= needle@.skip(matched as int + 1));
            assert(n[0] == needle@[matched as int]);
            assert(h[0] == haystack@[at as int]);
        }
        if needle[matched] == haystack[at] {
            matched += 1;
        }
        at += 1;
    }
    matched == needle.len()
}

/// Case-insensitive subsequence match: after both texts are lower-cased, the
/// characters of `needle` occur in `haystack` in order.
pub fn fuzzy_match(haystack: &str, needle: &str) -> (found: bool)
    ensures
        found == is_subsequence(lowercase(needle@), lowercase(haystack@)),
{
    let haystack = to_lowercase(haystack);
    let needle = to_lowercase(needle);
    let haystack_chars = chars_of(haystack.as_str());
    let needle_chars = chars_of(needle.as_str());
    subsequence_match(&haystack_chars, &needle_chars)
}

/// Case-insensitive equality: both texts have the same lower-case form.
pub fn case_ignored_match(left: &str, right: &str) -> (same: bool)
    ensures
        same == (lowercase(left@) == lowercase(right@)),
{
    let left = to_lowercase(left);
    let right = to_lowercase(right);
    str_eq(left.as_str(), right.as_str())
}

/// Every text is a subsequence of itself.
pub proof fn lemma_subsequence_reflexive(text: Seq<char>)
    ensures
        is_subsequence(text, text),
    decreases text.len(),
{
    if text.len() > 0 {
        lemma_subsequence_reflexive(text.drop_first());
    }
}

/// A subsequence is never longer than the text it is found in.
pub proof fn lemma_subsequence_length(needle: Seq<char>, haystack: Seq<char>)
    requires
        is_subsequence(needle, haystack),
    ensures
        needle.len() <= haystack.len(),
    decreases haystack.len(),
{
    if needle.len() > 0 && haystack.len() > 0 {
        if needle[0] == haystack[0] {
            lemma_subsequence_length(needle.drop_first(), haystack.drop_first());
        } else {
            lemma_subsequence_length(needle, haystack.drop_first());
        }
    }
}

} // verus!
