use vstd::prelude::*;

verus! {

/// Calls `str::strip_prefix` with a string as the pattern. The contract is
/// the one std documents: when `s` starts with `prefix` the result is the
/// rest of `s` behind it, otherwise there is no result.
#[verifier::external_body]
pub(crate) fn strip_prefix<'a>(s: &'a str, prefix: &str) -> (r: Option<&'a str>)
    ensures
        match r {
            Some(rest) => prefix@.is_prefix_of(s@) && rest@ == s@.subrange(
                prefix@.len() as int,
                s@.len() as int,
            ),
            None => !prefix@.is_prefix_of(s@),
        },
{
    s.strip_prefix(prefix)
}

/// Calls `str::split_once` with a `char` as the delimiter. The contract is
/// the one std documents: the split is made at the first occurrence of the
/// delimiter, which belongs to neither part, and there is no result when the
/// delimiter does not occur.
#[verifier::external_body]
pub(crate) fn split_once<'a>(s: &'a str, delimiter: char) -> (r: Option<(&'a str, &'a str)>)
    ensures
        match r {
            Some((head, tail)) => s@ == head@.push(delimiter) + tail@ && !head@.contains(
                delimiter,
            ),
            None => !s@.contains(delimiter),
        },
{
    s.split_once(delimiter)
}

/// A sequence of characters is never longer than its UTF-8 encoding.
pub proof fn lemma_chars_within_bytes(chars: Seq<char>)
    ensures
        chars.len() <= vstd::utf8::encode_utf8(chars).len(),
    decreases chars.len(),
{
    if chars.len() > 0 {
        lemma_chars_within_bytes(chars.drop_first());
    }
}

/// Establishes that the number of characters of a string fits in `usize`.
pub fn char_len_bound(s: &str)
    ensures
        s@.len() <= usize::MAX,
{
    let bytes = s.as_bytes();
    let n: usize = bytes.len();
    proof {
        lemma_chars_within_bytes(s@);
    }
}

} // verus!
