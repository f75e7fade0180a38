use crate::text::{char_len_bound, strip_prefix};
use vstd::prelude::*;

verus! {

/// Four spaces: one level of plain indentation.
pub open spec fn indent_blank() -> Seq<char> {
    seq![' ', ' ', ' ', ' ']
}

/// The branch that leads to the last child of a directory.
pub open spec fn indent_last_child() -> Seq<char> {
    seq!['\u{2514}', '\u{2500}', '\u{2500}', ' ']
}

/// The branch that leads to a child that has later siblings.
pub open spec fn indent_mid_child() -> Seq<char> {
    seq!['\u{251c}', '\u{2500}', '\u{2500}', ' ']
}

/// The vertical line that continues an open directory, padded with spaces.
pub open spec fn indent_continuation() -> Seq<char> {
    seq!['\u{2502}', ' ', ' ', ' ']
}

/// The same vertical line padded with two non-breaking spaces and a space.
pub open spec fn indent_continuation_nbsp() -> Seq<char> {
    seq!['\u{2502}', '\u{a0}', '\u{a0}', ' ']
}

/// The text behind `token`, when `s` starts with it.
pub open spec fn without_prefix(s: Seq<char>, token: Seq<char>) -> Option<Seq<char>> {
    if token.is_prefix_of(s) {
        Some(s.subrange(token.len() as int, s.len() as int))
    } else {
        None
    }
}

/// One level of indentation taken from the front of `s`. The five tokens are
/// tried in a fixed order and the first that matches is taken.
pub open spec fn strip_indent(s: Seq<char>) -> Option<Seq<char>> {
    if without_prefix(s, indent_blank()) is Some {
        without_prefix(s, indent_blank())
    } else if without_prefix(s, indent_last_child()) is Some {
        without_prefix(s, indent_last_child())
    } else if without_prefix(s, indent_mid_child()) is Some {
        without_prefix(s, indent_mid_child())
    } else if without_prefix(s, indent_continuation()) is Some {
        without_prefix(s, indent_continuation())
    } else {
        without_prefix(s, indent_continuation_nbsp())
    }
}

/// Every indentation token is four characters long, so stripping one
/// shortens the text by four.
pub proof fn lemma_strip_indent_len(s: Seq<char>)
    ensures
        strip_indent(s) matches Some(rest) ==> rest.len() + 4 == s.len(),
{
}

/// The number of indentation tokens at the front of `s`.
pub open spec fn entry_depth(s: Seq<char>) -> nat
    decreases s.len(),
{
    match strip_indent(s) {
        Some(rest) => 1 + entry_depth(rest),
        None => 0,
    }
}

/// What is left of `s` once all indentation tokens at its front are gone.
pub open spec fn entry_name(s: Seq<char>) -> Seq<char>
    decreases s.len(),
{
    match strip_indent(s) {
        Some(rest) => entry_name(rest),
        None => s,
    }
}

/// Takes one level of indentation from the front of `s`.
pub fn strip_one(s: &str) -> (r: Option<&str>)
    ensures
        match r {
            Some(rest) => strip_indent(s@) == Some(rest@),
            None => strip_indent(s@) is None,
        },
{
    proof {
        reveal_strlit("    ");
        reveal_strlit("\u{2514}\u{2500}\u{2500} ");
        reveal_strlit("\u{251c}\u{2500}\u{2500} ");
        reveal_strlit("\u{2502}   ");
        reveal_strlit("\u{2502}\u{a0}\u{a0} ");
    }
    match strip_prefix(s, "    ") {
        Some(rest) => Some(rest),
        None => match strip_prefix(s, "\u{2514}\u{2500}\u{2500} ") {
            Some(rest) => Some(rest),
            None => match strip_prefix(s, "\u{251c}\u{2500}\u{2500} ") {
                Some(rest) => Some(rest),
                None => match strip_prefix(s, "\u{2502}   ") {
                    Some(rest) => Some(rest),
                    None => strip_prefix(s, "\u{2502}\u{a0}\u{a0} "),
                },
            },
        },
    }
}

/// Splits a line of a listing into its depth and its name: the depth is the
/// number of indentation tokens at the front of the line, the name is the
/// text behind them.
pub fn get_entry(entry: &str) -> (r: (i64, &str))
    ensures
        r.0 == entry_depth(entry@),
        r.1@ == entry_name(entry@),
{
    char_len_bound(entry);
    let mut depth: i64 = 0;
    let mut rest: &str = entry;
    loop
        invariant
            entry@.len() <= usize::MAX,
            0 <= depth,
            4 * depth + rest@.len() == entry@.len(),
            entry_depth(entry@) == depth + entry_depth(rest@),
            entry_name(entry@) == entry_name(rest@),
        decreases rest@.len(),
    {
        proof {
            lemma_strip_indent_len(rest@);
        }
        match strip_one(rest) {
            Some(suffix) => {
                rest = suffix;
                depth = depth + 1;
            },
            None => {
                return (depth, rest);
            },
        }
    }
}

} // verus!
