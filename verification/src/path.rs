use crate::text::split_once;
use vstd::prelude::*;
use vstd::string::*;

verus! {

/// The texts that a sequence of strings holds.
pub open spec fn texts(v: Seq<String>) -> Seq<Seq<char>> {
    Seq::new(v.len(), |i: int| v[i]@)
}

/// The number of characters in front of the first `/` of `s`, or the length
/// of `s` when it holds none.
pub open spec fn head_len(s: Seq<char>) -> nat
    decreases s.len(),
{
    if s.len() == 0 || s[0] == '/' {
        0
    } else {
        1 + head_len(s.drop_first())
    }
}

/// The segments of a path: the non-empty pieces between its separators.
pub open spec fn segments(s: Seq<char>) -> Seq<Seq<char>>
    decreases s.len(),
{
    if s.len() == 0 {
        Seq::empty()
    } else {
        let h = head_len(s) as int;
        let rest = if h < s.len() {
            segments(s.subrange(h + 1, s.len() as int))
        } else {
            Seq::empty()
        };
        if h == 0 {
            rest
        } else {
            seq![s.subrange(0, h)] + rest
        }
    }
}

/// The segment `.`, which stands for the directory it is found in.
pub open spec fn dot() -> Seq<char> {
    seq!['.']
}

/// The segment `..`, which stands for the parent directory.
pub open spec fn dot_dot() -> Seq<char> {
    seq!['.', '.']
}

/// What is left of a run of segments once `.` and `..` are resolved.
pub struct Collapsed {
    /// How many `..` found nothing to remove.
    pub escapes: nat,
    /// The segments that remain, in order.
    pub kept: Seq<Seq<char>>,
}

/// Resolves the segments from left to right: `.` is dropped, `..` removes
/// the segment kept last or, with none kept, counts as an escape, and every
/// other segment is kept.
pub open spec fn collapse(segs: Seq<Seq<char>>) -> Collapsed
    decreases segs.len(),
{
    if segs.len() == 0 {
        Collapsed { escapes: 0, kept: Seq::empty() }
    } else {
        let before = collapse(segs.drop_last());
        let last = segs.last();
        if last == dot() {
            before
        } else if last == dot_dot() {
            if before.kept.len() > 0 {
                Collapsed { escapes: before.escapes, kept: before.kept.drop_last() }
            } else {
                Collapsed { escapes: before.escapes + 1, kept: before.kept }
            }
        } else {
            Collapsed { escapes: before.escapes, kept: before.kept.push(last) }
        }
    }
}

/// The normal form of a run of segments: one `..` for each escape, then the
/// segments that were kept.
pub open spec fn normalized(segs: Seq<Seq<char>>) -> Seq<Seq<char>> {
    let c = collapse(segs);
    Seq::new(c.escapes, |i: int| dot_dot()) + c.kept
}

/// `name` appended to `base` with a separator between them; an empty part
/// adds nothing.
pub open spec fn glue(base: Seq<char>, name: Seq<char>) -> Seq<char> {
    if name.len() == 0 {
        base
    } else if base.len() == 0 {
        name
    } else {
        base + seq!['/'] + name
    }
}

/// The parts written one after the other with separators between them.
pub open spec fn joined(parts: Seq<Seq<char>>) -> Seq<char>
    decreases parts.len(),
{
    if parts.len() == 0 {
        Seq::empty()
    } else {
        glue(joined(parts.drop_last()), parts.last())
    }
}

/// The normal form of a path given as text.
pub open spec fn normal_form(path: Seq<char>) -> Seq<char> {
    joined(normalized(segments(path)))
}

/// Where `s` is `head`, a separator and `tail`, and `head` holds no
/// separator, the first segment boundary of `s` is the end of `head`.
pub proof fn lemma_head_len_split(s: Seq<char>, head: Seq<char>, tail: Seq<char>)
    requires
        s == head.push('/') + tail,
        !head.contains('/'),
    ensures
        head_len(s) == head.len(),
        s.subrange(0, head.len() as int) == head,
        s.subrange(head.len() as int + 1, s.len() as int) == tail,
    decreases head.len(),
{
    if head.len() > 0 {
        assert(s.drop_first() == head.drop_first().push('/') + tail);
        assert forall|i: int| 0 <= i < head.drop_first().len() implies head.drop_first()[i]
            != '/' by {
            assert(head[i + 1] != '/');
        }
        lemma_head_len_split(s.drop_first(), head.drop_first(), tail);
    }
}

/// A text without a separator is one segment from end to end.
pub proof fn lemma_head_len_whole(s: Seq<char>)
    requires
        !s.contains('/'),
    ensures
        head_len(s) == s.len(),
    decreases s.len(),
{
    if s.len() > 0 {
        assert forall|i: int| 0 <= i < s.drop_first().len() implies s.drop_first()[i] != '/' by {
            assert(s[i + 1] != '/');
        }
        lemma_head_len_whole(s.drop_first());
    }
}

/// Cuts a path into its segments.
pub fn split_segments(path: &str) -> (r: Vec<String>)
    ensures
        texts(r@) == segments(path@),
{
    let mut out: Vec<String> = Vec::new();
    let mut rest: &str = path;
    loop
        invariant
            segments(path@) == texts(out@) + segments(rest@),
        decreases rest@.len(),
    {
        match split_once(rest, '/') {
            Some((head, tail)) => {
                proof {
                    lemma_head_len_split(rest@, head@, tail@);
                }
                if !head.is_empty() {
                    out.push(head.to_owned());
                }
                rest = tail;
            },
            None => {
                proof {
                    lemma_head_len_whole(rest@);
                }
                if !rest.is_empty() {
                    out.push(rest.to_owned());
                    assert(rest@.subrange(0, rest@.len() as int) == rest@);
                }
                return out;
            },
        }
    }
}

/// Writes the parts one after the other with separators between them.
pub fn join_segments(parts: &Vec<String>) -> (r: String)
    ensures
        r@ == joined(texts(parts@)),
{
    let mut out = String::new();
    let mut i: usize = 0;
    while i < parts.len()
        invariant
            0 <= i <= parts.len(),
            out@ == joined(texts(parts@).take(i as int)),
        decreases parts.len() - i,
    {
        proof {
            reveal_strlit("/");
            assert(texts(parts@).take(i + 1).drop_last() == texts(parts@).take(i as int));
        }
        let part = parts[i].as_str();
        if !part.is_empty() {
            if !out.as_str().is_empty() {
                out.append("/");
            }
            out.append(part);
        }
        i = i + 1;
    }
    proof {
        assert(texts(parts@).take(parts.len() as int) == texts(parts@));
    }
    out
}

/// Brings a path into normal form: `.` segments are dropped, a `..` removes
/// the segment in front of it, and each `..` that finds nothing to remove is
/// kept at the front of the result.
pub fn normalize_path(path: &str) -> (r: String)
    ensures
        r@ == normal_form(path@),
{
    let segs = split_segments(path);
    let mut kept: Vec<String> = Vec::new();
    let mut escapes: Vec<String> = Vec::new();
    let mut i: usize = 0;
    proof {
        reveal_strlit(".");
        reveal_strlit("..");
    }
    let one = String::from_str(".");
    let two = String::from_str("..");
    while i < segs.len()
        invariant
            0 <= i <= segs.len(),
            one@ == dot(),
            two@ == dot_dot(),
            collapse(texts(segs@).take(i as int)).kept == texts(kept@),
            collapse(texts(segs@).take(i as int)).escapes == escapes.len(),
            forall|k: int| 0 <= k < escapes.len() ==> escapes[k]@ == dot_dot(),
        decreases segs.len() - i,
    {
        proof {
            assert(texts(segs@).take(i + 1).drop_last() == texts(segs@).take(i as int));
            assert(dot().len() != dot_dot().len());
        }
        if segs[i] == two {
            if kept.len() > 0 {
                kept.pop();
            } else {
                escapes.push(segs[i].clone());
            }
        } else if !(segs[i] == one) {
            kept.push(segs[i].clone());
        }
        i = i + 1;
    }
    escapes.append(&mut kept);
    proof {
        assert(texts(segs@).take(segs.len() as int) == texts(segs@));
        assert(texts(escapes@) == normalized(segments(path@)));
    }
    join_segments(&escapes)
}

} // verus!
