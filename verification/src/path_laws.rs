use crate::path::{
    collapse, dot, dot_dot, glue, head_len, joined, lemma_head_len_split, lemma_head_len_whole,
    normal_form, normalized, segments,
};
use crate::path_stack::rendered;
use vstd::prelude::*;

verus! {

/// Whether a text can stand as one segment of a path: it is not empty and
/// holds no separator.
pub open spec fn is_segment(s: Seq<char>) -> bool {
    s.len() > 0 && !s.contains('/')
}

/// Whether each of the parts can stand as one segment of a path.
pub open spec fn all_segments(parts: Seq<Seq<char>>) -> bool {
    forall|i: int| 0 <= i < parts.len() ==> is_segment(#[trigger] parts[i])
}

/// The run of `count` segments `..` with which a normal form begins.
pub open spec fn escapes(count: nat) -> Seq<Seq<char>> {
    Seq::new(count, |i: int| dot_dot())
}

/// In a normal form, `.` does not occur, and `..` occurs only at the front:
/// none of the segments that are kept is `.` or `..`.
pub proof fn lemma_normalized_shape(segs: Seq<Seq<char>>)
    ensures
        normalized(segs).len() == collapse(segs).escapes + collapse(segs).kept.len(),
        forall|i: int|
            0 <= i < collapse(segs).escapes ==> (#[trigger] normalized(segs)[i]) == dot_dot(),
        forall|i: int|
            collapse(segs).escapes <= i < normalized(segs).len() ==> {
                &&& (#[trigger] normalized(segs)[i]) != dot()
                &&& normalized(segs)[i] != dot_dot()
            },
{
    lemma_kept_shape(segs);
}

/// None of the segments that are kept is `.` or `..`, and nothing is kept
/// that was not there.
pub proof fn lemma_kept_shape(segs: Seq<Seq<char>>)
    ensures
        collapse(segs).escapes + collapse(segs).kept.len() <= segs.len(),
        forall|i: int|
            0 <= i < collapse(segs).kept.len() ==> {
                &&& (#[trigger] collapse(segs).kept[i]) != dot()
                &&& collapse(segs).kept[i] != dot_dot()
            },
    decreases segs.len(),
{
    if segs.len() > 0 {
        lemma_kept_shape(segs.drop_last());
    }
}

/// A name that is a single segment, and neither `.` nor `..`, is in normal
/// form.
pub proof fn lemma_single_segment_is_normal(name: Seq<char>)
    requires
        name.len() > 0,
        !name.contains('/'),
        name != dot(),
        name != dot_dot(),
    ensures
        normal_form(name) == name,
{
    lemma_head_len_whole(name);
    let segs = segments(name);
    assert(name.subrange(0, name.len() as int) == name);
    assert(segs == seq![name]);
    assert(collapse(segs.drop_last()).kept == Seq::<Seq<char>>::empty());
    assert(normalized(segs) == seq![name]);
    assert(joined(normalized(segs).drop_last()) == Seq::<char>::empty());
}

/// The first segment boundary of a text: no separator stands in front of
/// it, and a separator stands at it unless it is the end of the text.
pub proof fn lemma_head_len_bounds(s: Seq<char>)
    ensures
        head_len(s) <= s.len(),
        forall|i: int| 0 <= i < head_len(s) ==> s[i] != '/',
        head_len(s) < s.len() ==> s[head_len(s) as int] == '/',
    decreases s.len(),
{
    if s.len() > 0 && s[0] != '/' {
        let rest = s.drop_first();
        lemma_head_len_bounds(rest);
        assert forall|i: int| 0 <= i < head_len(s) implies s[i] != '/' by {
            if i > 0 {
                assert(s[i] == rest[i - 1]);
            }
        }
        if head_len(s) < s.len() {
            assert(s[head_len(s) as int] == rest[head_len(rest) as int]);
        }
    }
}

/// Each of the segments of a path can stand as a segment.
pub proof fn lemma_segments_are_segments(s: Seq<char>)
    ensures
        all_segments(segments(s)),
    decreases s.len(),
{
    if s.len() > 0 {
        let h = head_len(s) as int;
        lemma_head_len_bounds(s);
        if h < s.len() {
            lemma_segments_are_segments(s.subrange(h + 1, s.len() as int));
        }
        if h > 0 {
            let head = s.subrange(0, h);
            assert forall|i: int| 0 <= i < head.len() implies head[i] != '/' by {
                assert(head[i] == s[i]);
            }
            assert(is_segment(head));
        }
    }
}

/// A text that can stand as a segment is its own and only segment.
pub proof fn lemma_segments_of_segment(s: Seq<char>)
    requires
        is_segment(s),
    ensures
        segments(s) == seq![s],
{
    lemma_head_len_whole(s);
    assert(s.subrange(0, s.len() as int) == s);
}

/// The segments of two texts with a separator between them are the
/// segments of the first and then those of the second.
pub proof fn lemma_segments_across_separator(a: Seq<char>, b: Seq<char>)
    ensures
        segments(a.push('/') + b) == segments(a) + segments(b),
    decreases a.len(),
{
    let s = a.push('/') + b;
    let h = head_len(a) as int;
    lemma_head_len_bounds(a);
    if h == a.len() {
        assert(!a.contains('/'));
        lemma_head_len_split(s, a, b);
        if h > 0 {
            assert(a.subrange(0, h) == a);
        }
        assert(segments(s) == segments(a) + segments(b));
    } else {
        let front = a.subrange(0, h);
        let back = a.subrange(h + 1, a.len() as int);
        assert(!front.contains('/'));
        assert(a == front.push('/') + back);
        assert(s == front.push('/') + (back.push('/') + b));
        lemma_head_len_split(s, front, back.push('/') + b);
        lemma_segments_across_separator(back, b);
        assert(segments(s) == segments(a) + segments(b));
    }
}

/// Parts that can stand as segments are not lost when they are joined: the
/// joined text is empty only if there are no parts.
proof fn lemma_joined_len(parts: Seq<Seq<char>>)
    requires
        all_segments(parts),
    ensures
        parts.len() > 0 ==> joined(parts).len() > 0,
{
    if parts.len() > 0 {
        assert(is_segment(parts.last()));
    }
}

/// Joining parts that can stand as segments and cutting the result into
/// its segments gives the parts back.
pub proof fn lemma_segments_of_joined(parts: Seq<Seq<char>>)
    requires
        all_segments(parts),
    ensures
        segments(joined(parts)) == parts,
    decreases parts.len(),
{
    if parts.len() > 0 {
        let front = parts.drop_last();
        let last = parts.last();
        assert(is_segment(last));
        assert forall|i: int| 0 <= i < front.len() implies is_segment(#[trigger] front[i]) by {
            assert(front[i] == parts[i]);
        }
        lemma_segments_of_joined(front);
        lemma_segments_of_segment(last);
        lemma_joined_len(front);
        if front.len() > 0 {
            assert(joined(parts) == joined(front).push('/') + last);
            lemma_segments_across_separator(joined(front), last);
        }
        assert(front + seq![last] == parts);
    }
}

/// Resolving a run of `..` followed by segments that are neither `.` nor
/// `..` changes nothing: every `..` escapes, and every other segment is
/// kept.
pub proof fn lemma_collapse_of_normal(count: nat, kept: Seq<Seq<char>>)
    requires
        forall|i: int| 0 <= i < kept.len() ==> (#[trigger] kept[i]) != dot() && kept[i] != dot_dot(),
    ensures
        collapse(escapes(count) + kept).escapes == count,
        collapse(escapes(count) + kept).kept == kept,
    decreases kept.len(), count,
{
    let all = escapes(count) + kept;
    assert(dot().len() != dot_dot().len());
    if kept.len() > 0 {
        assert(all.drop_last() == escapes(count) + kept.drop_last());
        assert(all.last() == kept.last());
        lemma_collapse_of_normal(count, kept.drop_last());
        assert(kept.drop_last().push(kept.last()) == kept);
    } else if count > 0 {
        let fewer = (count - 1) as nat;
        assert(all.drop_last() == escapes(fewer) + kept);
        assert(all.last() == dot_dot());
        lemma_collapse_of_normal(fewer, kept);
    } else {
        assert(all.len() == 0);
    }
}

/// What is kept of segments can stand as segments, like the segments it
/// was taken from.
pub proof fn lemma_kept_are_segments(segs: Seq<Seq<char>>)
    requires
        all_segments(segs),
    ensures
        all_segments(collapse(segs).kept),
    decreases segs.len(),
{
    if segs.len() > 0 {
        let front = segs.drop_last();
        assert forall|i: int| 0 <= i < front.len() implies is_segment(#[trigger] front[i]) by {
            assert(front[i] == segs[i]);
        }
        lemma_kept_are_segments(front);
        assert(is_segment(segs.last()));
    }
}

/// Normal forms are stable: bringing a path in normal form into normal form
/// once more changes nothing.
pub proof fn lemma_normal_form_is_stable(path: Seq<char>)
    ensures
        normal_form(normal_form(path)) == normal_form(path),
{
    let segs = segments(path);
    let parts = normalized(segs);
    let c = collapse(segs);
    lemma_segments_are_segments(path);
    lemma_kept_are_segments(segs);
    lemma_kept_shape(segs);
    assert(is_segment(dot_dot())) by {
        assert(dot_dot().len() == 2);
        assert(dot_dot()[0] == '.' && dot_dot()[1] == '.');
    }
    assert forall|i: int| 0 <= i < parts.len() implies is_segment(#[trigger] parts[i]) by {
        if i >= c.escapes {
            assert(parts[i] == c.kept[i - c.escapes]);
        }
    }
    lemma_segments_of_joined(parts);
    lemma_collapse_of_normal(c.escapes, c.kept);
    assert(parts == escapes(c.escapes) + c.kept);
    assert(normalized(parts) == parts);
}

/// The path of what is called `name` in the directory at the path
/// `parent`: the two with a separator between them, which is left out where
/// the parent is empty or ends in one. An empty name gives the parent.
pub open spec fn child_path(parent: Seq<char>, name: Seq<char>) -> Seq<char> {
    if name.len() == 0 {
        parent
    } else if parent.len() == 0 || parent.last() == '/' {
        parent + name
    } else {
        parent + seq!['/'] + name
    }
}

/// Whether none of the parts ends in a separator.
pub open spec fn no_trailing_separator(parts: Seq<Seq<char>>) -> bool {
    forall|i: int| 0 <= i < parts.len() && parts[i].len() > 0 ==> (#[trigger] parts[i]).last() != '/'
}

/// Parts that do not end in a separator are joined to a text that does not
/// end in one.
pub proof fn lemma_joined_end(parts: Seq<Seq<char>>)
    requires
        no_trailing_separator(parts),
    ensures
        joined(parts).len() > 0 ==> joined(parts).last() != '/',
    decreases parts.len(),
{
    if parts.len() > 0 {
        let front = parts.drop_last();
        assert forall|i: int| 0 <= i < front.len() && front[i].len() > 0 implies (
        #[trigger] front[i]).last() != '/' by {
            assert(front[i] == parts[i]);
        }
        lemma_joined_end(front);
        assert(parts.last() == parts[parts.len() - 1]);
    }
}

/// A path with one more component behind it is the path joined with that
/// component, as a directory's path is joined with the name of what lies
/// in it.
pub proof fn lemma_child_path(absolute: bool, names: Seq<Seq<char>>, name: Seq<char>)
    requires
        no_trailing_separator(names),
    ensures
        rendered(absolute, names.push(name)) == child_path(rendered(absolute, names), name),
{
    let parent = joined(names);
    lemma_joined_end(names);
    assert(names.push(name).drop_last() == names);
    assert(joined(names.push(name)) == glue(parent, name));
    if name.len() > 0 && absolute {
        if parent.len() == 0 {
            assert(seq!['/'] + parent == seq!['/']);
        } else {
            assert((seq!['/'] + parent).last() == parent.last());
            assert(seq!['/'] + (parent + seq!['/'] + name) == seq!['/'] + parent + seq!['/'] + name);
        }
    }
}

} // verus!
