use crate::entry::{entry_depth, entry_name};
use crate::functions::{run_from, tree_decisions, LineView};
use crate::laws::all_entries;
use crate::path::{normal_form, segments};
use crate::path_stack::{is_absolute, rendered};
use crate::tree_iterator::{advance, apply_entry, decided, start, DecisionView, Machine};
use crate::types::PathKind;
use vstd::prelude::*;

verus! {

/// The depth of the entry that the line at `i` shows.
pub open spec fn depth_at(lines: Seq<LineView>, i: int) -> int {
    entry_depth(lines[i]->Ok_0) as int
}

/// The name of the entry that the line at `i` shows, in normal form.
pub open spec fn name_at(lines: Seq<LineView>, i: int) -> Seq<char> {
    normal_form(entry_name(lines[i]->Ok_0))
}

/// What the entry at `i` is: a directory where the entry behind it lies
/// deeper, a file otherwise.
pub open spec fn kind_at(lines: Seq<LineView>, i: int) -> PathKind {
    if i + 1 < lines.len() && depth_at(lines, i + 1) > depth_at(lines, i) {
        PathKind::Directory
    } else {
        PathKind::FilePath
    }
}

/// Whether the listing is that of a walk through a tree, depth first: every
/// line is an entry, the first entry is not indented, and no entry lies
/// more than one level below the entry before it.
pub open spec fn is_walk(lines: Seq<LineView>) -> bool {
    &&& all_entries(lines)
    &&& lines.len() > 0 ==> depth_at(lines, 0) == 0
    &&& forall|i: int|
        0 < i < lines.len() ==> #[trigger] depth_at(lines, i) <= depth_at(lines, i - 1) + 1
}

/// The last entry in front of `before` that lies at `depth`, or -1 where
/// there is none.
pub open spec fn last_at_depth(lines: Seq<LineView>, before: int, depth: int) -> int
    decreases before,
{
    if before <= 0 {
        -1
    } else if depth_at(lines, before - 1) == depth {
        before - 1
    } else {
        last_at_depth(lines, before - 1, depth)
    }
}

/// The parent of the entry at `i`: the last entry in front of it that lies
/// one level higher, or -1 for an entry at the top.
pub open spec fn parent_of(lines: Seq<LineView>, i: int) -> int {
    last_at_depth(lines, i, depth_at(lines, i) - 1)
}

/// The components of the path of the entry at `i`: those of its parent's
/// path and then its own name, or, for an entry at the top, `base` and
/// then its name.
pub open spec fn path_components(base: Seq<Seq<char>>, lines: Seq<LineView>, i: int) -> Seq<
    Seq<char>,
>
    decreases i,
{
    let parent = parent_of(lines, i);
    if 0 <= parent < i {
        path_components(base, lines, parent).push(name_at(lines, i))
    } else {
        base.push(name_at(lines, i))
    }
}

/// The components of the path once the entry at `i` has taken its place,
/// where the path began as `base`.
pub open spec fn stack_at(base: Seq<Seq<char>>, lines: Seq<LineView>, i: int) -> Seq<Seq<char>>
    decreases i,
{
    if i <= 0 {
        apply_entry(base, depth_at(lines, 0), -1, name_at(lines, 0))
    } else {
        apply_entry(
            stack_at(base, lines, i - 1),
            depth_at(lines, i),
            depth_at(lines, i - 1),
            name_at(lines, i),
        )
    }
}

/// The state in which the entry at `k` waits.
pub open spec fn state_at(
    absolute: bool,
    base: Seq<Seq<char>>,
    lines: Seq<LineView>,
    k: int,
) -> Machine {
    Machine::Good {
        absolute,
        names: if k <= 0 {
            base
        } else {
            stack_at(base, lines, k - 1)
        },
        depth: depth_at(lines, k),
        old_depth: if k <= 0 {
            -1
        } else {
            depth_at(lines, k - 1)
        },
        filename: name_at(lines, k),
    }
}

/// The decisions for the entries from `from` on, each at the path that its
/// entry has left.
pub open spec fn decisions_from(
    absolute: bool,
    base: Seq<Seq<char>>,
    lines: Seq<LineView>,
    from: int,
) -> Seq<DecisionView> {
    Seq::new(
        (lines.len() - from) as nat,
        |j: int|
            decided(rendered(absolute, stack_at(base, lines, from + j)), kind_at(lines, from + j)),
    )
}

/// Where every line is an entry, the run from the entry at `k` on hands
/// out one decision for each entry: the path as the entry has left it, as
/// a directory where the entry behind it lies deeper.
pub proof fn lemma_run_follows_stacks(
    absolute: bool,
    base: Seq<Seq<char>>,
    lines: Seq<LineView>,
    k: int,
)
    requires
        all_entries(lines),
        0 <= k < lines.len(),
    ensures
        run_from(state_at(absolute, base, lines, k), lines.skip(k + 1)) == decisions_from(
            absolute,
            base,
            lines,
            k,
        ),
    decreases lines.len() - k,
{
    let m = state_at(absolute, base, lines, k);
    let behind = lines.skip(k + 1);
    let here = decided(rendered(absolute, stack_at(base, lines, k)), kind_at(lines, k));
    if behind.len() == 0 {
        assert(run_from(m, behind) == seq![here]);
        assert(decisions_from(absolute, base, lines, k) == seq![here]);
    } else {
        assert(behind[0] == lines[k + 1]);
        assert(lines[k + 1] is Ok && lines[k + 1]->Ok_0.len() > 0);
        let after = advance(m, Some(behind[0])).0;
        assert(after == state_at(absolute, base, lines, k + 1));
        assert(behind.drop_first() == lines.skip(k + 2));
        lemma_run_follows_stacks(absolute, base, lines, k + 1);
        let rest = decisions_from(absolute, base, lines, k + 1);
        assert(run_from(m, behind) == seq![here] + rest);
        assert(decisions_from(absolute, base, lines, k) == seq![here] + rest) by {
            let all = decisions_from(absolute, base, lines, k);
            assert(all.len() == rest.len() + 1);
            assert forall|j: int| 0 <= j < all.len() implies all[j] == (seq![here] + rest)[j] by {
                if j > 0 {
                    assert(rest[j - 1] == all[j]);
                }
            }
        }
    }
}

/// Where every line is an entry, a listing gives one decision for each
/// line: the path as the line's entry has left it, as a directory where
/// the entry behind it lies deeper.
pub proof fn lemma_decisions_follow_stacks(root: Seq<char>, lines: Seq<LineView>)
    requires
        all_entries(lines),
    ensures
        tree_decisions(root, lines) == decisions_from(is_absolute(root), segments(root), lines, 0),
{
    if lines.len() > 0 {
        assert(lines[0] is Ok);
        assert(start(root, Some(lines[0])) == state_at(
            is_absolute(root),
            segments(root),
            lines,
            0,
        ));
        assert(lines.drop_first() == lines.skip(1));
        lemma_run_follows_stacks(is_absolute(root), segments(root), lines, 0);
    }
}

/// In a walk, the path that an entry leaves holds `base`, then one name
/// for each level down to the entry, the last of them the entry's own; and
/// down to the entry's level it is the path that the entry before has left.
pub proof fn lemma_walk_stack(base: Seq<Seq<char>>, lines: Seq<LineView>, i: int)
    requires
        is_walk(lines),
        0 <= i < lines.len(),
    ensures
        stack_at(base, lines, i).len() == base.len() + depth_at(lines, i) + 1,
        stack_at(base, lines, i).last() == name_at(lines, i),
        stack_at(base, lines, i).take(base.len() as int) == base,
        i == 0 ==> stack_at(base, lines, i).drop_last() == base,
        i > 0 ==> stack_at(base, lines, i).drop_last() == stack_at(base, lines, i - 1).take(
            base.len() + depth_at(lines, i),
        ),
    decreases i,
{
    let cur = stack_at(base, lines, i);
    if i == 0 {
        assert(cur == base.push(name_at(lines, 0)));
        assert(cur.drop_last() == base);
        assert(cur.take(base.len() as int) == base);
    } else {
        lemma_walk_stack(base, lines, i - 1);
        let prev = stack_at(base, lines, i - 1);
        let d = depth_at(lines, i);
        let old = depth_at(lines, i - 1);
        assert(d <= old + 1);
        if d <= old {
            let left = prev.take(prev.len() - (old - d));
            assert(left.len() == base.len() + d + 1);
            assert(cur == left.drop_last().push(name_at(lines, i)));
            assert(left.drop_last() == prev.take(base.len() + d));
        } else {
            assert(cur == prev.push(name_at(lines, i)));
            assert(prev.take(base.len() + d) == prev);
        }
        assert(cur.drop_last() == prev.take(base.len() + d));
        assert(cur.take(base.len() as int) == prev.take(base.len() as int));
    }
}

/// The last entry in front of `before` at a depth lies in front of
/// `before` and at that depth, where there is one.
pub proof fn lemma_last_at_depth(lines: Seq<LineView>, before: int, depth: int)
    ensures
        -1 <= last_at_depth(lines, before, depth),
        before > 0 ==> last_at_depth(lines, before, depth) < before,
        last_at_depth(lines, before, depth) >= 0 ==> depth_at(
            lines,
            last_at_depth(lines, before, depth),
        ) == depth,
        depth < 0 ==> last_at_depth(lines, before, depth) == -1,
    decreases before,
{
    if before > 0 {
        lemma_last_at_depth(lines, before - 1, depth);
    }
}

/// In a walk, every level down to an entry has an entry of its own on the
/// way: the last entry at that level, up to the entry itself. The path
/// that the entry leaves is, down to that level, the path that this
/// ancestor has left.
pub proof fn lemma_ancestors_on_stack(
    base: Seq<Seq<char>>,
    lines: Seq<LineView>,
    i: int,
    level: int,
)
    requires
        is_walk(lines),
        0 <= i < lines.len(),
        0 <= level <= depth_at(lines, i),
    ensures
        0 <= last_at_depth(lines, i + 1, level) <= i,
        depth_at(lines, last_at_depth(lines, i + 1, level)) == level,
        stack_at(base, lines, i).take(base.len() + level + 1) == stack_at(
            base,
            lines,
            last_at_depth(lines, i + 1, level),
        ),
    decreases i,
{
    let cur = stack_at(base, lines, i);
    lemma_walk_stack(base, lines, i);
    if level == depth_at(lines, i) {
        assert(cur.take(cur.len() as int) == cur);
    } else {
        assert(i > 0);
        let prev = stack_at(base, lines, i - 1);
        assert(depth_at(lines, i) <= depth_at(lines, i - 1) + 1);
        lemma_ancestors_on_stack(base, lines, i - 1, level);
        assert(last_at_depth(lines, i + 1, level) == last_at_depth(lines, i, level));
        let cut = base.len() + level + 1;
        assert(cur.take(cut) == cur.drop_last().take(cut));
        assert(prev.take(base.len() + depth_at(lines, i)).take(cut) == prev.take(cut));
    }
}

/// In a walk, the path that an entry leaves is its parent's path and then
/// its own name, or, for an entry at the top, `base` and then its name.
pub proof fn lemma_stack_is_parent_and_name(base: Seq<Seq<char>>, lines: Seq<LineView>, i: int)
    requires
        is_walk(lines),
        0 <= i < lines.len(),
    ensures
        stack_at(base, lines, i) == path_components(base, lines, i),
        depth_at(lines, i) == 0 ==> parent_of(lines, i) == -1,
        depth_at(lines, i) > 0 ==> 0 <= parent_of(lines, i) < i && depth_at(
            lines,
            parent_of(lines, i),
        ) == depth_at(lines, i) - 1,
    decreases i,
{
    let cur = stack_at(base, lines, i);
    let d = depth_at(lines, i);
    lemma_walk_stack(base, lines, i);
    lemma_last_at_depth(lines, i, d - 1);
    assert(cur == cur.drop_last().push(name_at(lines, i)));
    if d > 0 {
        assert(i > 0);
        assert(d <= depth_at(lines, i - 1) + 1);
        lemma_ancestors_on_stack(base, lines, i - 1, d - 1);
        let parent = parent_of(lines, i);
        lemma_stack_is_parent_and_name(base, lines, parent);
    } else if i > 0 {
        let prev = stack_at(base, lines, i - 1);
        lemma_walk_stack(base, lines, i - 1);
        assert(cur.drop_last() == base);
    }
}

/// The listing of a walk gives the walked tree back: one decision for each
/// line, in order, at the path of the entry's parent joined with the
/// entry's name, or at the root directory joined with the name for an
/// entry at the top; as a directory where the entry behind it lies deeper,
/// and as a file otherwise.
pub proof fn lemma_walk_paths(root: Seq<char>, lines: Seq<LineView>)
    requires
        is_walk(lines),
    ensures
        tree_decisions(root, lines).len() == lines.len(),
        forall|i: int|
            0 <= i < lines.len() ==> (#[trigger] tree_decisions(root, lines)[i]) == decided(
                rendered(is_absolute(root), path_components(segments(root), lines, i)),
                kind_at(lines, i),
            ),
{
    lemma_decisions_follow_stacks(root, lines);
    assert forall|i: int| 0 <= i < lines.len() implies (#[trigger] tree_decisions(root, lines)[i])
        == decided(
        rendered(is_absolute(root), path_components(segments(root), lines, i)),
        kind_at(lines, i),
    ) by {
        lemma_stack_is_parent_and_name(segments(root), lines, i);
    }
}

} // verus!
