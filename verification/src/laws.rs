use crate::entry::{entry_depth, entry_name, strip_indent};
use crate::functions::{emitted_seq, line_read, run_from, tree_decisions, LineView};
use crate::path::{normal_form, segments};
use crate::path_stack::{is_absolute, rendered};
use crate::errors::ErrorView;
use crate::tree_iterator::{
    advance, apply_entry, decided, failed, start, DecisionView, Machine,
};
use crate::types::PathKind;
use vstd::prelude::*;

verus! {

/// A line has depth 0 exactly when no indentation token stands at its
/// front, and then the whole line is the name.
pub proof fn lemma_unindented_has_depth_zero(line: Seq<char>)
    ensures
        strip_indent(line) is None <==> entry_depth(line) == 0,
        strip_indent(line) is None ==> entry_name(line) == line,
{
}

/// A line is its indentation and then its name: the indentation is four
/// characters for each level of depth, the name is what stands behind it,
/// and no indentation token stands at the front of the name.
pub proof fn lemma_entry_splits_line(line: Seq<char>)
    ensures
        4 * entry_depth(line) <= line.len(),
        entry_name(line) == line.subrange(4 * entry_depth(line) as int, line.len() as int),
        strip_indent(entry_name(line)) is None,
    decreases line.len(),
{
    match strip_indent(line) {
        Some(rest) => {
            lemma_entry_splits_line(rest);
            assert(rest == line.subrange(4, line.len() as int));
            assert(rest.subrange(4 * entry_depth(rest) as int, rest.len() as int) == line.subrange(
                4 * entry_depth(line) as int,
                line.len() as int,
            ));
        },
        None => {
            assert(line.subrange(0, line.len() as int) == line);
        },
    }
}

/// A listing without lines gives no decision.
pub proof fn lemma_empty_listing_gives_nothing(root: Seq<char>)
    ensures
        tree_decisions(root, Seq::<LineView>::empty()) == Seq::<DecisionView>::empty(),
{
}

/// A listing of one line, with nothing behind it, gives exactly one
/// decision: the line's name behind the root, as a file.
pub proof fn lemma_single_line_is_a_file(root: Seq<char>, line: Seq<char>)
    ensures
        tree_decisions(root, seq![line_read(line)]) == seq![
            decided(
                rendered(is_absolute(root), segments(root).push(normal_form(entry_name(line)))),
                PathKind::FilePath,
            ),
        ],
{
    let lines: Seq<LineView> = seq![line_read(line)];
    assert(lines.drop_first().len() == 0);
    assert(tree_decisions(root, lines) == emitted_seq(
        advance(start(root, Some(lines[0])), None).1,
    ));
}

/// Whether every decision but the last is a path.
pub open spec fn failure_only_last(decisions: Seq<DecisionView>) -> bool {
    forall|i: int| 0 <= i < decisions.len() - 1 ==> (#[trigger] decisions[i]) is Ok
}

/// From any state, a failure is handed out only as the last decision.
pub proof fn lemma_run_failure_only_last(m: Machine, lines: Seq<LineView>)
    ensures
        failure_only_last(run_from(m, lines)),
        run_from(m, lines).len() <= lines.len() + 1,
        m is Good ==> run_from(m, lines).len() >= 1 && run_from(m, lines)[0] is Ok,
    decreases lines.len(),
{
    if lines.len() > 0 && m is Good {
        let (after, emitted) = advance(m, Some(lines[0]));
        let rest = run_from(after, lines.drop_first());
        lemma_run_failure_only_last(after, lines.drop_first());
        assert(run_from(m, lines) == emitted_seq(emitted) + rest);
        assert forall|i: int| 0 <= i < run_from(m, lines).len() - 1 implies (#[trigger] run_from(
            m,
            lines,
        )[i]) is Ok by {
            if i > 0 {
                assert(run_from(m, lines)[i] == rest[i - 1]);
            }
        }
    }
}

/// A run comes to an end: a listing gives at most one decision for each of
/// its lines and one more, and of these only the last can be a failure.
pub proof fn lemma_decisions_end(root: Seq<char>, lines: Seq<LineView>)
    ensures
        tree_decisions(root, lines).len() <= lines.len() + 1,
        failure_only_last(tree_decisions(root, lines)),
{
    if lines.len() > 0 {
        lemma_run_failure_only_last(start(root, Some(lines[0])), lines.drop_first());
    }
}

/// Whether every line of the listing was read and none is empty.
pub open spec fn all_entries(lines: Seq<LineView>) -> bool {
    forall|i: int| 0 <= i < lines.len() ==> (#[trigger] lines[i]) is Ok && lines[i]->Ok_0.len() > 0
}

/// Behind the first of a run of entries, the lines are again all entries.
proof fn lemma_rest_all_entries(lines: Seq<LineView>)
    requires
        lines.len() > 0,
        all_entries(lines),
    ensures
        lines[0] is Ok,
        lines[0]->Ok_0.len() > 0,
        all_entries(lines.drop_first()),
{
    assert forall|i: int| 0 <= i < lines.drop_first().len() implies (
    #[trigger] lines.drop_first()[i]) is Ok && lines.drop_first()[i]->Ok_0.len() > 0 by {
        assert(lines[i + 1] is Ok);
    }
}

/// From a state that holds an entry, lines that are all entries give one
/// decision each, and one for the entry held.
pub proof fn lemma_run_one_decision_per_entry(m: Machine, lines: Seq<LineView>)
    requires
        m is Good,
        all_entries(lines),
    ensures
        run_from(m, lines).len() == lines.len() + 1,
        forall|i: int| 0 <= i < run_from(m, lines).len() ==> (#[trigger] run_from(m, lines)[i]) is Ok,
    decreases lines.len(),
{
    if lines.len() > 0 {
        let (after, emitted) = advance(m, Some(lines[0]));
        let rest = run_from(after, lines.drop_first());
        lemma_rest_all_entries(lines);
        lemma_run_one_decision_per_entry(after, lines.drop_first());
        assert(run_from(m, lines) == emitted_seq(emitted) + rest);
        assert forall|i: int| 0 <= i < run_from(m, lines).len() implies (#[trigger] run_from(m, lines)[i])
            is Ok by {
            if i > 0 {
                assert(run_from(m, lines)[i] == rest[i - 1]);
            }
        }
    }
}

/// A listing in which every line is an entry gives one decision for each
/// line, and none of them is a failure.
pub proof fn lemma_one_decision_per_entry(root: Seq<char>, lines: Seq<LineView>)
    requires
        lines.len() > 0 ==> lines[0] is Ok,
        all_entries(lines.drop_first()),
    ensures
        tree_decisions(root, lines).len() == lines.len(),
        forall|i: int|
            0 <= i < lines.len() ==> (#[trigger] tree_decisions(root, lines)[i]) is Ok,
{
    if lines.len() > 0 {
        lemma_run_one_decision_per_entry(start(root, Some(lines[0])), lines.drop_first());
    }
}

/// From a state that holds an entry, a listing that goes on with `count`
/// entries and then fails or holds an empty line gives what the entries
/// alone give, and behind that the failure, if it failed. Nothing behind
/// that line matters.
pub proof fn lemma_run_stops(m: Machine, lines: Seq<LineView>, count: int)
    requires
        m is Good,
        0 <= count < lines.len(),
        all_entries(lines.take(count)),
        lines[count] is Err || lines[count]->Ok_0.len() == 0,
    ensures
        run_from(m, lines) == run_from(m, lines.take(count)) + match lines[count] {
            Err(err) => seq![failed(ErrorView::MissingContext(err))],
            Ok(_) => Seq::empty(),
        },
    decreases count,
{
    let front = lines.take(count);
    let after = advance(m, Some(lines[0])).0;
    if count == 0 {
        assert(run_from(after, lines.drop_first()) == match lines[0] {
            Err(err) => seq![failed(ErrorView::MissingContext(err))],
            Ok(_) => Seq::<DecisionView>::empty(),
        });
    } else {
        assert(front[0] == lines[0]);
        assert(front[0] is Ok && front[0]->Ok_0.len() > 0);
        assert(front.drop_first() == lines.drop_first().take(count - 1));
        lemma_rest_all_entries(front);
        lemma_run_stops(after, lines.drop_first(), count - 1);
    }
}

/// A failure or an empty line behind `count` entries ends the listing: the
/// listing gives what the entries alone give, and behind that the failure,
/// if it failed. A failure after two entries gives two decisions and then
/// the failure.
pub proof fn lemma_listing_stops(root: Seq<char>, lines: Seq<LineView>, count: int)
    requires
        0 < count < lines.len(),
        lines[0] is Ok,
        all_entries(lines.take(count).drop_first()),
        lines[count] is Err || lines[count]->Ok_0.len() == 0,
    ensures
        tree_decisions(root, lines) == tree_decisions(root, lines.take(count)) + match lines[count] {
            Err(err) => seq![failed(ErrorView::MissingContext(err))],
            Ok(_) => Seq::empty(),
        },
        tree_decisions(root, lines.take(count)).len() == count,
{
    let front = lines.take(count);
    assert(front[0] == lines[0]);
    assert(front.drop_first() == lines.drop_first().take(count - 1));
    lemma_run_stops(start(root, Some(lines[0])), lines.drop_first(), count - 1);
    lemma_one_decision_per_entry(root, front);
}

/// A listing whose first line fails gives the failure and nothing else.
pub proof fn lemma_failure_at_once(root: Seq<char>, lines: Seq<LineView>)
    requires
        lines.len() > 0,
        lines[0] is Err,
    ensures
        tree_decisions(root, lines) == seq![failed(ErrorView::MissingContext(lines[0]->Err_0))],
{
}

/// How many levels an entry leaves before it takes its place: one for each
/// step that it lies higher than the entry before it, as far as there are
/// levels to leave.
pub open spec fn levels_left(levels: nat, depth: int, old_depth: int) -> nat {
    if depth > old_depth {
        0
    } else if old_depth - depth < levels {
        (old_depth - depth) as nat
    } else {
        levels
    }
}

/// How many levels an entry enters as it takes its place: one where it lies
/// deeper than the entry before it or finds no level to take the place of,
/// none where it takes the place of the innermost level.
pub open spec fn levels_entered(levels: nat, depth: int, old_depth: int) -> nat {
    if depth > old_depth || old_depth - depth >= levels {
        1
    } else {
        0
    }
}

/// What a run has done to the path by the time it ends.
pub struct StackTally {
    /// How many times a component was put behind the path.
    pub pushes: nat,
    /// How many times a component was taken from the path.
    pub pops: nat,
    /// The components of the path at the end.
    pub names: Seq<Seq<char>>,
}

/// The tally of the run that `run_from` describes: of every entry that takes its
/// place on the stack from the state `m` on, up to the first empty line, the
/// first failure or the end of `lines`.
pub open spec fn stack_tally(m: Machine, lines: Seq<LineView>) -> StackTally
    decreases lines.len(),
{
    match m {
        Machine::Good { names, depth, old_depth, filename, .. } => {
            let pushes = levels_entered(names.len(), depth, old_depth);
            let pops = levels_left(names.len(), depth, old_depth);
            if lines.len() > 0 && advance(m, Some(lines[0])).0 is Good {
                let rest = stack_tally(advance(m, Some(lines[0])).0, lines.drop_first());
                StackTally {
                    pushes: pushes + rest.pushes,
                    pops: pops + rest.pops,
                    names: rest.names,
                }
            } else {
                StackTally { pushes, pops, names: apply_entry(names, depth, old_depth, filename) }
            }
        },
        _ => StackTally { pushes: 0, pops: 0, names: Seq::empty() },
    }
}

/// The tally of a whole listing, which begins with the path of the root
/// directory.
pub open spec fn listing_tally(root: Seq<char>, lines: Seq<LineView>) -> StackTally {
    if lines.len() > 0 && lines[0] is Ok {
        stack_tally(start(root, Some(lines[0])), lines.drop_first())
    } else {
        StackTally { pushes: 0, pops: 0, names: segments(root) }
    }
}

/// An entry that does not lie deeper than the entry before it, and finds
/// enough components on the path, takes one component for each step that it
/// lies higher and is put in the place of the last that remains: the path
/// is shortened by one more than the difference of the depths, and the name
/// is put behind what is left. The components of the root directory are
/// taken like any others.
pub proof fn lemma_step_replaces(
    names: Seq<Seq<char>>,
    depth: int,
    old_depth: int,
    filename: Seq<char>,
)
    requires
        depth <= old_depth,
        names.len() >= old_depth - depth + 1,
    ensures
        apply_entry(names, depth, old_depth, filename) == names.take(
            names.len() - (old_depth - depth) - 1,
        ).push(filename),
{
    let left = names.take(names.len() - (old_depth - depth));
    assert(left.drop_last() == names.take(names.len() - (old_depth - depth) - 1));
}

/// A step keeps the balance of the path: where the path holds `base`
/// components more than the depth of the entry before asks for, it holds
/// `base` more than the depth of the entry that took its place.
pub proof fn lemma_step_keeps_balance(
    names: Seq<Seq<char>>,
    base: nat,
    depth: int,
    old_depth: int,
    filename: Seq<char>,
)
    requires
        -1 <= old_depth,
        0 <= depth <= old_depth + 1,
        names.len() == base + old_depth + 1,
    ensures
        apply_entry(names, depth, old_depth, filename).len() == base + depth + 1,
{
}

/// An entry changes the number of names on the stack by the levels it
/// enters less the levels it leaves.
pub proof fn lemma_apply_entry_len(
    names: Seq<Seq<char>>,
    depth: int,
    old_depth: int,
    filename: Seq<char>,
)
    ensures
        apply_entry(names, depth, old_depth, filename).len() + levels_left(
            names.len(),
            depth,
            old_depth,
        ) == names.len() + levels_entered(names.len(), depth, old_depth),
{
}

/// From any state that holds an entry, the levels left over the rest of the
/// run are the levels entered and the names that were on the stack, less
/// the names that are on it at the end.
pub proof fn lemma_stack_balance_from(m: Machine, lines: Seq<LineView>)
    requires
        m is Good,
    ensures
        stack_tally(m, lines).pops + stack_tally(m, lines).names.len() == stack_tally(
            m,
            lines,
        ).pushes + m->Good_names.len(),
    decreases lines.len(),
{
    lemma_apply_entry_len(m->Good_names, m->Good_depth, m->Good_old_depth, m->Good_filename);
    if lines.len() > 0 && advance(m, Some(lines[0])).0 is Good {
        lemma_stack_balance_from(advance(m, Some(lines[0])).0, lines.drop_first());
    }
}

/// Stack balance: over a whole listing, the number of components taken
/// from the path is the number of components put behind it less the number
/// by which the path has grown beyond the root directory when the listing
/// ends.
pub proof fn lemma_stack_balance(root: Seq<char>, lines: Seq<LineView>)
    ensures
        listing_tally(root, lines).pops == listing_tally(root, lines).pushes - (listing_tally(
            root,
            lines,
        ).names.len() - segments(root).len()),
{
    if lines.len() > 0 && lines[0] is Ok {
        lemma_stack_balance_from(start(root, Some(lines[0])), lines.drop_first());
    }
}

/// Whether the depths from the state `m` on describe a tree: no entry lies
/// more than one level below the entry before it.
pub open spec fn depths_well_formed(m: Machine, lines: Seq<LineView>) -> bool
    decreases lines.len(),
{
    match m {
        Machine::Good { depth, old_depth, .. } => {
            &&& 0 <= depth <= old_depth + 1
            &&& lines.len() > 0 && advance(m, Some(lines[0])).0 is Good ==> depths_well_formed(
                advance(m, Some(lines[0])).0,
                lines.drop_first(),
            )
        },
        _ => true,
    }
}

/// The depth of the last entry that takes its place on the stack.
pub open spec fn last_depth(m: Machine, lines: Seq<LineView>) -> int
    decreases lines.len(),
{
    match m {
        Machine::Good { depth, .. } => if lines.len() > 0 && advance(m, Some(lines[0])).0
            is Good {
            last_depth(advance(m, Some(lines[0])).0, lines.drop_first())
        } else {
            depth
        },
        _ => -1,
    }
}

/// The levels that the depths alone ask to leave: for each entry that does
/// not lie deeper than the entry before it, the difference of their depths.
pub open spec fn ascents(m: Machine, lines: Seq<LineView>) -> int
    decreases lines.len(),
{
    match m {
        Machine::Good { depth, old_depth, .. } => {
            let here = if depth <= old_depth {
                old_depth - depth
            } else {
                0
            };
            if lines.len() > 0 && advance(m, Some(lines[0])).0 is Good {
                here + ascents(advance(m, Some(lines[0])).0, lines.drop_first())
            } else {
                here
            }
        },
        _ => 0,
    }
}

/// The number of entries that lie deeper than the entry before them.
pub open spec fn descents(m: Machine, lines: Seq<LineView>) -> int
    decreases lines.len(),
{
    match m {
        Machine::Good { depth, old_depth, .. } => {
            let here: int = if depth > old_depth {
                1
            } else {
                0
            };
            if lines.len() > 0 && advance(m, Some(lines[0])).0 is Good {
                here + descents(advance(m, Some(lines[0])).0, lines.drop_first())
            } else {
                here
            }
        },
        _ => 0,
    }
}

/// Where the depths describe a tree and the path holds, behind `base`
/// components, one name for each level down to the entry before, every
/// change of depth is matched by operations on the path one for one: a
/// component is put behind it for each descent, a component is taken for
/// each step up, and at the end the path holds, behind the same `base`
/// components, one name for each level down to the last entry.
pub proof fn lemma_depths_match_stack_from(m: Machine, base: nat, lines: Seq<LineView>)
    requires
        m is Good,
        m->Good_names.len() == base + m->Good_old_depth + 1,
        depths_well_formed(m, lines),
    ensures
        stack_tally(m, lines).pushes == descents(m, lines),
        stack_tally(m, lines).pops == ascents(m, lines),
        stack_tally(m, lines).names.len() == base + last_depth(m, lines) + 1,
    decreases lines.len(),
{
    lemma_apply_entry_len(m->Good_names, m->Good_depth, m->Good_old_depth, m->Good_filename);
    if lines.len() > 0 && advance(m, Some(lines[0])).0 is Good {
        lemma_depths_match_stack_from(advance(m, Some(lines[0])).0, base, lines.drop_first());
    }
}

/// Whether a listing describes a tree: its first entry is not indented, and
/// no entry lies more than one level below the entry before it.
pub open spec fn listing_well_formed(root: Seq<char>, lines: Seq<LineView>) -> bool {
    lines.len() > 0 && lines[0] is Ok ==> entry_depth(lines[0]->Ok_0) == 0 && depths_well_formed(
        start(root, Some(lines[0])),
        lines.drop_first(),
    )
}

/// Over a listing that describes a tree, the path ends with one name for
/// each level down to the last entry behind the components of the root
/// directory, and the components taken and put are those that the depths
/// ask for.
pub proof fn lemma_depths_match_stack(root: Seq<char>, lines: Seq<LineView>)
    requires
        lines.len() > 0,
        lines[0] is Ok,
        listing_well_formed(root, lines),
    ensures
        listing_tally(root, lines).pushes == descents(
            start(root, Some(lines[0])),
            lines.drop_first(),
        ),
        listing_tally(root, lines).pops == ascents(
            start(root, Some(lines[0])),
            lines.drop_first(),
        ),
        listing_tally(root, lines).names.len() == segments(root).len() + last_depth(
            start(root, Some(lines[0])),
            lines.drop_first(),
        ) + 1,
{
    lemma_depths_match_stack_from(
        start(root, Some(lines[0])),
        segments(root).len(),
        lines.drop_first(),
    );
}

/// Whether every line of the listing was read, is not empty, and holds no
/// indentation.
pub open spec fn all_unindented(lines: Seq<LineView>) -> bool {
    forall|i: int|
        0 <= i < lines.len() ==> {
            &&& (#[trigger] lines[i]) is Ok
            &&& lines[i]->Ok_0.len() > 0
            &&& strip_indent(lines[i]->Ok_0) is None
        }
}

/// Behind the first of a run of lines without indentation, the lines are
/// again without indentation.
proof fn lemma_rest_all_unindented(lines: Seq<LineView>)
    requires
        lines.len() > 0,
        all_unindented(lines),
    ensures
        lines[0] is Ok,
        lines[0]->Ok_0.len() > 0,
        strip_indent(lines[0]->Ok_0) is None,
        all_unindented(lines.drop_first()),
{
    let rest = lines.drop_first();
    assert forall|i: int| 0 <= i < rest.len() implies {
        &&& (#[trigger] rest[i]) is Ok
        &&& rest[i]->Ok_0.len() > 0
        &&& strip_indent(rest[i]->Ok_0) is None
    } by {
        assert(lines[i + 1] is Ok);
    }
}

/// From a state that holds an entry at the top, lines without indentation
/// give one file each, right behind the components `base`.
pub proof fn lemma_run_flat(m: Machine, base: Seq<Seq<char>>, lines: Seq<LineView>)
    requires
        m is Good,
        m->Good_depth == 0,
        m->Good_old_depth == -1 && m->Good_names == base || m->Good_old_depth == 0
            && m->Good_names.len() > 0 && m->Good_names.drop_last() == base,
        all_unindented(lines),
    ensures
        run_from(m, lines).len() == lines.len() + 1,
        run_from(m, lines)[0] == decided(
            rendered(m->Good_absolute, base.push(m->Good_filename)),
            PathKind::FilePath,
        ),
        forall|i: int|
            0 <= i < lines.len() ==> (#[trigger] run_from(m, lines)[i + 1]) == decided(
                rendered(m->Good_absolute, base.push(normal_form(lines[i]->Ok_0))),
                PathKind::FilePath,
            ),
    decreases lines.len(),
{
    let placed = apply_entry(m->Good_names, 0, m->Good_old_depth, m->Good_filename);
    assert(placed == base.push(m->Good_filename)) by {
        if m->Good_old_depth == 0 {
            assert(m->Good_names.take(m->Good_names.len() as int) == m->Good_names);
        }
    }
    assert(placed.drop_last() == base);
    if lines.len() > 0 {
        let (after, emitted) = advance(m, Some(lines[0]));
        let rest = lines.drop_first();
        lemma_rest_all_unindented(lines);
        lemma_run_flat(after, base, rest);
        assert(run_from(m, lines) == emitted_seq(emitted) + run_from(after, rest));
        assert forall|i: int| 0 <= i < lines.len() implies (#[trigger] run_from(m, lines)[i + 1])
            == decided(
            rendered(m->Good_absolute, base.push(normal_form(lines[i]->Ok_0))),
            PathKind::FilePath,
        ) by {
            if i > 0 {
                assert(run_from(after, rest)[(i - 1) + 1] == decided(
                    rendered(m->Good_absolute, base.push(normal_form(rest[i - 1]->Ok_0))),
                    PathKind::FilePath,
                ));
            }
        }
    }
}

/// A listing without indentation is flat: every entry has depth 0, and the
/// listing gives one file for each line, right behind the root directory.
pub proof fn lemma_flat_listing(root: Seq<char>, lines: Seq<LineView>)
    requires
        all_unindented(lines),
    ensures
        forall|i: int| 0 <= i < lines.len() ==> entry_depth((#[trigger] lines[i])->Ok_0) == 0,
        tree_decisions(root, lines).len() == lines.len(),
        forall|i: int|
            0 <= i < lines.len() ==> (#[trigger] tree_decisions(root, lines)[i]) == decided(
                rendered(is_absolute(root), segments(root).push(normal_form(lines[i]->Ok_0))),
                PathKind::FilePath,
            ),
{
    if lines.len() > 0 {
        let rest = lines.drop_first();
        let m = start(root, Some(lines[0]));
        lemma_rest_all_unindented(lines);
        lemma_run_flat(m, segments(root), rest);
        assert forall|i: int| 0 <= i < lines.len() implies (#[trigger] tree_decisions(
            root,
            lines,
        )[i]) == decided(
            rendered(is_absolute(root), segments(root).push(normal_form(lines[i]->Ok_0))),
            PathKind::FilePath,
        ) by {
            if i > 0 {
                assert(run_from(m, rest)[(i - 1) + 1] == decided(
                    rendered(is_absolute(root), segments(root).push(normal_form(rest[i - 1]->Ok_0))),
                    PathKind::FilePath,
                ));
            }
        }
    }
}

} // verus!
