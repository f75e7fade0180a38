use crate::entry::{entry_depth, entry_name, indent_blank, strip_indent};
use crate::errors::ErrorView;
use crate::functions::{run_from, tree_decisions, LineView};
use crate::path::{normal_form, segments};
use crate::path_stack::{is_absolute, rendered};
use crate::tree_iterator::{advance, apply_entry, decided, failed, DecisionView, Machine};
use crate::types::PathKind;
use vstd::prelude::*;

verus! {

/// A directory tree as it is found on disk: files, and directories with
/// what they hold, in the order in which a listing shows them.
pub enum TreeNode {
    File { name: Seq<char> },
    Directory { name: Seq<char>, children: Seq<TreeNode> },
}

/// One node as a walk through the tree meets it.
pub struct TreeEntry {
    /// How many directories of the tree lie above the node.
    pub depth: int,
    /// The node's own name.
    pub name: Seq<char>,
    /// The components of the node's path: those of the directory that the
    /// tree stands in, then the names from the top of the tree down to the
    /// node.
    pub names: Seq<Seq<char>>,
    /// Whether the node is a file or a directory.
    pub kind: PathKind,
}

/// The name of a node.
pub open spec fn node_name(node: TreeNode) -> Seq<char> {
    match node {
        TreeNode::File { name } => name,
        TreeNode::Directory { name, .. } => name,
    }
}

/// The node itself and then everything below it, depth first, where `above`
/// holds the components of the directory that the node lies in, and
/// `depth` says how many directories of the tree lie above the node.
pub open spec fn node_entries(node: TreeNode, above: Seq<Seq<char>>, depth: int) -> Seq<TreeEntry>
    decreases node,
{
    match node {
        TreeNode::File { name } => seq![
            TreeEntry { depth, name, names: above.push(name), kind: PathKind::FilePath },
        ],
        TreeNode::Directory { name, children } => seq![
            TreeEntry { depth, name, names: above.push(name), kind: PathKind::Directory },
        ] + forest_entries(children, above.push(name), depth + 1),
    }
}

/// The nodes one after the other, each with everything below it.
pub open spec fn forest_entries(nodes: Seq<TreeNode>, above: Seq<Seq<char>>, depth: int) -> Seq<
    TreeEntry,
>
    decreases nodes,
{
    if nodes.len() == 0 {
        Seq::empty()
    } else {
        node_entries(nodes[0], above, depth) + forest_entries(nodes.drop_first(), above, depth)
    }
}

/// The entries of a forest that stands in the directory `root`, from the
/// top of the forest on.
pub open spec fn tree_entries(root: Seq<char>, forest: Seq<TreeNode>) -> Seq<TreeEntry> {
    forest_entries(forest, segments(root), 0)
}

/// Whether a listing can show the node without loss: every name is in
/// normal form, and every directory holds something. A directory that holds
/// nothing looks like a file in a listing.
pub open spec fn node_well_formed(node: TreeNode) -> bool
    decreases node,
{
    match node {
        TreeNode::File { name } => normal_form(name) == name,
        TreeNode::Directory { name, children } => {
            &&& normal_form(name) == name
            &&& children.len() > 0
            &&& forest_well_formed(children)
        },
    }
}

/// Whether a listing can show each of the nodes without loss.
pub open spec fn forest_well_formed(nodes: Seq<TreeNode>) -> bool
    decreases nodes,
{
    nodes.len() == 0 || (node_well_formed(nodes[0]) && forest_well_formed(nodes.drop_first()))
}

/// Whether the line shows the entry: it was read, it is not empty, and it
/// holds the entry's name at the entry's depth.
pub open spec fn line_shows(line: LineView, entry: TreeEntry) -> bool {
    &&& line is Ok
    &&& line->Ok_0.len() > 0
    &&& entry_depth(line->Ok_0) == entry.depth
    &&& entry_name(line->Ok_0) == entry.name
}

/// Whether the lines from `from` on show the entries, one line for each.
pub open spec fn lines_show(lines: Seq<LineView>, from: int, entries: Seq<TreeEntry>) -> bool {
    &&& 0 <= from
    &&& from + entries.len() <= lines.len()
    &&& forall|j: int| 0 <= j < entries.len() ==> line_shows(#[trigger] lines[from + j], entries[j])
}

/// The decisions that create the entries.
pub open spec fn expected(absolute: bool, entries: Seq<TreeEntry>) -> Seq<DecisionView> {
    Seq::new(
        entries.len(),
        |i: int| decided(rendered(absolute, entries[i].names), entries[i].kind),
    )
}

/// Whether the line at `at` ends the part of the tree that lies `depth`
/// levels deep: the listing ends there, or the line is empty or failed, or
/// it shows an entry that lies no deeper.
pub open spec fn part_ends(lines: Seq<LineView>, at: int, depth: int) -> bool {
    at >= lines.len() || match lines[at] {
        Ok(text) => text.len() == 0 || entry_depth(text) <= depth,
        Err(_) => true,
    }
}

/// The state in which the entry `name` at `depth` waits on the path
/// `names` that the entry at `old_depth` has left.
pub open spec fn holding(
    absolute: bool,
    names: Seq<Seq<char>>,
    old_depth: int,
    depth: int,
    name: Seq<char>,
) -> Machine {
    Machine::Good { absolute, names, depth, old_depth, filename: name }
}

/// What a run hands out from the line at the front of `lines` on, when the
/// path holds `names` and the entry at `old_depth`, for which it stands,
/// has just been handed out as a file.
pub open spec fn resume(
    absolute: bool,
    names: Seq<Seq<char>>,
    old_depth: int,
    lines: Seq<LineView>,
) -> Seq<DecisionView> {
    if lines.len() == 0 {
        Seq::empty()
    } else {
        match lines[0] {
            Err(err) => seq![failed(ErrorView::MissingContext(err))],
            Ok(text) => if text.len() == 0 {
                Seq::empty()
            } else {
                run_from(
                    holding(
                        absolute,
                        names,
                        old_depth,
                        entry_depth(text) as int,
                        normal_form(entry_name(text)),
                    ),
                    lines.drop_first(),
                )
            },
        }
    }
}

/// Whether a path of `names`, left by an entry at `old_depth`, is where an
/// entry at `depth` in the directory `above` expects it: either the path
/// is `above` and the entry descends, or the path runs through `above` and
/// on down to the entry before.
pub open spec fn aligned(
    names: Seq<Seq<char>>,
    old_depth: int,
    above: Seq<Seq<char>>,
    depth: int,
) -> bool {
    ||| old_depth < depth && names == above
    ||| {
        &&& old_depth >= depth
        &&& names.len() == above.len() + (old_depth - depth) + 1
        &&& names.take(above.len() as int) == above
    }
}

/// The entries of a node begin with the node itself, and all of them lie
/// in the directory that the node lies in.
pub proof fn lemma_node_shape(node: TreeNode, above: Seq<Seq<char>>, depth: int)
    ensures
        node_entries(node, above, depth).len() >= 1,
        node_entries(node, above, depth)[0].depth == depth,
        node_entries(node, above, depth)[0].name == node_name(node),
        node_entries(node, above, depth)[0].names == above.push(node_name(node)),
        node is File ==> node_entries(node, above, depth).len() == 1 && node_entries(
            node,
            above,
            depth,
        )[0].kind == PathKind::FilePath,
        node is Directory ==> node_entries(node, above, depth)[0].kind == PathKind::Directory,
        forall|j: int|
            0 <= j < node_entries(node, above, depth).len() ==> {
                let e = #[trigger] node_entries(node, above, depth)[j];
                &&& e.depth >= depth
                &&& e.names.len() == above.len() + (e.depth - depth) + 1
                &&& e.names.take(above.len() as int) == above
            },
    decreases node,
{
    if let TreeNode::Directory { name, children } = node {
        let es = node_entries(node, above, depth);
        let below = forest_entries(children, above.push(name), depth + 1);
        lemma_forest_shape(children, above.push(name), depth + 1);
        assert forall|j: int| 0 <= j < es.len() implies {
            let e = #[trigger] es[j];
            &&& e.depth >= depth
            &&& e.names.len() == above.len() + (e.depth - depth) + 1
            &&& e.names.take(above.len() as int) == above
        } by {
            if j > 0 {
                assert(es[j] == below[j - 1]);
                assert(es[j].names.take(above.len() as int) == es[j].names.take(
                    above.len() as int + 1,
                ).take(above.len() as int));
            }
        }
    }
}

/// All entries of a forest lie in the directory that the forest lies in.
pub proof fn lemma_forest_shape(nodes: Seq<TreeNode>, above: Seq<Seq<char>>, depth: int)
    ensures
        nodes.len() > 0 ==> forest_entries(nodes, above, depth).len() >= 1 && forest_entries(
            nodes,
            above,
            depth,
        )[0] == node_entries(nodes[0], above, depth)[0],
        forall|j: int|
            0 <= j < forest_entries(nodes, above, depth).len() ==> {
                let e = #[trigger] forest_entries(nodes, above, depth)[j];
                &&& e.depth >= depth
                &&& e.names.len() == above.len() + (e.depth - depth) + 1
                &&& e.names.take(above.len() as int) == above
            },
    decreases nodes,
{
    if nodes.len() > 0 {
        lemma_node_shape(nodes[0], above, depth);
        lemma_forest_shape(nodes.drop_first(), above, depth);
        let first = node_entries(nodes[0], above, depth);
        let rest = forest_entries(nodes.drop_first(), above, depth);
        let es = forest_entries(nodes, above, depth);
        assert forall|j: int| 0 <= j < es.len() implies {
            let e = #[trigger] es[j];
            &&& e.depth >= depth
            &&& e.names.len() == above.len() + (e.depth - depth) + 1
            &&& e.names.take(above.len() as int) == above
        } by {
            if j < first.len() {
                assert(es[j] == first[j]);
            } else {
                assert(es[j] == rest[j - first.len()]);
            }
        }
    }
}

/// The names of well-formed nodes are in normal form.
proof fn lemma_first_name_normal(nodes: Seq<TreeNode>)
    requires
        nodes.len() > 0,
        forest_well_formed(nodes),
    ensures
        node_well_formed(nodes[0]),
        forest_well_formed(nodes.drop_first()),
        normal_form(node_name(nodes[0])) == node_name(nodes[0]),
{
}

/// An entry that finds the path where it expects it takes its place right
/// behind the directory it lies in.
proof fn lemma_aligned_entry(
    names: Seq<Seq<char>>,
    old_depth: int,
    above: Seq<Seq<char>>,
    depth: int,
    name: Seq<char>,
)
    requires
        aligned(names, old_depth, above, depth),
    ensures
        apply_entry(names, depth, old_depth, name) == above.push(name),
{
    if old_depth >= depth {
        assert(names.take(above.len() as int + 1).drop_last() == names.take(above.len() as int));
    }
}

/// An entry behind which its part of the tree ends is handed out as a
/// file, and the run goes on from the line behind it.
proof fn lemma_leaf_step(
    absolute: bool,
    names: Seq<Seq<char>>,
    old_depth: int,
    above: Seq<Seq<char>>,
    depth: int,
    name: Seq<char>,
    lines: Seq<LineView>,
    k: int,
)
    requires
        0 <= k < lines.len(),
        aligned(names, old_depth, above, depth),
        part_ends(lines, k + 1, depth),
    ensures
        run_from(holding(absolute, names, old_depth, depth, name), lines.skip(k + 1)) == seq![
            decided(rendered(absolute, above.push(name)), PathKind::FilePath),
        ] + resume(absolute, above.push(name), depth, lines.skip(k + 1)),
{
    lemma_aligned_entry(names, old_depth, above, depth, name);
    let m = holding(absolute, names, old_depth, depth, name);
    let behind = lines.skip(k + 1);
    if behind.len() > 0 {
        let after = advance(m, Some(behind[0])).0;
        match behind[0] {
            Err(err) => {
                assert(run_from(after, behind.drop_first()) == seq![
                    failed(ErrorView::MissingContext(err)),
                ]);
            },
            Ok(text) => {
                if text.len() == 0 {
                    assert(run_from(after, behind.drop_first()) == Seq::<DecisionView>::empty());
                }
            },
        }
    }
}

/// An entry behind which an entry one level deeper follows is handed out
/// as a directory, and the entry that follows waits below it.
proof fn lemma_descent_step(
    absolute: bool,
    names: Seq<Seq<char>>,
    old_depth: int,
    above: Seq<Seq<char>>,
    depth: int,
    name: Seq<char>,
    lines: Seq<LineView>,
    k: int,
)
    requires
        0 <= k,
        k + 1 < lines.len(),
        aligned(names, old_depth, above, depth),
        lines[k + 1] is Ok,
        lines[k + 1]->Ok_0.len() > 0,
        entry_depth(lines[k + 1]->Ok_0) == depth + 1,
    ensures
        run_from(holding(absolute, names, old_depth, depth, name), lines.skip(k + 1)) == seq![
            decided(rendered(absolute, above.push(name)), PathKind::Directory),
        ] + run_from(
            holding(
                absolute,
                above.push(name),
                depth,
                depth + 1,
                normal_form(entry_name(lines[k + 1]->Ok_0)),
            ),
            lines.skip(k + 2),
        ),
{
    lemma_aligned_entry(names, old_depth, above, depth, name);
    assert(lines.skip(k + 1).drop_first() == lines.skip(k + 2));
}

/// The run over the part of a listing that shows one node hands out the
/// decisions for the node and everything below it, and goes on behind them.
pub proof fn lemma_node_run(
    absolute: bool,
    node: TreeNode,
    above: Seq<Seq<char>>,
    depth: int,
    lines: Seq<LineView>,
    k: int,
    names: Seq<Seq<char>>,
    old_depth: int,
)
    requires
        node_well_formed(node),
        lines_show(lines, k, node_entries(node, above, depth)),
        part_ends(lines, k + node_entries(node, above, depth).len(), depth),
        aligned(names, old_depth, above, depth),
    ensures
        run_from(holding(absolute, names, old_depth, depth, node_name(node)), lines.skip(k + 1))
            == expected(absolute, node_entries(node, above, depth)) + resume(
            absolute,
            node_entries(node, above, depth).last().names,
            node_entries(node, above, depth).last().depth,
            lines.skip(k + node_entries(node, above, depth).len()),
        ),
    decreases node,
{
    let es = node_entries(node, above, depth);
    lemma_node_shape(node, above, depth);
    match node {
        TreeNode::File { name } => {
            lemma_leaf_step(absolute, names, old_depth, above, depth, name, lines, k);
        },
        TreeNode::Directory { name, children } => {
            let inside = above.push(name);
            let below = forest_entries(children, inside, depth + 1);
            lemma_forest_shape(children, inside, depth + 1);
            lemma_node_shape(children[0], inside, depth + 1);
            lemma_first_name_normal(children);
            lemma_descent_step(absolute, names, old_depth, above, depth, name, lines, k);
            assert forall|j: int| 0 <= j < below.len() implies line_shows(
                #[trigger] lines[k + 1 + j],
                below[j],
            ) by {
                assert(line_shows(lines[k + (j + 1)], es[j + 1]));
            }
            lemma_forest_run(absolute, children, inside, depth + 1, lines, k + 1, inside, depth);
        },
    }
}

/// The run over the part of a listing that shows a forest hands out the
/// decisions for all its nodes in order, and goes on behind them.
pub proof fn lemma_forest_run(
    absolute: bool,
    nodes: Seq<TreeNode>,
    above: Seq<Seq<char>>,
    depth: int,
    lines: Seq<LineView>,
    k: int,
    names: Seq<Seq<char>>,
    old_depth: int,
)
    requires
        nodes.len() > 0,
        forest_well_formed(nodes),
        lines_show(lines, k, forest_entries(nodes, above, depth)),
        part_ends(lines, k + forest_entries(nodes, above, depth).len(), depth),
        aligned(names, old_depth, above, depth),
    ensures
        run_from(holding(absolute, names, old_depth, depth, node_name(nodes[0])), lines.skip(k + 1))
            == expected(absolute, forest_entries(nodes, above, depth)) + resume(
            absolute,
            forest_entries(nodes, above, depth).last().names,
            forest_entries(nodes, above, depth).last().depth,
            lines.skip(k + forest_entries(nodes, above, depth).len()),
        ),
    decreases nodes,
{
    let es = forest_entries(nodes, above, depth);
    let first = node_entries(nodes[0], above, depth);
    let others = nodes.drop_first();
    let rest = forest_entries(others, above, depth);
    lemma_node_shape(nodes[0], above, depth);
    lemma_forest_shape(others, above, depth);
    if others.len() == 0 {
        lemma_first_name_normal(nodes);
        lemma_node_run(absolute, nodes[0], above, depth, lines, k, names, old_depth);
    } else {
        let at = k + first.len();
        lemma_node_shape(others[0], above, depth);
        lemma_first_name_normal(nodes);
        lemma_first_name_normal(others);
        lemma_node_run(absolute, nodes[0], above, depth, lines, k, names, old_depth);
        let last = first.last();
        assert(lines.skip(at).drop_first() == lines.skip(at + 1));
        assert forall|j: int| 0 <= j < rest.len() implies line_shows(
            #[trigger] lines[at + j],
            rest[j],
        ) by {
            assert(line_shows(lines[k + (first.len() + j)], es[first.len() + j]));
        }
        lemma_forest_run(absolute, others, above, depth, lines, at, last.names, last.depth);
    }
}

/// Whether the listing ends behind its first `shown` lines: either no line
/// follows, or lines were shown and an empty line follows them.
pub open spec fn listing_ends(lines: Seq<LineView>, shown: int) -> bool {
    ||| lines.len() == shown
    ||| 0 < shown < lines.len() && lines[shown] is Ok && lines[shown]->Ok_0.len() == 0
}

/// Round trip: where a listing shows a forest line by line, from the top
/// and depth first, and ends behind it, the decisions it gives are the
/// forest's own nodes in the same order, each at its path below the root
/// and each with its own kind. Lines behind the empty line that ends the
/// listing change nothing. It holds for forests whose names are in normal
/// form and whose directories all hold something.
pub proof fn lemma_round_trip(root: Seq<char>, forest: Seq<TreeNode>, lines: Seq<LineView>)
    requires
        forest_well_formed(forest),
        lines_show(lines, 0, tree_entries(root, forest)),
        listing_ends(lines, tree_entries(root, forest).len() as int),
    ensures
        tree_decisions(root, lines) == expected(is_absolute(root), tree_entries(root, forest)),
{
    let above = segments(root);
    let es = tree_entries(root, forest);
    lemma_forest_shape(forest, above, 0);
    if forest.len() > 0 {
        lemma_node_shape(forest[0], above, 0);
        lemma_first_name_normal(forest);
        assert(line_shows(lines[0int + 0], es[0]));
        lemma_forest_run(is_absolute(root), forest, above, 0, lines, 0, above, -1);
    }
}

/// The line that shows `name` at `depth` with four spaces for each level.
pub open spec fn indented_line(depth: nat, name: Seq<char>) -> Seq<char>
    decreases depth,
{
    if depth == 0 {
        name
    } else {
        indent_blank() + indented_line((depth - 1) as nat, name)
    }
}

/// A name that does not itself begin with indentation is read back from an
/// indented line at the depth it was written at.
pub proof fn lemma_indented_line(depth: nat, name: Seq<char>)
    requires
        strip_indent(name) is None,
    ensures
        entry_depth(indented_line(depth, name)) == depth,
        entry_name(indented_line(depth, name)) == name,
    decreases depth,
{
    if depth > 0 {
        let inner = indented_line((depth - 1) as nat, name);
        let line = indented_line(depth, name);
        lemma_indented_line((depth - 1) as nat, name);
        assert(line.subrange(4, line.len() as int) == inner);
        assert(strip_indent(line) == Some(inner));
    }
}

} // verus!
