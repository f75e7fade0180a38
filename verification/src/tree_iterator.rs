use crate::entry::{entry_depth, entry_name, get_entry};
use crate::errors::{Error, ErrorView};
use crate::path::{normal_form, normalize_path, segments};
use crate::path_stack::{is_absolute, rendered, PathStack};
use crate::state::StateMachine;
use crate::types::PathKind;
use vstd::prelude::*;

verus! {

/// What reading one line from a listing gave: a line, a failure, or nothing
/// because the listing has ended.
pub type LineRead = Option<Result<String, std::io::Error>>;

/// What one step hands out: a path with what it is to be created as, or the
/// failure that ended the reading.
pub type Decision = Result<(String, PathKind), Error>;

/// A `LineRead` with the line as plain text.
pub type LineReadView = Option<Result<Seq<char>, std::io::Error>>;

/// A `Decision` with the path as plain text.
pub type DecisionView = Result<(Seq<char>, PathKind), ErrorView>;

/// The decision to create `path` as `kind`.
pub open spec fn decided(path: Seq<char>, kind: PathKind) -> DecisionView {
    Ok((path, kind))
}

/// The decision that hands out a failure.
pub open spec fn failed(error: ErrorView) -> DecisionView {
    Err(error)
}

/// The plain text of what a reading gave.
pub open spec fn read_view(next: LineRead) -> LineReadView {
    match next {
        Some(Ok(line)) => Some(Ok(line@)),
        Some(Err(err)) => Some(Err(err)),
        None => None,
    }
}

/// The plain text of what a step handed out.
pub open spec fn decision_view(decision: Decision) -> DecisionView {
    match decision {
        Ok((path, kind)) => Ok((path@, kind)),
        Err(err) => Err(err@),
    }
}

/// The plain text of what a step handed out, if anything.
pub open spec fn emitted_view(emitted: Option<Decision>) -> Option<DecisionView> {
    match emitted {
        Some(decision) => Some(decision_view(decision)),
        None => None,
    }
}

/// The state of a reconstruction, over plain texts.
pub enum Machine {
    /// An entry has been read and waits for the line behind it, which
    /// decides what the entry is.
    Good {
        /// Whether the path begins at the top of the file system.
        absolute: bool,
        /// The components of the path so far: those of the root directory,
        /// and behind them the names of the levels entered.
        names: Seq<Seq<char>>,
        /// The depth of the entry that waits.
        depth: int,
        /// The depth of the entry handed out last, or -1 before the first.
        old_depth: int,
        /// The name of the entry that waits, in normal form.
        filename: Seq<char>,
    },
    /// Reading has failed, and the failure has not been handed out yet.
    Bad { error: ErrorView },
    /// Nothing is left to hand out.
    Empty,
}

/// The components of the path once the waiting entry has taken its place.
/// An entry that lies deeper than the one before it is put behind the last
/// component. Any other entry first takes one component from the end of the
/// path for each step that it lies higher, as far as there are components,
/// whether they came from entries or from the root directory, and is then
/// put in the place of the last component, or becomes the only component
/// where none is left.
pub open spec fn apply_entry(
    names: Seq<Seq<char>>,
    depth: int,
    old_depth: int,
    filename: Seq<char>,
) -> Seq<Seq<char>> {
    if depth <= old_depth {
        let left = if old_depth - depth < names.len() {
            names.take(names.len() - (old_depth - depth))
        } else {
            Seq::empty()
        };
        if left.len() > 0 {
            left.drop_last().push(filename)
        } else {
            seq![filename]
        }
    } else {
        names.push(filename)
    }
}

/// The state in which a reconstruction in `root` begins, given what
/// reading the first line gave. The path begins as the root directory.
pub open spec fn start(root: Seq<char>, first: LineReadView) -> Machine {
    match first {
        None => Machine::Empty,
        Some(Err(err)) => Machine::Bad { error: ErrorView::MissingContext(err) },
        Some(Ok(line)) => Machine::Good {
            absolute: is_absolute(root),
            names: segments(root),
            depth: entry_depth(line) as int,
            old_depth: -1,
            filename: normal_form(entry_name(line)),
        },
    }
}

/// One step: the state that follows `m` and what is handed out, given what
/// reading the next line gave. Only the state `Good` looks at the reading.
pub open spec fn advance(m: Machine, next: LineReadView) -> (Machine, Option<DecisionView>) {
    match m {
        Machine::Empty => (Machine::Empty, None),
        Machine::Bad { error } => (Machine::Empty, Some(Err(error))),
        Machine::Good { absolute, names, depth, old_depth, filename } => {
            let names = apply_entry(names, depth, old_depth, filename);
            let path = rendered(absolute, names);
            match next {
                None => (Machine::Empty, Some(Ok((path, PathKind::FilePath)))),
                Some(Err(err)) => (
                    Machine::Bad { error: ErrorView::MissingContext(err) },
                    Some(Ok((path, PathKind::FilePath))),
                ),
                Some(Ok(line)) => if line.len() == 0 {
                    (Machine::Empty, Some(Ok((path, PathKind::FilePath))))
                } else {
                    let new_depth = entry_depth(line) as int;
                    let kind = if new_depth <= depth {
                        PathKind::FilePath
                    } else {
                        PathKind::Directory
                    };
                    (
                        Machine::Good {
                            absolute,
                            names,
                            depth: new_depth,
                            old_depth: depth,
                            filename: normal_form(entry_name(line)),
                        },
                        Some(Ok((path, kind))),
                    )
                },
            }
        },
    }
}

/// A reconstruction in progress. It is driven from outside: whoever reads
/// the listing hands each reading to `step` and gets back what to create.
pub enum TreeIterator {
    /// An entry has been read and waits for the line behind it.
    Good { path: PathStack, depth: i64, old_depth: i64, filename: String },
    /// Reading has failed, and the failure has not been handed out yet.
    Bad { error: Error },
    /// Nothing is left to hand out.
    Empty,
}

impl View for TreeIterator {
    type V = Machine;

    open spec fn view(&self) -> Machine {
        match *self {
            TreeIterator::Good { path, depth, old_depth, filename } => Machine::Good {
                absolute: path.absolute,
                names: path.names(),
                depth: depth as int,
                old_depth: old_depth as int,
                filename: filename@,
            },
            TreeIterator::Bad { error } => Machine::Bad { error: error@ },
            TreeIterator::Empty => Machine::Empty,
        }
    }
}

impl TreeIterator {
    /// Begins a reconstruction in `directory` with what reading the first
    /// line gave.
    pub fn new(directory: &str, first: LineRead) -> (r: TreeIterator)
        ensures
            r@ == start(directory@, read_view(first)),
    {
        match first {
            None => TreeIterator::Empty,
            Some(Err(err)) => TreeIterator::Bad { error: Error::MissingContext(err) },
            Some(Ok(line)) => {
                let (depth, name) = get_entry(line.as_str());
                TreeIterator::Good {
                    path: PathStack::new(directory),
                    depth,
                    old_depth: -1,
                    filename: normalize_path(name),
                }
            },
        }
    }

    /// Whether the next step looks at a reading. Where it does not, nothing
    /// needs to be read for it.
    pub fn is_good(&self) -> (r: bool)
        ensures
            r == (self@ is Good),
    {
        match self {
            TreeIterator::Good { .. } => true,
            _ => false,
        }
    }

    /// Whether nothing is left to hand out.
    pub fn is_empty(&self) -> (r: bool)
        ensures
            r == (self@ is Empty),
    {
        match self {
            TreeIterator::Empty => true,
            _ => false,
        }
    }

    /// Makes one step with what reading the next line gave, and returns the
    /// state that follows together with what is handed out.
    pub fn step(self, next: LineRead) -> (r: (TreeIterator, Option<Decision>))
        ensures
            r.0@ == advance(self@, read_view(next)).0,
            emitted_view(r.1) == advance(self@, read_view(next)).1,
    {
        match self {
            TreeIterator::Empty => (TreeIterator::Empty, None),
            TreeIterator::Bad { error } => (TreeIterator::Empty, Some(Err(error))),
            TreeIterator::Good { path, depth, old_depth, filename } => {
                let mut path = path;
                let ghost names = path.names();
                if depth <= old_depth {
                    let mut level: i64 = depth;
                    while level < old_depth && path.len() > 0
                        invariant
                            depth <= level <= old_depth,
                            path.absolute == self@->Good_absolute,
                            level - depth <= names.len(),
                            path.names() == names.take(names.len() - (level - depth)),
                        decreases old_depth - level,
                    {
                        path.pop();
                        level = level + 1;
                    }
                    path.set_file_name(filename);
                } else {
                    path.push(filename);
                }
                let current = path.to_string();
                match next {
                    None => (TreeIterator::Empty, Some(Ok((current, PathKind::FilePath)))),
                    Some(Err(err)) => (
                        TreeIterator::Bad { error: Error::MissingContext(err) },
                        Some(Ok((current, PathKind::FilePath))),
                    ),
                    Some(Ok(line)) => {
                        if line.as_str().is_empty() {
                            return (
                                TreeIterator::Empty,
                                Some(Ok((current, PathKind::FilePath))),
                            );
                        }
                        let (new_depth, name) = get_entry(line.as_str());
                        let kind = if new_depth <= depth {
                            PathKind::FilePath
                        } else {
                            PathKind::Directory
                        };
                        (
                            TreeIterator::Good {
                                path,
                                depth: new_depth,
                                old_depth: depth,
                                filename: normalize_path(name),
                            },
                            Some(Ok((current, kind))),
                        )
                    },
                }
            },
        }
    }

    /// Makes one step in place and returns what is handed out.
    pub fn next(&mut self, next: LineRead) -> (r: Option<Decision>)
        ensures
            final(self)@ == advance(old(self)@, read_view(next)).0,
            emitted_view(r) == advance(old(self)@, read_view(next)).1,
    {
        let mut current = TreeIterator::Empty;
        std::mem::swap(self, &mut current);
        let (after, emitted) = current.step(next);
        *self = after;
        emitted
    }
}

impl StateMachine for TreeIterator {
    type Item = Decision;

    type Input = LineRead;

    open spec fn steps_to(self, input: LineRead, after: Self, emitted: Option<Decision>) -> bool {
        &&& after@ == advance(self@, read_view(input)).0
        &&& emitted_view(emitted) == advance(self@, read_view(input)).1
    }

    fn step(self, input: LineRead) -> (r: (Self, Option<Decision>)) {
        TreeIterator::step(self, input)
    }
}

} // verus!
