use crate::errors::{Error, ErrorView};
use crate::path_action::PathAction;
use crate::tree_iterator::{
    advance, decision_view, start, Decision, DecisionView, Machine, TreeIterator,
};
use crate::types::{PathKind, UntreeOptions};
use vstd::prelude::*;
use vstd::string::*;

verus! {

/// What reading one line of a listing gave, as plain text.
pub type LineView = Result<Seq<char>, std::io::Error>;

/// A line that was read without failure.
pub open spec fn line_read(text: Seq<char>) -> LineView {
    Ok(text)
}

/// The plain text of each reading of a listing.
pub open spec fn lines_view(lines: Seq<Result<String, std::io::Error>>) -> Seq<LineView> {
    Seq::new(
        lines.len(),
        |i: int|
            match lines[i] {
                Ok(line) => Ok(line@),
                Err(err) => Err(err),
            },
    )
}

/// The plain text of each decision of a run.
pub open spec fn decisions_view(decisions: Seq<Decision>) -> Seq<DecisionView> {
    Seq::new(decisions.len(), |i: int| decision_view(decisions[i]))
}

/// What a step handed out, as a sequence of at most one decision.
pub open spec fn emitted_seq(emitted: Option<DecisionView>) -> Seq<DecisionView> {
    match emitted {
        Some(decision) => seq![decision],
        None => Seq::empty(),
    }
}

/// Everything that is handed out from the state `m` on, when `lines` are
/// the readings still to come and the listing ends behind them. Readings
/// are consumed only as long as the state is `Good`.
pub open spec fn run_from(m: Machine, lines: Seq<LineView>) -> Seq<DecisionView>
    decreases lines.len(),
{
    if lines.len() == 0 || !(m is Good) {
        emitted_seq(advance(m, None).1)
    } else {
        let (after, emitted) = advance(m, Some(lines[0]));
        emitted_seq(emitted) + run_from(after, lines.drop_first())
    }
}

/// The decisions that a listing gives when the path begins as the
/// directory `root`, in order.
pub open spec fn tree_decisions(root: Seq<char>, lines: Seq<LineView>) -> Seq<DecisionView> {
    if lines.len() == 0 {
        Seq::empty()
    } else {
        run_from(start(root, Some(lines[0])), lines.drop_first())
    }
}

/// Reconstructs the paths of a listing in `directory`: one decision for
/// each entry up to the first empty line or the end of the listing, and
/// behind them the failure that ended the reading, if one did.
pub fn iter_tree(directory: &str, lines: Vec<Result<String, std::io::Error>>) -> (r: Vec<Decision>)
    ensures
        decisions_view(r@) == tree_decisions(directory@, lines_view(lines@)),
{
    let mut out: Vec<Decision> = Vec::new();
    let mut machine = TreeIterator::Empty;
    let mut started = false;
    let ghost all = lines_view(lines@);
    for item in it: lines
        invariant
            all == lines_view(lines@),
            it.seq() == lines@,
            !started ==> it.index() == 0 && out@.len() == 0,
            started ==> tree_decisions(directory@, all) == decisions_view(out@) + run_from(
                machine@,
                all.skip(it.index() as int),
            ),
    {
        proof {
            let i = it.index() as int;
            assert(all.skip(i).drop_first() == all.skip(i + 1));
        }
        if !started {
            machine = TreeIterator::new(directory, Some(item));
            started = true;
        } else if machine.is_good() {
            let (after, emitted) = machine.step(Some(item));
            machine = after;
            if let Some(decision) = emitted {
                out.push(decision);
            }
        }
    }
    if started {
        let (_, emitted) = machine.step(None);
        if let Some(decision) = emitted {
            out.push(decision);
        }
    }
    out
}

/// The colour in which a part of an announcement is shown.
#[derive(Clone, Copy, Debug, PartialEq, Eq, Structural)]
pub enum Colour {
    Green,
    White,
    Blue,
}

/// One creation as it is to be carried out: what to create, whether to tell
/// the user of it, and whether to touch the file system at all.
#[derive(Debug)]
pub struct Creation {
    /// The path to create.
    pub path: String,
    /// Whether a file or a directory is created there.
    pub kind: PathKind,
    /// Whether the creation is shown to the user.
    pub announce: bool,
    /// Whether the creation is carried out.
    pub perform: bool,
}

/// A `Creation` with its path as plain text.
pub struct CreationView {
    pub path: Seq<char>,
    pub kind: PathKind,
    pub announce: bool,
    pub perform: bool,
}

impl View for Creation {
    type V = CreationView;

    open spec fn view(&self) -> CreationView {
        CreationView {
            path: self.path@,
            kind: self.kind,
            announce: self.announce,
            perform: self.perform,
        }
    }
}

/// The creation that the options make of a path and its kind.
pub open spec fn planned(path: Seq<char>, kind: PathKind, options: UntreeOptions) -> CreationView {
    CreationView {
        path,
        kind,
        announce: options.verbose || options.dry_run,
        perform: !options.dry_run,
    }
}

impl Creation {
    /// The shell command that does what this creation does.
    pub open spec fn command_text(kind: PathKind) -> Seq<char> {
        match kind {
            PathKind::FilePath => "touch"@,
            PathKind::Directory => "mkdir"@,
        }
    }

    /// The line that shows a creation to the user, given how the command
    /// and the path are to appear in it: `touch` takes the path alone,
    /// `mkdir` takes `-p` and then the path.
    pub open spec fn announcement_text(
        kind: PathKind,
        command: Seq<char>,
        path: Seq<char>,
    ) -> Seq<char> {
        match kind {
            PathKind::FilePath => command + " "@ + path,
            PathKind::Directory => command + " -p "@ + path,
        }
    }

    /// The action under which a failure of this creation is reported.
    pub open spec fn action_of(kind: PathKind) -> PathAction {
        match kind {
            PathKind::FilePath => PathAction::CreateFile,
            PathKind::Directory => PathAction::CreateDirectory,
        }
    }

    /// The shell command that does what this creation does: `touch` for a
    /// file, `mkdir` for a directory.
    pub fn command(&self) -> (r: &'static str)
        ensures
            r@ == Self::command_text(self.kind),
    {
        match self.kind {
            PathKind::FilePath => "touch",
            PathKind::Directory => "mkdir",
        }
    }

    /// The colour in which the command is shown.
    pub fn command_colour(&self) -> (r: Colour)
        ensures
            r == Colour::Green,
    {
        Colour::Green
    }

    /// The colour in which the path is shown: white for a file, blue for a
    /// directory.
    pub fn path_colour(&self) -> (r: Colour)
        ensures
            r == match self.kind {
                PathKind::FilePath => Colour::White,
                PathKind::Directory => Colour::Blue,
            },
    {
        match self.kind {
            PathKind::FilePath => Colour::White,
            PathKind::Directory => Colour::Blue,
        }
    }

    /// The line that shows this creation to the user. The command and the
    /// path are given as they are to appear, so that a caller can set them
    /// off by colour.
    pub fn announcement(&self, command: &str, path: &str) -> (r: String)
        ensures
            r@ == Self::announcement_text(self.kind, command@, path@),
    {
        let mut out = String::from_str(command);
        match self.kind {
            PathKind::FilePath => out.append(" "),
            PathKind::Directory => out.append(" -p "),
        }
        out.append(path);
        out
    }

    /// The action under which a failure of this creation is reported.
    pub fn action(&self) -> (r: PathAction)
        ensures
            r == Self::action_of(self.kind),
    {
        match self.kind {
            PathKind::FilePath => PathAction::CreateFile,
            PathKind::Directory => PathAction::CreateDirectory,
        }
    }
}

/// Plans the creation of `path` as a file or a directory under the given
/// options. The creation is announced when the options are verbose, which a
/// dry run implies, and it is performed unless the run is dry.
pub fn create_path(path: &str, kind: PathKind, options: UntreeOptions) -> (r: Creation)
    ensures
        r@ == planned(path@, kind, options),
{
    Creation {
        path: path.to_owned(),
        kind,
        announce: options.is_verbose(),
        perform: !options.is_dry_run(),
    }
}

/// Whether the failure says that what was to be created was already there:
/// whether `std::io::Error::kind` gives `AlreadyExists` for it.
pub uninterp spec fn says_already_exists(err: std::io::Error) -> bool;

/// Asks `std::io::Error::kind` whether the failure says that the target was
/// already there. The kind belongs to the failure alone; the contract gives
/// the answer its name and claims nothing more.
#[verifier::external_body]
fn is_already_exists(err: &std::io::Error) -> (r: bool)
    ensures
        r == says_already_exists(*err),
{
    matches!(err.kind(), std::io::ErrorKind::AlreadyExists)
}

/// Judges a failed attempt to create the file `path`, given whether the
/// failure says that the file was already there: that is no failure, and
/// anything else is reported with the path and the action.
pub fn file_attempt_failed(path: &str, err: std::io::Error, already_exists: bool) -> (r: Result<
    (),
    Error,
>)
    ensures
        already_exists ==> r is Ok,
        !already_exists ==> r is Err && r->Err_0@ == ErrorView::OnPath(
            path@,
            PathAction::CreateFile,
            err,
        ),
{
    if already_exists {
        Ok(())
    } else {
        Err(Error::OnPath(path.to_owned(), PathAction::CreateFile, err))
    }
}

/// Judges an attempt to create the file `path` without touching a file that
/// is there. A file that was already there is no failure. Any other failure
/// is reported with the path and the action.
pub fn touch_file(path: &str, attempt: Result<(), std::io::Error>) -> (r: Result<(), Error>)
    ensures
        match attempt {
            Ok(_) => r is Ok,
            Err(err) => if says_already_exists(err) {
                r is Ok
            } else {
                r is Err && r->Err_0@ == ErrorView::OnPath(path@, PathAction::CreateFile, err)
            },
        },
{
    match attempt {
        Ok(_) => Ok(()),
        Err(err) => {
            let exists = is_already_exists(&err);
            file_attempt_failed(path, err, exists)
        },
    }
}

/// Judges an attempt to create the directory `path` with all its parents:
/// a failure is reported with the path and the action.
pub fn touch_directory(path: &str, attempt: Result<(), std::io::Error>) -> (r: Result<(), Error>)
    ensures
        attempt is Ok ==> r is Ok,
        attempt is Err ==> r is Err && r->Err_0@ == ErrorView::OnPath(
            path@,
            PathAction::CreateDirectory,
            attempt->Err_0,
        ),
{
    match attempt {
        Ok(_) => Ok(()),
        Err(err) => Err(Error::OnPath(path.to_owned(), PathAction::CreateDirectory, err)),
    }
}

/// The creations that the decisions in front of the first failure ask for.
pub open spec fn plan_of(decisions: Seq<DecisionView>, options: UntreeOptions) -> Seq<
    CreationView,
>
    decreases decisions.len(),
{
    if decisions.len() == 0 {
        Seq::empty()
    } else {
        match decisions[0] {
            Ok((path, kind)) => seq![planned(path, kind, options)] + plan_of(
                decisions.drop_first(),
                options,
            ),
            Err(_) => Seq::empty(),
        }
    }
}

/// The first failure among the decisions, if there is one.
pub open spec fn failure_of(decisions: Seq<DecisionView>) -> Option<ErrorView>
    decreases decisions.len(),
{
    if decisions.len() == 0 {
        None
    } else {
        match decisions[0] {
            Ok(_) => failure_of(decisions.drop_first()),
            Err(err) => Some(err),
        }
    }
}

/// The plain text of each creation of a plan.
pub open spec fn plan_view(plan: Seq<Creation>) -> Seq<CreationView> {
    Seq::new(plan.len(), |i: int| plan[i]@)
}

/// Plans the tree that a listing describes in `directory`: the creations
/// to carry out, in order, and behind them the failure that ended the
/// reading, if one did. Nothing behind a failure is planned.
pub fn create_tree(
    directory: &str,
    lines: Vec<Result<String, std::io::Error>>,
    options: UntreeOptions,
) -> (r: (Vec<Creation>, Result<(), Error>))
    ensures
        plan_view(r.0@) == plan_of(tree_decisions(directory@, lines_view(lines@)), options),
        match r.1 {
            Ok(_) => failure_of(tree_decisions(directory@, lines_view(lines@))) is None,
            Err(err) => failure_of(tree_decisions(directory@, lines_view(lines@))) == Some(err@),
        },
{
    let decisions = iter_tree(directory, lines);
    let ghost all = decisions_view(decisions@);
    let mut plan: Vec<Creation> = Vec::new();
    let mut failure: Option<Error> = None;
    proof {
        assert(all.skip(0) == all);
    }
    for decision in it: decisions
        invariant
            all == decisions_view(decisions@),
            it.seq() == decisions@,
            plan_of(all, options) == plan_view(plan@) + if failure is Some {
                Seq::empty()
            } else {
                plan_of(all.skip(it.index() as int), options)
            },
            failure_of(all) == match failure {
                Some(err) => Some(err@),
                None => failure_of(all.skip(it.index() as int)),
            },
    {
        proof {
            let i = it.index() as int;
            assert(all.skip(i).drop_first() == all.skip(i + 1));
        }
        if failure.is_none() {
            match decision {
                Ok((path, kind)) => {
                    let creation = create_path(path.as_str(), kind, options);
                    plan.push(creation);
                },
                Err(err) => {
                    failure = Some(err);
                },
            }
        }
    }
    match failure {
        Some(err) => (plan, Err(err)),
        None => (plan, Ok(())),
    }
}

} // verus!
