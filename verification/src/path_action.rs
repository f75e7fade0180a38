use vstd::prelude::*;
use vstd::string::*;

verus! {

/// A path together with what was being done to it.
pub type PathContext<'a> = (&'a str, PathAction);

/// What was being done to a path when something went wrong.
#[derive(Debug, Copy, Clone, PartialEq, Eq, Structural)]
pub enum PathAction {
    /// A file was being created at the path.
    CreateFile,
    /// A directory was being created at the path.
    CreateDirectory,
    /// The file at the path was being opened for reading.
    OpenFileForReading,
    /// The file at the path was being read.
    ReadFile,
}

/// The words that stand in front of the path in a description.
pub open spec fn describe_front(action: PathAction) -> Seq<char> {
    match action {
        PathAction::CreateFile => "create file '"@,
        PathAction::CreateDirectory => "create directory '"@,
        PathAction::OpenFileForReading => "open '"@,
        PathAction::ReadFile => "read file '"@,
    }
}

/// The words that stand behind the path in a description.
pub open spec fn describe_back(action: PathAction) -> Seq<char> {
    match action {
        PathAction::OpenFileForReading => "' for reading"@,
        _ => "'"@,
    }
}

impl PathAction {
    /// Pairs the action with the path it was applied to.
    pub fn on<'a>(self, path: &'a str) -> (r: PathContext<'a>)
        ensures
            r.0@ == path@,
            r.1 == self,
    {
        (path, self)
    }

    /// Says in words what was being done to `path`.
    pub fn describe(self, path: &str) -> (r: String)
        ensures
            r@ == describe_front(self) + path@ + describe_back(self),
    {
        let (front, back) = match self {
            PathAction::CreateFile => ("create file '", "'"),
            PathAction::CreateDirectory => ("create directory '", "'"),
            PathAction::OpenFileForReading => ("open '", "' for reading"),
            PathAction::ReadFile => ("read file '", "'"),
        };
        let mut out = String::from_str(front);
        out.append(path);
        out.append(back);
        out
    }
}

} // verus!
