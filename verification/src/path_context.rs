use crate::collapse::Collapse;
use crate::context_error::ContextError;
use crate::supply_missing::SupplyMissing;
use vstd::prelude::*;
use vstd::string::*;

verus! {

/// Where a failure arose: on standard input, on a path that was being read
/// or created, or in a place that is not known yet.
#[derive(Debug)]
pub enum PathContext<PathType> {
    Stdin,
    Missing,
    Read(PathType),
    CreateFile(PathType),
    CreateDirectory(PathType),
}

/// A failure of input or output with the place where it arose.
pub type PathError = ContextError<PathContext<String>, std::io::Error>;

/// A result whose failure is a `PathError`.
pub type PathResult<T> = Result<T, PathError>;

/// A context of owned text, with the text as a plain value.
pub open spec fn context_view(context: PathContext<String>) -> PathContext<Seq<char>> {
    match context {
        PathContext::Stdin => PathContext::Stdin,
        PathContext::Missing => PathContext::Missing,
        PathContext::Read(path) => PathContext::Read(path@),
        PathContext::CreateFile(path) => PathContext::CreateFile(path@),
        PathContext::CreateDirectory(path) => PathContext::CreateDirectory(path@),
    }
}

/// How a context is shown to a user.
pub open spec fn context_text(context: PathContext<Seq<char>>) -> Seq<char> {
    match context {
        PathContext::Read(path) | PathContext::CreateFile(path) | PathContext::CreateDirectory(
            path,
        ) => "path = '"@ + path + "'"@,
        PathContext::Stdin => "source = standard input"@,
        PathContext::Missing => "[unknown]"@,
    }
}

/// The context of a failure that arose on standard input.
pub fn from_stdin() -> (r: PathContext<String>)
    ensures
        r is Stdin,
{
    PathContext::Stdin
}

/// Shows a context to a user.
pub fn context_to_string(context: &PathContext<String>) -> (r: String)
    ensures
        r@ == context_text(context_view(*context)),
{
    match context {
        PathContext::Read(path) | PathContext::CreateFile(path) | PathContext::CreateDirectory(
            path,
        ) => {
            let mut out = String::from_str("path = '");
            out.append(path.as_str());
            out.append("'");
            out
        },
        PathContext::Stdin => String::from_str("source = standard input"),
        PathContext::Missing => String::from_str("[unknown]"),
    }
}

impl<'a> Collapse<PathContext<String>> for PathContext<&'a str> {
    open spec fn collapses_to(self, to: PathContext<String>) -> bool {
        context_view(to) == match self {
            PathContext::Stdin => PathContext::<Seq<char>>::Stdin,
            PathContext::Missing => PathContext::Missing,
            PathContext::Read(path) => PathContext::Read(path@),
            PathContext::CreateFile(path) => PathContext::CreateFile(path@),
            PathContext::CreateDirectory(path) => PathContext::CreateDirectory(path@),
        }
    }

    fn collapse(self) -> (r: PathContext<String>) {
        match self {
            PathContext::Read(path) => PathContext::Read(path.to_owned()),
            PathContext::CreateFile(path) => PathContext::CreateFile(path.to_owned()),
            PathContext::CreateDirectory(path) => PathContext::CreateDirectory(path.to_owned()),
            PathContext::Stdin => PathContext::Stdin,
            PathContext::Missing => PathContext::Missing,
        }
    }
}

impl Collapse<PathContext<String>> for PathContext<String> {
    open spec fn collapses_to(self, to: PathContext<String>) -> bool {
        to == self
    }

    fn collapse(self) -> (r: PathContext<String>) {
        self
    }
}

impl<T> SupplyMissing<PathContext<T>> for PathContext<T> {
    open spec fn supplied(self, info: PathContext<T>, after: Self) -> bool {
        after == if self is Missing {
            info
        } else {
            self
        }
    }

    fn supply_missing(self, context: PathContext<T>) -> (r: Self) {
        match self {
            PathContext::Missing => context,
            x => x,
        }
    }
}

impl From<std::io::Error> for ContextError<PathContext<String>, std::io::Error> {
    /// A failure whose place is not known yet.
    fn from(err: std::io::Error) -> (r: PathError) {
        ContextError { context: PathContext::Missing, base_error: err }
    }
}

impl vstd::std_specs::convert::FromSpecImpl<std::io::Error> for ContextError<PathContext<String>, std::io::Error> {
    open spec fn obeys_from_spec() -> bool {
        true
    }

    open spec fn from_spec(err: std::io::Error) -> PathError {
        ContextError { context: PathContext::Missing, base_error: err }
    }
}

} // verus!
