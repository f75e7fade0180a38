use crate::more_context::MoreContext;
use crate::path_action::{describe_back, describe_front, PathAction};
use vstd::prelude::*;
use vstd::string::*;

verus! {

/// The failure that std reports for input and output. Nothing inside it is
/// looked at here: it is carried to the caller as it came.
#[verifier::external_type_specification]
#[verifier::external_body]
pub struct ExIoError(std::io::Error);

/// Says that a failure arose while standard input was read.
#[derive(Clone, Copy, Debug, PartialEq, Eq, Structural)]
pub enum ReadStdinType {
    ReadStdin,
}

/// A failure of input or output, with what is known of where it arose.
#[derive(Debug)]
pub enum Error {
    /// Where the failure arose is not known yet: a caller is to say so with
    /// `more_context`.
    MissingContext(std::io::Error),
    /// The failure arose while standard input was read.
    OnStdin(std::io::Error),
    /// The failure arose while the action was applied to the path.
    OnPath(String, PathAction, std::io::Error),
}

/// An `Error` with its path as plain text.
pub enum ErrorView {
    MissingContext(std::io::Error),
    OnStdin(std::io::Error),
    OnPath(Seq<char>, PathAction, std::io::Error),
}

impl View for Error {
    type V = ErrorView;

    open spec fn view(&self) -> ErrorView {
        match *self {
            Error::MissingContext(err) => ErrorView::MissingContext(err),
            Error::OnStdin(err) => ErrorView::OnStdin(err),
            Error::OnPath(path, action, err) => ErrorView::OnPath(path@, action, err),
        }
    }
}

/// The failure of input or output that lies under an `Error`.
pub open spec fn cause_of(error: ErrorView) -> std::io::Error {
    match error {
        ErrorView::MissingContext(err) => err,
        ErrorView::OnStdin(err) => err,
        ErrorView::OnPath(_, _, err) => err,
    }
}

/// The sentence that tells a user what went wrong, where `shown` is the
/// path as it is to appear in the sentence.
pub open spec fn message_text(error: ErrorView, shown: Seq<char>) -> Seq<char> {
    match error {
        ErrorView::MissingContext(_) => "An error occured with unknown context."@,
        ErrorView::OnStdin(_) =>
            "An error occured while attempting to read from standard input."@,
        ErrorView::OnPath(_, action, _) => "An error occured while attempting to "@
            + describe_front(action) + shown + describe_back(action) + "."@,
    }
}

impl Error {
    /// The sentence that tells a user what went wrong. A failure on a path
    /// names the action and the path; `shown` is the path as it is to
    /// appear, so that a caller can set it off.
    pub fn message(&self, shown: &str) -> (r: String)
        ensures
            r@ == message_text(self@, shown@),
    {
        match self {
            Error::MissingContext(_) => String::from_str(
                "An error occured with unknown context.",
            ),
            Error::OnStdin(_) => String::from_str(
                "An error occured while attempting to read from standard input.",
            ),
            Error::OnPath(_, action, _) => {
                let mut out = String::from_str("An error occured while attempting to ");
                let described = action.describe(shown);
                out.append(described.as_str());
                out.append(".");
                out
            },
        }
    }

    /// The failure of input or output that lies under this one.
    pub fn into_cause(self) -> (r: std::io::Error)
        ensures
            r == cause_of(self@),
    {
        match self {
            Error::MissingContext(err) => err,
            Error::OnStdin(err) => err,
            Error::OnPath(_, _, err) => err,
        }
    }
}

impl From<std::io::Error> for Error {
    /// A failure whose context is not known yet.
    fn from(err: std::io::Error) -> (r: Error) {
        Error::MissingContext(err)
    }
}

impl vstd::std_specs::convert::FromSpecImpl<std::io::Error> for Error {
    open spec fn obeys_from_spec() -> bool {
        true
    }

    open spec fn from_spec(err: std::io::Error) -> Error {
        Error::MissingContext(err)
    }
}

impl MoreContext<ReadStdinType> for Error {
    open spec fn gains(self, info: ReadStdinType, after: Self) -> bool {
        after@ == match self@ {
            ErrorView::MissingContext(err) => ErrorView::OnStdin(err),
            known => known,
        }
    }

    fn more_context(self, info: ReadStdinType) -> (r: Self) {
        match self {
            Error::MissingContext(err) => Error::OnStdin(err),
            err => err,
        }
    }
}

impl<'a> MoreContext<(&'a str, PathAction)> for Error {
    open spec fn gains(self, info: (&'a str, PathAction), after: Self) -> bool {
        after@ == match self@ {
            ErrorView::MissingContext(err) => ErrorView::OnPath(info.0@, info.1, err),
            known => known,
        }
    }

    fn more_context(self, info: (&'a str, PathAction)) -> (r: Self) {
        match self {
            Error::MissingContext(err) => Error::OnPath(info.0.to_owned(), info.1, err),
            err => err,
        }
    }
}

} // verus!
