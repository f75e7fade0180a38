use crate::errors::{Error, ErrorView, ReadStdinType};
use crate::more_context::MoreContext;
use crate::path::texts;
use crate::path_action::PathAction;
use crate::text::strip_prefix;
use vstd::prelude::*;
use vstd::string::*;

verus! {

/// Where a listing is read from.
#[derive(Debug)]
pub enum TreeSource {
    /// Standard input.
    Stdin,
    /// A file: its name as it was given, and the path under which it is
    /// opened.
    File { name: String, path: String },
}

/// A `TreeSource` with its texts as plain values.
pub enum TreeSourceView {
    Stdin,
    File { name: Seq<char>, path: Seq<char> },
}

impl View for TreeSource {
    type V = TreeSourceView;

    open spec fn view(&self) -> TreeSourceView {
        match *self {
            TreeSource::Stdin => TreeSourceView::Stdin,
            TreeSource::File { name, path } => TreeSourceView::File { name: name@, path: path@ },
        }
    }
}

/// The texts of the sources.
pub open spec fn sources_view(sources: Seq<TreeSource>) -> Seq<TreeSourceView> {
    Seq::new(sources.len(), |i: int| sources[i]@)
}

/// What is left of `s` without the separators at its front.
pub open spec fn without_leading_separators(s: Seq<char>) -> Seq<char>
    decreases s.len(),
{
    if s.len() > 0 && s[0] == '/' {
        without_leading_separators(s.drop_first())
    } else {
        s
    }
}

/// The path under which the file `name` is opened. A backslash that stands
/// at the front as a segment of its own only guards the name, and is
/// dropped together with the separators behind it.
pub open spec fn file_path_of(name: Seq<char>) -> Seq<char> {
    if name.len() > 0 && name[0] == '\\' && (name.len() == 1 || name[1] == '/') {
        without_leading_separators(name.skip(1))
    } else {
        name
    }
}

/// The source that a name on the command line stands for: `-` is standard
/// input, anything else is a file.
pub open spec fn source_of(name: Seq<char>) -> TreeSourceView {
    if name == seq!['-'] {
        TreeSourceView::Stdin
    } else {
        TreeSourceView::File { name, path: file_path_of(name) }
    }
}

/// The sources that the names on the command line stand for, in order.
/// Without any name the listing is read from standard input.
pub open spec fn sources_of(names: Seq<Seq<char>>) -> Seq<TreeSourceView> {
    if names.len() == 0 {
        seq![TreeSourceView::Stdin]
    } else {
        Seq::new(names.len(), |i: int| source_of(names[i]))
    }
}

/// Takes the separators from the front of `s`.
pub fn trim_leading_separators(s: &str) -> (r: &str)
    ensures
        r@ == without_leading_separators(s@),
{
    let mut rest: &str = s;
    proof {
        reveal_strlit("/");
    }
    loop
        invariant
            "/"@ == seq!['/'],
            without_leading_separators(s@) == without_leading_separators(rest@),
        decreases rest@.len(),
    {
        match strip_prefix(rest, "/") {
            Some(behind) => {
                assert(rest@.subrange(0, 1)[0] == '/');
                assert(behind@ == rest@.drop_first());
                rest = behind;
            },
            None => {
                assert(rest@.len() > 0 && rest@[0] == '/' ==> rest@.subrange(0, 1) == seq!['/']);
                return rest;
            },
        }
    }
}

/// The path under which the file `name` is opened.
pub fn tree_file_path(name: &str) -> (r: &str)
    ensures
        r@ == file_path_of(name@),
{
    proof {
        reveal_strlit("\\");
        reveal_strlit("/");
    }
    match strip_prefix(name, "\\") {
        None => {
            assert(name@.len() > 0 && name@[0] == '\\' ==> name@.subrange(0, 1) == seq!['\\']);
            name
        },
        Some(rest) => {
            assert(name@.subrange(0, 1)[0] == '\\');
            assert(rest@ == name@.skip(1));
            if rest.is_empty() {
                rest
            } else {
                match strip_prefix(rest, "/") {
                    None => {
                        assert(rest@[0] == '/' ==> rest@.subrange(0, 1) == seq!['/']);
                        name
                    },
                    Some(_) => {
                        assert(rest@.subrange(0, 1)[0] == '/');
                        trim_leading_separators(rest)
                    },
                }
            }
        },
    }
}

/// The source that a name on the command line stands for.
pub fn tree_source(name: &str) -> (r: TreeSource)
    ensures
        r@ == source_of(name@),
{
    proof {
        reveal_strlit("-");
    }
    let is_dash = match strip_prefix(name, "-") {
        Some(rest) => rest.is_empty(),
        None => false,
    };
    proof {
        assert("-"@ == seq!['-']);
        if name@.len() == 1 {
            assert(name@.subrange(0, 1) == name@);
        }
    }
    if is_dash {
        TreeSource::Stdin
    } else {
        TreeSource::File { name: name.to_owned(), path: tree_file_path(name).to_owned() }
    }
}

/// The sources that the names on the command line stand for, in order.
pub fn tree_sources(tree_files: &Vec<String>) -> (r: Vec<TreeSource>)
    ensures
        sources_view(r@) == sources_of(texts(tree_files@)),
{
    let mut out: Vec<TreeSource> = Vec::new();
    if tree_files.len() == 0 {
        out.push(TreeSource::Stdin);
        return out;
    }
    let mut i: usize = 0;
    while i < tree_files.len()
        invariant
            0 <= i <= tree_files.len(),
            out.len() == i,
            forall|k: int| 0 <= k < i ==> (#[trigger] out[k])@ == source_of(tree_files[k]@),
        decreases tree_files.len() - i,
    {
        out.push(tree_source(tree_files[i].as_str()));
        i = i + 1;
    }
    out
}

/// What the user is told before a source is read.
pub open spec fn notice_text(source: TreeSourceView) -> Seq<char> {
    match source {
        TreeSourceView::Stdin => "Reading tree from standard input"@,
        TreeSourceView::File { name, .. } => "Reading tree from file '"@ + name + "'"@,
    }
}

/// The failure with the source as its context, where it had none.
pub open spec fn placed(source: TreeSourceView, error: ErrorView) -> ErrorView {
    match error {
        ErrorView::MissingContext(err) => match source {
            TreeSourceView::Stdin => ErrorView::OnStdin(err),
            TreeSourceView::File { path, .. } => ErrorView::OnPath(
                path,
                PathAction::ReadFile,
                err,
            ),
        },
        known => known,
    }
}

impl TreeSource {
    /// What the user is told before the source is read.
    pub fn notice(&self) -> (r: String)
        ensures
            r@ == notice_text(self@),
    {
        match self {
            TreeSource::Stdin => String::from_str("Reading tree from standard input"),
            TreeSource::File { name, .. } => {
                let mut out = String::from_str("Reading tree from file '");
                out.append(name.as_str());
                out.append("'");
                out
            },
        }
    }

    /// Says of a failure without context that it arose while this source
    /// was read. A failure that has its context keeps it.
    pub fn place(&self, error: Error) -> (r: Error)
        ensures
            r@ == placed(self@, error@),
    {
        match self {
            TreeSource::Stdin => error.more_context(ReadStdinType::ReadStdin),
            TreeSource::File { path, .. } => error.more_context(
                PathAction::ReadFile.on(path.as_str()),
            ),
        }
    }
}

/// Judges an attempt to open the file at `path` for reading: what was
/// opened is passed on, and a failure is reported with the path and the
/// action.
pub fn read_lines<T>(path: &str, opened: Result<T, std::io::Error>) -> (r: Result<T, Error>)
    ensures
        match opened {
            Ok(lines) => r == Ok::<T, Error>(lines),
            Err(err) => r is Err && r->Err_0@ == ErrorView::OnPath(
                path@,
                PathAction::OpenFileForReading,
                err,
            ),
        },
{
    match opened {
        Ok(lines) => Ok(lines),
        Err(err) => Err(Error::OnPath(path.to_owned(), PathAction::OpenFileForReading, err)),
    }
}

} // verus!
