use vstd::prelude::*;
use vstd::string::*;

verus! {

/// The text that `textwrap::fill` makes of `text` at the line width
/// `width`, with the options that textwrap takes for a plain width.
pub uninterp spec fn wrapped_text(text: Seq<char>, width: usize) -> Seq<char>;

/// The text that `textwrap::indent` makes of `text` with `prefix` in front
/// of its lines.
pub uninterp spec fn indented_text(text: Seq<char>, prefix: Seq<char>) -> Seq<char>;

/// Calls `textwrap::fill` with a plain width. The text is broken into
/// lines by textwrap's own rules, which depend on the text and the width
/// alone; the contract gives the result its name and claims nothing more.
#[verifier::external_body]
fn fill(text: &str, width: usize) -> (r: String)
    ensures
        r@ == wrapped_text(text@, width),
{
    textwrap::fill(text, width)
}

/// Calls `textwrap::indent`. The prefix is put in front of the lines by
/// textwrap's own rules, which depend on the text and the prefix alone; the
/// contract gives the result its name and claims nothing more.
#[verifier::external_body]
fn indent(text: &str, prefix: &str) -> (r: String)
    ensures
        r@ == indented_text(text@, prefix@),
{
    textwrap::indent(text, prefix)
}

/// What a report says: what went wrong, and after an empty line its cause.
pub open spec fn report_text(message: Seq<char>, cause: Seq<char>) -> Seq<char> {
    message + "\n\nCause: "@ + cause
}

/// Puts together what a report says: what went wrong, and after an empty
/// line its cause.
pub fn report_body(message: &str, cause: &str) -> (r: String)
    ensures
        r@ == report_text(message@, cause@),
{
    let mut out = String::from_str(message);
    out.append("\n\nCause: ");
    out.append(cause);
    out
}

/// Lays a text out for a terminal that is `width` columns wide: the text is
/// wrapped four columns short of the width, and every line is then moved
/// four columns to the right.
pub fn layout(text: &str, width: usize) -> (r: String)
    requires
        width >= 4,
    ensures
        r@ == indented_text(wrapped_text(text@, (width - 4) as usize), "    "@),
{
    let wrapped = fill(text, width - 4);
    indent(wrapped.as_str(), "    ")
}

/// The report of a failure for a terminal that is `width` columns wide:
/// what went wrong and its cause, laid out with a margin of four columns.
pub fn error_report(message: &str, cause: &str, width: usize) -> (r: String)
    requires
        width >= 4,
    ensures
        r@ == indented_text(
            wrapped_text(report_text(message@, cause@), (width - 4) as usize),
            "    "@,
        ),
{
    let body = report_body(message, cause);
    layout(body.as_str(), width)
}

} // verus!
