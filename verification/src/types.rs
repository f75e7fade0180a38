use vstd::prelude::*;
use vstd::string::*;

verus! {

/// Switches that govern how a creation is carried out.
#[derive(Clone, Copy, Debug)]
pub struct UntreeOptions {
    pub dry_run: bool,
    pub verbose: bool,
}

impl UntreeOptions {
    /// Options with both `dry_run` and `verbose` switched off.
    pub fn new() -> (r: Self)
        ensures
            !r.dry_run,
            !r.verbose,
    {
        UntreeOptions { dry_run: false, verbose: false }
    }

    /// The same options with `dry_run` set to the given value.
    #[must_use]
    pub fn dry_run(self, dry_run: bool) -> (r: UntreeOptions)
        ensures
            r.dry_run == dry_run,
            r.verbose == self.verbose,
    {
        UntreeOptions { dry_run, verbose: self.verbose }
    }

    /// The same options with `verbose` set to the given value.
    #[must_use]
    pub fn verbose(self, verbose: bool) -> (r: UntreeOptions)
        ensures
            r.verbose == verbose,
            r.dry_run == self.dry_run,
    {
        UntreeOptions { dry_run: self.dry_run, verbose }
    }

    /// Whether creations are only described and never carried out.
    pub fn is_dry_run(&self) -> (r: bool)
        ensures
            r == self.dry_run,
    {
        self.dry_run
    }

    /// Whether creations are described. A dry run always describes.
    pub fn is_verbose(&self) -> (r: bool)
        ensures
            r == (self.verbose || self.dry_run),
    {
        self.verbose || self.dry_run
    }
}

/// How a switch is shown.
pub open spec fn switch_text(on: bool) -> Seq<char> {
    if on {
        "true"@
    } else {
        "false"@
    }
}

impl UntreeOptions {
    /// The options with their names and values, as they are shown to a user.
    pub fn to_string(&self) -> (r: String)
        ensures
            r@ == "UntreeOptions { dry_run: "@ + switch_text(self.dry_run) + ", verbose: "@
                + switch_text(self.verbose) + " }"@,
    {
        let mut out = String::from_str("UntreeOptions { dry_run: ");
        out.append(if self.dry_run {
            "true"
        } else {
            "false"
        });
        out.append(", verbose: ");
        out.append(if self.verbose {
            "true"
        } else {
            "false"
        });
        out.append(" }");
        out
    }
}

impl Default for UntreeOptions {
    fn default() -> (r: Self)
        ensures
            !r.dry_run,
            !r.verbose,
    {
        UntreeOptions { dry_run: false, verbose: false }
    }
}

/// What a path is to be created as.
#[derive(Clone, Copy, Debug, PartialEq, Eq, Structural)]
pub enum PathKind {
    FilePath,
    Directory,
}

impl PathKind {
    /// The variant's name, as it is shown to a user.
    pub fn to_string(&self) -> (r: String)
        ensures
            r@ == match *self {
                PathKind::FilePath => "FilePath"@,
                PathKind::Directory => "Directory"@,
            },
    {
        match self {
            PathKind::FilePath => String::from_str("FilePath"),
            PathKind::Directory => String::from_str("Directory"),
        }
    }
}

} // verus!
