use crate::collapse::Collapse;
use vstd::prelude::*;

verus! {

/// A value to which context can be added, which makes it a value of another
/// type that holds the context.
pub trait AddContext<Context, Source: Collapse<Context>, ResultType>: Sized {
    /// Whether `after` is this value with `context` added.
    spec fn with_context(self, context: Source, after: ResultType) -> bool;

    /// Adds the context.
    fn add_context(self, context: Source) -> (r: ResultType)
        ensures
            self.with_context(context, r),
    ;
}

} // verus!
