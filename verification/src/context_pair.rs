use crate::add_context::AddContext;
use crate::collapse::Collapse;
use crate::context_error::ContextError;
use vstd::prelude::*;
use vstd::string::*;

verus! {

/// The context a failure arose in, and what a caller has added to it.
#[derive(Debug)]
pub struct ContextPair<A, B> {
    pub first: A,
    pub rest: B,
}

impl<E, C1, C2, T, Source> AddContext<
    C2,
    Source,
    Result<T, ContextError<ContextPair<C1, C2>, E>>,
> for Result<T, ContextError<C1, E>> where Source: Collapse<C2> {
    open spec fn with_context(
        self,
        context: Source,
        after: Result<T, ContextError<ContextPair<C1, C2>, E>>,
    ) -> bool {
        match self {
            Ok(value) => after == Ok::<T, ContextError<ContextPair<C1, C2>, E>>(value),
            Err(err) => {
                &&& after is Err
                &&& after->Err_0.base_error == err.base_error
                &&& after->Err_0.context.first == err.context
                &&& context.collapses_to(after->Err_0.context.rest)
            },
        }
    }

    fn add_context(self, context: Source) -> (r: Result<
        T,
        ContextError<ContextPair<C1, C2>, E>,
    >) {
        match self {
            Ok(value) => Ok(value),
            Err(err) => Err(
                ContextError {
                    context: ContextPair { first: err.context, rest: context.collapse() },
                    base_error: err.base_error,
                },
            ),
        }
    }
}

/// How two contexts are shown together, given the texts of the two.
pub open spec fn context_pair_text(first: Seq<char>, rest: Seq<char>) -> Seq<char> {
    first + ", also: "@ + rest
}

/// Shows two contexts together, given the texts of the two.
pub fn context_pair_to_string(first: &str, rest: &str) -> (r: String)
    ensures
        r@ == context_pair_text(first@, rest@),
{
    let mut out = String::from_str(first);
    out.append(", also: ");
    out.append(rest);
    out
}

} // verus!
