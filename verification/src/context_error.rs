use crate::add_context::AddContext;
use crate::collapse::Collapse;
use crate::supply_missing::SupplyMissing;
use vstd::prelude::*;
use vstd::string::*;

verus! {

/// A failure together with the context in which it arose.
#[derive(Debug)]
pub struct ContextError<T, E> {
    pub context: T,
    pub base_error: E,
}

impl<E, C, T, Source> AddContext<C, Source, Result<T, ContextError<C, E>>> for Result<
    T,
    E,
> where Source: Collapse<C> {
    open spec fn with_context(self, context: Source, after: Result<T, ContextError<C, E>>) -> bool {
        match self {
            Ok(value) => after == Ok::<T, ContextError<C, E>>(value),
            Err(err) => {
                &&& after is Err
                &&& after->Err_0.base_error == err
                &&& context.collapses_to(after->Err_0.context)
            },
        }
    }

    fn add_context(self, context: Source) -> (r: Result<T, ContextError<C, E>>) {
        match self {
            Ok(value) => Ok(value),
            Err(err) => Err(ContextError { context: context.collapse(), base_error: err }),
        }
    }
}

impl<T, E, Info> SupplyMissing<Info> for ContextError<T, E> where T: SupplyMissing<Info> {
    open spec fn supplied(self, info: Info, after: Self) -> bool {
        &&& after.base_error == self.base_error
        &&& self.context.supplied(info, after.context)
    }

    fn supply_missing(self, info: Info) -> (r: Self) {
        ContextError { context: self.context.supply_missing(info), base_error: self.base_error }
    }
}

/// How a failure with its context is shown, given the texts of the two.
pub open spec fn context_error_text(context: Seq<char>, base_error: Seq<char>) -> Seq<char> {
    "Error: ContextError { context: "@ + context + ", base_error: "@ + base_error + " }"@
}

/// Shows a failure with its context, given the texts of the two.
pub fn context_error_to_string(context: &str, base_error: &str) -> (r: String)
    ensures
        r@ == context_error_text(context@, base_error@),
{
    let mut out = String::from_str("Error: ContextError { context: ");
    out.append(context);
    out.append(", base_error: ");
    out.append(base_error);
    out.append(" }");
    out
}

} // verus!
