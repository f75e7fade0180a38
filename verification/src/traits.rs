use vstd::prelude::*;

verus! {

/// A plain value that can be taken into a type that wraps it.
pub trait Pure<T>: Sized {
    /// Whether `wrapped` is this value in its wrapper.
    spec fn wraps(self, wrapped: T) -> bool;

    /// Wraps the value.
    fn pure(self) -> (r: T)
        ensures
            self.wraps(r),
    ;
}

impl<T> Pure<Option<T>> for T {
    open spec fn wraps(self, wrapped: Option<T>) -> bool {
        wrapped == Some(self)
    }

    fn pure(self) -> (r: Option<T>) {
        Some(self)
    }
}

impl<T, E> Pure<Result<T, E>> for T {
    open spec fn wraps(self, wrapped: Result<T, E>) -> bool {
        wrapped == Ok::<T, E>(self)
    }

    fn pure(self) -> (r: Result<T, E>) {
        Ok(self)
    }
}

} // verus!
