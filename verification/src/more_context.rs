use vstd::prelude::*;

verus! {

/// A value that may lack the context in which it arose, and can be given it
/// by a caller who knows.
pub trait MoreContext<T>: Sized {
    /// Whether `after` is this value once `info` has been offered to it.
    spec fn gains(self, info: T, after: Self) -> bool;

    /// Offers the context `info`: it is taken where context was missing, and
    /// dropped where it was already known.
    fn more_context(self, info: T) -> (r: Self)
        ensures
            self.gains(info, r),
    ;
}

impl<T, E, Info> MoreContext<Info> for Result<T, E> where E: MoreContext<Info> {
    open spec fn gains(self, info: Info, after: Self) -> bool {
        match self {
            Ok(val) => after == Ok::<T, E>(val),
            Err(err) => after is Err && err.gains(info, after->Err_0),
        }
    }

    fn more_context(self, info: Info) -> (r: Self) {
        match self {
            Ok(val) => Ok(val),
            Err(err) => Err(err.more_context(info)),
        }
    }
}

} // verus!
