use vstd::prelude::*;

verus! {

/// A value that a caller can complete where something in it is missing.
pub trait SupplyMissing<T>: Sized {
    /// Whether `after` is this value once `info` has been offered to it.
    spec fn supplied(self, info: T, after: Self) -> bool;

    /// Offers `info`: it is taken where something was missing, and dropped
    /// where nothing was.
    fn supply_missing(self, info: T) -> (r: Self)
        ensures
            self.supplied(info, r),
    ;
}

impl<T, E, Info> SupplyMissing<Info> for Result<T, E> where E: SupplyMissing<Info> {
    open spec fn supplied(self, info: Info, after: Self) -> bool {
        match self {
            Ok(val) => after == Ok::<T, E>(val),
            Err(err) => after is Err && err.supplied(info, after->Err_0),
        }
    }

    fn supply_missing(self, info: Info) -> (r: Self) {
        match self {
            Ok(val) => Ok(val),
            Err(err) => Err(err.supply_missing(info)),
        }
    }
}

} // verus!
