use vstd::prelude::*;

verus! {

/// A family of types that can all be brought to one type.
pub trait Collapse<To>: Sized {
    /// Whether `to` is this value brought to the common type.
    spec fn collapses_to(self, to: To) -> bool;

    /// Brings the value to the common type.
    fn collapse(self) -> (r: To)
        ensures
            self.collapses_to(r),
    ;
}

} // verus!
