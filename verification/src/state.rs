use vstd::prelude::*;

verus! {

/// A machine that is driven from outside: each step takes what the outside
/// has to give, and returns the state that follows and what is handed out.
pub trait StateMachine: Sized {
    /// What a step hands out.
    type Item;

    /// What a step is given.
    type Input;

    /// Whether a step from this state with `input` leads to `after` and
    /// hands out `emitted`.
    spec fn steps_to(self, input: Self::Input, after: Self, emitted: Option<Self::Item>) -> bool;

    /// Makes one step.
    fn step(self, input: Self::Input) -> (r: (Self, Option<Self::Item>))
        ensures
            self.steps_to(input, r.0, r.1),
    ;
}

} // verus!
