use vstd::prelude::*;

verus! {

/// A stage of a pipe-and-filter chain: it turns an input into an output of the same type.
pub trait Filter<T> {
    /// What `execute` gives back for `input`.
    spec fn spec_execute(&self, input: T) -> T;

    fn execute(&self, input: T) -> (output: T)
        ensures
            output == self.spec_execute(input),
    ;
}

} // verus!
