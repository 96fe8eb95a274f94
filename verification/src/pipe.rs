use vstd::prelude::*;

use crate::filter::Filter;
use std::marker::PhantomData;

verus! {

/// A chain of filters that a value runs through in the order they were added. By default
/// the filters are boxed trait objects, so that one pipe can hold filters of different types.
#[verifier::reject_recursive_types(T)]
#[verifier::reject_recursive_types(F)]
pub struct Pipe<T, F: Filter<T> + ?Sized = dyn Filter<T>> {
    filters: Vec<Box<F>>,
    input: PhantomData<T>,
}

/// What running `input` through `filters`, first to last, gives.
pub open spec fn run_all<T, F: Filter<T> + ?Sized>(filters: Seq<Box<F>>, input: T) -> T
    decreases filters.len(),
{
    if filters.len() == 0 {
        input
    } else {
        filters.last().spec_execute(run_all(filters.drop_last(), input))
    }
}

impl<T, F: Filter<T> + ?Sized> Pipe<T, F> {
    /// The filters of the pipe, in the order they run.
    pub closed spec fn filters(&self) -> Seq<Box<F>> {
        self.filters@
    }

    /// A pipe without filters: it gives back its input unchanged.
    pub fn new() -> (pipe: Self)
        ensures
            pipe.filters() == Seq::<Box<F>>::empty(),
            forall|x: T| #[trigger] run_all(pipe.filters(), x) == x,
    {
        Self { filters: Vec::new(), input: PhantomData }
    }

    /// Adds `filter` as the last stage: the pipe then applies it to what it gave before.
    pub fn add_filter(&mut self, filter: Box<F>)
        ensures
            final(self).filters() == old(self).filters().push(filter),
            forall|x: T| #[trigger] run_all(final(self).filters(), x) == filter.spec_execute(
                run_all(old(self).filters(), x),
            ),
    {
        self.filters.push(filter);
        assert forall|x: T| #[trigger] run_all(self.filters@, x) == filter.spec_execute(
            run_all(old(self).filters@, x),
        ) by {
            lemma_run_after_add(old(self).filters@, filter, x);
        }
    }

    /// Runs `input` through every filter in turn and gives back what the last one returns.
    pub fn run_filters(&self, input: T) -> (output: T)
        ensures
            output == run_all(self.filters(), input),
    {
        let ghost start = input;
        let mut input = input;
        let mut i: usize = 0;
        while i < self.filters.len()
            invariant
                i <= self.filters@.len(),
                input == run_all(self.filters@.take(i as int), start),
            decreases self.filters@.len() - i,
        {
            assert(self.filters@.take(i + 1).drop_last() == self.filters@.take(i as int));
            input = self.filters[i].execute(input);
            i = i + 1;
        }
        assert(self.filters@.take(i as int) == self.filters@);
        input
    }
}

/// A pipe without filters gives back its input unchanged.
pub proof fn lemma_run_empty<T, F: Filter<T> + ?Sized>(input: T)
    ensures
        run_all(Seq::<Box<F>>::empty(), input) == input,
{
}

/// Adding a filter to a pipe makes the pipe apply that filter to what it gave before.
pub proof fn lemma_run_after_add<T, F: Filter<T> + ?Sized>(
    filters: Seq<Box<F>>,
    filter: Box<F>,
    input: T,
)
    ensures
        run_all(filters.push(filter), input) == filter.spec_execute(run_all(filters, input)),
{
    assert(filters.push(filter).drop_last() == filters);
}

/// Running two chains one after the other is running their concatenation.
pub proof fn lemma_run_concat<T, F: Filter<T> + ?Sized>(
    first: Seq<Box<F>>,
    second: Seq<Box<F>>,
    input: T,
)
    ensures
        run_all(first + second, input) == run_all(second, run_all(first, input)),
    decreases second.len(),
{
    if second.len() == 0 {
        assert(first + second == first);
    } else {
        lemma_run_concat(first, second.drop_last(), input);
        assert((first + second).drop_last() == first + second.drop_last());
        assert((first + second).last() == second.last());
    }
}

} // verus!
