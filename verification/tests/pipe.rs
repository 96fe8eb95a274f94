use geomk::filter::Filter;
use geomk::pipe::Pipe;

struct AddOne;

impl Filter<i64> for AddOne {
    fn spec_execute(&self, input: i64) -> i64 {
        self.execute(input)
    }

    fn execute(&self, input: i64) -> i64 {
        input + 1
    }
}

struct Double;

impl Filter<i64> for Double {
    fn spec_execute(&self, input: i64) -> i64 {
        self.execute(input)
    }

    fn execute(&self, input: i64) -> i64 {
        input * 2
    }
}

struct KeepEven;

impl Filter<Vec<i64>> for KeepEven {
    fn spec_execute(&self, input: Vec<i64>) -> Vec<i64> {
        self.execute(input)
    }

    fn execute(&self, input: Vec<i64>) -> Vec<i64> {
        input.into_iter().filter(|x| x % 2 == 0).collect()
    }
}

#[test]
fn empty_pipe_is_identity() {
    let pipe: Pipe<i64> = Pipe::new();
    assert_eq!(pipe.run_filters(5), 5);
    assert_eq!(pipe.run_filters(-3), -3);
}

#[test]
fn filters_run_in_order() {
    let mut pipe: Pipe<i64> = Pipe::new();
    pipe.add_filter(Box::new(AddOne));
    pipe.add_filter(Box::new(Double));
    assert_eq!(pipe.run_filters(5), 12);

    let mut other: Pipe<i64> = Pipe::new();
    other.add_filter(Box::new(Double));
    other.add_filter(Box::new(AddOne));
    assert_eq!(other.run_filters(5), 11);
}

#[test]
fn adding_a_filter_applies_it_last() {
    let mut pipe: Pipe<i64> = Pipe::new();
    pipe.add_filter(Box::new(AddOne));
    let before = pipe.run_filters(10);
    pipe.add_filter(Box::new(Double));
    assert_eq!(pipe.run_filters(10), Double.execute(before));
}

#[test]
fn pipe_over_collections() {
    let mut pipe: Pipe<Vec<i64>> = Pipe::new();
    pipe.add_filter(Box::new(KeepEven));
    assert_eq!(pipe.run_filters(vec![1, 2, 3, 4, 6]), vec![2, 4, 6]);
}

#[test]
fn pipe_with_one_filter_type() {
    let mut pipe: Pipe<i64, AddOne> = Pipe::new();
    pipe.add_filter(Box::new(AddOne));
    pipe.add_filter(Box::new(AddOne));
    assert_eq!(pipe.run_filters(0), 2);
}

#[test]
fn running_two_pipes_is_running_their_filters_in_one() {
    let mut first: Pipe<i64> = Pipe::new();
    first.add_filter(Box::new(AddOne));
    first.add_filter(Box::new(Double));
    let mut second: Pipe<i64> = Pipe::new();
    second.add_filter(Box::new(Double));
    second.add_filter(Box::new(AddOne));
    let mut joined: Pipe<i64> = Pipe::new();
    joined.add_filter(Box::new(AddOne));
    joined.add_filter(Box::new(Double));
    joined.add_filter(Box::new(Double));
    joined.add_filter(Box::new(AddOne));
    for x in [-4i64, 0, 3, 100] {
        assert_eq!(second.run_filters(first.run_filters(x)), joined.run_filters(x));
    }
}
