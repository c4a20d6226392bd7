use vstd::prelude::*;

verus! {

/// The candidate values a fresh cell starts with: 1 through 9, in order.
pub open spec fn initial_candidates() -> Seq<usize> {
    seq![1usize, 2, 3, 4, 5, 6, 7, 8, 9]
}

/// One square of the board. Two cells are equal when their current values
/// are; the candidate list takes no part in equality.
#[derive(Debug)]
pub struct Cell {
    pub current_value: usize,
    pub possible_values: Vec<usize>,
}

/// The candidates 1 through 9.
pub fn initial_possible_values() -> (r: [usize; 9])
    ensures
        r@ == initial_candidates(),
{
    let r: [usize; 9] = [1usize, 2usize, 3usize, 4usize, 5usize, 6usize, 7usize, 8usize, 9usize];
    assert(r@ =~= initial_candidates());
    r
}

impl Cell {
    /// A cell holding `value`, with the full candidate list.
    pub fn with_value(value: usize) -> (r: Cell)
        ensures
            r.current_value == value,
            r.possible_values@ == initial_candidates(),
    {
        let cands = initial_possible_values();
        let mut possible_values: Vec<usize> = Vec::new();
        let mut i: usize = 0;
        while i < 9
            invariant
                0 <= i <= 9,
                cands@ == initial_candidates(),
                possible_values@ == cands@.subrange(0, i as int),
            decreases 9 - i,
        {
            possible_values.push(cands[i]);
            i = i + 1;
            assert(possible_values@ =~= cands@.subrange(0, i as int));
        }
        assert(possible_values@ =~= cands@);
        Cell { current_value: value, possible_values }
    }

    /// A fresh, unfilled cell (value 0, all candidates); `self` is consumed.
    pub fn new(self) -> (r: Cell)
        ensures
            r.current_value == 0,
            r.possible_values@ == initial_candidates(),
    {
        Cell::with_value(0)
    }
}

impl Default for Cell {
    fn default() -> (r: Cell)
        ensures
            r.current_value == 0,
            r.possible_values@ == initial_candidates(),
    {
        Cell::with_value(0)
    }
}

impl Clone for Cell {
    fn clone(&self) -> (r: Cell)
        ensures
            r.current_value == self.current_value,
            r.possible_values@ == self.possible_values@,
    {
        let mut possible_values: Vec<usize> = Vec::new();
        let mut i: usize = 0;
        while i < self.possible_values.len()
            invariant
                0 <= i <= self.possible_values@.len(),
                possible_values@ == self.possible_values@.subrange(0, i as int),
            decreases self.possible_values@.len() - i,
        {
            possible_values.push(self.possible_values[i]);
            i = i + 1;
            assert(possible_values@ =~= self.possible_values@.subrange(0, i as int));
        }
        assert(possible_values@ =~= self.possible_values@);
        Cell { current_value: self.current_value, possible_values }
    }
}

impl PartialEq for Cell {
    fn eq(&self, other: &Cell) -> (r: bool) {
        self.current_value == other.current_value
    }
}

impl vstd::std_specs::cmp::PartialEqSpecImpl for Cell {
    open spec fn obeys_eq_spec() -> bool {
        true
    }

    open spec fn eq_spec(&self, other: &Cell) -> bool {
        self.current_value == other.current_value
    }
}

impl PartialEq<usize> for Cell {
    fn eq(&self, other: &usize) -> (r: bool) {
        self.current_value == *other
    }
}

impl vstd::std_specs::cmp::PartialEqSpecImpl<usize> for Cell {
    open spec fn obeys_eq_spec() -> bool {
        true
    }

    open spec fn eq_spec(&self, other: &usize) -> bool {
        self.current_value == *other
    }
}

} // verus!
