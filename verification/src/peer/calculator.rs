//! An abstraction to evaluate complex mathematical calculations.

use vstd::prelude::*;

verus! {

/// An abstraction to evaluate complex mathematical calculations.
#[derive(Debug)]
pub struct Calculator {
    last_result: usize,
}

impl Default for Calculator {
    fn default() -> (calculator: Self)
        ensures
            calculator.last_result_spec() == 0,
    {
        Self::new()
    }
}

impl Calculator {
    /// The result of the last calculation.
    pub closed spec fn last_result_spec(&self) -> usize {
        self.last_result
    }

    /// Create a new calculator.
    pub fn new() -> (calculator: Self)
        ensures
            calculator.last_result_spec() == 0,
    {
        Calculator { last_result: 0 }
    }

    /// Return result from last calculation.
    pub fn last_result(&self) -> (result: usize)
        ensures
            result == self.last_result_spec(),
    {
        self.last_result
    }

    /// Add two numbers.
    ///
    /// The sum must fit into a `usize`.
    pub fn add(&mut self, a: usize, b: usize) -> (sum: usize)
        requires
            a + b <= usize::MAX,
        ensures
            sum == a + b,
            final(self).last_result_spec() == sum,
    {
        self.last_result = a + b;
        self.last_result
    }

    /// Subtract two numbers.
    ///
    /// `b` may not exceed `a`.
    pub fn sub(&mut self, a: usize, b: usize) -> (difference: usize)
        requires
            a >= b,
        ensures
            difference == a - b,
            final(self).last_result_spec() == difference,
    {
        self.last_result = a - b;
        self.last_result
    }
}

} // verus!
