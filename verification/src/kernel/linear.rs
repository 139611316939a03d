use vstd::prelude::*;
use crate::util::filled;

verus! {

/// A linear kernel with one scale per operating column: the covariance of
/// `x` and `y` is the sum over the columns `c` of `sigma_c^2 * x_c * y_c`.
#[derive(Clone, Debug)]
pub struct LinearKernel<T> {
    pub sigmas: Vec<T>,
    pub n_params: usize,
    pub operating_columns: Vec<usize>,
}

impl<T: Copy> LinearKernel<T> {
    /// A fresh linear kernel whose scales all start at `one`.
    pub fn new(operating_columns: Vec<usize>, one: T) -> (k: Self)
        ensures
            k.is_fresh(operating_columns@, one),
    {
        Self {
            sigmas: filled(one, operating_columns.len()),
            n_params: operating_columns.len(),
            operating_columns,
        }
    }

    /// The state that `new` leaves the kernel in.
    pub open spec fn is_fresh(self, operating_columns: Seq<usize>, one: T) -> bool {
        &&& self.operating_columns@ == operating_columns
        &&& self.sigmas@ == Seq::new(operating_columns.len(), |i: int| one)
        &&& self.n_params == operating_columns.len()
    }
}

} // verus!
