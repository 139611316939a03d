use vstd::prelude::*;

verus! {

/// A kernel with one scale parameter `sigma`: the covariance of two points is
/// `sigma^2` when they agree on every operating column, and zero otherwise.
#[derive(Clone, Debug)]
pub struct IndicatorKernel<T> {
    pub operating_columns: Vec<usize>,
    pub sigma: T,
    pub n_params: usize,
}

impl<T: Copy> IndicatorKernel<T> {
    /// A fresh indicator kernel whose scale starts at `one`.
    pub fn new(operating_columns: Vec<usize>, one: T) -> (k: Self)
        ensures
            k.is_fresh(operating_columns@, one),
    {
        Self { sigma: one, n_params: 1, operating_columns }
    }

    /// The state that `new` leaves the kernel in.
    pub open spec fn is_fresh(self, operating_columns: Seq<usize>, one: T) -> bool {
        &&& self.operating_columns@ == operating_columns
        &&& self.sigma == one
        &&& self.n_params == 1
    }
}

} // verus!
