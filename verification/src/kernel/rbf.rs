use vstd::prelude::*;
use crate::util::filled;

verus! {

/// The squared-exponential (RBF) kernel with an output scale `sigma` and one
/// length scale per operating column.
#[derive(Clone, Debug)]
pub struct ExpQuadKernel<T> {
    pub sigma: T,
    pub lengthscales: Vec<T>,
    pub n_params: usize,
    pub operating_columns: Vec<usize>,
}

impl<T: Copy> ExpQuadKernel<T> {
    /// A fresh RBF kernel whose scale and length scales all start at `one`.
    pub fn new(operating_columns: Vec<usize>, one: T) -> (k: Self)
        requires
            operating_columns@.len() < usize::MAX,
        ensures
            k.is_fresh(operating_columns@, one),
    {
        Self {
            sigma: one,
            lengthscales: filled(one, operating_columns.len()),
            n_params: operating_columns.len() + 1,
            operating_columns,
        }
    }

    /// The state that `new` leaves the kernel in.
    pub open spec fn is_fresh(self, operating_columns: Seq<usize>, one: T) -> bool {
        &&& self.operating_columns@ == operating_columns
        &&& self.sigma == one
        &&& self.lengthscales@ == Seq::new(operating_columns.len(), |i: int| one)
        &&& self.n_params == operating_columns.len() + 1
    }
}

} // verus!
