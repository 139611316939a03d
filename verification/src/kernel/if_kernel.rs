use vstd::prelude::*;

verus! {

/// A mask kernel without parameters: the covariance of two points is one when
/// every operating column of both points equals one, and zero otherwise.
#[derive(Clone, Debug)]
pub struct IfKernel {
    pub operating_columns: Vec<usize>,
}

impl IfKernel {
    pub fn new(operating_columns: Vec<usize>) -> (k: Self)
        ensures
            k.operating_columns@ == operating_columns@,
    {
        Self { operating_columns }
    }
}

} // verus!
