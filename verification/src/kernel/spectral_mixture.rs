use vstd::prelude::*;
use crate::util::filled;

verus! {

/// The spectral mixture kernel with `q` components over `p` operating
/// columns: `q` weights, then a `q x p` matrix of means and a `q x p` matrix
/// of scales, both stored row by row.
#[derive(Clone, Debug)]
pub struct SpectralMixtureKernel<T> {
    pub weights: Vec<T>,
    pub n_params: usize,
    pub operating_columns: Vec<usize>,
    pub sigmas: Vec<T>,
    pub means: Vec<T>,
    pub p: usize,
    pub q: usize,
}

/// The number of parameters of a spectral mixture with `q` components over
/// `p` columns.
pub open spec fn spectral_param_count(q: nat, p: nat) -> nat {
    q + 2 * (q * p)
}

impl<T: Copy> SpectralMixtureKernel<T> {
    /// A fresh spectral mixture kernel whose parameters all start at `one`.
    pub fn new(operating_columns: Vec<usize>, q: usize, one: T) -> (k: Self)
        requires
            spectral_param_count(q as nat, operating_columns@.len()) <= usize::MAX,
        ensures
            k.is_fresh(operating_columns@, q as nat, one),
    {
        let p = operating_columns.len();
        let qp = q * p;
        Self {
            weights: filled(one, q),
            n_params: q + 2 * qp,
            means: filled(one, qp),
            sigmas: filled(one, qp),
            operating_columns,
            p,
            q,
        }
    }

    /// The state that `new` leaves the kernel in.
    pub open spec fn is_fresh(self, operating_columns: Seq<usize>, q: nat, one: T) -> bool {
        let p = operating_columns.len();
        &&& self.operating_columns@ == operating_columns
        &&& self.p == p
        &&& self.q == q
        &&& self.weights@ == Seq::new(q, |i: int| one)
        &&& self.means@ == Seq::new(q * p, |i: int| one)
        &&& self.sigmas@ == Seq::new(q * p, |i: int| one)
        &&& self.n_params == spectral_param_count(q, p)
    }
}

} // verus!
