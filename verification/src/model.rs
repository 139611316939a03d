use vstd::prelude::*;
use crate::constraint::{Constraint, Constraints, soft_plus, unconstrained};
use crate::kernel::kernel::{Kernel, wf, param_count, recommended, lemma_recommended_len};
use crate::util::filled;

verus! {

/// How a model's parameter vector is laid out: how many parameters the model
/// takes, and the constraint applied to each position of the vector.
#[derive(Debug)]
pub struct ParameterLayout {
    pub n_params: usize,
    pub constraints: Constraints,
}

impl ParameterLayout {
    /// The layout of an exact (or sparse) Gaussian-process regression: a
    /// noise scale under the soft-plus constraint, then the kernel's
    /// parameters with their recommended constraints. The noise scale is
    /// counted in `n_params` only when `noise` is set; the constraints always
    /// cover it.
    pub fn for_gp_regression<T: Copy>(kernel: &Kernel<T>, noise: bool) -> (r: Self)
        requires
            wf(*kernel),
            param_count(*kernel) < usize::MAX,
        ensures
            r.n_params == param_count(*kernel) + (if noise {
                1int
            } else {
                0int
            }),
            r.constraints@ == seq![soft_plus()] + recommended(*kernel),
            r.constraints@.len() == param_count(*kernel) + 1,
    {
        let n_params = if noise {
            kernel.num_params() + 1
        } else {
            kernel.num_params()
        };
        let mut constraints: Vec<Constraint> = Vec::new();
        constraints.push(Constraint::new_positive_sp());
        let mut kernel_constraints = kernel.rec_constraint();
        constraints.append(&mut kernel_constraints);
        proof {
            lemma_recommended_len(*kernel);
        }
        ParameterLayout { n_params, constraints: Constraints::new(constraints) }
    }

    /// The layout of a latent Gaussian-process model with `n_latent` latent
    /// values: the kernel's parameters with their recommended constraints,
    /// then the latent values, unconstrained.
    pub fn for_latent_gp<T: Copy>(kernel: &Kernel<T>, n_latent: usize) -> (r: Self)
        requires
            wf(*kernel),
            param_count(*kernel) + n_latent <= usize::MAX,
        ensures
            r.n_params == param_count(*kernel) + n_latent,
            r.constraints@ == recommended(*kernel) + Seq::new(
                n_latent as nat,
                |i: int| unconstrained(),
            ),
            r.constraints@.len() == r.n_params,
    {
        let n_params = kernel.num_params() + n_latent;
        let mut constraints = kernel.rec_constraint();
        let mut latent_constraints = filled(Constraint::new_no_constraint(), n_latent);
        constraints.append(&mut latent_constraints);
        proof {
            lemma_recommended_len(*kernel);
        }
        ParameterLayout { n_params, constraints: Constraints::new(constraints) }
    }
}

} // verus!
