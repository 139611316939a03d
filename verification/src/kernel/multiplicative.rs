use vstd::prelude::*;
use super::kernel::{Kernel, wf, param_count, param_count_seq, lemma_param_count_seq_step, lemma_param_count_seq_prefix_le, lemma_wf_seq, lemma_pair_seq};

verus! {

/// The product of two kernels; its parameters are those of the left factor
/// followed by those of the right factor.
#[derive(Debug)]
pub struct MultiplicativeKernel<T> {
    pub children: Vec<Kernel<T>>,
    pub n_params: usize,
}

impl<T: Copy> MultiplicativeKernel<T> {
    pub fn new(left_kernel: Kernel<T>, right_kernel: Kernel<T>) -> (k: Self)
        requires
            wf(left_kernel),
            wf(right_kernel),
            param_count(left_kernel) + param_count(right_kernel) <= usize::MAX,
        ensures
            k.children@ == seq![left_kernel, right_kernel],
            k.n_params == param_count(left_kernel) + param_count(right_kernel),
            wf(Kernel::Multiplicative(k)),
    {
        let left_kernel_params = left_kernel.num_params();
        let right_kernel_params = right_kernel.num_params();
        let mut children: Vec<Kernel<T>> = Vec::with_capacity(2);
        children.push(left_kernel);
        children.push(right_kernel);
        proof {
            lemma_pair_seq(children@);
        }
        Self { n_params: left_kernel_params + right_kernel_params, children }
    }
}

} // verus!
