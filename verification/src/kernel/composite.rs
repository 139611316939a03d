use vstd::prelude::*;
use super::kernel::{Kernel, wf, param_count, param_count_seq, lemma_param_count_seq_step, lemma_param_count_seq_prefix_le, lemma_wf_seq, lemma_pair_seq};

verus! {

/// The sum of any number of kernels; its parameters are those of its
/// summands, one after the other.
#[derive(Debug)]
pub struct CompositeKernel<T> {
    pub kernels: Vec<Kernel<T>>,
    pub num_params: usize,
}

impl<T: Copy> CompositeKernel<T> {
    pub fn new(kernels: Vec<Kernel<T>>) -> (k: Self)
        requires
            forall|i: int| 0 <= i < kernels@.len() ==> #[trigger] wf(kernels@[i]),
            param_count_seq(kernels@) <= usize::MAX,
        ensures
            k.kernels@ == kernels@,
            k.num_params == param_count_seq(kernels@),
            wf(Kernel::Composite(k)),
    {
        let n = kernels.len();
        let mut num_params: usize = 0;
        let mut i: usize = 0;
        while i < n
            invariant
                n == kernels@.len(),
                i <= n,
                forall|j: int| 0 <= j < kernels@.len() ==> #[trigger] wf(kernels@[j]),
                param_count_seq(kernels@) <= usize::MAX,
                num_params == param_count_seq(kernels@.subrange(0, i as int)),
            decreases n - i,
        {
            proof {
                lemma_param_count_seq_step(kernels@, i as int);
                lemma_param_count_seq_prefix_le(kernels@, i + 1);
            }
            num_params = num_params + kernels[i].num_params();
            i = i + 1;
        }
        proof {
            assert(kernels@.subrange(0, n as int) =~= kernels@);
            lemma_wf_seq(kernels@);
        }
        Self { kernels, num_params }
    }
}

} // verus!
