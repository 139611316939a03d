use vstd::prelude::*;
use crate::constraint::soft_plus;
use super::kernel::{Kernel, param_count, param_count_seq, recommended, recommended_seq, lemma_pair_seq};
use super::specification::{KernelSpec, builds, known_leaf, parsable, spec_param_count, well_named};

verus! {

/// `out` are the zero-based positions of the one-based column numbers
/// `cols`: one entry per number, and every number `c >= 1` becomes `c - 1`.
pub open spec fn shifted_columns(out: Seq<usize>, cols: Seq<i32>) -> bool {
    &&& out.len() == cols.len()
    &&& forall|i: int| 0 <= i < cols.len() && cols[i] >= 1 ==> #[trigger] out[i] as int == cols[i] - 1
}

/// Every constraint a kernel recommends is the soft-plus constraint.
pub proof fn law_recommended_all_soft_plus<T>(k: Kernel<T>)
    ensures
        forall|i: int| 0 <= i < recommended(k).len() ==> #[trigger] recommended(k)[i] == soft_plus(),
    decreases k,
{
    match k {
        Kernel::Composite(c) => law_recommended_seq_all_soft_plus(c.kernels@),
        Kernel::Multiplicative(m) => law_recommended_seq_all_soft_plus(m.children@),
        _ => {},
    }
}

/// Every constraint a sequence of kernels recommends is the soft-plus
/// constraint.
pub proof fn law_recommended_seq_all_soft_plus<T>(ks: Seq<Kernel<T>>)
    ensures
        forall|i: int|
            0 <= i < recommended_seq(ks).len() ==> #[trigger] recommended_seq(ks)[i] == soft_plus(),
    decreases ks,
{
    if ks.len() > 0 {
        let init = ks.subrange(0, ks.len() - 1);
        let last = ks[ks.len() - 1];
        law_recommended_seq_all_soft_plus(init);
        law_recommended_all_soft_plus(last);
        let r = recommended_seq(ks);
        assert(r == recommended_seq(init) + recommended(last));
        assert forall|i: int| 0 <= i < r.len() implies #[trigger] r[i] == soft_plus() by {
            if i < recommended_seq(init).len() {
                assert(r[i] == recommended_seq(init)[i]);
            } else {
                assert(r[i] == recommended(last)[i - recommended_seq(init).len()]);
            }
        }
    }
}

/// A sum or a product of two buildable specifications is itself buildable
/// when the total count fits, and asks for the parameters of both operands.
pub proof fn law_sum_and_product_specs_parse(s: KernelSpec)
    requires
        s is Composite,
        s->composite_type@ == "add"@ || s->composite_type@ == "multiply"@,
        parsable(*s->left),
        parsable(*s->right),
        spec_param_count(*s->left) + spec_param_count(*s->right) <= usize::MAX,
    ensures
        parsable(s),
        spec_param_count(s) == spec_param_count(*s->left) + spec_param_count(*s->right),
{
}

/// An `add` specification builds the sum of its two operands, a `multiply`
/// specification their product.
pub proof fn law_composite_kinds<T: Copy>(s: KernelSpec, k: Kernel<T>, one: T)
    requires
        s is Composite,
        builds(k, s, one),
    ensures
        s->composite_type@ == "add"@ ==> (k matches Kernel::Composite(c) && c.kernels@.len() == 2
            && builds(c.kernels@[0], *s->left, one) && builds(c.kernels@[1], *s->right, one)),
        s->composite_type@ == "multiply"@ ==> (k matches Kernel::Multiplicative(m)
            && m.children@.len() == 2 && builds(m.children@[0], *s->left, one) && builds(
            m.children@[1],
            *s->right,
            one,
        )),
{
    reveal_strlit("add");
    reveal_strlit("multiply");
    assert("add"@ != "multiply"@) by {
        assert("add"@.len() != "multiply"@.len());
    }
}

/// The leaf `spectralN`, for a digit `N` from 1 to 5, is a known leaf that
/// builds a spectral mixture with exactly `N` components over its columns,
/// taking `N + 2 * N * p` parameters for `p` columns.
pub proof fn law_spectral_leaf_components<T: Copy>(s: KernelSpec, k: Kernel<T>, one: T, digit: char)
    requires
        s is Leaf,
        s->Leaf_kernel@ == "spectral"@.push(digit),
        49 <= digit as int <= 53,
        builds(k, s, one),
    ensures
        known_leaf(s->Leaf_kernel@),
        k matches Kernel::SpectralMixture(m) && m.q == digit as int - 48 && shifted_columns(
            m.operating_columns@,
            s->Leaf_cols@,
        ),
        param_count(k) == (digit as int - 48) + 2 * ((digit as int - 48) * s->Leaf_cols@.len()),
        spec_param_count(s) == param_count(k),
{
    let name = s->Leaf_kernel@;
    reveal_strlit("spectral");
    reveal_strlit("spectral1");
    reveal_strlit("spectral2");
    reveal_strlit("spectral3");
    reveal_strlit("spectral4");
    reveal_strlit("spectral5");
    reveal_strlit("rbf");
    reveal_strlit("linear");
    reveal_strlit("linear_rbf");
    reveal_strlit("id");
    reveal_strlit("mask");
    assert(name.len() == 9);
    assert(name != "rbf"@ && name != "linear"@ && name != "id"@ && name != "mask"@);
    assert(name != "linear_rbf"@);
    if digit as int == 49 {
        assert(name =~= "spectral1"@);
    } else if digit as int == 50 {
        assert(name =~= "spectral2"@);
        assert(name != "spectral1"@) by { assert(name[8] != "spectral1"@[8]); }
    } else if digit as int == 51 {
        assert(name =~= "spectral3"@);
        assert(name != "spectral1"@) by { assert(name[8] != "spectral1"@[8]); }
        assert(name != "spectral2"@) by { assert(name[8] != "spectral2"@[8]); }
    } else if digit as int == 52 {
        assert(name =~= "spectral4"@);
        assert(name != "spectral1"@) by { assert(name[8] != "spectral1"@[8]); }
        assert(name != "spectral2"@) by { assert(name[8] != "spectral2"@[8]); }
        assert(name != "spectral3"@) by { assert(name[8] != "spectral3"@[8]); }
    } else {
        assert(name =~= "spectral5"@);
        assert(name != "spectral1"@) by { assert(name[8] != "spectral1"@[8]); }
        assert(name != "spectral2"@) by { assert(name[8] != "spectral2"@[8]); }
        assert(name != "spectral3"@) by { assert(name[8] != "spectral3"@[8]); }
        assert(name != "spectral4"@) by { assert(name[8] != "spectral4"@[8]); }
    }
}

/// Each of the other leaf names builds the kernel it names over its columns,
/// with the number of parameters that kernel takes for `p` columns: `rbf` an
/// RBF kernel (`p + 1`), `linear` a linear kernel (`p`), `linear_rbf` a
/// linear times an RBF kernel (`2p + 1`), `id` an indicator kernel (`1`),
/// `mask` a mask kernel (`0`).
pub proof fn law_leaf_kinds<T: Copy>(s: KernelSpec, k: Kernel<T>, one: T)
    requires
        s is Leaf,
        builds(k, s, one),
    ensures
        s->Leaf_kernel@ == "rbf"@ ==> (k matches Kernel::ExpQuad(e) && shifted_columns(
            e.operating_columns@,
            s->Leaf_cols@,
        ) && param_count(k) == s->Leaf_cols@.len() + 1),
        s->Leaf_kernel@ == "linear"@ ==> (k matches Kernel::Linear(l) && shifted_columns(
            l.operating_columns@,
            s->Leaf_cols@,
        ) && param_count(k) == s->Leaf_cols@.len()),
        s->Leaf_kernel@ == "linear_rbf"@ ==> (k matches Kernel::Multiplicative(m)
            && m.children@.len() == 2 && m.children@[0] is Linear && m.children@[1] is ExpQuad
            && shifted_columns(m.children@[0]->Linear_0.operating_columns@, s->Leaf_cols@)
            && shifted_columns(m.children@[1]->ExpQuad_0.operating_columns@, s->Leaf_cols@)
            && param_count(k) == 2 * s->Leaf_cols@.len() + 1),
        s->Leaf_kernel@ == "id"@ ==> (k matches Kernel::Indicator(i) && shifted_columns(
            i.operating_columns@,
            s->Leaf_cols@,
        ) && param_count(k) == 1),
        s->Leaf_kernel@ == "mask"@ ==> (k matches Kernel::If(f) && shifted_columns(
            f.operating_columns@,
            s->Leaf_cols@,
        ) && param_count(k) == 0),
        well_named(s) && (s->Leaf_kernel@ == "rbf"@ || s->Leaf_kernel@ == "linear"@
            || s->Leaf_kernel@ == "linear_rbf"@ || s->Leaf_kernel@ == "id"@ || s->Leaf_kernel@
            == "mask"@) ==> spec_param_count(s) == param_count(k),
{
    reveal_strlit("rbf");
    reveal_strlit("linear");
    reveal_strlit("linear_rbf");
    reveal_strlit("id");
    reveal_strlit("mask");
    let name = s->Leaf_kernel@;
    assert("rbf"@ != "linear"@ && "rbf"@ != "linear_rbf"@ && "rbf"@ != "id"@ && "rbf"@ != "mask"@)
        by {
        assert("rbf"@.len() == 3 && "linear"@.len() == 6 && "linear_rbf"@.len() == 10);
        assert("id"@.len() == 2 && "mask"@.len() == 4);
    }
    assert("linear"@ != "linear_rbf"@ && "linear"@ != "id"@ && "linear"@ != "mask"@) by {
        assert("linear"@.len() == 6 && "linear_rbf"@.len() == 10 && "id"@.len() == 2);
        assert("mask"@.len() == 4);
    }
    assert("linear_rbf"@ != "id"@ && "linear_rbf"@ != "mask"@ && "id"@ != "mask"@) by {
        assert("linear_rbf"@.len() == 10 && "id"@.len() == 2 && "mask"@.len() == 4);
    }
    if name == "linear_rbf"@ {
        let m = k->Multiplicative_0;
        lemma_pair_seq(m.children@);
    }
}

} // verus!
