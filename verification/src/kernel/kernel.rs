use vstd::prelude::*;
use vstd::string::*;
use vstd::slice::slice_to_vec;
use crate::constraint::{Constraint, soft_plus};
use crate::text::{append_decimal, decimal_text};
use crate::util::filled;
use super::composite::CompositeKernel;
use super::if_kernel::IfKernel;
use super::indicator::IndicatorKernel;
use super::linear::LinearKernel;
use super::multiplicative::MultiplicativeKernel;
use super::rbf::ExpQuadKernel;
use super::spectral_mixture::{SpectralMixtureKernel, spectral_param_count};

verus! {

/// A covariance kernel: a leaf kernel, or the sum or product of kernels.
/// `T` is the type of the parameter values, which the kernel stores but never
/// inspects.
#[derive(Debug)]
pub enum Kernel<T> {
    If(IfKernel),
    Indicator(IndicatorKernel<T>),
    Linear(LinearKernel<T>),
    ExpQuad(ExpQuadKernel<T>),
    SpectralMixture(SpectralMixtureKernel<T>),
    Composite(CompositeKernel<T>),
    Multiplicative(MultiplicativeKernel<T>),
}

// ---------------------------------------------------------------------------
// The model of a kernel tree
// ---------------------------------------------------------------------------

/// The number of parameters the kernel takes.
pub open spec fn param_count<T>(k: Kernel<T>) -> nat
    decreases k,
{
    match k {
        Kernel::If(_) => 0,
        Kernel::Indicator(_) => 1,
        Kernel::Linear(l) => l.operating_columns@.len(),
        Kernel::ExpQuad(e) => e.operating_columns@.len() + 1,
        Kernel::SpectralMixture(s) => spectral_param_count(s.q as nat, s.operating_columns@.len()),
        Kernel::Composite(c) => param_count_seq(c.kernels@),
        Kernel::Multiplicative(m) => param_count_seq(m.children@),
    }
}

/// The total number of parameters of a sequence of kernels.
pub open spec fn param_count_seq<T>(ks: Seq<Kernel<T>>) -> nat
    decreases ks,
{
    if ks.len() == 0 {
        0
    } else {
        param_count_seq(ks.subrange(0, ks.len() - 1)) + param_count(ks[ks.len() - 1])
    }
}

/// Well-formedness: every cached parameter count is the true count, a product
/// has exactly two factors, and a spectral mixture holds exactly `q` weights
/// and `q * p` means and scales.
pub open spec fn wf<T>(k: Kernel<T>) -> bool
    decreases k,
{
    match k {
        Kernel::If(_) => true,
        Kernel::Indicator(i) => i.n_params == 1,
        Kernel::Linear(l) => l.n_params == l.operating_columns@.len(),
        Kernel::ExpQuad(e) => e.n_params == e.operating_columns@.len() + 1,
        Kernel::SpectralMixture(s) => {
            &&& s.p == s.operating_columns@.len()
            &&& s.n_params == spectral_param_count(s.q as nat, s.p as nat)
            &&& s.weights@.len() == s.q
            &&& s.means@.len() == s.q * s.p
            &&& s.sigmas@.len() == s.q * s.p
        },
        Kernel::Composite(c) => wf_seq(c.kernels@) && c.num_params == param_count_seq(c.kernels@),
        Kernel::Multiplicative(m) => {
            &&& m.children@.len() == 2
            &&& wf_seq(m.children@)
            &&& m.n_params == param_count_seq(m.children@)
        },
    }
}

/// Every kernel of the sequence is well formed.
pub open spec fn wf_seq<T>(ks: Seq<Kernel<T>>) -> bool
    decreases ks,
{
    ks.len() == 0 || (wf_seq(ks.subrange(0, ks.len() - 1)) && wf(ks[ks.len() - 1]))
}

/// The constraints the kernel recommends for its parameters, in parameter
/// order: soft-plus for every parameter of a leaf kernel.
pub open spec fn recommended<T>(k: Kernel<T>) -> Seq<Constraint>
    decreases k,
{
    match k {
        Kernel::If(_) => Seq::empty(),
        Kernel::Indicator(_) => Seq::new(1, |j: int| soft_plus()),
        Kernel::Linear(l) => Seq::new(l.n_params as nat, |j: int| soft_plus()),
        Kernel::ExpQuad(e) => Seq::new(e.n_params as nat, |j: int| soft_plus()),
        Kernel::SpectralMixture(s) => Seq::new(s.n_params as nat, |j: int| soft_plus()),
        Kernel::Composite(c) => recommended_seq(c.kernels@),
        Kernel::Multiplicative(m) => recommended_seq(m.children@),
    }
}

/// The recommended constraints of a sequence of kernels, one after the other.
pub open spec fn recommended_seq<T>(ks: Seq<Kernel<T>>) -> Seq<Constraint>
    decreases ks,
{
    if ks.len() == 0 {
        Seq::empty()
    } else {
        recommended_seq(ks.subrange(0, ks.len() - 1)) + recommended(ks[ks.len() - 1])
    }
}

/// The parameter values the kernel holds, in parameter order.
pub open spec fn params_of<T>(k: Kernel<T>) -> Seq<T>
    decreases k,
{
    match k {
        Kernel::If(_) => Seq::empty(),
        Kernel::Indicator(i) => seq![i.sigma],
        Kernel::Linear(l) => l.sigmas@,
        Kernel::ExpQuad(e) => seq![e.sigma] + e.lengthscales@,
        Kernel::SpectralMixture(s) => s.weights@ + s.means@ + s.sigmas@,
        Kernel::Composite(c) => params_seq(c.kernels@),
        Kernel::Multiplicative(m) => params_seq(m.children@),
    }
}

/// The parameter values of a sequence of kernels, one after the other.
pub open spec fn params_seq<T>(ks: Seq<Kernel<T>>) -> Seq<T>
    decreases ks,
{
    if ks.len() == 0 {
        Seq::empty()
    } else {
        params_seq(ks.subrange(0, ks.len() - 1)) + params_of(ks[ks.len() - 1])
    }
}

/// Whether `set_params` can take `n` values: a leaf with a scale needs at
/// least one, a spectral mixture exactly its count, a sum at least its count,
/// and a product at least the count of its left factor, the rest going to the
/// right factor.
pub open spec fn accepts<T>(k: Kernel<T>, n: int) -> bool
    decreases k,
{
    match k {
        Kernel::If(_) => true,
        Kernel::Indicator(_) => n >= 1,
        Kernel::Linear(_) => true,
        Kernel::ExpQuad(_) => n >= 1,
        Kernel::SpectralMixture(s) => n == s.n_params,
        Kernel::Composite(c) => n >= c.num_params,
        Kernel::Multiplicative(m) => {
            &&& m.children@.len() == 2
            &&& n >= param_count(m.children@[0])
            &&& accepts(m.children@[1], n - param_count(m.children@[0]))
        },
    }
}

/// The parameter values a kernel holds after `set_params(ps)`.
pub open spec fn absorb<T>(k: Kernel<T>, ps: Seq<T>) -> Seq<T>
    decreases k,
{
    match k {
        Kernel::If(_) => Seq::empty(),
        Kernel::Indicator(_) => seq![ps[0]],
        Kernel::Linear(_) => ps,
        Kernel::ExpQuad(_) => ps,
        Kernel::SpectralMixture(_) => ps,
        Kernel::Composite(c) => absorb_seq(c.kernels@, ps),
        Kernel::Multiplicative(m) => if m.children@.len() == 2 {
            let n0 = param_count(m.children@[0]) as int;
            absorb(m.children@[0], ps.subrange(0, n0)) + absorb(
                m.children@[1],
                ps.subrange(n0, ps.len() as int),
            )
        } else {
            Seq::empty()
        },
    }
}

/// What a sequence of summands holds after each took its own share of `ps`,
/// in order.
pub open spec fn absorb_seq<T>(ks: Seq<Kernel<T>>, ps: Seq<T>) -> Seq<T>
    decreases ks,
{
    if ks.len() == 0 {
        Seq::empty()
    } else {
        let init = ks.subrange(0, ks.len() - 1);
        let start = param_count_seq(init) as int;
        absorb_seq(init, ps) + absorb(
            ks[ks.len() - 1],
            ps.subrange(start, start + param_count(ks[ks.len() - 1])),
        )
    }
}

/// Two kernels have the same structure (kinds, operating columns, parameter
/// counts and children) whatever parameter values they hold.
pub open spec fn same_shape<T>(a: Kernel<T>, b: Kernel<T>) -> bool
    decreases a,
{
    match a {
        Kernel::If(x) => b matches Kernel::If(y) && x.operating_columns@ == y.operating_columns@,
        Kernel::Indicator(x) => b matches Kernel::Indicator(y) && x.operating_columns@
            == y.operating_columns@ && x.n_params == y.n_params,
        Kernel::Linear(x) => b matches Kernel::Linear(y) && x.operating_columns@
            == y.operating_columns@ && x.n_params == y.n_params,
        Kernel::ExpQuad(x) => b matches Kernel::ExpQuad(y) && x.operating_columns@
            == y.operating_columns@ && x.n_params == y.n_params,
        Kernel::SpectralMixture(x) => b matches Kernel::SpectralMixture(y) && x.operating_columns@
            == y.operating_columns@ && x.n_params == y.n_params && x.p == y.p && x.q == y.q,
        Kernel::Composite(x) => b matches Kernel::Composite(y) && x.num_params == y.num_params
            && same_shape_seq(x.kernels@, y.kernels@),
        Kernel::Multiplicative(x) => b matches Kernel::Multiplicative(y) && x.n_params
            == y.n_params && same_shape_seq(x.children@, y.children@),
    }
}

/// Two sequences of kernels have the same length and pairwise the same shape.
pub open spec fn same_shape_seq<T>(a: Seq<Kernel<T>>, b: Seq<Kernel<T>>) -> bool
    decreases a,
{
    a.len() == b.len() && (a.len() == 0 || (same_shape_seq(
        a.subrange(0, a.len() - 1),
        b.subrange(0, b.len() - 1),
    ) && same_shape(a[a.len() - 1], b[b.len() - 1])))
}

/// `k` holds, node by node, the values `set_params(ps)` hands it: an
/// indicator its scale `ps[0]`, a linear kernel all of `ps` as its scales, an
/// RBF kernel `ps[0]` as its scale and the rest as its length scales, a
/// spectral mixture `ps` split into `q` weights, `q * p` means and the
/// remaining scales; a product's left factor the first values, as many as it
/// has parameters, and its right factor the rest; a sum's summands each their
/// own consecutive share, in order.
pub open spec fn holds_params<T>(k: Kernel<T>, ps: Seq<T>) -> bool
    decreases k,
{
    match k {
        Kernel::If(_) => true,
        Kernel::Indicator(i) => ps.len() >= 1 && i.sigma == ps[0],
        Kernel::Linear(l) => l.sigmas@ == ps,
        Kernel::ExpQuad(e) => {
            &&& ps.len() >= 1
            &&& e.sigma == ps[0]
            &&& e.lengthscales@ == ps.subrange(1, ps.len() as int)
        },
        Kernel::SpectralMixture(s) => {
            &&& s.weights@ == ps.subrange(0, s.q as int)
            &&& s.means@ == ps.subrange(s.q as int, s.q + s.q * s.p)
            &&& s.sigmas@ == ps.subrange(s.q + s.q * s.p, ps.len() as int)
        },
        Kernel::Composite(c) => holds_params_seq(c.kernels@, ps),
        Kernel::Multiplicative(m) => {
            &&& m.children@.len() == 2
            &&& holds_params(m.children@[0], ps.subrange(0, param_count(m.children@[0]) as int))
            &&& holds_params(
                m.children@[1],
                ps.subrange(param_count(m.children@[0]) as int, ps.len() as int),
            )
        },
    }
}

/// Each kernel of a sum holds its own consecutive share of `ps`, in order.
pub open spec fn holds_params_seq<T>(ks: Seq<Kernel<T>>, ps: Seq<T>) -> bool
    decreases ks,
{
    ks.len() == 0 || ({
        let init = ks.subrange(0, ks.len() - 1);
        let start = param_count_seq(init) as int;
        &&& holds_params_seq(init, ps)
        &&& holds_params(
            ks[ks.len() - 1],
            ps.subrange(start, start + param_count(ks[ks.len() - 1])),
        )
    })
}

/// Two kernels hold, node by node, the same parameter values.
pub open spec fn same_values<T>(a: Kernel<T>, b: Kernel<T>) -> bool
    decreases a,
{
    match a {
        Kernel::If(_) => b matches Kernel::If(_),
        Kernel::Indicator(x) => b matches Kernel::Indicator(y) && x.sigma == y.sigma,
        Kernel::Linear(x) => b matches Kernel::Linear(y) && x.sigmas@ == y.sigmas@,
        Kernel::ExpQuad(x) => b matches Kernel::ExpQuad(y) && x.sigma == y.sigma && x.lengthscales@
            == y.lengthscales@,
        Kernel::SpectralMixture(x) => b matches Kernel::SpectralMixture(y) && x.weights@
            == y.weights@ && x.means@ == y.means@ && x.sigmas@ == y.sigmas@,
        Kernel::Composite(x) => b matches Kernel::Composite(y) && same_values_seq(
            x.kernels@,
            y.kernels@,
        ),
        Kernel::Multiplicative(x) => b matches Kernel::Multiplicative(y) && same_values_seq(
            x.children@,
            y.children@,
        ),
    }
}

/// Two sequences of kernels have the same length and pairwise the same
/// values.
pub open spec fn same_values_seq<T>(a: Seq<Kernel<T>>, b: Seq<Kernel<T>>) -> bool
    decreases a,
{
    a.len() == b.len() && (a.len() == 0 || (same_values_seq(
        a.subrange(0, a.len() - 1),
        b.subrange(0, b.len() - 1),
    ) && same_values(a[a.len() - 1], b[b.len() - 1])))
}

/// The direct sub-kernels: the summands of a sum, the factors of a product,
/// none for a leaf.
pub open spec fn children_of<T>(k: Kernel<T>) -> Seq<Kernel<T>> {
    match k {
        Kernel::Composite(c) => c.kernels@,
        Kernel::Multiplicative(m) => m.children@,
        _ => Seq::empty(),
    }
}

/// The one-line description of a kernel node.
pub open spec fn description<T>(k: Kernel<T>) -> Seq<char> {
    match k {
        Kernel::If(_) => "If Kernel"@,
        Kernel::Indicator(_) => "Indicator Kernel"@,
        Kernel::Linear(_) => "Linear Kernel"@,
        Kernel::ExpQuad(_) => "RBF Kernel"@,
        Kernel::SpectralMixture(s) => "Spectral Mixture Kernel with "@ + decimal_text(s.q as nat),
        Kernel::Composite(_) => "Plus (+)"@,
        Kernel::Multiplicative(_) => "Times (*)"@,
    }
}

// ---------------------------------------------------------------------------
// Lemmas about sequences of kernels
// ---------------------------------------------------------------------------

/// Extending a prefix of `ks` by one kernel extends each per-sequence model by
/// that kernel's contribution.
pub proof fn lemma_param_count_seq_step<T>(ks: Seq<Kernel<T>>, i: int)
    requires
        0 <= i < ks.len(),
    ensures
        param_count_seq(ks.subrange(0, i + 1)) == param_count_seq(ks.subrange(0, i)) + param_count(
            ks[i],
        ),
        recommended_seq(ks.subrange(0, i + 1)) == recommended_seq(ks.subrange(0, i)) + recommended(
            ks[i],
        ),
        params_seq(ks.subrange(0, i + 1)) == params_seq(ks.subrange(0, i)) + params_of(ks[i]),
        wf_seq(ks.subrange(0, i + 1)) == (wf_seq(ks.subrange(0, i)) && wf(ks[i])),
{
    let s = ks.subrange(0, i + 1);
    assert(s.subrange(0, s.len() - 1) =~= ks.subrange(0, i));
}

/// The parameter count of a prefix never exceeds that of the whole sequence.
pub proof fn lemma_param_count_seq_prefix_le<T>(ks: Seq<Kernel<T>>, i: int)
    requires
        0 <= i <= ks.len(),
    ensures
        param_count_seq(ks.subrange(0, i)) <= param_count_seq(ks),
    decreases ks.len() - i,
{
    if i == ks.len() {
        assert(ks.subrange(0, i) =~= ks);
    } else {
        lemma_param_count_seq_step(ks, i);
        lemma_param_count_seq_prefix_le(ks, i + 1);
    }
}

/// `wf_seq` holds exactly when every kernel of the sequence is well formed.
pub proof fn lemma_wf_seq<T>(ks: Seq<Kernel<T>>)
    ensures
        wf_seq(ks) <==> forall|i: int| 0 <= i < ks.len() ==> #[trigger] wf(ks[i]),
    decreases ks.len(),
{
    if ks.len() > 0 {
        let init = ks.subrange(0, ks.len() - 1);
        lemma_wf_seq(init);
        assert forall|i: int| 0 <= i < init.len() implies init[i] == ks[i] by {}
        if forall|i: int| 0 <= i < ks.len() ==> #[trigger] wf(ks[i]) {
            assert forall|i: int| 0 <= i < init.len() implies #[trigger] wf(init[i]) by {
                assert(wf(ks[i]));
            }
            assert(wf(ks[ks.len() - 1]));
        }
        if wf_seq(ks) {
            assert forall|i: int| 0 <= i < ks.len() implies #[trigger] wf(ks[i]) by {
                if i < ks.len() - 1 {
                    assert(wf(init[i]));
                }
            }
        }
    }
}

/// The per-sequence models of a two-element sequence.
pub proof fn lemma_pair_seq<T>(s: Seq<Kernel<T>>)
    requires
        s.len() == 2,
    ensures
        param_count_seq(s) == param_count(s[0]) + param_count(s[1]),
        recommended_seq(s) == recommended(s[0]) + recommended(s[1]),
        params_seq(s) == params_of(s[0]) + params_of(s[1]),
        wf_seq(s) == (wf(s[0]) && wf(s[1])),
        s == seq![s[0], s[1]],
{
    assert(s.subrange(0, 0) =~= Seq::<Kernel<T>>::empty());
    lemma_param_count_seq_step(s, 0);
    lemma_param_count_seq_step(s, 1);
    assert(s.subrange(0, 2) =~= s);
    assert(s =~= seq![s[0], s[1]]);
    assert(recommended_seq(Seq::<Kernel<T>>::empty()) =~= Seq::<Constraint>::empty());
    assert(params_seq(Seq::<Kernel<T>>::empty()) =~= Seq::<T>::empty());
    assert(Seq::<Constraint>::empty() + recommended(s[0]) =~= recommended(s[0]));
    assert(Seq::<T>::empty() + params_of(s[0]) =~= params_of(s[0]));
}

/// One more summand of a sum takes the next share of the parameter values.
pub proof fn lemma_absorb_seq_step<T>(ks: Seq<Kernel<T>>, i: int, ps: Seq<T>)
    requires
        0 <= i < ks.len(),
    ensures
        absorb_seq(ks.subrange(0, i + 1), ps) == absorb_seq(ks.subrange(0, i), ps) + absorb(
            ks[i],
            ps.subrange(
                param_count_seq(ks.subrange(0, i)) as int,
                (param_count_seq(ks.subrange(0, i)) + param_count(ks[i])) as int,
            ),
        ),
        holds_params_seq(ks.subrange(0, i + 1), ps) == (holds_params_seq(ks.subrange(0, i), ps)
            && holds_params(
            ks[i],
            ps.subrange(
                param_count_seq(ks.subrange(0, i)) as int,
                (param_count_seq(ks.subrange(0, i)) + param_count(ks[i])) as int,
            ),
        )),
{
    let s = ks.subrange(0, i + 1);
    assert(s.subrange(0, s.len() - 1) =~= ks.subrange(0, i));
}

/// Two sequences have pairwise the same shape exactly when `same_shape_seq`
/// says so.
pub proof fn lemma_same_shape_seq<T>(a: Seq<Kernel<T>>, b: Seq<Kernel<T>>)
    ensures
        same_shape_seq(a, b) <==> (a.len() == b.len() && forall|i: int|
            0 <= i < a.len() ==> #[trigger] same_shape(a[i], b[i])),
    decreases a.len(),
{
    if a.len() > 0 && a.len() == b.len() {
        let ia = a.subrange(0, a.len() - 1);
        let ib = b.subrange(0, b.len() - 1);
        lemma_same_shape_seq(ia, ib);
        if forall|i: int| 0 <= i < a.len() ==> #[trigger] same_shape(a[i], b[i]) {
            assert forall|i: int| 0 <= i < ia.len() implies #[trigger] same_shape(ia[i], ib[i]) by {
                assert(same_shape(a[i], b[i]));
            }
            assert(same_shape(a[a.len() - 1], b[b.len() - 1]));
        }
        if same_shape_seq(a, b) {
            assert forall|i: int| 0 <= i < a.len() implies #[trigger] same_shape(a[i], b[i]) by {
                if i < a.len() - 1 {
                    assert(same_shape(ia[i], ib[i]));
                }
            }
        }
    }
}

/// Sequences whose kernels pairwise hold the same values satisfy
/// `same_values_seq`.
pub proof fn lemma_same_values_seq<T>(a: Seq<Kernel<T>>, b: Seq<Kernel<T>>)
    requires
        a.len() == b.len(),
        forall|i: int| 0 <= i < a.len() ==> #[trigger] same_values(a[i], b[i]),
    ensures
        same_values_seq(a, b),
    decreases a.len(),
{
    if a.len() > 0 {
        let ia = a.subrange(0, a.len() - 1);
        let ib = b.subrange(0, b.len() - 1);
        assert forall|i: int| 0 <= i < ia.len() implies #[trigger] same_values(ia[i], ib[i]) by {
            assert(same_values(a[i], b[i]));
        }
        lemma_same_values_seq(ia, ib);
        assert(same_values(a[a.len() - 1], b[b.len() - 1]));
    }
}

/// Kernels of the same shape take the same number of parameters and
/// recommend the same constraints.
pub proof fn lemma_same_shape_counts<T>(a: Kernel<T>, b: Kernel<T>)
    requires
        same_shape(a, b),
    ensures
        param_count(a) == param_count(b),
        recommended(a) == recommended(b),
    decreases a,
{
    match a {
        Kernel::Composite(x) => {
            let y = b->Composite_0;
            lemma_same_shape_counts_seq(x.kernels@, y.kernels@);
        },
        Kernel::Multiplicative(x) => {
            let y = b->Multiplicative_0;
            lemma_same_shape_counts_seq(x.children@, y.children@);
        },
        _ => {},
    }
}

/// Sequences of the same shape take the same number of parameters and
/// recommend the same constraints.
pub proof fn lemma_same_shape_counts_seq<T>(a: Seq<Kernel<T>>, b: Seq<Kernel<T>>)
    requires
        same_shape_seq(a, b),
    ensures
        param_count_seq(a) == param_count_seq(b),
        recommended_seq(a) == recommended_seq(b),
    decreases a,
{
    if a.len() > 0 {
        lemma_same_shape_counts_seq(a.subrange(0, a.len() - 1), b.subrange(0, b.len() - 1));
        lemma_same_shape_counts(a[a.len() - 1], b[b.len() - 1]);
    }
}

/// A well-formed kernel accepts exactly its own number of parameters.
pub proof fn lemma_accepts_own_count<T>(k: Kernel<T>)
    requires
        wf(k),
    ensures
        accepts(k, param_count(k) as int),
    decreases k,
{
    if let Kernel::Multiplicative(m) = k {
        lemma_pair_seq(m.children@);
        assert(decreases_to!(k => m.children@[1]));
        lemma_accepts_own_count(m.children@[1]);
    }
}

/// A kernel recommends exactly one constraint per parameter.
pub proof fn lemma_recommended_len<T>(k: Kernel<T>)
    requires
        wf(k),
    ensures
        recommended(k).len() == param_count(k),
    decreases k,
{
    match k {
        Kernel::Composite(c) => lemma_recommended_len_seq(c.kernels@),
        Kernel::Multiplicative(m) => lemma_recommended_len_seq(m.children@),
        _ => {},
    }
}

/// A sequence of kernels recommends exactly one constraint per parameter.
pub proof fn lemma_recommended_len_seq<T>(ks: Seq<Kernel<T>>)
    requires
        wf_seq(ks),
    ensures
        recommended_seq(ks).len() == param_count_seq(ks),
    decreases ks,
{
    if ks.len() > 0 {
        lemma_recommended_len_seq(ks.subrange(0, ks.len() - 1));
        lemma_recommended_len(ks[ks.len() - 1]);
    }
}

/// Given exactly as many values as it has parameters, a kernel keeps all of
/// them, in order.
pub proof fn lemma_absorb_exact<T>(k: Kernel<T>, ps: Seq<T>)
    requires
        wf(k),
        ps.len() == param_count(k),
    ensures
        absorb(k, ps) == ps,
    decreases k,
{
    match k {
        Kernel::If(_) => {
            assert(ps =~= Seq::<T>::empty());
        },
        Kernel::Indicator(_) => {
            assert(seq![ps[0]] =~= ps);
        },
        Kernel::Composite(c) => {
            lemma_absorb_exact_seq(c.kernels@, ps);
            assert(ps.subrange(0, ps.len() as int) =~= ps);
        },
        Kernel::Multiplicative(m) => {
            lemma_pair_seq(m.children@);
            let n0 = param_count(m.children@[0]) as int;
            assert(decreases_to!(k => m.children@[0]));
            assert(decreases_to!(k => m.children@[1]));
            lemma_absorb_exact(m.children@[0], ps.subrange(0, n0));
            lemma_absorb_exact(m.children@[1], ps.subrange(n0, ps.len() as int));
            assert(ps.subrange(0, n0) + ps.subrange(n0, ps.len() as int) =~= ps);
        },
        _ => {},
    }
}

/// Summands that each take their own share keep the first values of `ps`, as
/// many as they have parameters together.
pub proof fn lemma_absorb_exact_seq<T>(ks: Seq<Kernel<T>>, ps: Seq<T>)
    requires
        wf_seq(ks),
        ps.len() >= param_count_seq(ks),
    ensures
        absorb_seq(ks, ps) == ps.subrange(0, param_count_seq(ks) as int),
    decreases ks,
{
    if ks.len() == 0 {
        assert(ps.subrange(0, 0) =~= Seq::<T>::empty());
    } else {
        let init = ks.subrange(0, ks.len() - 1);
        let last = ks[ks.len() - 1];
        let start = param_count_seq(init) as int;
        let end = start + param_count(last);
        lemma_absorb_exact_seq(init, ps);
        lemma_absorb_exact(last, ps.subrange(start, end));
        assert(ps.subrange(0, start) + ps.subrange(start, end) =~= ps.subrange(0, end));
    }
}

/// Sequences whose kernels hold pairwise the same values hold the same values.
pub proof fn lemma_params_seq_pointwise<T>(a: Seq<Kernel<T>>, b: Seq<Kernel<T>>)
    requires
        a.len() == b.len(),
        forall|i: int| 0 <= i < a.len() ==> #[trigger] params_of(a[i]) == params_of(b[i]),
    ensures
        params_seq(a) == params_seq(b),
    decreases a.len(),
{
    if a.len() > 0 {
        let ia = a.subrange(0, a.len() - 1);
        let ib = b.subrange(0, b.len() - 1);
        assert forall|i: int| 0 <= i < ia.len() implies #[trigger] params_of(ia[i]) == params_of(
            ib[i],
        ) by {
            assert(params_of(a[i]) == params_of(b[i]));
        }
        lemma_params_seq_pointwise(ia, ib);
        assert(params_of(a[a.len() - 1]) == params_of(b[b.len() - 1]));
    }
}

// ---------------------------------------------------------------------------
// Operations on kernel trees
// ---------------------------------------------------------------------------

impl<T: Copy> Kernel<T> {
    /// The number of parameters the kernel takes.
    pub fn num_params(&self) -> (r: usize)
        requires
            wf(*self),
        ensures
            r == param_count(*self),
    {
        match self {
            Kernel::If(_) => 0,
            Kernel::Indicator(i) => i.n_params,
            Kernel::Linear(l) => l.n_params,
            Kernel::ExpQuad(e) => e.n_params,
            Kernel::SpectralMixture(s) => s.n_params,
            Kernel::Composite(c) => c.num_params,
            Kernel::Multiplicative(m) => m.n_params,
        }
    }

    /// The constraints recommended for the kernel's parameters, in parameter
    /// order.
    pub fn rec_constraint(&self) -> (r: Vec<Constraint>)
        requires
            wf(*self),
        ensures
            r@ == recommended(*self),
            r@.len() == param_count(*self),
            forall|i: int| 0 <= i < r@.len() ==> #[trigger] r@[i] == soft_plus(),
        decreases *self,
    {
        proof {
            lemma_recommended_len(*self);
            super::laws::law_recommended_all_soft_plus(*self);
        }
        let ghost k0 = *self;
        match self {
            Kernel::If(_) => Vec::new(),
            Kernel::Indicator(_) => filled(Constraint::new_positive_sp(), 1),
            Kernel::Linear(l) => filled(Constraint::new_positive_sp(), l.n_params),
            Kernel::ExpQuad(e) => filled(Constraint::new_positive_sp(), e.n_params),
            Kernel::SpectralMixture(s) => filled(Constraint::new_positive_sp(), s.n_params),
            Kernel::Composite(c) => {
                proof {
                    assert(decreases_to!(k0 => *c));
                    assert(decreases_to!(k0 => c.kernels));
                    assert(decreases_to!(k0 => c.kernels@));
                }
                Self::rec_constraint_all(&c.kernels, Ghost(k0))
            },
            Kernel::Multiplicative(m) => {
                proof {
                    assert(decreases_to!(k0 => *m));
                    assert(decreases_to!(k0 => m.children));
                    assert(decreases_to!(k0 => m.children@));
                }
                Self::rec_constraint_all(&m.children, Ghost(k0))
            },
        }
    }

    /// The recommended constraints of a sequence of sub-kernels of `parent`,
    /// one after the other.
    fn rec_constraint_all(kernels: &Vec<Kernel<T>>, Ghost(parent): Ghost<Kernel<T>>) -> (r: Vec<
        Constraint,
    >)
        requires
            wf_seq(kernels@),
            decreases_to!(parent => kernels@),
        ensures
            r@ == recommended_seq(kernels@),
        decreases parent, 0int,
    {
        proof {
            lemma_wf_seq(kernels@);
        }
        let n = kernels.len();
        let mut out: Vec<Constraint> = Vec::new();
        let mut i: usize = 0;
        while i < n
            invariant
                n == kernels@.len(),
                i <= n,
                forall|j: int| 0 <= j < n ==> #[trigger] wf(kernels@[j]),
                decreases_to!(parent => kernels@),
                out@ == recommended_seq(kernels@.subrange(0, i as int)),
            decreases n - i,
        {
            proof {
                lemma_param_count_seq_step(kernels@, i as int);
                assert(decreases_to!(kernels@ => kernels@[i as int]));
            }
            let mut sub = kernels[i].rec_constraint();
            out.append(&mut sub);
            i = i + 1;
        }
        proof {
            assert(kernels@.subrange(0, n as int) =~= kernels@);
        }
        out
    }

    /// Hands the kernel its parameter values, in parameter order: a sum gives
    /// each summand its own share in turn, a product gives its left factor
    /// its share and its right factor the rest. The structure, the parameter
    /// count and the recommended constraints stay as they were; given exactly
    /// as many values as it has parameters, the kernel holds exactly them.
    pub fn set_params(&mut self, params: &[T])
        requires
            wf(*old(self)),
            accepts(*old(self), params@.len() as int),
        ensures
            wf(*final(self)),
            same_shape(*old(self), *final(self)),
            params_of(*final(self)) == absorb(*old(self), params@),
            param_count(*final(self)) == param_count(*old(self)),
            recommended(*final(self)) == recommended(*old(self)),
            params@.len() == param_count(*old(self)) ==> params_of(*final(self)) == params@,
            holds_params(*final(self), params@),
    {
        let ghost k0 = *self;
        self.assign_params(params);
        proof {
            lemma_same_shape_counts(k0, *self);
            if params@.len() == param_count(k0) {
                lemma_absorb_exact(k0, params@);
            }
        }
    }

    fn assign_params(&mut self, params: &[T])
        requires
            wf(*old(self)),
            accepts(*old(self), params@.len() as int),
        ensures
            wf(*final(self)),
            same_shape(*old(self), *final(self)),
            params_of(*final(self)) == absorb(*old(self), params@),
            holds_params(*final(self), params@),
        decreases *old(self),
    {
        let ghost k0 = *self;
        match self {
            Kernel::If(f) => {
                assert(same_shape(k0, Kernel::If(*f)));
            },
            Kernel::Indicator(i) => {
                i.sigma = params[0];
            },
            Kernel::Linear(l) => {
                l.sigmas = slice_to_vec(params);
            },
            Kernel::ExpQuad(e) => {
                let (sigma, lengthscales) = params.split_at(1);
                e.sigma = sigma[0];
                e.lengthscales = slice_to_vec(lengthscales);
                proof {
                    assert(seq![params@[0]] + params@.subrange(1, params@.len() as int) =~= params@);
                }
            },
            Kernel::SpectralMixture(s) => {
                let (weights, remainder) = params.split_at(s.q);
                s.weights = slice_to_vec(weights);
                proof {
                    assert(s.p * s.q == s.q * s.p) by (nonlinear_arith);
                }
                let (means, sigmas) = remainder.split_at(s.p * s.q);
                s.means = slice_to_vec(means);
                s.sigmas = slice_to_vec(sigmas);
                proof {
                    assert(weights@ + means@ + sigmas@ =~= params@);
                    assert(means@ =~= params@.subrange(s.q as int, s.q + s.q * s.p));
                    assert(sigmas@ =~= params@.subrange(s.q + s.q * s.p, params@.len() as int));
                }
            },
            Kernel::Composite(c) => {
                let ghost old_c = *c;
                let ghost old_ks = c.kernels@;
                proof {
                    assert(decreases_to!(k0 => old_c));
                    assert(decreases_to!(k0 => old_c.kernels));
                    assert(decreases_to!(k0 => old_c.kernels@));
                    assert(forall|j: int|
                        0 <= j < old_ks.len() ==> decreases_to!(k0 => #[trigger] old_ks[j]));
                    lemma_wf_seq(old_ks);
                }
                let n = c.kernels.len();
                let mut remainder: &[T] = params;
                let mut i: usize = 0;
                while i < n
                    invariant
                        k0 == *old(self),
                        k0 == Kernel::Composite(old_c),
                        old_ks == old_c.kernels@,
                        n == c.kernels@.len(),
                        n == old_ks.len(),
                        i <= n,
                        c.num_params == old_c.num_params,
                        old_c.num_params == param_count_seq(old_ks),
                        param_count_seq(old_ks) <= params@.len(),
                        forall|j: int| 0 <= j < n ==> #[trigger] wf(old_ks[j]),
                        forall|j: int| 0 <= j < n ==> decreases_to!(k0 => #[trigger] old_ks[j]),
                        remainder@ == params@.subrange(
                            param_count_seq(old_ks.subrange(0, i as int)) as int,
                            params@.len() as int,
                        ),
                        forall|j: int| 0 <= j < i ==> #[trigger] wf(c.kernels@[j]),
                        forall|j: int|
                            0 <= j < i ==> #[trigger] same_shape(old_ks[j], c.kernels@[j]),
                        forall|j: int| i <= j < n ==> #[trigger] c.kernels@[j] == old_ks[j],
                        params_seq(c.kernels@.subrange(0, i as int)) == absorb_seq(
                            old_ks.subrange(0, i as int),
                            params@,
                        ),
                        param_count_seq(c.kernels@.subrange(0, i as int)) == param_count_seq(
                            old_ks.subrange(0, i as int),
                        ),
                        holds_params_seq(c.kernels@.subrange(0, i as int), params@),
                    decreases n - i,
                {
                    proof {
                        lemma_param_count_seq_step(old_ks, i as int);
                        lemma_absorb_seq_step(old_ks, i as int, params@);
                        lemma_param_count_seq_prefix_le(old_ks, i + 1);
                        lemma_accepts_own_count(old_ks[i as int]);
                    }
                    let np = c.kernels[i].num_params();
                    let (this, rhs) = remainder.split_at(np);
                    remainder = rhs;
                    let ghost before = c.kernels@;
                    c.kernels[i].assign_params(this);
                    proof {
                        assert(c.kernels@.subrange(0, i as int) =~= before.subrange(0, i as int));
                        lemma_param_count_seq_step(c.kernels@, i as int);
                        lemma_absorb_seq_step(c.kernels@, i as int, params@);
                        lemma_same_shape_counts(old_ks[i as int], c.kernels@[i as int]);
                        assert(this@ == params@.subrange(
                            param_count_seq(old_ks.subrange(0, i as int)) as int,
                            param_count_seq(old_ks.subrange(0, i + 1)) as int,
                        ));
                    }
                    i = i + 1;
                }
                proof {
                    assert(c.kernels@.subrange(0, n as int) =~= c.kernels@);
                    assert(old_ks.subrange(0, n as int) =~= old_ks);
                    lemma_wf_seq(c.kernels@);
                    lemma_same_shape_seq(old_ks, c.kernels@);
                    lemma_same_shape_counts_seq(old_ks, c.kernels@);
                }
            },
            Kernel::Multiplicative(m) => {
                let ghost old_m = *m;
                let ghost old_ch = m.children@;
                proof {
                    assert(decreases_to!(k0 => old_m));
                    assert(decreases_to!(k0 => old_m.children));
                    assert(decreases_to!(k0 => old_m.children@));
                    assert(decreases_to!(k0 => old_ch[0]));
                    assert(decreases_to!(k0 => old_ch[1]));
                    lemma_pair_seq(old_ch);
                    lemma_accepts_own_count(old_ch[0]);
                }
                let n0 = m.children[0].num_params();
                let (lhs, rhs) = params.split_at(n0);
                m.children[0].assign_params(lhs);
                m.children[1].assign_params(rhs);
                proof {
                    lemma_pair_seq(m.children@);
                    lemma_same_shape_seq(old_ch, m.children@);
                    lemma_same_shape_counts_seq(old_ch, m.children@);
                    lemma_same_shape_counts(old_ch[0], m.children@[0]);
                }
            },
        }
    }

    /// An independent copy of the kernel tree with the same structure and the
    /// same parameter values.
    pub fn deep_copy(&self) -> (r: Self)
        ensures
            same_shape(*self, r),
            params_of(r) == params_of(*self),
            same_values(*self, r),
            wf(*self) ==> wf(r),
        decreases *self,
    {
        let ghost k0 = *self;
        match self {
            Kernel::If(x) => Kernel::If(
                IfKernel { operating_columns: slice_to_vec(x.operating_columns.as_slice()) },
            ),
            Kernel::Indicator(x) => Kernel::Indicator(
                IndicatorKernel {
                    operating_columns: slice_to_vec(x.operating_columns.as_slice()),
                    sigma: x.sigma,
                    n_params: x.n_params,
                },
            ),
            Kernel::Linear(x) => Kernel::Linear(
                LinearKernel {
                    sigmas: slice_to_vec(x.sigmas.as_slice()),
                    n_params: x.n_params,
                    operating_columns: slice_to_vec(x.operating_columns.as_slice()),
                },
            ),
            Kernel::ExpQuad(x) => Kernel::ExpQuad(
                ExpQuadKernel {
                    sigma: x.sigma,
                    lengthscales: slice_to_vec(x.lengthscales.as_slice()),
                    n_params: x.n_params,
                    operating_columns: slice_to_vec(x.operating_columns.as_slice()),
                },
            ),
            Kernel::SpectralMixture(x) => Kernel::SpectralMixture(
                SpectralMixtureKernel {
                    weights: slice_to_vec(x.weights.as_slice()),
                    n_params: x.n_params,
                    operating_columns: slice_to_vec(x.operating_columns.as_slice()),
                    sigmas: slice_to_vec(x.sigmas.as_slice()),
                    means: slice_to_vec(x.means.as_slice()),
                    p: x.p,
                    q: x.q,
                },
            ),
            Kernel::Composite(c) => {
                proof {
                    assert(decreases_to!(k0 => *c));
                    assert(decreases_to!(k0 => c.kernels));
                    assert(decreases_to!(k0 => c.kernels@));
                }
                let kernels = Self::copy_all(&c.kernels, Ghost(k0));
                proof {
                    lemma_same_shape_counts_seq(c.kernels@, kernels@);
                }
                Kernel::Composite(CompositeKernel { kernels, num_params: c.num_params })
            },
            Kernel::Multiplicative(m) => {
                proof {
                    assert(decreases_to!(k0 => *m));
                    assert(decreases_to!(k0 => m.children));
                    assert(decreases_to!(k0 => m.children@));
                }
                let children = Self::copy_all(&m.children, Ghost(k0));
                proof {
                    lemma_same_shape_counts_seq(m.children@, children@);
                }
                Kernel::Multiplicative(MultiplicativeKernel { children, n_params: m.n_params })
            },
        }
    }

    /// Copies of a sequence of sub-kernels of `parent`, in order.
    fn copy_all(kernels: &Vec<Kernel<T>>, Ghost(parent): Ghost<Kernel<T>>) -> (r: Vec<Kernel<T>>)
        requires
            decreases_to!(parent => kernels@),
        ensures
            same_shape_seq(kernels@, r@),
            params_seq(r@) == params_seq(kernels@),
            same_values_seq(kernels@, r@),
            wf_seq(kernels@) ==> wf_seq(r@),
        decreases parent, 0int,
    {
        let n = kernels.len();
        let mut out: Vec<Kernel<T>> = Vec::with_capacity(n);
        let mut i: usize = 0;
        while i < n
            invariant
                n == kernels@.len(),
                i <= n,
                out@.len() == i,
                decreases_to!(parent => kernels@),
                forall|j: int| 0 <= j < i ==> #[trigger] same_shape(kernels@[j], out@[j]),
                forall|j: int| 0 <= j < i ==> #[trigger] params_of(out@[j]) == params_of(kernels@[j]),
                forall|j: int| 0 <= j < i ==> wf(kernels@[j]) ==> #[trigger] wf(out@[j]),
                forall|j: int| 0 <= j < i ==> #[trigger] same_values(kernels@[j], out@[j]),
            decreases n - i,
        {
            proof {
                assert(decreases_to!(kernels@ => kernels@[i as int]));
            }
            let copy = kernels[i].deep_copy();
            out.push(copy);
            i = i + 1;
        }
        proof {
            lemma_same_shape_seq(kernels@, out@);
            lemma_params_seq_pointwise(out@, kernels@);
            lemma_same_values_seq(kernels@, out@);
            lemma_wf_seq(kernels@);
            lemma_wf_seq(out@);
            if wf_seq(kernels@) {
                assert forall|j: int| 0 <= j < out@.len() implies #[trigger] wf(out@[j]) by {
                    assert(wf(kernels@[j]));
                }
            }
        }
        out
    }

    /// Whether `set_params` can take `n` values (see `accepts`).
    pub fn can_take(&self, n: usize) -> (r: bool)
        requires
            wf(*self),
        ensures
            r == accepts(*self, n as int),
        decreases *self,
    {
        match self {
            Kernel::If(_) => true,
            Kernel::Indicator(_) => n >= 1,
            Kernel::Linear(_) => true,
            Kernel::ExpQuad(_) => n >= 1,
            Kernel::SpectralMixture(s) => n == s.n_params,
            Kernel::Composite(c) => n >= c.num_params,
            Kernel::Multiplicative(m) => {
                let ghost k0 = *self;
                proof {
                    lemma_pair_seq(m.children@);
                    assert(decreases_to!(k0 => *m));
                    assert(decreases_to!(k0 => m.children));
                    assert(decreases_to!(k0 => m.children@));
                    assert(decreases_to!(k0 => m.children@[1]));
                }
                let n0 = m.children[0].num_params();
                n >= n0 && m.children[1].can_take(n - n0)
            },
        }
    }

    /// The direct sub-kernels: the summands of a sum, the factors of a
    /// product, none for a leaf.
    pub fn children(&self) -> (r: &[Kernel<T>])
        ensures
            r@ == children_of(*self),
    {
        match self {
            Kernel::Composite(c) => c.kernels.as_slice(),
            Kernel::Multiplicative(m) => m.children.as_slice(),
            _ => &[],
        }
    }

    /// A one-line description of the kernel node.
    pub fn describe(&self) -> (r: String)
        ensures
            r@ == description(*self),
    {
        match self {
            Kernel::If(_) => String::from_str("If Kernel"),
            Kernel::Indicator(_) => String::from_str("Indicator Kernel"),
            Kernel::Linear(_) => String::from_str("Linear Kernel"),
            Kernel::ExpQuad(_) => String::from_str("RBF Kernel"),
            Kernel::SpectralMixture(s) => {
                let mut out = String::from_str("Spectral Mixture Kernel with ");
                append_decimal(&mut out, s.q);
                out
            },
            Kernel::Composite(_) => String::from_str("Plus (+)"),
            Kernel::Multiplicative(_) => String::from_str("Times (*)"),
        }
    }
}

impl<T: Copy> Clone for Kernel<T> {
    fn clone(&self) -> (r: Self)
        ensures
            same_shape(*self, r),
            params_of(r) == params_of(*self),
            same_values(*self, r),
            wf(*self) ==> wf(r),
    {
        self.deep_copy()
    }
}

} // verus!
