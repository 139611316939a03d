use zoomer_gp::constraint::{Constraint, NoConstraint, PositiveSoftPlusConstraint};
use zoomer_gp::kernel::composite::CompositeKernel;
use zoomer_gp::kernel::if_kernel::IfKernel;
use zoomer_gp::kernel::indicator::IndicatorKernel;
use zoomer_gp::kernel::kernel::Kernel;
use zoomer_gp::kernel::linear::LinearKernel;
use zoomer_gp::kernel::multiplicative::MultiplicativeKernel;
use zoomer_gp::kernel::rbf::ExpQuadKernel;
use zoomer_gp::kernel::spectral_mixture::SpectralMixtureKernel;

fn sp() -> Constraint {
    Constraint::PositiveSoftPlus(PositiveSoftPlusConstraint {})
}

fn rbf(cols: Vec<usize>) -> Kernel<f64> {
    Kernel::ExpQuad(ExpQuadKernel::new(cols, 1.0))
}

fn linear(cols: Vec<usize>) -> Kernel<f64> {
    Kernel::Linear(LinearKernel::new(cols, 1.0))
}

#[test]
fn if_kernel_new_keeps_columns() {
    let k = IfKernel::new(vec![2, 0]);
    assert_eq!(k.operating_columns, vec![2, 0]);
    let k: Kernel<f64> = Kernel::If(k);
    assert_eq!(k.num_params(), 0);
    assert!(k.rec_constraint().is_empty());
    assert_eq!(k.describe(), "If Kernel");
}

#[test]
fn leaf_constructors_start_at_one() {
    let e = ExpQuadKernel::new(vec![0, 3], 1.0);
    assert_eq!(e.sigma, 1.0);
    assert_eq!(e.lengthscales, vec![1.0, 1.0]);
    assert_eq!(e.n_params, 3);
    let l = LinearKernel::new(vec![1, 2, 4], 1.0);
    assert_eq!(l.sigmas, vec![1.0, 1.0, 1.0]);
    assert_eq!(l.n_params, 3);
    let i = IndicatorKernel::new(vec![5], 1.0);
    assert_eq!(i.sigma, 1.0);
    assert_eq!(i.n_params, 1);
    let s = SpectralMixtureKernel::new(vec![0, 1, 2], 2, 1.0);
    assert_eq!(s.p, 3);
    assert_eq!(s.q, 2);
    assert_eq!(s.weights.len(), 2);
    assert_eq!(s.means.len(), 6);
    assert_eq!(s.sigmas.len(), 6);
    assert_eq!(s.n_params, 2 + 2 * 2 * 3);
}

#[test]
fn parameter_counts_add_up() {
    let sum = Kernel::Composite(CompositeKernel::new(vec![rbf(vec![0, 1]), linear(vec![2])]));
    assert_eq!(sum.num_params(), 3 + 1);
    let product = Kernel::Multiplicative(MultiplicativeKernel::new(
        sum,
        Kernel::SpectralMixture(SpectralMixtureKernel::new(vec![0], 3, 1.0)),
    ));
    assert_eq!(product.num_params(), 4 + 3 + 2 * 3 * 1);
}

#[test]
fn recommended_constraints_one_per_parameter() {
    let k = Kernel::Multiplicative(MultiplicativeKernel::new(
        Kernel::Composite(CompositeKernel::new(vec![
            rbf(vec![0]),
            Kernel::If(IfKernel::new(vec![1])),
            Kernel::Indicator(IndicatorKernel::new(vec![1], 1.0)),
        ])),
        linear(vec![0, 1]),
    ));
    let cs = k.rec_constraint();
    assert_eq!(cs.len(), k.num_params());
    assert_eq!(cs, vec![sp(); 5]);
    assert_ne!(cs[0], Constraint::NoConstraint(NoConstraint {}));
}

#[test]
fn set_params_round_trip_on_a_sum() {
    let mut k = Kernel::Composite(CompositeKernel::new(vec![rbf(vec![0, 1]), linear(vec![2])]));
    k.set_params(&[2.0, 3.0, 4.0, 5.0]);
    match &k {
        Kernel::Composite(c) => {
            match &c.kernels[0] {
                Kernel::ExpQuad(e) => {
                    assert_eq!(e.sigma, 2.0);
                    assert_eq!(e.lengthscales, vec![3.0, 4.0]);
                }
                _ => panic!("first summand changed kind"),
            }
            match &c.kernels[1] {
                Kernel::Linear(l) => assert_eq!(l.sigmas, vec![5.0]),
                _ => panic!("second summand changed kind"),
            }
        }
        _ => panic!("sum changed kind"),
    }
    assert_eq!(k.num_params(), 4);
    assert_eq!(k.rec_constraint().len(), 4);
}

#[test]
fn sum_ignores_extra_values() {
    let mut k = Kernel::Composite(CompositeKernel::new(vec![linear(vec![0]), linear(vec![1])]));
    assert!(k.can_take(5));
    assert!(!k.can_take(1));
    k.set_params(&[7.0, 8.0, 9.0]);
    match &k {
        Kernel::Composite(c) => match (&c.kernels[0], &c.kernels[1]) {
            (Kernel::Linear(a), Kernel::Linear(b)) => {
                assert_eq!(a.sigmas, vec![7.0]);
                assert_eq!(b.sigmas, vec![8.0]);
            }
            _ => panic!("summands changed kind"),
        },
        _ => panic!("sum changed kind"),
    }
}

#[test]
fn product_gives_the_rest_to_its_right_factor() {
    let mut k = Kernel::Multiplicative(MultiplicativeKernel::new(linear(vec![0]), rbf(vec![1])));
    k.set_params(&[1.5, 2.5, 3.5, 4.5]);
    match &k {
        Kernel::Multiplicative(m) => match (&m.children[0], &m.children[1]) {
            (Kernel::Linear(a), Kernel::ExpQuad(b)) => {
                assert_eq!(a.sigmas, vec![1.5]);
                assert_eq!(b.sigma, 2.5);
                assert_eq!(b.lengthscales, vec![3.5, 4.5]);
            }
            _ => panic!("factors changed kind"),
        },
        _ => panic!("product changed kind"),
    }
    assert_eq!(k.num_params(), 3);
}

#[test]
fn indicator_keeps_only_the_first_value() {
    let mut k: Kernel<f64> = Kernel::Indicator(IndicatorKernel::new(vec![0], 1.0));
    assert!(!k.can_take(0));
    k.set_params(&[0.25, 9.0]);
    match &k {
        Kernel::Indicator(i) => assert_eq!(i.sigma, 0.25),
        _ => panic!("kind changed"),
    }
}

#[test]
fn spectral_values_split_into_weights_means_and_scales() {
    let mut k: Kernel<f64> = Kernel::SpectralMixture(SpectralMixtureKernel::new(vec![0, 1], 1, 1.0));
    assert!(k.can_take(5));
    assert!(!k.can_take(6));
    k.set_params(&[1.0, 2.0, 3.0, 4.0, 5.0]);
    match &k {
        Kernel::SpectralMixture(s) => {
            assert_eq!(s.weights, vec![1.0]);
            assert_eq!(s.means, vec![2.0, 3.0]);
            assert_eq!(s.sigmas, vec![4.0, 5.0]);
        }
        _ => panic!("kind changed"),
    }
}

#[test]
fn descriptions() {
    assert_eq!(rbf(vec![0]).describe(), "RBF Kernel");
    assert_eq!(linear(vec![0]).describe(), "Linear Kernel");
    let i: Kernel<f64> = Kernel::Indicator(IndicatorKernel::new(vec![0], 1.0));
    assert_eq!(i.describe(), "Indicator Kernel");
    let s: Kernel<f64> = Kernel::SpectralMixture(SpectralMixtureKernel::new(vec![0], 3, 1.0));
    assert_eq!(s.describe(), "Spectral Mixture Kernel with 3");
    let s: Kernel<f64> = Kernel::SpectralMixture(SpectralMixtureKernel::new(vec![], 12, 1.0));
    assert_eq!(s.describe(), "Spectral Mixture Kernel with 12");
    let sum = Kernel::Composite(CompositeKernel::new(vec![rbf(vec![0])]));
    assert_eq!(sum.describe(), "Plus (+)");
    let product = Kernel::Multiplicative(MultiplicativeKernel::new(rbf(vec![0]), rbf(vec![1])));
    assert_eq!(product.describe(), "Times (*)");
}

#[test]
fn children_of_nodes() {
    let product = Kernel::Multiplicative(MultiplicativeKernel::new(rbf(vec![0]), linear(vec![1])));
    assert_eq!(product.children().len(), 2);
    assert_eq!(product.children()[1].describe(), "Linear Kernel");
    assert!(rbf(vec![0]).children().is_empty());
}

#[test]
fn clone_copies_structure_and_values() {
    let mut k = Kernel::Composite(CompositeKernel::new(vec![rbf(vec![0]), linear(vec![1, 2])]));
    k.set_params(&[0.5, 0.75, 1.25, 1.5]);
    let mut copy = k.clone();
    assert_eq!(copy.num_params(), 4);
    copy.set_params(&[9.0, 9.0, 9.0, 9.0]);
    match (&k, &copy) {
        (Kernel::Composite(a), Kernel::Composite(b)) => match (&a.kernels[1], &b.kernels[1]) {
            (Kernel::Linear(x), Kernel::Linear(y)) => {
                assert_eq!(x.sigmas, vec![1.25, 1.5]);
                assert_eq!(y.sigmas, vec![9.0, 9.0]);
            }
            _ => panic!("kind changed"),
        },
        _ => panic!("kind changed"),
    }
}
