use zoomer_gp::coin_optimizer::{StallDecision, StallMonitor, PATIENCE};
use zoomer_gp::constraint::{
    Constraint, Constraints, NoConstraint, PositiveExpConstraint, PositiveSoftPlusConstraint,
};
use zoomer_gp::kernel::kernel::Kernel;
use zoomer_gp::kernel::rbf::ExpQuadKernel;
use zoomer_gp::likelihood::BinomialLogit;
use zoomer_gp::model::ParameterLayout;

fn sp() -> Constraint {
    Constraint::PositiveSoftPlus(PositiveSoftPlusConstraint {})
}

fn none() -> Constraint {
    Constraint::NoConstraint(NoConstraint {})
}

#[test]
fn constraint_constructors() {
    assert_eq!(Constraint::new_positive_exp(), Constraint::PositiveExp(PositiveExpConstraint::new()));
    assert_eq!(Constraint::new_positive_sp(), Constraint::PositiveSoftPlus(PositiveSoftPlusConstraint::new()));
    assert_eq!(Constraint::new_no_constraint(), none());
    let cs = Constraints::new(vec![sp(), none()]);
    assert_eq!(cs.as_slice(), &[sp(), none()]);
}

#[test]
fn gp_regression_layout_with_noise() {
    let k: Kernel<f64> = Kernel::ExpQuad(ExpQuadKernel::new(vec![0, 1], 1.0));
    let layout = ParameterLayout::for_gp_regression(&k, true);
    assert_eq!(layout.n_params, 4);
    assert_eq!(layout.constraints.as_slice(), &[sp(), sp(), sp(), sp()]);
}

#[test]
fn gp_regression_layout_without_noise_still_constrains_the_noise_slot() {
    let k: Kernel<f64> = Kernel::ExpQuad(ExpQuadKernel::new(vec![0], 1.0));
    let layout = ParameterLayout::for_gp_regression(&k, false);
    assert_eq!(layout.n_params, 2);
    assert_eq!(layout.constraints.as_slice().len(), 3);
}

#[test]
fn latent_layout_appends_unconstrained_values() {
    let k: Kernel<f64> = Kernel::ExpQuad(ExpQuadKernel::new(vec![0], 1.0));
    let layout = ParameterLayout::for_latent_gp(&k, 3);
    assert_eq!(layout.n_params, 5);
    assert_eq!(layout.constraints.as_slice(), &[sp(), sp(), none(), none(), none()]);
}

#[test]
fn stall_monitor_stops_after_patience_is_exceeded() {
    let mut m = StallMonitor::new();
    let first = m.observe(true, true);
    assert_eq!(first, StallDecision { record_best: true, raise_best: true, stop: false });
    for _ in 0..PATIENCE {
        let d = m.observe(false, false);
        assert!(!d.stop);
    }
    assert_eq!(m.iters_since_improvement, PATIENCE);
    let last = m.observe(true, false);
    assert_eq!(last, StallDecision { record_best: true, raise_best: false, stop: true });
}

#[test]
fn significant_improvement_resets_the_count() {
    let mut m = StallMonitor::new();
    m.observe(false, true);
    m.observe(true, false);
    assert_eq!(m.iters_since_improvement, 2);
    let d = m.observe(true, true);
    assert!(d.raise_best);
    assert_eq!(m.iters_since_improvement, 0);
}

#[test]
fn binomial_logit_holds_outcomes() {
    let l = BinomialLogit { y: vec![true, false] };
    assert_eq!(l.clone().y, vec![true, false]);
}
