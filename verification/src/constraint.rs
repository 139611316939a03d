use vstd::prelude::*;

verus! {

/// Maps an unconstrained real `x` to the positive value `exp(x)`.
#[derive(Clone, Copy, Debug, PartialEq, Eq)]
pub struct PositiveExpConstraint {}

impl PositiveExpConstraint {
    pub fn new() -> (c: Self)
        ensures
            c == (PositiveExpConstraint {}),
    {
        Self {}
    }
}

/// Maps an unconstrained real `x` to the positive value `ln(1 + exp(x))`.
#[derive(Clone, Copy, Debug, PartialEq, Eq)]
pub struct PositiveSoftPlusConstraint {}

impl PositiveSoftPlusConstraint {
    pub fn new() -> (c: Self)
        ensures
            c == (PositiveSoftPlusConstraint {}),
    {
        Self {}
    }
}

/// Leaves a parameter unconstrained (the identity map).
#[derive(Clone, Copy, Debug, PartialEq, Eq)]
pub struct NoConstraint {}

/// The transformation applied to one model parameter before it is used.
#[derive(Clone, Copy, Debug, PartialEq, Eq)]
pub enum Constraint {
    PositiveExp(PositiveExpConstraint),
    PositiveSoftPlus(PositiveSoftPlusConstraint),
    NoConstraint(NoConstraint),
}

impl Constraint {
    pub fn new_positive_exp() -> (c: Self)
        ensures
            c == Constraint::PositiveExp(PositiveExpConstraint {}),
    {
        Self::PositiveExp(PositiveExpConstraint::new())
    }

    pub fn new_no_constraint() -> (c: Self)
        ensures
            c == Constraint::NoConstraint(NoConstraint {}),
    {
        Self::NoConstraint(NoConstraint {})
    }

    pub fn new_positive_sp() -> (c: Self)
        ensures
            c == Constraint::PositiveSoftPlus(PositiveSoftPlusConstraint {}),
    {
        Self::PositiveSoftPlus(PositiveSoftPlusConstraint::new())
    }
}

/// The soft-plus constraint, as a value.
pub open spec fn soft_plus() -> Constraint {
    Constraint::PositiveSoftPlus(PositiveSoftPlusConstraint {})
}

/// The identity constraint, as a value.
pub open spec fn unconstrained() -> Constraint {
    Constraint::NoConstraint(NoConstraint {})
}

/// One constraint per model parameter, in parameter order.
#[derive(Clone, Debug)]
pub struct Constraints {
    constraints: Vec<Constraint>,
}

impl View for Constraints {
    type V = Seq<Constraint>;

    closed spec fn view(&self) -> Seq<Constraint> {
        self.constraints@
    }
}

impl Constraints {
    pub fn new(constraints: Vec<Constraint>) -> (c: Self)
        ensures
            c@ == constraints@,
    {
        Self { constraints }
    }

    /// The constraints, in parameter order.
    pub fn as_slice(&self) -> (s: &[Constraint])
        ensures
            s@ == self@,
    {
        self.constraints.as_slice()
    }
}

} // verus!
