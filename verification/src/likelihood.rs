use vstd::prelude::*;

verus! {

/// The Bernoulli likelihood with a logit link: `y[i]` is whether observation
/// `i` is a success.
#[derive(Debug, Clone)]
pub struct BinomialLogit {
    pub y: Vec<bool>,
}

} // verus!
