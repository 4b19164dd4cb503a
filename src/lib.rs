//! A small toolkit of differentiable parametric units over exact integer
//! arithmetic: evaluation, input derivative, parameter gradient, composition
//! through the chain rule, and stochastic gradient descent.

pub mod matrix;
pub mod neuron;
pub mod linear;
pub mod quad;
pub mod compose;
pub mod split;
pub mod laws;
