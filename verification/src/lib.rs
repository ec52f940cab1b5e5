//! A small numerical laboratory for continuous-time and discrete-time
//! dynamical systems.
//!
//! The core works over exact rational scalars, so every algebraic step of the
//! integrators, the concrete systems and the Lyapunov machinery is stated and
//! proved precisely. Transcendental quantities (trigonometric values of the
//! pendulum angles, the logarithms averaged by a Lyapunov estimate) are not
//! rational; they enter as caller-supplied inputs or are left to the caller.

pub mod calibration;
pub mod double_pendulum;
pub mod dynamical_system;
pub mod integrators;
pub mod logistic_map;
pub mod lorenz;
pub mod lyapunov;
pub mod math;
pub mod rational;
pub mod session;
mod rng;

use vstd::prelude::*;

verus! {

/// Why a stepping or estimation call could not run to completion.
#[derive(Clone, Copy, Debug, PartialEq, Eq, Structural)]
pub enum StepError {
    /// The supplied state vector's length disagrees with the system's
    /// declared dimension. Surfaced before any mutation.
    DimensionMismatch,
    /// An exact intermediate value fell outside the representable range of
    /// the rational scalars. The state is left untouched.
    Unrepresentable,
}

} // verus!
