//! The dynamics of a gravitational n-body simulation, in whatever scalars
//! the caller computes with.
//!
//! - [`utils`]: the layout of the flat state vector.
//! - [`mechanics`]: net accelerations from pairwise forces, and the
//!   right-hand side of the equations of motion.
//! - [`trajectory`]: what is handed out once an integrator has run.
//! - [`data_structs`]: the bodies of a system as a loader hands them in.
//!
//! The library never computes with a scalar itself. Sums, negations and
//! quotients, the force between two bodies, and the questions whether a
//! number is positive, is finite or precedes another are operations that the
//! caller hands in. What is fixed here is how they are put together: which
//! entries of a state are read and written, which pairs of bodies are
//! visited and in which order, and what is turned down and why.

use vstd::prelude::*;

pub mod data_structs;
pub mod mechanics;
pub mod trajectory;
pub mod utils;

verus! {

/// Why a request was turned down.
#[derive(Clone, Copy, Debug, PartialEq, Eq, Structural)]
pub enum SimError {
    /// Sequence lengths that do not fit each other or the number of bodies,
    /// a mass that is not positive, or a field that a body does not have.
    InvalidInput,
    /// Two bodies so close to each other that the force between them is not
    /// finite.
    Singularity,
    /// The integrator gave up, or what it recorded is not a trajectory.
    IntegrationFailure,
}

/// A vector in 3-space by its components.
#[derive(Debug, PartialEq)]
pub struct Vector3<T> {
    pub x: T,
    pub y: T,
    pub z: T,
}

impl<T: Copy> Copy for Vector3<T> {

}

impl<T: Copy> Clone for Vector3<T> {
    fn clone(&self) -> (p: Self)
        ensures
            p == *self,
    {
        *self
    }
}

impl<T> Vector3<T> {
    /// The vector with the given components.
    pub fn new(x: T, y: T, z: T) -> (p: Self)
        ensures
            p == (Vector3 { x, y, z }),
    {
        Vector3 { x, y, z }
    }
}

} // verus!
