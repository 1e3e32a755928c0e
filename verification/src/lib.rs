//! Core of a Conway-style cellular automaton: a fixed-size boolean grid,
//! Moore-neighborhood evaluation, an ordered rule pipeline, a generation
//! stepper with simultaneous-update semantics, a bounded navigable history
//! of snapshots, and a random seeder. Rendering, windowing and input are
//! left to callers of this library.

use vstd::prelude::*;

pub mod grid;
pub mod history;
pub mod rules;
pub mod seed;
pub mod step;

verus! {

/// Configuration errors reported at construction time.
#[derive(Debug, Clone, Copy, PartialEq, Eq, Structural)]
pub enum SimError {
    /// The grid dimensions are unusable: zero-sized, not square, or too
    /// large for the address space. The addressing scheme
    /// (`index(x, y) = y*H + x`, `coords(i) = (i % W, i / H)`) is a
    /// bijection exactly on square grids, so non-square dimensions are
    /// rejected.
    InvalidDimensions,
    /// A spawn probability outside `[0, 1]`: the numerator exceeds the
    /// denominator, or the denominator is zero.
    InvalidProbability,
    /// A history buffer must hold at least one snapshot.
    InvalidCapacity,
}

impl SimError {
    /// A short description of the error, for callers that report it.
    pub fn message(&self) -> (s: &'static str)
        ensures
            *self == SimError::InvalidDimensions ==> s@ == "invalid grid dimensions"@,
            *self == SimError::InvalidProbability ==> s@ == "spawn probability outside [0, 1]"@,
            *self == SimError::InvalidCapacity ==> s@ == "history capacity must be at least 1"@,
    {
        match self {
            SimError::InvalidDimensions => "invalid grid dimensions",
            SimError::InvalidProbability => "spawn probability outside [0, 1]",
            SimError::InvalidCapacity => "history capacity must be at least 1",
        }
    }
}

} // verus!
