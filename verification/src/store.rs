//! The store of the effect's one parameter.
//!
//! The store is a plain owned value. Whoever shares it between the control
//! surface and the render loop guards it with one lock; a reader then takes a
//! copy of the parameters and lets go of the lock.

use vstd::prelude::*;
use crate::sample::ONE;

verus! {

/// The parameters of the effect: the threshold, as a binary32 bit pattern.
#[derive(Clone, Copy, Debug, PartialEq, Eq, Structural)]
pub struct Parameters {
    pub threshold: u32,
}

/// Holds the current parameters. No value is refused: a threshold of zero, a
/// negative one and a NaN are stored like any other.
#[derive(Debug)]
pub struct ParameterStore {
    current: Parameters,
}

impl View for ParameterStore {
    type V = Parameters;

    closed spec fn view(&self) -> Parameters {
        self.current
    }
}

impl ParameterStore {
    /// A store with the threshold one.
    pub fn new() -> (store: ParameterStore)
        ensures
            store@.threshold == ONE,
    {
        ParameterStore { current: Parameters { threshold: ONE } }
    }

    /// A copy of the current parameters.
    pub fn read(&self) -> (parameters: Parameters)
        ensures
            parameters == self@,
    {
        self.current
    }

    /// Replaces the threshold.
    pub fn write(&mut self, threshold: u32)
        ensures
            final(self)@.threshold == threshold,
    {
        self.current = Parameters { threshold };
    }
}

impl Default for ParameterStore {
    fn default() -> (store: ParameterStore)
        ensures
            store@.threshold == ONE,
    {
        ParameterStore::new()
    }
}

} // verus!
