//! Pins of a switch matrix that exists in software only: no key is ever
//! pressed on it.

use vstd::prelude::*;

verus! {

/// An input pin that always reads low.
#[derive(Clone, Copy, Debug)]
pub struct InputPins;

/// An output pin that takes every level and drives nothing.
#[derive(Clone, Copy, Debug)]
pub struct OutputPins;

impl InputPins {
    /// Whether the pin reads high: never.
    pub fn is_high(&self) -> (level: Result<bool, ()>)
        ensures
            level == Ok::<bool, ()>(false),
    {
        Ok(false)
    }

    /// Whether the pin reads low: always.
    pub fn is_low(&self) -> (level: Result<bool, ()>)
        ensures
            level == Ok::<bool, ()>(true),
    {
        Ok(true)
    }
}

impl OutputPins {
    /// Drives the pin high, which always succeeds.
    pub fn set_high(&mut self) -> (done: Result<(), ()>)
        ensures
            done is Ok,
            *final(self) == *old(self),
    {
        Ok(())
    }

    /// Drives the pin low, which always succeeds.
    pub fn set_low(&mut self) -> (done: Result<(), ()>)
        ensures
            done is Ok,
            *final(self) == *old(self),
    {
        Ok(())
    }
}

} // verus!
