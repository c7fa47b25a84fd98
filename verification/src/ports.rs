//! Collaborator ports: the narrow interfaces through which the controller
//! reaches its sensor, its brightness device, durable storage and time.
//!
//! Each port has exactly one production implementation (outside this crate)
//! and simple test doubles.  The controller promises nothing about what an
//! implementation returns; every decision it makes is verified for all
//! possible answers.

use vstd::prelude::*;
use crate::data::Entry;

verus! {

/// The failure kinds the controller surfaces, one per collaborator.
///
/// A device failure was once considered fatal to the whole process; it is
/// deliberately surfaced as a distinguishable error instead, so a caller can
/// still choose to terminate or to degrade.
#[derive(Clone, Copy, PartialEq, Eq, Structural, Debug)]
pub enum Error {
    /// The ambient-light sensor could not be read this cycle.
    Als,
    /// The brightness device could not be read or written.
    Device,
    /// The learned samples could not be persisted.
    Save,
}

/// Ambient-light sensor: yields a raw reading in sensor-native units.
pub trait Als {
    fn get(&mut self) -> Result<u64, ()>;
}

/// Brightness device: reads and applies device-native brightness values.
pub trait Brightness {
    fn get(&mut self) -> Result<u64, ()>;

    fn set(&mut self, value: u64) -> Result<(), ()>;
}

/// Durable storage for the learned samples.
pub trait Storage {
    fn load(&mut self) -> Result<Vec<Entry>, ()>;

    fn save(&mut self, entries: &Vec<Entry>) -> Result<(), ()>;
}

/// Time source used to pace the brightness ramp.
pub trait Clock {
    fn sleep_units(&mut self, units: u64);
}

} // verus!
