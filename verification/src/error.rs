//! The faults that abort a normalization run.

use vstd::prelude::*;

verus! {

/// Why a run was aborted. No fault is retried: the first one ends the run.
#[derive(Clone, Copy, Debug, PartialEq, Eq, Structural)]
pub enum Error {
    /// Reading, writing or seeking one of the streams failed.
    Io,
    /// The selected algorithm has no implementation.
    Unimplemented,
    /// The sample stream does not divide into whole frames, or a value does
    /// not have one entry per channel where it must.
    MalformedStream,
    /// A gain would have to be derived from a zero or undefined measurement.
    DegenerateMeasurement,
}

} // verus!
