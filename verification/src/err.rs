//! Error taxonomy of the library.
//!
//! Resolution-time errors are fatal to the resolution attempt: no partial
//! configuration is ever produced.  `ConfigInconsistency` is the runtime
//! taxonomy: it signals that the resolved configuration and the per-slot
//! inputs (DCI/UCI fields, logical channels) contradict each other.

use vstd::prelude::*;

verus! {

/// What went wrong while resolving a raw configuration or while running the
/// per-slot pipeline.
#[derive(Debug, Clone, Copy, PartialEq, Eq, Structural)]
pub enum Error {
    /// A resource id referenced by a set, an SR resource or the multi-CSI
    /// list does not exist in the resource pool.  Carries the offending id.
    UnknownResourceId(u32),
    /// A configured value lies outside its enumerated candidate set or the
    /// numerology allowed by the slot format.  Carries the offending value.
    InvalidParameter(u32),
    /// A field with no default was absent (a fifth or later resource set
    /// without an explicit maximum payload bound).
    MissingRequiredField,
    /// No resource set has a maximum payload bound that can hold the UCI.
    NoMatchingResourceSet,
    /// The resolved configuration and the slot inputs are mutually
    /// inconsistent (a computed index falls outside the resource table, or a
    /// logical channel references an unresolved resource).
    ConfigInconsistency,
}

} // verus!
