//! The library's error taxonomy.

use vstd::prelude::*;

verus! {

/// Everything that can go wrong in this crate.
///
/// Wrong witness values are never an error: they only make the withdrawal
/// circuit unsatisfiable, which is discovered at verification time.
#[derive(Clone, Copy, PartialEq, Eq, Structural, Debug)]
pub enum CswError {
    /// The proving-system selector was the explicit "undefined" sentinel.
    UndefinedProvingSystem,
    /// A declared proving-system variant whose support is not built.
    Unimplemented,
    /// The predicted proof or verification-key size exceeds a caller maximum.
    CircuitTooComplex,
    /// A malformed or truncated byte payload.
    SerializationError,
    /// The hash-to-curve retry counter was exhausted without finding a point.
    ParameterGenerationExhausted,
    /// A structural circuit-construction failure.
    SynthesisError,
}

} // verus!
