use vstd::prelude::*;

verus! {

/// Errors of the commitment-and-proof subsystem.
///
/// `InvalidEncoding` and `UnsatisfiableCircuit` are recoverable per-request
/// errors; `MalformedCurvePoint` marks corrupt wire data; `SetupFailure` is
/// fatal and can only arise while parameters are generated at deployment
/// time.
#[derive(Clone, Copy, Debug, PartialEq, Eq, Structural)]
pub enum ZkpError {
    /// Malformed enrollment or authentication input.
    InvalidEncoding,
    /// The private witness does not satisfy the identity circuit.
    UnsatisfiableCircuit,
    /// Wire bytes that do not decode to a valid point on the curve.
    MalformedCurvePoint,
    /// Parameter generation failed.
    SetupFailure,
}

} // verus!
