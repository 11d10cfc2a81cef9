//! The one error of this crate: a send that the transport refused.

use vstd::prelude::*;

verus! {

/// `std::io::Error`, declared so that a failure can be carried through.
/// Trusted: nothing is claimed of what such a value holds.
#[verifier::external_type_specification]
#[verifier::external_body]
pub struct ExIoError(std::io::Error);

/// What a failed send reports, handed on as it came.
#[derive(Debug)]
pub struct TransportFailure {
    /// The error of the transport.
    pub cause: std::io::Error,
}

} // verus!
