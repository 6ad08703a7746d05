//! The error taxonomy of the library.

use vstd::prelude::*;

verus! {

/// Failures surfaced to the caller as values.
///
/// Silent, expected states are not errors: bindings suggested against an
/// unsupported profile are discarded, and a query against an action with no
/// bound sources yields the type's zero value.
#[derive(Copy, Clone, PartialEq, Eq, Debug, Structural)]
pub enum Error {
    /// An action was queried with a getter inconsistent with its declared
    /// type.
    TypeMismatch,
    /// A path was resolved that the interner never produced.  Verified
    /// callers rule this out by precondition; the variant stands for the
    /// unverified platform edge.
    UnknownPath,
    /// The platform's physical-device enumeration failed.
    DeviceEnumerationFailed,
}

impl Error {
    /// A short description, in place of a `Display` implementation.
    pub fn describe(&self) -> (r: &'static str)
        ensures
            r@ == match self {
                Error::TypeMismatch => "type mismatch"@,
                Error::UnknownPath => "unknown path"@,
                Error::DeviceEnumerationFailed => "device enumeration failed"@,
            },
    {
        match self {
            Error::TypeMismatch => "type mismatch",
            Error::UnknownPath => "unknown path",
            Error::DeviceEnumerationFailed => "device enumeration failed",
        }
    }
}

} // verus!
