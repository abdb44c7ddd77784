use vstd::prelude::*;

verus! {

/// Errors returned by the LMS contract.
#[derive(Clone, Copy, Debug, PartialEq, Eq, Structural)]
pub enum Error {
    /// Reserved for future initialization/configuration failures.
    InitializationFailed,
}

} // verus!
