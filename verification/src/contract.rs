use vstd::prelude::*;

verus! {

/// Root contract for the Learning Management System.
///
/// This contract intentionally exposes no business functionality yet.
/// It establishes the contract entry point for future LMS modules.
pub struct LmsContract;

} // verus!
