use vstd::prelude::*;

verus! {

/// Errors produced by the LMS access-control module.
#[derive(Clone, Copy, Debug, PartialEq, Eq, Structural)]
pub enum AccessError {
    /// The caller does not have the required role.
    Unauthorized,
    /// The target address is already registered.
    AlreadyRegistered,
    /// The target address has not been registered.
    UserNotRegistered,
    /// The operation requires administrator privileges.
    AdminRequired,
    /// The operation requires instructor privileges.
    InstructorRequired,
    /// No administrator has been initialized yet.
    AdminNotInitialized,
    /// The contract has already been initialized.
    ///
    /// Initialization is the one path to an administrator role that needs no
    /// existing administrator's approval, so it has to be a one-time event.
    /// Without this, any address could call `initialize` after launch and
    /// appoint itself administrator.
    AlreadyInitialized,
}

} // verus!
