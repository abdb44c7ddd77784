pub mod errors;
pub mod laws;
pub mod storage;
pub mod types;

pub use errors::AccessError;
pub use types::{Role, UserRecord};

use vstd::prelude::*;
use soroban_sdk::Env;

use crate::host::{auth_matched, contract_running, may_authorize, require_auth, store, StoreView};
use self::storage::{initialized, marked_initialized, registered, role_of, set_role_step};

verus! {

/// What `require_admin` answers for `caller`.
pub open spec fn admin_check(s: StoreView, caller: Seq<u8>) -> Result<(), AccessError> {
    match role_of(s, caller) {
        Some(Role::Admin) => Ok(()),
        Some(_) => Err(AccessError::AdminRequired),
        None => Err(AccessError::UserNotRegistered),
    }
}

/// What `require_instructor` answers for `caller`.
pub open spec fn instructor_check(s: StoreView, caller: Seq<u8>) -> Result<(), AccessError> {
    match role_of(s, caller) {
        Some(Role::Instructor) => Ok(()),
        Some(_) => Err(AccessError::InstructorRequired),
        None => Err(AccessError::UserNotRegistered),
    }
}

/// What `require_staff` answers for `caller`: administrators and
/// instructors are staff, students are not.
pub open spec fn staff_check(s: StoreView, caller: Seq<u8>) -> Result<(), AccessError> {
    match role_of(s, caller) {
        Some(Role::Admin) => Ok(()),
        Some(Role::Instructor) => Ok(()),
        Some(Role::Student) => Err(AccessError::Unauthorized),
        None => Err(AccessError::UserNotRegistered),
    }
}

/// What `require_registered` answers for `caller`.
pub open spec fn registered_check(s: StoreView, caller: Seq<u8>) -> Result<(), AccessError> {
    if registered(s, caller) {
        Ok(())
    } else {
        Err(AccessError::UserNotRegistered)
    }
}

/// What `initialize_admin` does: once the contract is initialized it
/// refuses; otherwise it registers `admin` as administrator and, only if
/// that succeeded, marks the contract initialized.
pub open spec fn initialize_admin_step(s: StoreView, admin: Seq<u8>) -> (Result<(), AccessError>, StoreView) {
    if initialized(s) {
        (Err(AccessError::AlreadyInitialized), s)
    } else if registered(s, admin) {
        (Err(AccessError::AlreadyRegistered), s)
    } else {
        (Ok(()), marked_initialized(set_role_step(s, admin, Role::Admin).1))
    }
}

/// What `register_admin` does: an administrator may register a new
/// administrator.
pub open spec fn register_admin_step(s: StoreView, caller: Seq<u8>, admin: Seq<u8>) -> (Result<(), AccessError>, StoreView) {
    match admin_check(s, caller) {
        Err(e) => (Err(e), s),
        Ok(()) => set_role_step(s, admin, Role::Admin),
    }
}

/// What `authorize_instructor` does: an administrator may register a new
/// instructor.
pub open spec fn authorize_instructor_step(s: StoreView, caller: Seq<u8>, instructor: Seq<u8>) -> (Result<(), AccessError>, StoreView) {
    match admin_check(s, caller) {
        Err(e) => (Err(e), s),
        Ok(()) => set_role_step(s, instructor, Role::Instructor),
    }
}

/// What `register_student` does: any fresh address may register itself as
/// a student.
pub open spec fn register_student_step(s: StoreView, student: Seq<u8>) -> (Result<(), AccessError>, StoreView) {
    set_role_step(s, student, Role::Student)
}

/// Access-control operations for the LMS contract.
///
/// The addresses these operations take are the bytes of the addresses'
/// text form. Each operation run on behalf of an address first checks,
/// through the host, that the invocation carries that address's
/// authorization; Soroban traps without it, so the operations require it.
pub struct AccessControl;

impl AccessControl {
    /// Register the first LMS administrator.
    ///
    /// This runs exactly once, at contract initialization. It is the only
    /// route to an administrator role that does not require an existing
    /// administrator's approval, which is precisely why it must be a
    /// one-time event. The guard is on the contract, not on the address:
    /// `AlreadyRegistered` protects one address; `AlreadyInitialized`
    /// protects the contract.
    ///
    /// # Errors
    /// * `AlreadyInitialized` — initialization has already happened
    /// * `AlreadyRegistered` — the address somehow already holds a role
    pub fn initialize_admin(env: &mut Env, admin: &[u8]) -> (r: Result<(), AccessError>)
        requires
            contract_running(*old(env)),
            may_authorize(*old(env), admin@),
        ensures
            (r, store(*final(env))) == initialize_admin_step(store(*old(env)), admin@),
            contract_running(*final(env)),
            auth_matched(*final(env), admin@),
    {
        require_auth(env, admin);
        if storage::is_initialized(env) {
            return Err(AccessError::AlreadyInitialized);
        }
        match storage::set_role(env, admin, Role::Admin) {
            Err(e) => return Err(e),
            Ok(()) => {},
        }
        storage::mark_initialized(env);
        Ok(())
    }

    /// Whether the contract has been initialized.
    pub fn is_initialized(env: &Env) -> (r: bool)
        requires
            contract_running(*env),
        ensures
            r == initialized(store(*env)),
    {
        storage::is_initialized(env)
    }

    /// Register an additional administrator.
    ///
    /// Only an existing administrator may authorize another administrator.
    pub fn register_admin(env: &mut Env, caller: &[u8], admin: &[u8]) -> (r: Result<(), AccessError>)
        requires
            contract_running(*old(env)),
            may_authorize(*old(env), caller@),
        ensures
            (r, store(*final(env))) == register_admin_step(store(*old(env)), caller@, admin@),
            contract_running(*final(env)),
            auth_matched(*final(env), caller@),
    {
        match Self::require_admin(env, caller) {
            Err(e) => return Err(e),
            Ok(()) => {},
        }
        storage::set_role(env, admin, Role::Admin)
    }

    /// Authorize an instructor.
    ///
    /// Only an administrator may authorize instructors.
    pub fn authorize_instructor(env: &mut Env, caller: &[u8], instructor: &[u8]) -> (r: Result<(), AccessError>)
        requires
            contract_running(*old(env)),
            may_authorize(*old(env), caller@),
        ensures
            (r, store(*final(env))) == authorize_instructor_step(store(*old(env)), caller@, instructor@),
            contract_running(*final(env)),
            auth_matched(*final(env), caller@),
    {
        match Self::require_admin(env, caller) {
            Err(e) => return Err(e),
            Ok(()) => {},
        }
        storage::set_role(env, instructor, Role::Instructor)
    }

    /// Register a student.
    ///
    /// Students authorize their own registration, so no third party can
    /// register an address as a student without its consent.
    pub fn register_student(env: &mut Env, student: &[u8]) -> (r: Result<(), AccessError>)
        requires
            contract_running(*old(env)),
            may_authorize(*old(env), student@),
        ensures
            (r, store(*final(env))) == register_student_step(store(*old(env)), student@),
            contract_running(*final(env)),
            auth_matched(*final(env), student@),
    {
        require_auth(env, student);
        storage::set_role(env, student, Role::Student)
    }

    /// Look up the role assigned to an address.
    pub fn get_role(env: &Env, user: &[u8]) -> (role: Option<Role>)
        requires
            contract_running(*env),
        ensures
            role == role_of(store(*env), user@),
    {
        storage::get_role(env, user)
    }

    /// Look up the complete access-control record for an address.
    pub fn get_user(env: &Env, user: &[u8]) -> (record: Option<UserRecord>)
        requires
            contract_running(*env),
        ensures
            match record {
                Some(r) => role_of(store(*env), user@) == Some(r.role) && r.address@ == user@,
                None => role_of(store(*env), user@) is None,
            },
    {
        storage::get_user(env, user)
    }

    /// Check whether an address has a specific role.
    pub fn has_role(env: &Env, user: &[u8], expected_role: Role) -> (r: bool)
        requires
            contract_running(*env),
        ensures
            r == (role_of(store(*env), user@) == Some(expected_role)),
    {
        match Self::get_role(env, user) {
            Some(role) => role == expected_role,
            None => false,
        }
    }

    /// Require administrator authorization.
    pub fn require_admin(env: &mut Env, caller: &[u8]) -> (r: Result<(), AccessError>)
        requires
            contract_running(*old(env)),
            may_authorize(*old(env), caller@),
        ensures
            r == admin_check(store(*old(env)), caller@),
            store(*final(env)) == store(*old(env)),
            contract_running(*final(env)),
            auth_matched(*final(env), caller@),
    {
        require_auth(env, caller);
        match Self::get_role(env, caller) {
            Some(Role::Admin) => Ok(()),
            Some(_) => Err(AccessError::AdminRequired),
            None => Err(AccessError::UserNotRegistered),
        }
    }

    /// Require instructor authorization.
    pub fn require_instructor(env: &mut Env, caller: &[u8]) -> (r: Result<(), AccessError>)
        requires
            contract_running(*old(env)),
            may_authorize(*old(env), caller@),
        ensures
            r == instructor_check(store(*old(env)), caller@),
            store(*final(env)) == store(*old(env)),
            contract_running(*final(env)),
            auth_matched(*final(env), caller@),
    {
        require_auth(env, caller);
        match Self::get_role(env, caller) {
            Some(Role::Instructor) => Ok(()),
            Some(_) => Err(AccessError::InstructorRequired),
            None => Err(AccessError::UserNotRegistered),
        }
    }

    /// Require either administrator or instructor privileges.
    pub fn require_staff(env: &mut Env, caller: &[u8]) -> (r: Result<(), AccessError>)
        requires
            contract_running(*old(env)),
            may_authorize(*old(env), caller@),
        ensures
            r == staff_check(store(*old(env)), caller@),
            store(*final(env)) == store(*old(env)),
            contract_running(*final(env)),
            auth_matched(*final(env), caller@),
    {
        require_auth(env, caller);
        match Self::get_role(env, caller) {
            Some(Role::Admin) => Ok(()),
            Some(Role::Instructor) => Ok(()),
            Some(Role::Student) => Err(AccessError::Unauthorized),
            None => Err(AccessError::UserNotRegistered),
        }
    }

    /// Require the caller to be a registered LMS user.
    pub fn require_registered(env: &mut Env, caller: &[u8]) -> (r: Result<(), AccessError>)
        requires
            contract_running(*old(env)),
            may_authorize(*old(env), caller@),
        ensures
            r == registered_check(store(*old(env)), caller@),
            store(*final(env)) == store(*old(env)),
            contract_running(*final(env)),
            auth_matched(*final(env), caller@),
    {
        require_auth(env, caller);
        if storage::has_user(env, caller) {
            Ok(())
        } else {
            Err(AccessError::UserNotRegistered)
        }
    }
}

} // verus!
