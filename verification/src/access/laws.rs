//! Laws of access control.

use vstd::prelude::*;

use crate::host::StoreView;
use crate::storage::{lemma_keys_distinct, user_key};

use super::{
    admin_check, authorize_instructor_step, instructor_check, register_admin_step, register_student_step,
    registered_check, staff_check, AccessError, Role,
};
use super::storage::{registered, role_of, set_role_step};
use super::types::lemma_role_roundtrip;

verus! {

/// A registration reads back: once `user` is registered with `role`, its
/// role is `role`, and every other address keeps the role it had.
pub proof fn registration_reads_back(s: StoreView, user: Seq<u8>, role: Role, other: Seq<u8>)
    requires
        set_role_step(s, user, role).0 is Ok,
    ensures
        role_of(set_role_step(s, user, role).1, user) == Some(role),
        other != user ==> role_of(set_role_step(s, user, role).1, other) == role_of(s, other),
{
    lemma_role_roundtrip(role);
    lemma_keys_distinct();
    if other != user {
        assert(user_key(other) != user_key(user));
    }
}

/// Only an administrator can hand out the administrator or instructor
/// role; anyone else is refused and nothing changes.
pub proof fn only_administrators_grant_roles(s: StoreView, caller: Seq<u8>, target: Seq<u8>)
    ensures
        register_admin_step(s, caller, target).0 is Ok ==> role_of(s, caller) == Some(Role::Admin),
        authorize_instructor_step(s, caller, target).0 is Ok ==> role_of(s, caller) == Some(Role::Admin),
        role_of(s, caller) != Some(Role::Admin) ==> register_admin_step(s, caller, target) == (admin_check(s, caller), s),
        role_of(s, caller) != Some(Role::Admin) ==> authorize_instructor_step(s, caller, target) == (admin_check(s, caller), s),
{
}

/// An address is registered at most once: a second registration, with any
/// role, is refused with `AlreadyRegistered`.
pub proof fn registration_happens_once(s: StoreView, user: Seq<u8>, first: Role, second: Role)
    requires
        set_role_step(s, user, first).0 is Ok,
    ensures
        set_role_step(set_role_step(s, user, first).1, user, second) == (
            Err::<(), AccessError>(AccessError::AlreadyRegistered),
            set_role_step(s, user, first).1,
        ),
{
}

/// The registration check accepts every registered address, whatever its
/// role, and refuses exactly the unregistered ones with
/// `UserNotRegistered`; whoever passes any stricter check passes it; and a
/// student who has just registered passes it.
pub proof fn every_registered_address_passes_the_registration_check(s: StoreView, user: Seq<u8>)
    ensures
        registered_check(s, user) is Ok <==> registered(s, user),
        registered_check(s, user) is Err ==> registered_check(s, user) == Err::<(), AccessError>(AccessError::UserNotRegistered),
        role_of(s, user) is Some ==> registered_check(s, user) is Ok,
        admin_check(s, user) is Ok || instructor_check(s, user) is Ok || staff_check(s, user) is Ok
            ==> registered_check(s, user) is Ok,
        register_student_step(s, user).0 is Ok ==> registered_check(register_student_step(s, user).1, user) is Ok,
{
    if register_student_step(s, user).0 is Ok {
        registration_reads_back(s, user, Role::Student, user);
    }
}

/// The staff check passes exactly the addresses that pass the
/// administrator check or the instructor check.
pub proof fn staff_are_administrators_and_instructors(s: StoreView, user: Seq<u8>)
    ensures
        staff_check(s, user) is Ok <==> (admin_check(s, user) is Ok || instructor_check(s, user) is Ok),
{
}

} // verus!
