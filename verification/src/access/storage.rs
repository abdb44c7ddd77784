//! Access-control records in contract storage.

use vstd::prelude::*;
use vstd::slice::slice_to_vec;
use soroban_sdk::Env;

use crate::host::{auth_matched, contract_running, instance_get, instance_set, persistent_get, persistent_set, store, StoreView};
use crate::storage::{configuration_key, user_key, StorageKey};
use crate::types::{encode_version, version_bytes, LmsVersion};

use super::errors::AccessError;
use super::types::{decode_role, encode_role, parse_role, role_bytes, Role, UserRecord};

verus! {

/// Whether `user` has a registration entry.
pub open spec fn registered(s: StoreView, user: Seq<u8>) -> bool {
    s.persistent.contains_key(user_key(user))
}

/// The role recorded for `user`, if any; an entry that is not a role
/// counts as none.
pub open spec fn role_of(s: StoreView, user: Seq<u8>) -> Option<Role> {
    if registered(s, user) {
        decode_role(s.persistent[user_key(user)])
    } else {
        None
    }
}

/// Whether the contract has been initialized.
pub open spec fn initialized(s: StoreView) -> bool {
    s.instance.contains_key(configuration_key())
}

/// What `set_role` does: an address is registered at most once; a fresh
/// address gets `role`.
pub open spec fn set_role_step(s: StoreView, user: Seq<u8>, role: Role) -> (Result<(), AccessError>, StoreView) {
    if registered(s, user) {
        (Err(AccessError::AlreadyRegistered), s)
    } else {
        (Ok(()), s.put_persistent(user_key(user), role_bytes(role)))
    }
}

/// The stores after the initialization marker is written.
pub open spec fn marked_initialized(s: StoreView) -> StoreView {
    s.put_instance(configuration_key(), version_bytes(LmsVersion::V1))
}

/// Returns whether the given address has a registered LMS role.
pub fn has_user(env: &Env, user: &[u8]) -> (found: bool)
    requires
        contract_running(*env),
    ensures
        found == registered(store(*env), user@),
{
    let key = StorageKey::User(slice_to_vec(user)).to_bytes();
    persistent_get(env, key.as_slice()).is_some()
}

/// Returns the role assigned to a user.
pub fn get_role(env: &Env, user: &[u8]) -> (role: Option<Role>)
    requires
        contract_running(*env),
    ensures
        role == role_of(store(*env), user@),
{
    let key = StorageKey::User(slice_to_vec(user)).to_bytes();
    match persistent_get(env, key.as_slice()) {
        Some(bytes) => parse_role(bytes.as_slice()),
        None => None,
    }
}

/// Returns the complete access-control record for a user.
pub fn get_user(env: &Env, user: &[u8]) -> (record: Option<UserRecord>)
    requires
        contract_running(*env),
    ensures
        match record {
            Some(r) => role_of(store(*env), user@) == Some(r.role) && r.address@ == user@,
            None => role_of(store(*env), user@) is None,
        },
{
    match get_role(env, user) {
        Some(role) => Some(UserRecord { address: slice_to_vec(user), role }),
        None => None,
    }
}

/// Persist a role for a new user.
///
/// Registration policy belongs to the access-control service. This
/// function only protects the storage invariant that one address can
/// only have one initial registration.
pub fn set_role(env: &mut Env, user: &[u8], role: Role) -> (r: Result<(), AccessError>)
    requires
        contract_running(*old(env)),
    ensures
        (r, store(*final(env))) == set_role_step(store(*old(env)), user@, role),
        contract_running(*final(env)),
        forall|u: Seq<u8>| auth_matched(*final(env), u) == auth_matched(*old(env), u),
{
    if has_user(env, user) {
        return Err(AccessError::AlreadyRegistered);
    }
    let key = StorageKey::User(slice_to_vec(user)).to_bytes();
    let value = encode_role(role);
    persistent_set(env, key.as_slice(), value.as_slice());
    Ok(())
}

/// Returns whether the contract has been initialized.
///
/// The marker lives in instance storage rather than persistent storage
/// because it is contract-level configuration: it shares the contract's own
/// lifetime and archival, and there is exactly one of it.
pub fn is_initialized(env: &Env) -> (r: bool)
    requires
        contract_running(*env),
    ensures
        r == initialized(store(*env)),
{
    let key = StorageKey::Configuration.to_bytes();
    instance_get(env, key.as_slice()).is_some()
}

/// Mark the contract as initialized.
///
/// Stores the interface version rather than a bare flag, so the same entry
/// answers "has this been initialized" and "which interface version was it
/// initialized at".
pub fn mark_initialized(env: &mut Env)
    requires
        contract_running(*old(env)),
    ensures
        store(*final(env)) == marked_initialized(store(*old(env))),
        contract_running(*final(env)),
        forall|u: Seq<u8>| auth_matched(*final(env), u) == auth_matched(*old(env), u),
{
    let key = StorageKey::Configuration.to_bytes();
    let value = encode_version(LmsVersion::V1);
    instance_set(env, key.as_slice(), value.as_slice());
}

} // verus!
