//! The contract's host environment as the library sees it: two key-value
//! stores (persistent and instance storage) whose keys and values are byte
//! strings, and the ledger clock.
//!
//! Soroban storage is written, and authorizations are used up, through
//! `&Env`; the library takes `&mut Env` wherever it does either, so that
//! what a call does is visible in its contract. Verified code never clones
//! an `Env`.

use vstd::prelude::*;
use soroban_sdk::{Address, Bytes, Env, TryFromVal, Val};

verus! {

/// Soroban's `Env`, the handle through which a contract reaches its host.
/// It is opaque; what the library reads of it is named by
/// `persistent_contents`, `instance_contents`, `contract_running` and
/// `may_authorize`.
#[verifier::external_type_specification]
#[verifier::external_body]
pub struct ExEnv(Env);

/// The entries of the running contract's persistent storage that have a
/// byte-string key and a byte-string value. Entries of other types (the
/// library writes none) and entry lifetimes (TTL, archival) are not part of
/// this view.
pub uninterp spec fn persistent_contents(env: Env) -> Map<Seq<u8>, Seq<u8>>;

/// The entries of the running contract's instance storage that have a
/// byte-string key and a byte-string value.
pub uninterp spec fn instance_contents(env: Env) -> Map<Seq<u8>, Seq<u8>>;

/// Whether a contract is running on `env`, so that its storage can be
/// reached. Soroban traps on every storage access when none is.
pub uninterp spec fn contract_running(env: Env) -> bool;

/// Whether `Address::require_auth` returns normally, in the current state
/// of `env`, for the address whose text form is `user`: `user` is the text
/// of an account or contract address, and the invocation carries that
/// address's authorization for this call.
pub uninterp spec fn may_authorize(env: Env, user: Seq<u8>) -> bool;

/// Whether the host has recorded, in the running frame, that the address
/// whose text form is `user` authorized this call: `Address::require_auth`
/// on it has returned normally.
pub uninterp spec fn auth_matched(env: Env, user: Seq<u8>) -> bool;

/// Both stores of a contract, as plain maps.
pub struct StoreView {
    pub persistent: Map<Seq<u8>, Seq<u8>>,
    pub instance: Map<Seq<u8>, Seq<u8>>,
}

/// The stores that `env` holds.
pub open spec fn store(env: Env) -> StoreView {
    StoreView { persistent: persistent_contents(env), instance: instance_contents(env) }
}

impl StoreView {
    pub open spec fn put_persistent(self, key: Seq<u8>, value: Seq<u8>) -> StoreView {
        StoreView { persistent: self.persistent.insert(key, value), instance: self.instance }
    }

    pub open spec fn put_instance(self, key: Seq<u8>, value: Seq<u8>) -> StoreView {
        StoreView { persistent: self.persistent, instance: self.instance.insert(key, value) }
    }
}

/// `Persistent::get::<Bytes, Val>`, then `Bytes::try_from_val` on the
/// value: the byte string stored under `key`, copied out of the host, or
/// `None` when there is no entry or its value is not a byte string. Soroban
/// traps when no contract is running.
#[verifier::external_body]
pub(crate) fn persistent_get(env: &Env, key: &[u8]) -> (value: Option<Vec<u8>>)
    requires
        contract_running(*env),
    ensures
        match value {
            Some(v) => persistent_contents(*env).contains_key(key@)
                && v@ == persistent_contents(*env)[key@],
            None => !persistent_contents(*env).contains_key(key@),
        },
{
    match env.storage().persistent().get::<Bytes, Val>(&Bytes::from_slice(env, key)) {
        Some(v) => match Bytes::try_from_val(env, &v) {
            Ok(b) => {
                let mut out = vec![0u8; b.len() as usize];
                b.copy_into_slice(&mut out);
                Some(out)
            },
            Err(_) => None,
        },
        None => None,
    }
}

/// `Persistent::set`: stores `value` under `key` in persistent storage,
/// replacing any earlier entry. Instance storage is a separate store and
/// stays as it was; a write neither starts nor ends the running contract,
/// nor touches authorizations.
#[verifier::external_body]
pub(crate) fn persistent_set(env: &mut Env, key: &[u8], value: &[u8])
    requires
        contract_running(*old(env)),
    ensures
        store(*final(env)) == store(*old(env)).put_persistent(key@, value@),
        contract_running(*final(env)),
        forall|u: Seq<u8>| may_authorize(*final(env), u) == may_authorize(*old(env), u),
        forall|u: Seq<u8>| auth_matched(*final(env), u) == auth_matched(*old(env), u),
{
    let k = Bytes::from_slice(env, key);
    let v = Bytes::from_slice(env, value);
    env.storage().persistent().set(&k, &v)
}

/// `Instance::get::<Bytes, Val>`, then `Bytes::try_from_val`: the byte
/// string stored under `key` in instance storage, or `None` when there is
/// no entry or its value is not a byte string.
#[verifier::external_body]
pub(crate) fn instance_get(env: &Env, key: &[u8]) -> (value: Option<Vec<u8>>)
    requires
        contract_running(*env),
    ensures
        match value {
            Some(v) => instance_contents(*env).contains_key(key@)
                && v@ == instance_contents(*env)[key@],
            None => !instance_contents(*env).contains_key(key@),
        },
{
    match env.storage().instance().get::<Bytes, Val>(&Bytes::from_slice(env, key)) {
        Some(v) => match Bytes::try_from_val(env, &v) {
            Ok(b) => {
                let mut out = vec![0u8; b.len() as usize];
                b.copy_into_slice(&mut out);
                Some(out)
            },
            Err(_) => None,
        },
        None => None,
    }
}

/// `Instance::set`: stores `value` under `key` in instance storage;
/// persistent storage, the running contract and authorizations stay as
/// they were.
#[verifier::external_body]
pub(crate) fn instance_set(env: &mut Env, key: &[u8], value: &[u8])
    requires
        contract_running(*old(env)),
    ensures
        store(*final(env)) == store(*old(env)).put_instance(key@, value@),
        contract_running(*final(env)),
        forall|u: Seq<u8>| may_authorize(*final(env), u) == may_authorize(*old(env), u),
        forall|u: Seq<u8>| auth_matched(*final(env), u) == auth_matched(*old(env), u),
{
    let k = Bytes::from_slice(env, key);
    let v = Bytes::from_slice(env, value);
    env.storage().instance().set(&k, &v)
}

/// `Address::require_auth` on the address whose text form is `user`
/// (built with `Address::from_string_bytes`). Soroban traps when `user`
/// is not the text of an account or contract address, or when the
/// invocation does not carry that address's authorization; hence the
/// `requires`. When it returns, the host has recorded the authorization as
/// matched in the running frame, so nothing is promised of a second check
/// of the same address in the same call. It writes no storage and leaves
/// the running contract as it was.
#[verifier::external_body]
pub(crate) fn require_auth(env: &mut Env, user: &[u8])
    requires
        contract_running(*old(env)),
        may_authorize(*old(env), user@),
    ensures
        store(*final(env)) == store(*old(env)),
        contract_running(*final(env)),
        auth_matched(*final(env), user@),
{
    Address::from_string_bytes(&Bytes::from_slice(env, user)).require_auth()
}

/// `Ledger::timestamp`: the close time of the current ledger. It depends on
/// the ledger, so nothing is promised of it.
#[verifier::external_body]
pub(crate) fn ledger_timestamp(env: &Env) -> u64 {
    env.ledger().timestamp()
}

} // verus!
