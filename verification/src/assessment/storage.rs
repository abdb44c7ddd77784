//! Assessment configurations, attempt counters and results in contract
//! storage.

use vstd::prelude::*;
use vstd::slice::slice_to_vec;
use soroban_sdk::Env;

use crate::host::{auth_matched, contract_running, persistent_get, persistent_set, store, StoreView};
use crate::storage::{attempt_count_key, config_key, latest_attempt_key, result_key, StorageKey};

use super::codec::{
    config_bytes, count_bytes, decode_config, decode_count, decode_result, encode_config,
    encode_count, encode_result, parse_config, parse_count, parse_result, result_bytes,
};
use super::types::{AssessmentConfig, AssessmentRecord, AssessmentResult};

verus! {

/// The configuration stored for an assessment, if any.
pub open spec fn config_of(s: StoreView, assessment_id: u64) -> Option<AssessmentConfig> {
    if s.persistent.contains_key(config_key(assessment_id)) {
        decode_config(s.persistent[config_key(assessment_id)])
    } else {
        None
    }
}

/// The number of attempts recorded for a student at an assessment; none
/// recorded, or an entry that is not a counter, counts as zero.
pub open spec fn attempts_of(s: StoreView, student: Seq<u8>, assessment_id: u64) -> u32 {
    let key = attempt_count_key(student, assessment_id);
    if s.persistent.contains_key(key) {
        match decode_count(s.persistent[key]) {
            Some(n) => n,
            None => 0,
        }
    } else {
        0
    }
}

/// The result stored for one attempt, if any (an entry that is not a
/// result counts as none).
pub open spec fn result_of(s: StoreView, student: Seq<u8>, assessment_id: u64, attempt: u32) -> Option<AssessmentRecord> {
    let key = result_key(student, assessment_id, attempt);
    if s.persistent.contains_key(key) {
        decode_result(s.persistent[key])
    } else {
        None
    }
}

/// The number of the latest attempt recorded, if any.
pub open spec fn latest_attempt_of(s: StoreView, student: Seq<u8>, assessment_id: u64) -> Option<u32> {
    let key = latest_attempt_key(student, assessment_id);
    if s.persistent.contains_key(key) {
        decode_count(s.persistent[key])
    } else {
        None
    }
}

/// The stores after `config` is written for an assessment.
pub open spec fn with_config(s: StoreView, assessment_id: u64, config: AssessmentConfig) -> StoreView {
    s.put_persistent(config_key(assessment_id), config_bytes(config))
}

/// The stores after the attempt counter is written.
pub open spec fn with_attempt_count(s: StoreView, student: Seq<u8>, assessment_id: u64, count: u32) -> StoreView {
    s.put_persistent(attempt_count_key(student, assessment_id), count_bytes(count))
}

/// The stores after a result is written for an attempt, which also becomes
/// the latest attempt.
pub open spec fn with_result(
    s: StoreView,
    student: Seq<u8>,
    assessment_id: u64,
    attempt: u32,
    result: AssessmentRecord,
) -> StoreView {
    s.put_persistent(result_key(student, assessment_id, attempt), result_bytes(result))
        .put_persistent(latest_attempt_key(student, assessment_id), count_bytes(attempt))
}

/// The configuration stored for an assessment, if any.
pub fn get_config(env: &Env, assessment_id: u64) -> (c: Option<AssessmentConfig>)
    requires
        contract_running(*env),
    ensures
        c == config_of(store(*env), assessment_id),
{
    let key = StorageKey::AssessmentConfig(assessment_id).to_bytes();
    match persistent_get(env, key.as_slice()) {
        Some(bytes) => parse_config(bytes.as_slice()),
        None => None,
    }
}

/// Stores (or replaces) the configuration of an assessment.
pub fn set_config(env: &mut Env, assessment_id: u64, config: &AssessmentConfig)
    requires
        contract_running(*old(env)),
    ensures
        store(*final(env)) == with_config(store(*old(env)), assessment_id, *config),
        contract_running(*final(env)),
        forall|u: Seq<u8>| auth_matched(*final(env), u) == auth_matched(*old(env), u),
{
    let key = StorageKey::AssessmentConfig(assessment_id).to_bytes();
    let value = encode_config(config);
    persistent_set(env, key.as_slice(), value.as_slice());
}

/// The number of attempts a student has made at an assessment (zero when
/// none is recorded).
pub fn get_attempt_count(env: &Env, student: &[u8], assessment_id: u64) -> (n: u32)
    requires
        contract_running(*env),
    ensures
        n == attempts_of(store(*env), student@, assessment_id),
{
    let key = StorageKey::AssessmentAttemptCount(slice_to_vec(student), assessment_id).to_bytes();
    match persistent_get(env, key.as_slice()) {
        Some(bytes) => match parse_count(bytes.as_slice()) {
            Some(n) => n,
            None => 0,
        },
        None => 0,
    }
}

/// Records the number of attempts a student has made at an assessment.
pub fn set_attempt_count(env: &mut Env, student: &[u8], assessment_id: u64, count: u32)
    requires
        contract_running(*old(env)),
    ensures
        store(*final(env)) == with_attempt_count(store(*old(env)), student@, assessment_id, count),
        contract_running(*final(env)),
        forall|u: Seq<u8>| auth_matched(*final(env), u) == auth_matched(*old(env), u),
{
    let key = StorageKey::AssessmentAttemptCount(slice_to_vec(student), assessment_id).to_bytes();
    let value = encode_count(count);
    persistent_set(env, key.as_slice(), value.as_slice());
}

/// Stores the result of an attempt and records that attempt as the latest.
pub fn set_result(env: &mut Env, student: &[u8], assessment_id: u64, attempt: u32, result: &AssessmentResult)
    requires
        contract_running(*old(env)),
    ensures
        store(*final(env)) == with_result(store(*old(env)), student@, assessment_id, attempt, result@),
        contract_running(*final(env)),
        forall|u: Seq<u8>| auth_matched(*final(env), u) == auth_matched(*old(env), u),
{
    let key = StorageKey::AssessmentResult(slice_to_vec(student), assessment_id, attempt).to_bytes();
    let value = encode_result(result);
    persistent_set(env, key.as_slice(), value.as_slice());
    let latest = StorageKey::AssessmentLatestAttempt(slice_to_vec(student), assessment_id).to_bytes();
    let number = encode_count(attempt);
    persistent_set(env, latest.as_slice(), number.as_slice());
}

/// The result stored for one attempt, if any.
pub fn get_result(env: &Env, student: &[u8], assessment_id: u64, attempt: u32) -> (r: Option<AssessmentResult>)
    requires
        contract_running(*env),
    ensures
        match r {
            Some(res) => result_of(store(*env), student@, assessment_id, attempt) == Some(res@),
            None => result_of(store(*env), student@, assessment_id, attempt) is None,
        },
{
    let key = StorageKey::AssessmentResult(slice_to_vec(student), assessment_id, attempt).to_bytes();
    match persistent_get(env, key.as_slice()) {
        Some(bytes) => parse_result(bytes.as_slice()),
        None => None,
    }
}

/// The number of the latest recorded attempt, if any.
pub fn get_latest_attempt_number(env: &Env, student: &[u8], assessment_id: u64) -> (n: Option<u32>)
    requires
        contract_running(*env),
    ensures
        n == latest_attempt_of(store(*env), student@, assessment_id),
{
    let key = StorageKey::AssessmentLatestAttempt(slice_to_vec(student), assessment_id).to_bytes();
    match persistent_get(env, key.as_slice()) {
        Some(bytes) => parse_count(bytes.as_slice()),
        None => None,
    }
}

} // verus!
