pub mod codec;
pub mod errors;
pub mod laws;
pub mod scoring;
pub mod storage;
pub mod types;

pub use errors::AssessmentError;
pub use types::{AssessmentConfig, AssessmentResult};

use vstd::prelude::*;
use soroban_sdk::Env;

use crate::access::{AccessControl, Role, staff_check};
use crate::access::storage::role_of;
use crate::host::{auth_matched, contract_running, ledger_timestamp, may_authorize, require_auth, store, StoreView};

use self::scoring::{attempt_outcome, score_outcome};
use self::storage::{attempts_of, config_of, latest_attempt_of, result_of, with_attempt_count, with_config, with_result};
use self::types::AssessmentRecord;

verus! {

/// A result as plain values.
pub open spec fn result_view(r: Result<AssessmentResult, AssessmentError>) -> Result<AssessmentRecord, AssessmentError> {
    match r {
        Ok(res) => Ok(res@),
        Err(e) => Err(e),
    }
}

/// What `configure_assessment` does: staff may set (or replace) the
/// configuration of an assessment; anyone else is refused.
pub open spec fn configure_step(s: StoreView, caller: Seq<u8>, assessment_id: u64, config: AssessmentConfig) -> (Result<(), AssessmentError>, StoreView) {
    if staff_check(s, caller) is Ok {
        (Ok(()), with_config(s, assessment_id, config))
    } else {
        (Err(AssessmentError::Unauthorized), s)
    }
}

/// What a submission at ledger time `now` does: only a registered student
/// may submit, only to a configured assessment, only a score within the
/// maximum, and only while attempts remain. A successful submission is
/// numbered one past the attempts made so far, becomes the latest attempt,
/// and is stored with the counter.
pub open spec fn submission_step(s: StoreView, student: Seq<u8>, assessment_id: u64, score: u32, now: u64) -> (Result<AssessmentRecord, AssessmentError>, StoreView) {
    if role_of(s, student) != Some(Role::Student) {
        (Err(AssessmentError::NotEnrolled), s)
    } else {
        match config_of(s, assessment_id) {
            None => (Err(AssessmentError::AssessmentNotFound), s),
            Some(config) => match score_outcome(score, config) {
                Err(e) => (Err(e), s),
                Ok(passed) => match attempt_outcome(attempts_of(s, student, assessment_id), config.max_attempts) {
                    Err(e) => (Err(e), s),
                    Ok(attempt) => {
                        let record = AssessmentRecord {
                            student,
                            assessment_id,
                            score,
                            passed,
                            attempt,
                            submitted_at: now,
                        };
                        (
                            Ok(record),
                            with_result(
                                with_attempt_count(s, student, assessment_id, attempt),
                                student,
                                assessment_id,
                                attempt,
                                record,
                            ),
                        )
                    },
                },
            },
        }
    }
}

/// What `get_assessment_result` answers: the named attempt's result, or
/// the latest attempt's when none is named.
pub open spec fn result_lookup(s: StoreView, student: Seq<u8>, assessment_id: u64, attempt: Option<u32>) -> Result<AssessmentRecord, AssessmentError> {
    let number = match attempt {
        Some(n) => Some(n),
        None => latest_attempt_of(s, student, assessment_id),
    };
    match number {
        None => Err(AssessmentError::ResultNotFound),
        Some(n) => match result_of(s, student, assessment_id, n) {
            Some(r) => Ok(r),
            None => Err(AssessmentError::ResultNotFound),
        },
    }
}

/// Assessment submission and result operations for the LMS contract.
///
/// As with access control, students are named by the bytes of their
/// address's text form, and an operation run on behalf of an address
/// first checks, through the host, that address's authorization.
pub struct AssessmentService;

impl AssessmentService {
    /// Register or update the configuration for an assessment.
    ///
    /// Only staff (admin or instructor) may configure assessments.
    pub fn configure_assessment(env: &mut Env, caller: &[u8], assessment_id: u64, config: AssessmentConfig) -> (r: Result<(), AssessmentError>)
        requires
            contract_running(*old(env)),
            may_authorize(*old(env), caller@),
        ensures
            (r, store(*final(env))) == configure_step(store(*old(env)), caller@, assessment_id, config),
            contract_running(*final(env)),
            auth_matched(*final(env), caller@),
    {
        match AccessControl::require_staff(env, caller) {
            Err(_) => return Err(AssessmentError::Unauthorized),
            Ok(()) => {},
        }
        storage::set_config(env, assessment_id, &config);
        Ok(())
    }

    /// Submit a student's score for an assessment, stamped with the current
    /// ledger time.
    ///
    /// Requires the caller be registered with the Student role (a role
    /// check, not enrollment in a particular course), enforces the
    /// assessment's attempt limit, and persists and returns the result.
    pub fn submit_assessment(env: &mut Env, student: &[u8], assessment_id: u64, score: u32) -> (r: Result<AssessmentResult, AssessmentError>)
        requires
            contract_running(*old(env)),
            may_authorize(*old(env), student@),
        ensures
            contract_running(*final(env)),
            exists|now: u64|
                {
                    &&& result_view(r) == (#[trigger] submission_step(store(*old(env)), student@, assessment_id, score, now)).0
                    &&& store(*final(env)) == submission_step(store(*old(env)), student@, assessment_id, score, now).1
                },
            auth_matched(*final(env), student@),
    {
        let now = ledger_timestamp(env);
        Self::record_submission(env, student, assessment_id, score, now)
    }

    /// Submit a student's score for an assessment, stamped with `now`, with
    /// the student's own authorization.
    pub fn record_submission(env: &mut Env, student: &[u8], assessment_id: u64, score: u32, now: u64) -> (r: Result<AssessmentResult, AssessmentError>)
        requires
            contract_running(*old(env)),
            may_authorize(*old(env), student@),
        ensures
            result_view(r) == submission_step(store(*old(env)), student@, assessment_id, score, now).0,
            store(*final(env)) == submission_step(store(*old(env)), student@, assessment_id, score, now).1,
            contract_running(*final(env)),
            auth_matched(*final(env), student@),
    {
        require_auth(env, student);
        if !AccessControl::has_role(env, student, Role::Student) {
            return Err(AssessmentError::NotEnrolled);
        }
        let config = match storage::get_config(env, assessment_id) {
            Some(c) => c,
            None => return Err(AssessmentError::AssessmentNotFound),
        };
        let passed = match scoring::validate_score(score, &config) {
            Ok(p) => p,
            Err(e) => return Err(e),
        };
        let current_attempts = storage::get_attempt_count(env, student, assessment_id);
        let attempt = match scoring::check_attempt_limit(current_attempts, config.max_attempts) {
            Ok(a) => a,
            Err(e) => return Err(e),
        };
        let result = AssessmentResult {
            student: vstd::slice::slice_to_vec(student),
            assessment_id,
            score,
            passed,
            attempt,
            submitted_at: now,
        };
        storage::set_attempt_count(env, student, assessment_id, attempt);
        storage::set_result(env, student, assessment_id, attempt, &result);
        Ok(result)
    }

    /// Fetch a specific attempt's result, or the latest attempt if `attempt` is `None`.
    pub fn get_assessment_result(env: &Env, student: &[u8], assessment_id: u64, attempt: Option<u32>) -> (r: Result<AssessmentResult, AssessmentError>)
        requires
            contract_running(*env),
        ensures
            result_view(r) == result_lookup(store(*env), student@, assessment_id, attempt),
    {
        let attempt_number = match attempt {
            Some(n) => n,
            None => match storage::get_latest_attempt_number(env, student, assessment_id) {
                Some(n) => n,
                None => return Err(AssessmentError::ResultNotFound),
            },
        };
        match storage::get_result(env, student, assessment_id, attempt_number) {
            Some(r) => Ok(r),
            None => Err(AssessmentError::ResultNotFound),
        }
    }
}

} // verus!
