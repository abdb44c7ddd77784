//! Laws of assessments: what a submission records and what reading back
//! gives.

use vstd::prelude::*;

use crate::access::Role;
use crate::access::storage::role_of;
use crate::access::staff_check;
use crate::host::StoreView;
use crate::storage::{
    attempt_count_key, lemma_keys_distinct, lemma_result_key_injective, result_key,
    latest_attempt_key,
};

use super::{configure_step, result_lookup, submission_step, AssessmentConfig, AssessmentError};
use super::scoring::{attempt_outcome, score_outcome};
use super::codec::lemma_codec_roundtrip;
use super::storage::{attempts_of, config_of, latest_attempt_of, result_of};

verus! {

/// A successful submission is only possible for a registered student, on a
/// configured assessment, with a score within its maximum; the attempt
/// passes exactly when the score reaches the passing score, is numbered
/// one past the attempts made before, and never exceeds the attempt limit.
pub proof fn submission_requirements(s: StoreView, student: Seq<u8>, assessment_id: u64, score: u32, now: u64)
    requires
        submission_step(s, student, assessment_id, score, now).0 is Ok,
    ensures
        ({
            let record = submission_step(s, student, assessment_id, score, now).0->Ok_0;
            let config = config_of(s, assessment_id)->Some_0;
            &&& role_of(s, student) == Some(Role::Student)
            &&& config_of(s, assessment_id) is Some
            &&& score <= config.max_score
            &&& record.passed == (score >= config.passing_score)
            &&& record.attempt == attempts_of(s, student, assessment_id) + 1
            &&& record.attempt <= config.max_attempts
            &&& record.student == student && record.assessment_id == assessment_id
            &&& record.score == score && record.submitted_at == now
        }),
{
}

/// A submission reads back: afterwards the latest result, and the result
/// under the new attempt number, are the one just recorded, and the
/// attempt counter equals that attempt number.
pub proof fn submission_reads_back(s: StoreView, student: Seq<u8>, assessment_id: u64, score: u32, now: u64)
    requires
        submission_step(s, student, assessment_id, score, now).0 is Ok,
    ensures
        ({
            let (r, t) = submission_step(s, student, assessment_id, score, now);
            let record = r->Ok_0;
            &&& result_lookup(t, student, assessment_id, None) == Ok::<_, super::AssessmentError>(record)
            &&& result_lookup(t, student, assessment_id, Some(record.attempt)) == Ok::<_, super::AssessmentError>(record)
            &&& attempts_of(t, student, assessment_id) == record.attempt
        }),
{
    lemma_codec_roundtrip();
    lemma_keys_distinct();
    let (r, t) = submission_step(s, student, assessment_id, score, now);
    let a = r->Ok_0.attempt;
    assert(attempt_count_key(student, assessment_id)[0] == 3u8);
    assert(result_key(student, assessment_id, a)[0] == 4u8);
    assert(latest_attempt_key(student, assessment_id)[0] == 5u8);
}

/// A submission keeps every other stored result: only the result of the
/// new attempt of that student at that assessment is written.
pub proof fn earlier_results_are_kept(
    s: StoreView,
    student: Seq<u8>,
    assessment_id: u64,
    score: u32,
    now: u64,
    other: Seq<u8>,
    other_id: u64,
    attempt: u32,
)
    requires
        submission_step(s, student, assessment_id, score, now).0 is Ok,
        !(other == student && other_id == assessment_id
            && attempt == submission_step(s, student, assessment_id, score, now).0->Ok_0.attempt),
    ensures
        result_of(submission_step(s, student, assessment_id, score, now).1, other, other_id, attempt)
            == result_of(s, other, other_id, attempt),
{
    lemma_keys_distinct();
    let (r, t) = submission_step(s, student, assessment_id, score, now);
    let a = r->Ok_0.attempt;
    let k = result_key(other, other_id, attempt);
    assert(k[0] == 4u8);
    assert(attempt_count_key(student, assessment_id)[0] == 3u8);
    assert(latest_attempt_key(student, assessment_id)[0] == 5u8);
    if result_key(student, assessment_id, a) == k {
        lemma_result_key_injective(student, assessment_id, a, other, other_id, attempt);
    }
}

/// Only staff can configure an assessment; once configured, the
/// configuration reads back.
pub proof fn configuration_by_staff_reads_back(s: StoreView, caller: Seq<u8>, assessment_id: u64, config: AssessmentConfig)
    ensures
        configure_step(s, caller, assessment_id, config).0 is Ok <==> staff_check(s, caller) is Ok,
        configure_step(s, caller, assessment_id, config).0 is Ok ==> config_of(
            configure_step(s, caller, assessment_id, config).1,
            assessment_id,
        ) == Some(config),
{
    lemma_codec_roundtrip();
}

/// A score is refused only when it exceeds the maximum; every score up to
/// the maximum is accepted, and it passes exactly when it reaches the
/// passing score. Passing is monotone: a higher valid score never fails
/// where a lower one passed.
pub proof fn scores_are_judged_by_the_thresholds(score: u32, other: u32, config: AssessmentConfig)
    ensures
        score_outcome(score, config) is Err <==> score > config.max_score,
        score_outcome(score, config) is Err ==> score_outcome(score, config) == Err::<bool, AssessmentError>(AssessmentError::InvalidScore),
        score <= config.max_score ==> score_outcome(score, config) == Ok::<bool, AssessmentError>(score >= config.passing_score),
        score <= other <= config.max_score && score_outcome(score, config) == Ok::<bool, AssessmentError>(true)
            ==> score_outcome(other, config) == Ok::<bool, AssessmentError>(true),
{
}

/// Attempts are refused only once all allowed attempts are used; while
/// one remains, the next attempt is numbered one past those made.
pub proof fn attempts_are_refused_only_at_the_limit(current: u32, max: u32)
    ensures
        attempt_outcome(current, max) is Err <==> current >= max,
        attempt_outcome(current, max) is Err ==> attempt_outcome(current, max) == Err::<u32, AssessmentError>(AssessmentError::AttemptLimitExceeded),
        current < max ==> attempt_outcome(current, max) == Ok::<u32, AssessmentError>((current + 1) as u32),
{
}

/// A submission succeeds whenever nothing forbids it: a registered
/// student, a configured assessment, a score within its maximum and an
/// attempt left. The result is then the next attempt, with the given score
/// and time, passed exactly when the score reaches the passing score.
pub proof fn allowed_submissions_succeed(s: StoreView, student: Seq<u8>, assessment_id: u64, score: u32, now: u64)
    requires
        role_of(s, student) == Some(Role::Student),
        config_of(s, assessment_id) is Some,
        score <= config_of(s, assessment_id)->Some_0.max_score,
        attempts_of(s, student, assessment_id) < config_of(s, assessment_id)->Some_0.max_attempts,
    ensures
        ({
            let config = config_of(s, assessment_id)->Some_0;
            let r = submission_step(s, student, assessment_id, score, now).0;
            &&& r is Ok
            &&& r->Ok_0.attempt == attempts_of(s, student, assessment_id) + 1
            &&& r->Ok_0.score == score
            &&& r->Ok_0.passed == (score >= config.passing_score)
            &&& r->Ok_0.submitted_at == now
            &&& r->Ok_0.student == student
            &&& r->Ok_0.assessment_id == assessment_id
        }),
{
}

/// Looking up a named attempt gives exactly the result stored under that
/// attempt number, or `ResultNotFound` when none is; looking up without a
/// number gives the one stored under the latest attempt.
pub proof fn lookups_read_the_named_attempt(s: StoreView, student: Seq<u8>, assessment_id: u64, n: u32)
    ensures
        result_lookup(s, student, assessment_id, Some(n)) == match result_of(s, student, assessment_id, n) {
            Some(r) => Ok::<_, AssessmentError>(r),
            None => Err(AssessmentError::ResultNotFound),
        },
        latest_attempt_of(s, student, assessment_id) == Some(n)
            ==> result_lookup(s, student, assessment_id, None) == result_lookup(s, student, assessment_id, Some(n)),
{
}

/// A submission changes the lookup of its own new attempt only: asking for
/// any other attempt number, of any student at any assessment, gives the
/// same answer before and after it, and asking for the new attempt gives
/// the recorded result.
pub proof fn submissions_leave_other_lookups_alone(
    s: StoreView,
    student: Seq<u8>,
    assessment_id: u64,
    score: u32,
    now: u64,
    other: Seq<u8>,
    other_id: u64,
    n: u32,
)
    requires
        submission_step(s, student, assessment_id, score, now).0 is Ok,
    ensures
        ({
            let (r, t) = submission_step(s, student, assessment_id, score, now);
            &&& !(other == student && other_id == assessment_id && n == r->Ok_0.attempt)
                ==> result_lookup(t, other, other_id, Some(n)) == result_lookup(s, other, other_id, Some(n))
            &&& result_lookup(t, student, assessment_id, Some(r->Ok_0.attempt)) == Ok::<_, AssessmentError>(r->Ok_0)
        }),
{
    let (r, t) = submission_step(s, student, assessment_id, score, now);
    submission_reads_back(s, student, assessment_id, score, now);
    if !(other == student && other_id == assessment_id && n == r->Ok_0.attempt) {
        earlier_results_are_kept(s, student, assessment_id, score, now, other, other_id, n);
    }
}

} // verus!
