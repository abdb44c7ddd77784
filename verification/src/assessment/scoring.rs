use vstd::prelude::*;

use super::errors::AssessmentError;
use super::types::AssessmentConfig;

verus! {

/// What `validate_score` decides: a score above the maximum is invalid;
/// otherwise the attempt passes exactly when it reaches the passing score.
pub open spec fn score_outcome(score: u32, config: AssessmentConfig) -> Result<bool, AssessmentError> {
    if score > config.max_score {
        Err(AssessmentError::InvalidScore)
    } else {
        Ok(score >= config.passing_score)
    }
}

/// What `check_attempt_limit` decides: once all allowed attempts are used
/// the limit is exceeded; otherwise the next attempt is numbered one past
/// the attempts made so far.
pub open spec fn attempt_outcome(current_attempts: u32, max_attempts: u32) -> Result<u32, AssessmentError> {
    if current_attempts >= max_attempts {
        Err(AssessmentError::AttemptLimitExceeded)
    } else {
        Ok((current_attempts + 1) as u32)
    }
}

/// Validates a submitted score against the assessment's configured max,
/// returning whether it meets the passing threshold.
pub fn validate_score(score: u32, config: &AssessmentConfig) -> (r: Result<bool, AssessmentError>)
    ensures
        r == score_outcome(score, *config),
{
    if score > config.max_score {
        return Err(AssessmentError::InvalidScore);
    }
    Ok(score >= config.passing_score)
}

/// Checks the student has attempts remaining and returns the attempt
/// number to record if so.
pub fn check_attempt_limit(current_attempts: u32, max_attempts: u32) -> (r: Result<u32, AssessmentError>)
    ensures
        r == attempt_outcome(current_attempts, max_attempts),
{
    if current_attempts >= max_attempts {
        return Err(AssessmentError::AttemptLimitExceeded);
    }
    Ok(current_attempts + 1)
}

} // verus!
