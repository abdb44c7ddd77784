use lms::assessment::scoring::{check_attempt_limit, validate_score};
use lms::{AssessmentConfig, AssessmentError};

fn config() -> AssessmentConfig {
    AssessmentConfig {
        max_score: 100,
        passing_score: 70,
        max_attempts: 2,
    }
}

#[test]
fn score_at_or_above_passing_score_passes() {
    assert_eq!(validate_score(70, &config()), Ok(true));
    assert_eq!(validate_score(100, &config()), Ok(true));
}

#[test]
fn score_below_passing_score_fails() {
    assert_eq!(validate_score(69, &config()), Ok(false));
}

#[test]
fn scoring_score_above_max_is_rejected() {
    assert_eq!(
        validate_score(101, &config()),
        Err(AssessmentError::InvalidScore)
    );
}

#[test]
fn attempt_within_limit_is_allowed() {
    assert_eq!(check_attempt_limit(0, 2), Ok(1));
    assert_eq!(check_attempt_limit(1, 2), Ok(2));
}

#[test]
fn attempt_at_limit_is_rejected() {
    assert_eq!(
        check_attempt_limit(2, 2),
        Err(AssessmentError::AttemptLimitExceeded)
    );
}
