use vstd::prelude::*;

verus! {

/// Errors produced by the LMS assessment module.
#[derive(Clone, Copy, Debug, PartialEq, Eq, Structural)]
pub enum AssessmentError {
    /// Caller is not a registered student (and so cannot submit).
    NotEnrolled,
    /// No configuration exists yet for this assessment_id.
    AssessmentNotFound,
    /// Student has already used all allowed attempts.
    AttemptLimitExceeded,
    /// Submitted score exceeds the assessment's max_score.
    InvalidScore,
    /// No result exists yet for this student/assessment(/attempt).
    ResultNotFound,
    /// Caller lacks the staff privileges required to configure an assessment.
    Unauthorized,
}

} // verus!
