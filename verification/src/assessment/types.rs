use vstd::prelude::*;

verus! {

/// Result of a single assessment attempt, persisted in contract storage.
#[derive(Clone, Debug, PartialEq, Eq)]
pub struct AssessmentResult {
    /// The bytes of the student's address, in its text form.
    pub student: Vec<u8>,
    pub assessment_id: u64,
    pub score: u32,
    pub passed: bool,
    pub attempt: u32,
    pub submitted_at: u64,
}

/// An assessment result as plain values.
pub struct AssessmentRecord {
    pub student: Seq<u8>,
    pub assessment_id: u64,
    pub score: u32,
    pub passed: bool,
    pub attempt: u32,
    pub submitted_at: u64,
}

impl View for AssessmentResult {
    type V = AssessmentRecord;

    open spec fn view(&self) -> AssessmentRecord {
        AssessmentRecord {
            student: self.student@,
            assessment_id: self.assessment_id,
            score: self.score,
            passed: self.passed,
            attempt: self.attempt,
            submitted_at: self.submitted_at,
        }
    }
}

/// Configuration for an assessment, set by staff before students can submit.
#[derive(Clone, Copy, Debug, PartialEq, Eq, Structural)]
pub struct AssessmentConfig {
    pub max_score: u32,
    pub passing_score: u32,
    pub max_attempts: u32,
}

} // verus!
