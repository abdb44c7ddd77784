use vstd::prelude::*;

verus! {

/// Errors produced by the LMS progress module.
#[derive(Clone, Copy, Debug, PartialEq, Eq, Structural)]
pub enum ProgressError {
    /// No course is registered under the given identifier.
    CourseNotFound,
    /// A course is already registered under the given identifier.
    CourseAlreadyExists,
    /// The lesson index falls outside the course's lesson range.
    ///
    /// Lessons are zero-indexed, so a course with `total_lessons = 5`
    /// accepts indexes `0..=4`. Rejecting out-of-range indexes is what
    /// keeps completed lesson counts from exceeding the course length.
    LessonOutOfRange,
    /// The lesson has already been recorded as completed for this student.
    LessonAlreadyCompleted,
}

} // verus!
