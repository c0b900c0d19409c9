//! Learning management: course progress and certification eligibility.
use vstd::prelude::*;
use crate::decimal::{Dec, decimal_div, decimal_mul, o_div, o_mul, sum_prefix};

verus! {

/// Course progress in percent: `completed / total · 100`, zero for a course
/// without lessons.
pub open spec fn progress(completed: u32, total: u32) -> Option<Dec> {
    if total == 0 {
        Some(Dec::spec_zero())
    } else {
        o_mul(
            decimal_div(Dec::spec_from_u64(completed as u64), Dec::spec_from_u64(total as u64)),
            Some(Dec::spec_new(100, 0)),
        )
    }
}

/// The progress; `None` where an operation overflows.
pub fn checked_calculate_progress(completed_lessons: u32, total_lessons: u32) -> (r: Option<Dec>)
    ensures
        r == progress(completed_lessons, total_lessons),
{
    if total_lessons == 0 {
        return Some(Dec::zero());
    }
    let c = Dec::from_u64(completed_lessons as u64);
    let t = Dec::from_u64(total_lessons as u64);
    crate::decimal::mul_opt(c.checked_div(&t), Some(Dec::new(100, 0)))
}

/// The percentage of a course's lessons that are completed; zero for a course
/// without lessons.
pub fn calculate_progress(completed_lessons: u32, total_lessons: u32) -> (r: Dec)
    requires
        progress(completed_lessons, total_lessons) is Some,
    ensures
        Some(r) == progress(completed_lessons, total_lessons),
{
    checked_calculate_progress(completed_lessons, total_lessons).unwrap()
}

/// Certification eligibility: full progress (at least 100), at least one quiz,
/// and an average quiz score (their sum over their number) of at least the
/// passing score.
pub open spec fn eligibility(progress: Dec, scores: Seq<Dec>, passing: Dec) -> Option<bool> {
    if progress.units() < Dec::spec_new(100, 0).units() {
        Some(false)
    } else if scores.len() == 0 {
        Some(false)
    } else {
        match o_div(sum_prefix(scores, scores.len()), Some(Dec::spec_from_u64(scores.len() as u64))) {
            Some(avg) => Some(passing.units() <= avg.units()),
            None => None,
        }
    }
}

/// The eligibility; `None` where an operation overflows.
pub fn checked_verify_certification_eligibility(progress: Dec, quiz_scores: &[Dec], passing_score: Dec) -> (r:
    Option<bool>)
    ensures
        r == eligibility(progress, quiz_scores@, passing_score),
{
    if progress.lt(&Dec::new(100, 0)) {
        return Some(false);
    }
    if quiz_scores.len() == 0 {
        return Some(false);
    }
    let mut total: Option<Dec> = Some(Dec::zero());
    let mut i: usize = 0;
    while i < quiz_scores.len()
        invariant
            i <= quiz_scores.len(),
            total == sum_prefix(quiz_scores@, i as nat),
        decreases quiz_scores.len() - i,
    {
        total = crate::decimal::add_opt(total, Some(quiz_scores[i]));
        i += 1;
    }
    let n = Dec::from_u64(quiz_scores.len() as u64);
    match crate::decimal::div_opt(total, Some(n)) {
        Some(avg) => Some(passing_score.le(&avg)),
        None => None,
    }
}

/// Whether a learner may be certified: the course is complete (progress of
/// at least 100), there is at least one quiz score, and the average score
/// reaches the passing score.
pub fn verify_certification_eligibility(progress: Dec, quiz_scores: &[Dec], passing_score: Dec) -> (r: bool)
    requires
        eligibility(progress, quiz_scores@, passing_score) is Some,
    ensures
        Some(r) == eligibility(progress, quiz_scores@, passing_score),
        r ==> !(progress.units() < Dec::spec_new(100, 0).units()) && quiz_scores@.len() > 0,
{
    checked_verify_certification_eligibility(progress, quiz_scores, passing_score).unwrap()
}

} // verus!
