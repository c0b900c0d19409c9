use erpnext_domain::decimal::Dec;
use erpnext_domain::learning::{calculate_progress, verify_certification_eligibility};

#[test]
fn progress_is_a_percentage() {
    assert_eq!(calculate_progress(3, 4), Dec::new(75, 0));
    assert_eq!(calculate_progress(4, 4), Dec::new(100, 0));
    assert_eq!(calculate_progress(0, 0), Dec::zero());
}

#[test]
fn certification_needs_full_progress_quizzes_and_a_passing_average() {
    let scores = [Dec::new(80, 0), Dec::new(90, 0)];
    assert!(verify_certification_eligibility(Dec::new(100, 0), &scores, Dec::new(85, 0)));
    assert!(!verify_certification_eligibility(Dec::new(100, 0), &scores, Dec::new(86, 0)));
    assert!(!verify_certification_eligibility(Dec::new(999, 1), &scores, Dec::new(10, 0)));
    assert!(!verify_certification_eligibility(Dec::new(100, 0), &[], Dec::zero()));
}
