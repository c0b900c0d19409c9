//! Human resources: payroll and attendance.
pub mod attendance;
pub mod payroll;
use vstd::prelude::*;

verus! {

/// Errors of HR records.
#[derive(Debug, Clone)]
pub enum HrError {
    /// A record failed validation, with the reason.
    Validation(String),
}

} // verus!
