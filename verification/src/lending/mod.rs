//! Lending: loan amortization schedules.
pub mod amortization;
