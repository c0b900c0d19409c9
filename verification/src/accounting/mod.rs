//! Accounting: double-entry posting to the general ledger and balance sheet
//! roll-ups over the chart of accounts.
pub mod balance_sheet;
pub mod posting;
pub mod record;
use vstd::prelude::*;
use crate::decimal::Dec;

verus! {

/// Errors of ledger posting and reporting.
#[derive(Debug, Clone)]
pub enum LedgerError {
    /// Debits and credits differ by this amount (debits minus credits).
    UnbalancedEntry(Dec),
    /// The database failed, with its message.
    Database(String),
}

} // verus!
