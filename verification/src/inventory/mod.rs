//! Inventory: the stock ledger with FIFO and moving average valuation, the
//! backdated valuation correction engine, and stock transfers.
use vstd::prelude::*;

pub mod stock_ledger;
pub mod fifo_valuation;
pub mod transfers;

verus! {

/// What can go wrong with a stock movement.
#[derive(Clone, Debug, PartialEq, Eq)]
pub enum StockError {
    /// Insufficient stock quantity.
    InsufficientStock,
    /// Database error.
    Database(String),
}

} // verus!
