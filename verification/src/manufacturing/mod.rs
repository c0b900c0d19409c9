//! Manufacturing: bill-of-materials costing and material requirements planning.
pub mod bom;
pub mod mrp;
use vstd::prelude::*;

verus! {

/// Errors of manufacturing planning.
#[derive(Debug, Clone, PartialEq, Eq)]
pub enum ManufacturingError {
    /// A store of BOM data failed.
    Database(String),
    /// A bill of materials refers to itself.
    CyclicDependency,
}

} // verus!
