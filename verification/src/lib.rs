//! Domain logic of an ERP system: ledgers, inventory valuation, manufacturing
//! costs, payroll, lending, trade pricing and taxes, CRM pipelines, learning
//! progress and support SLAs.
pub mod accounting;
pub mod chars;
pub mod crm;
pub mod decimal;
pub mod text;
pub mod time;
pub mod maps;
pub mod sorting;
pub mod support;
pub mod trade;
pub mod lending;
pub mod hr;
pub mod ids;
pub mod inventory;
pub mod learning;
pub mod manufacturing;
