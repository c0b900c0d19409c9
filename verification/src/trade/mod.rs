//! Trade: customer pricing rules and taxation templates.
pub mod pricing_rules;
pub mod tax_templates;
