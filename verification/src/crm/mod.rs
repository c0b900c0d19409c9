//! Customer relationship management: lead scoring and the sales pipeline.
pub mod lead_scoring;
pub mod pipeline;
