//! Customer support: SLA tracking of tickets and intake of tickets by email.
pub mod email;
pub mod intake;
pub mod sla;
