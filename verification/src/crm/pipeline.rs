//! The sales pipeline as a state machine.
use vstd::prelude::*;

verus! {

/// The stages of a deal.
#[derive(Clone, Copy, Debug, PartialEq, Eq, Structural)]
pub enum PipelineState {
    Lead,
    Qualified,
    ProposalSent,
    Negotiation,
    ClosedWon,
    ClosedLost,
}

/// The stage a deal is in.
#[derive(Clone, Copy, Debug)]
pub struct PipelineStatus {
    pub current_state: PipelineState,
}

/// The moves the pipeline allows: one stage forward from lead to
/// negotiation, from negotiation to won, and from any stage to lost.
pub open spec fn allowed(from: PipelineState, to: PipelineState) -> bool {
    match (from, to) {
        (PipelineState::Lead, PipelineState::Qualified) => true,
        (PipelineState::Qualified, PipelineState::ProposalSent) => true,
        (PipelineState::ProposalSent, PipelineState::Negotiation) => true,
        (PipelineState::Negotiation, PipelineState::ClosedWon) => true,
        (_, PipelineState::ClosedLost) => true,
        _ => false,
    }
}

/// The position of a stage on the way to a won deal; lost is off that way.
pub open spec fn rank(s: PipelineState) -> int {
    match s {
        PipelineState::Lead => 0,
        PipelineState::Qualified => 1,
        PipelineState::ProposalSent => 2,
        PipelineState::Negotiation => 3,
        PipelineState::ClosedWon => 4,
        PipelineState::ClosedLost => -1,
    }
}

impl PipelineStatus {
    /// Moves the deal to `next_state` where the pipeline allows it; otherwise
    /// the stage stays and the error says the move is invalid.
    pub fn transition(&mut self, next_state: PipelineState) -> (r: Result<(), &'static str>)
        ensures
            r is Ok <==> allowed(old(self).current_state, next_state),
            r is Ok ==> final(self).current_state == next_state,
            r is Err ==> *final(self) == *old(self),
            r matches Err(m) ==> m@ == "Invalid pipeline transition"@,
    {
        match (self.current_state, next_state) {
            (PipelineState::Lead, PipelineState::Qualified)
            | (PipelineState::Qualified, PipelineState::ProposalSent)
            | (PipelineState::ProposalSent, PipelineState::Negotiation)
            | (PipelineState::Negotiation, PipelineState::ClosedWon)
            | (_, PipelineState::ClosedLost) => {
                self.current_state = next_state;
                Ok(())
            },
            _ => Err("Invalid pipeline transition"),
        }
    }
}

/// A deal moves forward one stage at a time, or is lost: every allowed move
/// either goes to lost or raises the rank by exactly one.
pub proof fn lemma_moves_forward_one_stage(from: PipelineState, to: PipelineState)
    requires
        allowed(from, to),
    ensures
        to == PipelineState::ClosedLost || (rank(from) >= 0 && rank(to) == rank(from) + 1),
{
}

/// A deal can be lost from every stage.
pub proof fn lemma_always_losable(from: PipelineState)
    ensures
        allowed(from, PipelineState::ClosedLost),
{
}

/// A deal is won only from negotiation, and nothing leaves a won deal but
/// losing it.
pub proof fn lemma_won_only_from_negotiation(from: PipelineState, to: PipelineState)
    requires
        allowed(from, to),
    ensures
        to == PipelineState::ClosedWon ==> from == PipelineState::Negotiation,
        from == PipelineState::ClosedWon ==> to == PipelineState::ClosedLost,
        from == PipelineState::ClosedLost ==> to == PipelineState::ClosedLost,
{
}

/// No stage moves to itself except lost.
pub proof fn lemma_no_self_loops(s: PipelineState)
    ensures
        allowed(s, s) <==> s == PipelineState::ClosedLost,
{
}

} // verus!
