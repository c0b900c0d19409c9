use erpnext_domain::crm::lead_scoring::{calculate_lead_score, checked_lead_score_logit, Lead, LeadDemographics, ScoringWeights};
use erpnext_domain::crm::pipeline::{PipelineState, PipelineStatus};
use erpnext_domain::decimal::Dec;

#[test]
fn test_legacy_lead_scoring() {
    let lead = Lead {
        id: "L-1".to_string(),
        profile_completeness: Dec::new(8, 1),
        engagement_score: Dec::new(6, 1),
        fit_score: Dec::new(9, 1),
    };
    // (0.8 * 2 + 0.6 * 3 + 0.9 * 5) / 10 = 0.79
    let score = calculate_lead_score(&lead, Dec::new(2, 0), Dec::new(3, 0), Dec::new(5, 0));
    assert_eq!(score, Dec::new(79, 2));
}

#[test]
fn zero_weights_score_zero() {
    let lead = Lead { id: "L".to_string(), profile_completeness: Dec::new(1, 0), engagement_score: Dec::new(1, 0), fit_score: Dec::new(1, 0) };
    assert_eq!(calculate_lead_score(&lead, Dec::zero(), Dec::zero(), Dec::zero()), Dec::zero());
}

fn to_f64(d: Dec) -> f64 {
    d.to_text().parse::<f64>().unwrap()
}

#[test]
fn test_logistic_regression_scoring() {
    let demographics = LeadDemographics {
        age: Dec::new(35, 0),
        annual_revenue: Dec::new(150000, 0),
        email_opened_ratio: Dec::new(85, 2),
        web_visits_count: Dec::new(12, 0),
        country_score: Dec::new(10, 1),
        industry_score: Dec::new(90, 2),
    };
    let weights = ScoringWeights {
        age_weight: Dec::new(1, 2),
        revenue_weight: Dec::new(1, 5),
        email_ratio_weight: Dec::new(15, 1),
        web_visits_weight: Dec::new(1, 1),
        country_weight: Dec::new(5, 1),
        industry_weight: Dec::new(4, 1),
        bias: Dec::new(-5185, 3),
    };
    // The weighted sum is 5.185, offset by the bias to exactly 0.
    let z = checked_lead_score_logit(&demographics, &weights).unwrap();
    assert_eq!(z, Dec::zero());
    // The conversion probability 1 / (1 + e^-z) is then 0.5.
    let prob = 1.0 / (1.0 + (-to_f64(z)).exp());
    assert_eq!(format!("{:.4}", prob), "0.5000");
}

#[test]
fn pipeline_moves_forward_or_is_lost() {
    let mut status = PipelineStatus { current_state: PipelineState::Lead };
    assert!(status.transition(PipelineState::Qualified).is_ok());
    assert!(status.transition(PipelineState::ProposalSent).is_ok());
    assert_eq!(status.transition(PipelineState::ClosedWon), Err("Invalid pipeline transition"));
    assert_eq!(status.current_state, PipelineState::ProposalSent);
    assert!(status.transition(PipelineState::Negotiation).is_ok());
    assert!(status.transition(PipelineState::ClosedWon).is_ok());
    assert!(status.transition(PipelineState::Lead).is_err());
    assert!(status.transition(PipelineState::ClosedLost).is_ok());
    assert_eq!(status.current_state, PipelineState::ClosedLost);
    assert!(status.transition(PipelineState::ClosedLost).is_ok());
}
