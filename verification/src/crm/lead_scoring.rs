//! Lead scoring: a weighted average of a lead's ratings, and the linear part
//! of a logistic regression model.
use vstd::prelude::*;
use crate::decimal::{Dec, decimal_add, decimal_div, decimal_mul, o_add, o_div};

verus! {

/// A lead and its ratings.
#[derive(Clone, Debug)]
pub struct Lead {
    pub id: String,
    pub profile_completeness: Dec,
    pub engagement_score: Dec,
    pub fit_score: Dec,
}

/// The features of a lead for the regression model.
#[derive(Clone, Copy, Debug)]
pub struct LeadDemographics {
    pub age: Dec,
    pub annual_revenue: Dec,
    pub email_opened_ratio: Dec,
    pub web_visits_count: Dec,
    pub country_score: Dec,
    pub industry_score: Dec,
}

/// The weights and bias of the regression model.
#[derive(Clone, Copy, Debug)]
pub struct ScoringWeights {
    pub age_weight: Dec,
    pub revenue_weight: Dec,
    pub email_ratio_weight: Dec,
    pub web_visits_weight: Dec,
    pub country_weight: Dec,
    pub industry_weight: Dec,
    pub bias: Dec,
}

/// `a + b * c` where `a` is present.
pub open spec fn add_product(a: Option<Dec>, b: Dec, c: Dec) -> Option<Dec> {
    o_add(a, decimal_mul(b, c))
}

/// The weighted average of a lead's ratings:
/// `(p·wp + e·we + f·wf) / (wp + we + wf)`, zero where the weights sum to zero.
pub open spec fn lead_score(lead: Lead, wp: Dec, we: Dec, wf: Dec) -> Option<Dec> {
    let score = add_product(
        add_product(decimal_mul(lead.profile_completeness, wp), lead.engagement_score, we),
        lead.fit_score,
        wf,
    );
    let total = o_add(decimal_add(wp, we), Some(wf));
    match (score, total) {
        (Some(s), Some(t)) => if t.is_zero_value() {
            Some(Dec::spec_zero())
        } else {
            decimal_div(s, t)
        },
        _ => None,
    }
}

/// The lead score; `None` where an operation overflows.
pub fn checked_calculate_lead_score(lead: &Lead, profile_weight: Dec, engagement_weight: Dec, fit_weight: Dec) -> (r:
    Option<Dec>)
    ensures
        r == lead_score(*lead, profile_weight, engagement_weight, fit_weight),
{
    let p = lead.profile_completeness.checked_mul(&profile_weight);
    let e = lead.engagement_score.checked_mul(&engagement_weight);
    let f = lead.fit_score.checked_mul(&fit_weight);
    let score = crate::decimal::add_opt(crate::decimal::add_opt(p, e), f);
    let total = crate::decimal::add_opt(profile_weight.checked_add(&engagement_weight), Some(fit_weight));
    match (score, total) {
        (Some(s), Some(t)) => {
            if t.is_zero() {
                Some(Dec::zero())
            } else {
                s.checked_div(&t)
            }
        },
        _ => None,
    }
}

/// A lead's weighted average rating: each rating times its weight, summed,
/// over the sum of the weights; zero where the weights sum to zero.
pub fn calculate_lead_score(lead: &Lead, profile_weight: Dec, engagement_weight: Dec, fit_weight: Dec) -> (r: Dec)
    requires
        lead_score(*lead, profile_weight, engagement_weight, fit_weight) is Some,
    ensures
        Some(r) == lead_score(*lead, profile_weight, engagement_weight, fit_weight),
{
    checked_calculate_lead_score(lead, profile_weight, engagement_weight, fit_weight).unwrap()
}

/// The linear part of the regression model:
/// `z = Σ weight_i · feature_i + bias`, added from the left.
pub open spec fn lead_logit(d: LeadDemographics, w: ScoringWeights) -> Option<Dec> {
    o_add(
        add_product(
            add_product(
                add_product(
                    add_product(add_product(decimal_mul(d.age, w.age_weight), d.annual_revenue, w.revenue_weight), d.email_opened_ratio, w.email_ratio_weight),
                    d.web_visits_count,
                    w.web_visits_weight,
                ),
                d.country_score,
                w.country_weight,
            ),
            d.industry_score,
            w.industry_weight,
        ),
        Some(w.bias),
    )
}

/// The linear part `z` of the conversion model; `None` where an operation
/// overflows.  The conversion probability is `1 / (1 + e^-z)`.
pub fn checked_lead_score_logit(demographics: &LeadDemographics, weights: &ScoringWeights) -> (r: Option<Dec>)
    ensures
        r == lead_logit(*demographics, *weights),
{
    let d = demographics;
    let w = weights;
    let z = d.age.checked_mul(&w.age_weight);
    let z = crate::decimal::add_opt(z, d.annual_revenue.checked_mul(&w.revenue_weight));
    let z = crate::decimal::add_opt(z, d.email_opened_ratio.checked_mul(&w.email_ratio_weight));
    let z = crate::decimal::add_opt(z, d.web_visits_count.checked_mul(&w.web_visits_weight));
    let z = crate::decimal::add_opt(z, d.country_score.checked_mul(&w.country_weight));
    let z = crate::decimal::add_opt(z, d.industry_score.checked_mul(&w.industry_weight));
    crate::decimal::add_opt(z, Some(w.bias))
}

} // verus!
