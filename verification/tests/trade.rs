use chrono::TimeZone;
use erpnext_domain::decimal::Dec;
use erpnext_domain::maps::DecimalMap;
use erpnext_domain::time::Timestamp;
use erpnext_domain::trade::pricing_rules::{evaluate_pricing_rules, LineItem, PricingRule};
use erpnext_domain::trade::tax_templates::{
    calculate_document_totals, CurrencyContext, TaxChargeType, TaxRowTemplate,
};

fn at(y: i32, mo: u32, d: u32, h: u32) -> Timestamp {
    let t = chrono::Utc.with_ymd_and_hms(y, mo, d, h, 0, 0).unwrap();
    Timestamp::new(t.timestamp(), t.timestamp_subsec_nanos())
}

fn rule(id: &str) -> PricingRule {
    PricingRule {
        id: id.to_string(),
        item_code: None,
        item_group: None,
        customer_class: None,
        min_qty: Dec::new(1, 0),
        max_qty: None,
        valid_from: None,
        valid_upto: None,
        discount_percentage: Dec::zero(),
        discount_amount: Dec::zero(),
    }
}

#[test]
fn test_pricing_rule_evaluation() {
    let item = LineItem {
        id: "laptop_01".to_string(),
        item_group: "Electronics".to_string(),
        qty: Dec::new(5, 0),
        base_rate: Dec::new(1000, 0),
    };
    let mut rule1 = rule("rule_1");
    rule1.item_group = Some("Electronics".to_string());
    rule1.min_qty = Dec::new(2, 0);
    rule1.max_qty = Some(Dec::new(10, 0));
    rule1.discount_percentage = Dec::new(10, 0);

    let mut rule2 = rule("rule_2");
    rule2.customer_class = Some("VIP".to_string());
    rule2.discount_amount = Dec::new(50, 0);

    let expired_time = at(2020, 1, 1, 0);
    let mut rule3 = rule("rule_3");
    rule3.valid_from = Some(expired_time);
    rule3.valid_upto = Some(expired_time);
    rule3.discount_percentage = Dec::new(50, 0);

    let tx_time = at(2026, 6, 10, 12);
    let rules = vec![rule1, rule2, rule3];

    // 1000, less 10% is 900, less 50 is 850; the expired rule is ignored.
    let final_rate = evaluate_pricing_rules(&item, Some("VIP"), Some(tx_time), &rules);
    assert_eq!(final_rate, Dec::new(850, 0));
}

#[test]
fn negative_rates_become_zero() {
    let item = LineItem { id: "x".to_string(), item_group: "g".to_string(), qty: Dec::new(1, 0), base_rate: Dec::new(30, 0) };
    let mut r = rule("big");
    r.discount_amount = Dec::new(50, 0);
    assert_eq!(evaluate_pricing_rules(&item, None, None, &[r]), Dec::zero());
}

#[test]
fn inapplicable_rules_leave_the_base_rate() {
    let item = LineItem { id: "x".to_string(), item_group: "g".to_string(), qty: Dec::new(1, 0), base_rate: Dec::new(30, 0) };
    let mut r1 = rule("other_item");
    r1.item_code = Some("y".to_string());
    r1.discount_percentage = Dec::new(10, 0);
    let mut r2 = rule("too_few");
    r2.min_qty = Dec::new(5, 0);
    r2.discount_amount = Dec::new(1, 0);
    let mut r3 = rule("class");
    r3.customer_class = Some("VIP".to_string());
    r3.discount_amount = Dec::new(1, 0);
    assert_eq!(evaluate_pricing_rules(&item, None, None, &[r1, r2, r3]), Dec::new(30, 0));
}

#[test]
fn test_compound_and_item_wise_taxes() {
    let item1 = LineItem { id: "item_a".to_string(), item_group: "GroupA".to_string(), qty: Dec::new(2, 0), base_rate: Dec::new(100, 0) };
    let item2 = LineItem { id: "item_b".to_string(), item_group: "GroupB".to_string(), qty: Dec::new(1, 0), base_rate: Dec::new(50, 0) };

    let mut item_rates = DecimalMap::new();
    item_rates.insert("item_a".to_string(), Dec::new(5, 0));
    let tax1 = TaxRowTemplate {
        title: "GST".to_string(),
        charge_type: TaxChargeType::OnNetTotal,
        rate_percentage: Dec::new(10, 0),
        compound: true,
        item_wise_rates: item_rates,
    };
    let tax2 = TaxRowTemplate {
        title: "Service Tax".to_string(),
        charge_type: TaxChargeType::OnNetTotal,
        rate_percentage: Dec::new(2, 0),
        compound: false,
        item_wise_rates: DecimalMap::new(),
    };
    let currency_ctx = CurrencyContext {
        transaction_currency: "USD".to_string(),
        company_currency: "EUR".to_string(),
        exchange_rate: Dec::new(9, 1),
    };

    let totals = calculate_document_totals(&[item1, item2], &[tax1, tax2], &[], &currency_ctx, None, None);

    assert_eq!(totals.net_total, Dec::new(250, 0));
    assert_eq!(totals.taxes[0].tax_amount, Dec::new(15, 0));
    assert_eq!(totals.taxes[1].tax_amount, Dec::new(530, 2));
    assert_eq!(totals.total_taxes, Dec::new(2030, 2));
    assert_eq!(totals.grand_total, Dec::new(27030, 2));
    assert_eq!(totals.base_grand_total, Dec::new(24327, 2));
}

#[test]
fn actual_and_previous_row_taxes() {
    let item = LineItem { id: "i".to_string(), item_group: "g".to_string(), qty: Dec::new(1, 0), base_rate: Dec::new(100, 0) };
    let shipping = TaxRowTemplate {
        title: "Shipping".to_string(),
        charge_type: TaxChargeType::Actual,
        rate_percentage: Dec::new(20, 0),
        compound: false,
        item_wise_rates: DecimalMap::new(),
    };
    let surcharge = TaxRowTemplate {
        title: "Surcharge".to_string(),
        charge_type: TaxChargeType::OnPreviousRowAmount,
        rate_percentage: Dec::new(50, 0),
        compound: false,
        item_wise_rates: DecimalMap::new(),
    };
    let ctx = CurrencyContext { transaction_currency: "USD".to_string(), company_currency: "USD".to_string(), exchange_rate: Dec::new(1, 0) };
    let totals = calculate_document_totals(&[item], &[shipping, surcharge], &[], &ctx, None, None);
    assert_eq!(totals.taxes.len(), 2);
    assert_eq!(totals.taxes[0].title, "Shipping");
    assert_eq!(totals.taxes[1].tax_amount, Dec::new(10, 0));
    assert_eq!(totals.grand_total, Dec::new(130, 0));
}
