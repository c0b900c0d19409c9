use erpnext_domain::decimal::Dec;
use erpnext_domain::lending::amortization::{calculate_amortization, checked_calculate_amortization, InterestMethod};

#[test]
fn test_emi_amortization() {
    let principal = Dec::new(10000, 0);
    let annual_rate = Dec::new(12, 2);
    let periods = 12;

    let schedule = calculate_amortization(principal, annual_rate, periods, InterestMethod::EMI);

    assert_eq!(schedule.len(), 12);
    assert_eq!(schedule[11].closing_balance, Dec::zero());

    let first_payment = schedule[0].total_payment;
    for row in &schedule[..11] {
        assert_eq!(row.total_payment, first_payment);
    }
}

#[test]
fn test_reducing_balance_amortization() {
    let principal = Dec::new(12000, 0);
    let annual_rate = Dec::new(12, 2);
    let periods = 12;

    let schedule = calculate_amortization(principal, annual_rate, periods, InterestMethod::ReducingBalance);

    assert_eq!(schedule.len(), 12);
    for row in &schedule {
        assert_eq!(row.principal_payment, Dec::new(1000, 0));
    }
    assert_eq!(schedule[11].closing_balance, Dec::zero());
    assert!(schedule[1].total_payment.is_less_than(&schedule[0].total_payment));
    assert!(schedule[11].total_payment.is_less_than(&schedule[10].total_payment));
}

#[test]
fn schedules_are_continuous_and_numbered() {
    let schedule = calculate_amortization(Dec::new(5000, 0), Dec::new(6, 2), 7, InterestMethod::EMI);
    assert_eq!(schedule.len(), 7);
    assert_eq!(schedule[0].opening_balance, Dec::new(5000, 0));
    for (k, row) in schedule.iter().enumerate() {
        assert_eq!(row.period as usize, k + 1);
    }
    for k in 0..6 {
        assert_eq!(schedule[k].closing_balance, schedule[k + 1].opening_balance);
    }
    assert_eq!(schedule[6].principal_payment, schedule[6].opening_balance);
}

#[test]
fn zero_rate_emi_divides_the_principal() {
    let schedule = calculate_amortization(Dec::new(1200, 0), Dec::zero(), 4, InterestMethod::EMI);
    assert_eq!(schedule[0].total_payment, Dec::new(300, 0));
    assert_eq!(schedule[0].interest_payment, Dec::zero());
    assert_eq!(schedule[3].closing_balance, Dec::zero());
}

#[test]
fn no_periods_no_rows() {
    assert_eq!(checked_calculate_amortization(Dec::new(100, 0), Dec::new(1, 1), 0, InterestMethod::EMI).unwrap().len(), 0);
}

#[test]
fn reducing_balance_pays_back_exactly_the_principal() {
    let principal = Dec::new(100000, 2);
    let schedule = calculate_amortization(principal, Dec::new(12, 2), 3, InterestMethod::ReducingBalance);
    assert_eq!(schedule.len(), 3);
    assert_eq!(schedule[0].principal_payment, Dec::new(33333, 2));
    assert_eq!(schedule[1].principal_payment, Dec::new(33333, 2));
    assert_eq!(schedule[2].principal_payment, Dec::new(33334, 2));
    let paid = schedule
        .iter()
        .map(|r| {
            let (lo, mid, hi, neg, scale) = r.principal_payment.parts();
            rust_decimal::Decimal::from_parts(lo, mid, hi, neg, scale)
        })
        .fold(rust_decimal::Decimal::ZERO, |a, b| a + b);
    assert_eq!(paid, rust_decimal::Decimal::new(100000, 2));
}
