use erpnext_domain::accounting::record::RecordRef;
use erpnext_domain::accounting::LedgerError;
use erpnext_domain::decimal::Dec;
use erpnext_domain::hr::attendance::{checked_distance_meters, is_within_location, BiometricLog};
use erpnext_domain::hr::payroll::{
    calculate_progressive_tax, checked_assemble_salary_slip, checked_gross_pay, post_payroll_batch, PayrollError,
    SalarySlipResult, TaxSlab,
};
use erpnext_domain::maps::DecimalMap;
use erpnext_domain::time::Timestamp;

fn slabs() -> Vec<TaxSlab> {
    vec![
        TaxSlab {
            min_amount: Dec::new(1000000, 2),
            max_amount: Some(Dec::new(2000000, 2)),
            rate: Dec::new(10, 2),
            flat_amount: Dec::new(0, 2),
        },
        TaxSlab {
            min_amount: Dec::new(2000000, 2),
            max_amount: None,
            rate: Dec::new(20, 2),
            flat_amount: Dec::new(100000, 2),
        },
    ]
}

#[test]
fn test_progressive_tax_calculation() {
    let slabs = slabs();
    // (15000 - 10000) * 0.10 = 500
    assert_eq!(calculate_progressive_tax(Dec::new(1500000, 2), &slabs), Dec::new(50000, 2));
    // (20000 - 10000) * 0.10 + (25000 - 20000) * 0.20 + 1000 = 3000
    assert_eq!(calculate_progressive_tax(Dec::new(2500000, 2), &slabs), Dec::new(300000, 2));
}

#[test]
fn income_below_every_slab_is_not_taxed() {
    assert_eq!(calculate_progressive_tax(Dec::new(9000, 0), &slabs()), Dec::zero());
    assert_eq!(calculate_progressive_tax(Dec::new(9000, 0), &[]), Dec::zero());
}

#[test]
fn test_dynamic_salary_evaluation() {
    // The component formulas "base * 0.10", "overtime_hours * 25.0" and
    // "base * 0.05" evaluate to 500, 250 and 250 for a base of 5000 and
    // 10 overtime hours.
    let earnings = vec![("HRA".to_string(), Dec::new(500, 0)), ("Overtime".to_string(), Dec::new(250, 0))];
    let deductions = vec![("Provident Fund".to_string(), Dec::new(250, 0))];
    let base = Dec::new(500000, 2);
    assert_eq!(checked_gross_pay(base, &earnings), Some(Dec::new(5750, 0)));
    let result = checked_assemble_salary_slip("EMP-001".to_string(), base, &earnings, &deductions, &[]).unwrap();

    assert_eq!(result.gross_pay, Dec::new(575000, 2));
    assert_eq!(result.total_deductions, Dec::new(25000, 2));
    assert_eq!(result.net_pay, Dec::new(550000, 2));
    assert_eq!(result.earnings.get("HRA"), Some(Dec::new(50000, 2)));
    assert_eq!(result.earnings.get("Overtime"), Some(Dec::new(25000, 2)));
    assert_eq!(result.deductions.get("Provident Fund"), Some(Dec::new(25000, 2)));
    assert_eq!(result.deductions.get("Income Tax"), None);
}

#[test]
fn slip_amounts_are_rounded_and_taxed() {
    let earnings = vec![("Bonus".to_string(), Dec::new(10005, 3))];
    let base = Dec::new(15000, 0);
    let result = checked_assemble_salary_slip("E".to_string(), base, &earnings, &vec![], &slabs()).unwrap();
    // 10.005 rounds half to even to 10.00.
    assert_eq!(result.earnings.get("Bonus"), Some(Dec::new(1000, 2)));
    assert_eq!(result.gross_pay, Dec::new(15010, 0));
    assert_eq!(result.deductions.get("Income Tax"), Some(Dec::new(501, 0)));
    assert_eq!(result.total_deductions, Dec::new(501, 0));
    assert_eq!(result.net_pay, Dec::new(14509, 0));
}

fn slip(id: &str, base: i64, gross: i64, ded: i64, net: i64) -> SalarySlipResult {
    SalarySlipResult {
        employee_id: id.to_string(),
        base_pay: Dec::new(base, 0),
        gross_pay: Dec::new(gross, 0),
        total_deductions: Dec::new(ded, 0),
        net_pay: Dec::new(net, 0),
        earnings: DecimalMap::new(),
        deductions: DecimalMap::new(),
    }
}

#[test]
fn test_payroll_batch_gl_posting() {
    let slip1 = slip("EMP-1", 4000, 4500, 500, 4000);
    let slip2 = slip("EMP-2", 5000, 5500, 800, 4700);

    let bank_acc = RecordRef::parse_simple("account:bank").unwrap();
    let expense_acc = RecordRef::parse_simple("account:salary_expense").unwrap();
    let tax_acc = RecordRef::parse_simple("account:tax_payable").unwrap();

    let postings = post_payroll_batch(&[slip1, slip2], bank_acc, expense_acc, tax_acc, "Journal Entry", "JV-2026-001").unwrap();

    assert_eq!(postings.len(), 3);
    assert_eq!(postings[0].debit, Dec::new(10000, 0));
    assert_eq!(postings[1].credit, Dec::new(1300, 0));
    assert_eq!(postings[2].credit, Dec::new(8700, 0));
    assert_eq!(postings[2].account.key, "bank");
    assert_eq!(postings[0].voucher_no, "JV-2026-001");
}

#[test]
fn inconsistent_slips_are_refused_by_the_ledger() {
    let bad = slip("EMP-9", 1000, 1000, 100, 950);
    let r = post_payroll_batch(
        &[bad],
        RecordRef::new("account", "bank"),
        RecordRef::new("account", "salary_expense"),
        RecordRef::new("account", "tax_payable"),
        "Journal Entry",
        "JV-1",
    );
    match r {
        Err(PayrollError::Ledger(LedgerError::UnbalancedEntry(d))) => assert_eq!(d, Dec::new(-50, 0)),
        other => panic!("unexpected {:?}", other),
    }
}

fn log(lat: Dec, lon: Dec) -> BiometricLog {
    BiometricLog { employee_id: "EMP-1".to_string(), timestamp: Timestamp::new(0, 0), lat, lon }
}

#[test]
fn attendance_near_the_site_is_within_range() {
    let site_lat = Dec::new(1287, 2);
    let site_lon = Dec::new(7760, 2);
    let here = log(Dec::new(12871, 3), Dec::new(77601, 3));
    assert!(is_within_location(&here, site_lat, site_lon, Dec::new(500, 0)));
    let far = log(Dec::new(1300, 2), Dec::new(7760, 2));
    assert!(!is_within_location(&far, site_lat, site_lon, Dec::new(500, 0)));
    let d = checked_distance_meters(&far, site_lat, site_lon).unwrap();
    // 0.13 degrees of latitude is about 14.5 km.
    assert!(Dec::new(14000, 0).is_less_than(&d) && d.is_less_than(&Dec::new(15000, 0)));
    let same = checked_distance_meters(&log(site_lat, site_lon), site_lat, site_lon).unwrap();
    assert_eq!(same, Dec::zero());
}
