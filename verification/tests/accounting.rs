use erpnext_domain::accounting::balance_sheet::{
    build_account_tree, builds_finitely, calculate_composite_balance, generate_coa_recursive_query,
    side_of_account, AccountNode, AccountRecord, BalanceSheetReport, SheetSide,
};
use erpnext_domain::accounting::posting::{
    checked_validate_and_compile_transaction, generate_posting_queries, validate_and_compile_transaction,
    GLEntry, LedgerPostingEngine,
};
use erpnext_domain::accounting::record::RecordRef;
use erpnext_domain::accounting::LedgerError;
use erpnext_domain::decimal::Dec;
use erpnext_domain::maps::DecimalMap;

fn entry(account: &str, debit: Dec, credit: Dec, voucher_type: &str, voucher_no: &str) -> GLEntry {
    GLEntry {
        account: RecordRef::parse_simple(account).unwrap(),
        debit,
        credit,
        voucher_type: voucher_type.to_string(),
        voucher_no: voucher_no.to_string(),
        cost_center: None,
    }
}

fn record(id: &str, parent: Option<&str>, name: &str, balance: Dec) -> AccountRecord {
    AccountRecord {
        id: id.to_string(),
        parent: parent.map(|p| p.to_string()),
        name: name.to_string(),
        balance,
    }
}

#[test]
fn test_composite_rollup() {
    let cash_node = AccountNode {
        account_id: "cash".to_string(),
        parent_id: Some("asset".to_string()),
        children: vec![],
    };
    let bank_node = AccountNode {
        account_id: "bank".to_string(),
        parent_id: Some("asset".to_string()),
        children: vec![],
    };
    let asset_node = AccountNode {
        account_id: "asset".to_string(),
        parent_id: None,
        children: vec![cash_node, bank_node],
    };

    let mut ledger = DecimalMap::new();
    ledger.insert("cash".to_string(), Dec::new(150, 0));
    ledger.insert("bank".to_string(), Dec::new(350, 0));

    let mut balance_tree = DecimalMap::new();
    let total = calculate_composite_balance(&asset_node, &ledger, &mut balance_tree);

    assert_eq!(total, Dec::new(500, 0));
    assert_eq!(balance_tree.get("cash"), Some(Dec::new(150, 0)));
    assert_eq!(balance_tree.get("bank"), Some(Dec::new(350, 0)));
    assert_eq!(balance_tree.get("asset"), Some(Dec::new(500, 0)));
}

#[test]
fn test_build_account_tree_and_rollup() {
    let records = vec![
        record("asset", None, "Asset", Dec::zero()),
        record("cash", Some("asset"), "Cash", Dec::new(150, 0)),
        record("bank", Some("asset"), "Bank", Dec::new(350, 0)),
    ];

    let roots = build_account_tree(&records);
    assert_eq!(roots.len(), 1);
    assert_eq!(roots[0].account_id, "asset");
    assert_eq!(roots[0].children.len(), 2);

    let mut ledger_data = DecimalMap::new();
    for rec in &records {
        ledger_data.insert(rec.id.clone(), rec.balance);
    }

    let mut balance_tree = DecimalMap::new();
    let total = calculate_composite_balance(&roots[0], &ledger_data, &mut balance_tree);

    assert_eq!(total, Dec::new(500, 0));
    assert_eq!(balance_tree.get("asset"), Some(Dec::new(500, 0)));
}

#[test]
fn test_valid_transaction() {
    let entries = vec![
        entry("account:asset", Dec::new(100, 0), Dec::zero(), "Sales Invoice", "SINV-001"),
        entry("account:revenue", Dec::zero(), Dec::new(100, 0), "Sales Invoice", "SINV-001"),
    ];
    assert!(validate_and_compile_transaction(&entries).is_ok());
}

#[test]
fn test_invalid_transaction() {
    let entries = vec![
        entry("account:asset", Dec::new(100, 0), Dec::zero(), "Sales Invoice", "SINV-001"),
        entry("account:revenue", Dec::zero(), Dec::new(99, 0), "Sales Invoice", "SINV-001"),
    ];
    assert!(validate_and_compile_transaction(&entries).is_err());
}

#[test]
fn test_generate_posting_queries() {
    let entries = vec![
        entry("account:cash", Dec::new(200, 0), Dec::zero(), "Sales Invoice", "SINV-002"),
        entry("account:equity", Dec::zero(), Dec::new(200, 0), "Sales Invoice", "SINV-002"),
    ];

    let queries = generate_posting_queries(&entries).unwrap();
    assert_eq!(queries.len(), 6);
    assert_eq!(queries[0], "BEGIN TRANSACTION;");
    assert_eq!(queries[5], "COMMIT TRANSACTION;");

    let bad_entries = vec![entry("account:cash", Dec::new(200, 0), Dec::zero(), "Sales Invoice", "SINV-002")];
    assert!(generate_posting_queries(&bad_entries).is_err());
}

#[test]
fn unbalanced_entries_report_debits_minus_credits() {
    let entries = vec![
        entry("account:asset", Dec::new(100, 0), Dec::zero(), "Sales Invoice", "SINV-001"),
        entry("account:revenue", Dec::zero(), Dec::new(99, 0), "Sales Invoice", "SINV-001"),
    ];
    match validate_and_compile_transaction(&entries) {
        Err(LedgerError::UnbalancedEntry(d)) => assert_eq!(d, Dec::new(1, 0)),
        other => panic!("unexpected verdict {:?}", other),
    }
    let reversed = vec![
        entry("account:asset", Dec::new(99, 0), Dec::zero(), "Sales Invoice", "SINV-001"),
        entry("account:revenue", Dec::zero(), Dec::new(100, 0), "Sales Invoice", "SINV-001"),
    ];
    match validate_and_compile_transaction(&reversed) {
        Err(LedgerError::UnbalancedEntry(d)) => assert_eq!(d, Dec::new(-1, 0)),
        other => panic!("unexpected verdict {:?}", other),
    }
}

#[test]
fn balance_is_by_value_not_by_scale() {
    let entries = vec![
        entry("account:asset", Dec::new(10050, 2), Dec::zero(), "JV", "1"),
        entry("account:revenue", Dec::zero(), Dec::new(1005, 1), "JV", "1"),
    ];
    assert!(matches!(checked_validate_and_compile_transaction(&entries), Some(Ok(()))));
    assert!(validate_and_compile_transaction(&[]).is_ok());
}

#[test]
fn posting_queries_name_accounts_and_amounts() {
    let entries = vec![
        entry("account:cash", Dec::new(200, 0), Dec::zero(), "Sales Invoice", "SINV-002"),
        entry("account:equity", Dec::zero(), Dec::new(200, 0), "Sales Invoice", "SINV-002"),
    ];
    let queries = generate_posting_queries(&entries).unwrap();
    assert_eq!(
        queries[1],
        "CREATE gl_entry CONTENT { account: account:cash, debit: 200, credit: 0, voucher_type: 'Sales Invoice', voucher_no: 'SINV-002', cost_center: NONE };"
    );
    assert_eq!(queries[2], "UPDATE account:cash SET balance = balance + 200 - 0;");
    assert_eq!(queries[4], "UPDATE account:equity SET balance = balance + 0 - 200;");
}

#[test]
fn commit_script_binds_voucher_and_entries() {
    let mut entries = vec![
        entry("account:asset", Dec::new(150, 0), Dec::zero(), "sales_invoice", "SINV_100"),
        entry("account:revenue", Dec::zero(), Dec::new(150, 0), "sales_invoice", "SINV_100"),
    ];
    entries[0].cost_center = Some("Main".to_string());
    let script = LedgerPostingEngine::commit_script("sales_invoice", "SINV_100", &entries).unwrap();
    let lines: Vec<&str> = script.split('\n').collect();
    assert_eq!(lines.len(), 9);
    assert_eq!(lines[0], "BEGIN TRANSACTION;");
    assert_eq!(lines[1], "let $voucher = sales_invoice:SINV_100;");
    assert_eq!(
        lines[2],
        "let $entry0 = (CREATE gl_entry CONTENT { account: account:asset, debit: 150, credit: 0, voucher_type: 'sales_invoice', voucher_no: 'SINV_100', cost_center: 'Main' });"
    );
    assert_eq!(
        lines[3],
        "RELATE $voucher -> POSTED_TO -> account:asset CONTENT { debit: 150, credit: 0, entry: $entry0.id };"
    );
    assert_eq!(lines[7], "UPDATE account:revenue SET balance = balance + 0 - 150;");
    assert_eq!(lines[8], "COMMIT TRANSACTION;");

    let unbalanced = vec![entry("account:asset", Dec::new(1, 0), Dec::zero(), "sales_invoice", "X")];
    assert!(matches!(
        LedgerPostingEngine::commit_script("sales_invoice", "X", &unbalanced),
        Err(LedgerError::UnbalancedEntry(_))
    ));
}

#[test]
fn record_references_parse_and_print() {
    let r = RecordRef::parse_simple("account:asset").unwrap();
    assert_eq!(r.table, "account");
    assert_eq!(r.key, "asset");
    assert_eq!(r.to_sql(), "account:asset");
    assert!(RecordRef::parse_simple("no-colon").is_err());
    let odd = RecordRef::new("weird table", "tobie");
    assert_eq!(odd.to_sql(), "`weird table`:tobie");
}

#[test]
fn balance_sheet_rolls_up_roots_by_side() {
    let records = vec![
        record("Assets", None, "Assets", Dec::zero()),
        record("cash", Some("Assets"), "Cash", Dec::new(150, 0)),
        record("liability_loans", None, "Loans", Dec::new(40, 0)),
        record("equity", None, "Equity", Dec::new(110, 0)),
        record("misc", None, "Misc", Dec::new(7, 0)),
        record("orphan", Some("missing"), "Orphan", Dec::new(3, 0)),
    ];
    assert!(builds_finitely(&records));
    let report = BalanceSheetReport::from_records(&records).unwrap();
    assert_eq!(report.assets, Dec::new(150, 0));
    assert_eq!(report.liabilities, Dec::new(40, 0));
    assert_eq!(report.equity, Dec::new(110, 0));
    assert_eq!(report.balance_tree.get("cash"), Some(Dec::new(150, 0)));
    assert_eq!(report.balance_tree.get("orphan"), Some(Dec::new(3, 0)));
    assert_eq!(side_of_account("ASSET-1"), SheetSide::Asset);
    assert_eq!(side_of_account("x"), SheetSide::Unclassified);
}

#[test]
fn cyclic_parents_are_detected() {
    let records = vec![
        record("root", None, "Root", Dec::zero()),
        record("root", Some("root"), "Loop", Dec::zero()),
    ];
    assert!(!builds_finitely(&records));
}

#[test]
fn coa_query_text() {
    assert_eq!(generate_coa_recursive_query(), "SELECT id, parent, name, balance FROM account FETCH parent;");
}

#[test]
fn setting_a_key_again_replaces_its_value() {
    let mut m = DecimalMap::new();
    m.insert("cash".to_string(), Dec::new(1, 0));
    m.insert("bank".to_string(), Dec::new(2, 0));
    m.insert("cash".to_string(), Dec::new(3, 0));
    assert_eq!(m.get("cash"), Some(Dec::new(3, 0)));
    let pairs = m.to_pairs();
    assert_eq!(pairs.len(), 2);
    assert_eq!(pairs[0].0, "cash");
    assert_eq!(pairs[0].1, Dec::new(3, 0));
    assert_eq!(pairs[1].0, "bank");
}

#[test]
fn reordered_entries_validate_alike() {
    let a = entry("account:cash", Dec::new(100, 0), Dec::zero(), "JV", "1");
    let b = entry("account:equity", Dec::zero(), Dec::new(100, 0), "JV", "1");
    assert!(validate_and_compile_transaction(&[a.clone(), b.clone()]).is_ok());
    assert!(validate_and_compile_transaction(&[b, a]).is_ok());
}
