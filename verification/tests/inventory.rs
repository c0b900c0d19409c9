use chrono::TimeZone;
use erpnext_domain::decimal::Dec;
use erpnext_domain::inventory::fifo_valuation::{BackdatedCorrectionEngine, StockLedgerEntry};
use erpnext_domain::inventory::stock_ledger::{
    consume_fifo_queue, StockQueueNode, ValuationMethod, WarehouseStockRegistry, WarehouseStockState,
};
use erpnext_domain::inventory::transfers::{
    compile_stock_transfer_queries, compile_stock_transfer_queries_with_id, transfer_script_with_id,
    StockTransferCmd,
};
use erpnext_domain::inventory::StockError;
use erpnext_domain::time::Timestamp;

fn at(y: i32, mo: u32, d: u32, h: u32) -> Timestamp {
    let t = chrono::Utc.with_ymd_and_hms(y, mo, d, h, 0, 0).unwrap();
    Timestamp::new(t.timestamp(), t.timestamp_subsec_nanos())
}

#[test]
fn test_fifo_depletion() {
    let t1 = at(2026, 6, 1, 12);
    let t2 = at(2026, 6, 2, 12);

    let mut queue = vec![
        StockQueueNode { qty: Dec::new(10, 0), rate: Dec::new(15, 0), timestamp: t2 },
        StockQueueNode { qty: Dec::new(5, 0), rate: Dec::new(10, 0), timestamp: t1 },
    ];

    // 5 from t1 at 10 and 3 from t2 at 15.
    let cogs = consume_fifo_queue(&mut queue, Dec::new(8, 0)).unwrap();
    assert_eq!(cogs, Dec::new(95, 0));
    assert_eq!(queue.len(), 1);
    assert_eq!(queue[0].qty, Dec::new(7, 0));
}

#[test]
fn test_moving_average_valuation() {
    let mut registry = WarehouseStockRegistry::new(false);
    let now = at(2026, 6, 1, 12);

    let cogs1 = registry.update_stock("item_x", "wh_a", Dec::new(10, 0), Dec::new(10, 0), now).unwrap();
    assert_eq!(cogs1, Dec::new(0, 0));

    let cogs2 = registry.update_stock("item_x", "wh_a", Dec::new(5, 0), Dec::new(16, 0), now).unwrap();
    assert_eq!(cogs2, Dec::new(0, 0));

    // (10 * 10 + 5 * 16) / 15 = 12
    let state = registry.get_state("item_x", "wh_a").unwrap();
    assert_eq!(state.moving_average_rate, Dec::new(12, 0));
    assert_eq!(state.qty, Dec::new(15, 0));

    let cogs3 = registry.update_stock("item_x", "wh_a", Dec::new(-8, 0), Dec::new(0, 0), now).unwrap();
    assert_eq!(cogs3, Dec::new(96, 0));

    let state = registry.get_state("item_x", "wh_a").unwrap();
    assert_eq!(state.qty, Dec::new(7, 0));
    assert_eq!(state.moving_average_rate, Dec::new(12, 0));
}

#[test]
fn test_concurrent_negative_stock_validation() {
    // The registry is used through one `&mut` borrow at a time, so the ten
    // issues of 2 units run one after another.
    let mut registry = WarehouseStockRegistry::new(false);
    let now = at(2026, 6, 1, 12);
    registry.update_stock("item_y", "wh_a", Dec::new(10, 0), Dec::new(10, 0), now).unwrap();

    let mut successes = 0;
    let mut failures = 0;
    for _ in 0..10 {
        match registry.update_stock("item_y", "wh_a", Dec::new(-2, 0), Dec::new(0, 0), now) {
            Ok(_) => successes += 1,
            Err(StockError::InsufficientStock) => failures += 1,
            Err(_) => {}
        }
    }

    assert_eq!(successes, 5);
    assert_eq!(failures, 5);
    let state = registry.get_state("item_y", "wh_a").unwrap();
    assert_eq!(state.qty, Dec::new(0, 0));
}

#[test]
fn fifo_issue_beyond_stock_is_refused() {
    let mut queue = vec![StockQueueNode { qty: Dec::new(3, 0), rate: Dec::new(10, 0), timestamp: at(2026, 1, 1, 0) }];
    assert!(matches!(consume_fifo_queue(&mut queue, Dec::new(5, 0)), Err(StockError::InsufficientStock)));
}

#[test]
fn registry_keeps_other_items_apart() {
    let mut registry = WarehouseStockRegistry::new(true);
    let now = at(2026, 6, 1, 12);
    registry.update_stock("a", "w1", Dec::new(4, 0), Dec::new(2, 0), now).unwrap();
    registry.update_stock("a", "w2", Dec::new(6, 0), Dec::new(3, 0), now).unwrap();
    registry.update_stock("a", "w1", Dec::new(-10, 0), Dec::new(0, 0), now).unwrap();
    assert_eq!(registry.get_state("a", "w1").unwrap().qty, Dec::new(-6, 0));
    assert_eq!(registry.get_state("a", "w2").unwrap().qty, Dec::new(6, 0));
    assert!(registry.get_state("b", "w1").is_none());
}

#[test]
fn fifo_registry_values_issues_by_layer() {
    let mut registry = WarehouseStockRegistry::new(false);
    registry.set_valuation_method("i", "w", ValuationMethod::FIFO);
    registry.update_stock("i", "w", Dec::new(5, 0), Dec::new(10, 0), at(2026, 1, 1, 0)).unwrap();
    registry.update_stock("i", "w", Dec::new(5, 0), Dec::new(20, 0), at(2026, 1, 2, 0)).unwrap();
    let cogs = registry.update_stock("i", "w", Dec::new(-7, 0), Dec::zero(), at(2026, 1, 3, 0)).unwrap();
    assert_eq!(cogs, Dec::new(90, 0));
}

#[test]
fn backdated_entries_are_replayed_in_time_order() {
    let state = WarehouseStockState::new(ValuationMethod::FIFO);
    let mut entries = vec![
        StockLedgerEntry {
            item_code: "i".to_string(),
            warehouse: "w".to_string(),
            qty_change: Dec::new(-4, 0),
            rate: Dec::zero(),
            timestamp: at(2026, 3, 3, 0),
        },
        StockLedgerEntry {
            item_code: "i".to_string(),
            warehouse: "w".to_string(),
            qty_change: Dec::new(5, 0),
            rate: Dec::new(8, 0),
            timestamp: at(2026, 3, 1, 0),
        },
    ];
    let (after, cogs) = BackdatedCorrectionEngine::recalculate_valuation(&state, &mut entries).unwrap();
    assert_eq!(entries[0].timestamp, at(2026, 3, 1, 0));
    assert_eq!(after.qty, Dec::new(1, 0));
    assert_eq!(cogs.len(), 2);
    assert_eq!(cogs[0], Dec::zero());
    assert_eq!(cogs[1], Dec::new(32, 0));
}

fn cmd() -> StockTransferCmd {
    StockTransferCmd {
        source_warehouse: "wh_a".to_string(),
        target_warehouse: "wh_b".to_string(),
        item_id: "item_1".to_string(),
        qty: Dec::new(5, 0),
        rate: Dec::new(125, 1),
    }
}

#[test]
fn transfer_queries_with_a_known_id() {
    let q = compile_stock_transfer_queries_with_id(&cmd(), "1234");
    assert_eq!(q.len(), 7);
    assert_eq!(q[0], "BEGIN TRANSACTION;");
    assert_eq!(q[1], "CREATE stock_transfer:1234 SET item = item_1, qty = 5, rate = 12.5;");
    assert_eq!(q[2], "UPDATE warehouse:wh_a SET inventory = inventory - 5 WHERE item = item_1;");
    assert_eq!(q[3], "UPDATE warehouse:wh_b SET inventory = inventory + 5 WHERE item = item_1;");
    assert_eq!(q[4], "RELATE stock_transfer:1234 -> MOVED_FROM -> warehouse:wh_a CONTENT { qty: 5 };");
    assert_eq!(q[5], "RELATE stock_transfer:1234 -> MOVED_TO -> warehouse:wh_b CONTENT { qty: 5 };");
    assert_eq!(q[6], "COMMIT TRANSACTION;");
}

#[test]
fn transfer_queries_get_a_fresh_uuid() {
    let a = compile_stock_transfer_queries(&cmd());
    let b = compile_stock_transfer_queries(&cmd());
    assert_eq!(a.len(), 7);
    let id = a[1].trim_start_matches("CREATE stock_transfer:").split(' ').next().unwrap().to_string();
    assert_eq!(id.len(), 36);
    assert_eq!(id.chars().nth(14), Some('4'));
    assert_ne!(a[1], b[1]);
}

#[test]
fn transfer_script_text() {
    let s = transfer_script_with_id("u1", "item_1", "wh_a", "wh_b", Dec::new(5, 0), Dec::new(2, 0));
    assert_eq!(
        s,
        "BEGIN TRANSACTION;\nCREATE stock_transfer:u1 SET item = 'item_1', qty = 5, rate = 2;\nUPDATE warehouse:wh_a SET inventory = inventory - 5 WHERE item = 'item_1';\nUPDATE warehouse:wh_b SET inventory = inventory + 5 WHERE item = 'item_1';\nRELATE stock_transfer:u1 -> MOVED_FROM -> warehouse:wh_a CONTENT { qty: 5 };\nRELATE stock_transfer:u1 -> MOVED_TO -> warehouse:wh_b CONTENT { qty: 5 };\nCOMMIT TRANSACTION;"
    );
}

#[test]
fn transfer_moves_stock_between_warehouses() {
    let mut registry = WarehouseStockRegistry::new(false);
    let now = at(2026, 6, 1, 12);
    registry.update_stock("item_1", "wh_a", Dec::new(10, 0), Dec::new(3, 0), now).unwrap();
    assert!(matches!(
        registry.checked_apply_transfer("item_1", "wh_a", "wh_b", Dec::new(4, 0), Dec::new(3, 0), now),
        Some(Ok(()))
    ));
    assert_eq!(registry.get_state("item_1", "wh_a").unwrap().qty, Dec::new(6, 0));
    assert_eq!(registry.get_state("item_1", "wh_b").unwrap().qty, Dec::new(4, 0));
    assert!(matches!(
        registry.checked_apply_transfer("item_1", "wh_a", "wh_b", Dec::new(7, 0), Dec::new(3, 0), now),
        Some(Err(StockError::InsufficientStock))
    ));
    assert_eq!(registry.get_state("item_1", "wh_b").unwrap().qty, Dec::new(4, 0));
}

#[test]
fn refused_transfer_leaves_the_target_untouched() {
    let mut registry = WarehouseStockRegistry::new(false);
    let now = at(2026, 6, 1, 12);
    registry.update_stock("item_1", "wh_a", Dec::new(2, 0), Dec::new(3, 0), now).unwrap();
    assert!(matches!(
        registry.checked_apply_transfer("item_1", "wh_a", "wh_b", Dec::new(5, 0), Dec::new(3, 0), now),
        Some(Err(StockError::InsufficientStock))
    ));
    assert_eq!(registry.get_state("item_1", "wh_a").unwrap().qty, Dec::new(2, 0));
    assert!(registry.get_state("item_1", "wh_b").is_none());
}
