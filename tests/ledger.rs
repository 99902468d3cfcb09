use inventory_ledger::{
    EnumProshipType_InventoryStatus, ProcessError, ProcessInventoryHistoryInput, ProcessInventoryHistoryOutput,
    ProshipGoodsReceipt, ProshipInventory, ProshipInventoryHistory, ReconcileContext, Reconciliation,
    process_inventory_history_data,
};
use EnumProshipType_InventoryStatus as S;

// 2024-01-15 10:00 at UTC+7.
const DAY1_10H: i32 = 1705287600;
const DAY: i32 = 86400;

fn item() -> ProshipInventory {
    let mut inv = ProshipInventory::new();
    inv.id = "INV1".to_string();
    inv.asin = "B0TEST".to_string();
    inv.po_no = "PO-9".to_string();
    inv.inner_qty_on_mas = 10;
    inv.volume = 1000;
    inv.master_volume = 8000;
    inv
}

fn event(at: i32, stock: i32, old: S, new: S, qty: i32, issue: &str) -> ProshipInventoryHistory {
    ProshipInventoryHistory {
        created_at: at,
        stock_qty: stock,
        old_status: old,
        new_status: new,
        quantity: qty,
        goods_issue_id: issue.to_string(),
    }
}

fn run(events: Vec<ProshipInventoryHistory>, imported_at: i32, inbound: i32, now: i64, from: Option<i32>, to: Option<i32>) -> ProcessInventoryHistoryOutput {
    let input = ProcessInventoryHistoryInput {
        inventory: item(),
        inventory_id: "INV1".to_string(),
        asin_outbound_list: vec!["OUT1".to_string()],
        goods_receipt: ProshipGoodsReceipt { imported_at },
        inventory_history_list: events,
        inventory_ids: vec![("OTHER".to_string(), 3), ("INV1".to_string(), inbound)],
        from_date: from,
        to_date: to,
    };
    match process_inventory_history_data(input, now) {
        Ok(out) => out,
        Err(e) => panic!("reconciliation failed: {:?}", e),
    }
}

#[test]
fn allocate_then_export_same_day() {
    let events = vec![
        event(DAY1_10H, 100, S::AVALABLE_INVENTORY_STATUS, S::ON_HAND_INVENTORY_STATUS, 10, "GI1"),
        event(DAY1_10H + 60, 90, S::ON_HAND_INVENTORY_STATUS, S::EXPORTED_INVENTORY_STATUS, 10, "GI1"),
    ];
    let out = run(events, DAY1_10H - 2 * DAY, 100, DAY1_10H as i64 + 3600, None, None);
    assert_eq!(out.merged_inventory_history.len(), 1);
    let b = &out.merged_inventory_history[0];
    assert_eq!(b.key, "20240115");
    assert_eq!(b.data.outbound_qty, 10);
    assert_eq!(b.data.outbound_cbm, 8);
    assert_eq!(b.data.outbound_master_qty, 1);
    assert_eq!(b.data.allocated_qty, 0);
    assert_eq!(b.data.allocated_cbm, 0);
    assert_eq!(b.data.restore_stock_qty, 0);
    assert_eq!(b.data.closing_stock, 90);
    assert_eq!(b.data.opening_stock, 0);
    assert_eq!(b.goods_issue_ids, vec!["GI1".to_string()]);
    assert_eq!(b.data.storage_time_days, 3);
    assert_eq!(out.total_duration, 3);
}

#[test]
fn deallocation_beyond_day_ledger_splits() {
    let events = vec![
        event(DAY1_10H, 100, S::AVALABLE_INVENTORY_STATUS, S::ON_HAND_INVENTORY_STATUS, 2, "GI1"),
        event(DAY1_10H + DAY, 100, S::AVALABLE_INVENTORY_STATUS, S::ON_HAND_INVENTORY_STATUS, 3, "GI1"),
        event(DAY1_10H + DAY + 60, 100, S::ON_HAND_INVENTORY_STATUS, S::AVALABLE_INVENTORY_STATUS, 5, "GI1"),
    ];
    let out = run(events, DAY1_10H, 100, DAY1_10H as i64 + DAY as i64, None, None);
    assert_eq!(out.merged_inventory_history.len(), 2);
    let day2 = &out.merged_inventory_history[1];
    assert_eq!(day2.key, "20240116");
    assert_eq!(day2.data.restore_stock_qty, 3);
    assert_eq!(day2.data.allocated_qty, 1);
    assert_eq!(day2.data.allocated_cbm, 1);
    assert_eq!(day2.data.restore_stock_cbm, 3);
    assert_eq!(out.merged_inventory_history[0].data.allocated_qty, 2);
}

#[test]
fn deallocation_without_ledger_entry_is_pure_restore() {
    let events = vec![
        event(DAY1_10H, 100, S::AVALABLE_INVENTORY_STATUS, S::ON_HAND_INVENTORY_STATUS, 4, "GI1"),
        event(DAY1_10H + DAY, 100, S::ON_HAND_INVENTORY_STATUS, S::AVALABLE_INVENTORY_STATUS, 4, "GI1"),
    ];
    let out = run(events, DAY1_10H, 100, DAY1_10H as i64 + DAY as i64, None, None);
    let day2 = &out.merged_inventory_history[1];
    assert_eq!(day2.data.restore_stock_qty, 4);
    assert_eq!(day2.data.allocated_qty, 0);
}

#[test]
fn trailing_bucket_from_carried_stock() {
    let ctx = ReconcileContext {
        inventory: item(),
        asin_outbound_list: vec![],
        goods_receipt: ProshipGoodsReceipt { imported_at: DAY1_10H },
        inbound_qty: 0,
        from_date: None,
        to_date: None,
    };
    let mut rec = Reconciliation::new(25);
    let now = DAY1_10H as i64 + 4 * DAY as i64;
    assert!(rec.finalize(&ctx, now).is_ok());
    assert_eq!(rec.buckets.len(), 1);
    let b = &rec.buckets[0];
    assert_eq!(b.key, "20240119");
    assert_eq!(b.data.opening_stock, 25);
    assert_eq!(b.data.closing_stock, 25);
    assert_eq!(b.data.opening_cbm, 21);
    assert_eq!(b.data.closing_master_qty, 3);
    assert_eq!(b.data.date as i64, now);
    assert_eq!(b.data.allocated_qty + b.data.disposal_stock + b.data.restore_stock_qty + b.data.outbound_qty, 0);
    assert_eq!(b.data.storage_time_days, 5);
}

#[test]
fn no_events_and_no_stock_gives_no_bucket() {
    let out = run(vec![], DAY1_10H, 100, DAY1_10H as i64, None, None);
    assert_eq!(out.merged_inventory_history.len(), 0);
    assert_eq!(out.total_duration, 0);
}

#[test]
fn receipt_on_other_day_has_no_inbound() {
    let events = vec![event(DAY1_10H + DAY, 50, S::OTHER_INVENTORY_STATUS, S::AVALABLE_INVENTORY_STATUS, 50, "")];
    let out = run(events, DAY1_10H, 50, DAY1_10H as i64 + DAY as i64, None, None);
    let b = &out.merged_inventory_history[0];
    assert_eq!(b.data.inbound_qty, 0);
    assert_eq!(b.data.inbound_cbm, 0);
    assert_eq!(b.data.inbound_master_qty, 0);
}

#[test]
fn receipt_day_books_inbound() {
    let events = vec![event(DAY1_10H + 600, 50, S::OTHER_INVENTORY_STATUS, S::AVALABLE_INVENTORY_STATUS, 50, "")];
    let out = run(events, DAY1_10H, 50, DAY1_10H as i64 + DAY as i64, None, None);
    let b = &out.merged_inventory_history[0];
    assert_eq!(b.data.inbound_qty, 50);
    assert_eq!(b.data.inbound_cbm, 40);
    assert_eq!(b.data.inbound_master_qty, 5);
    assert_eq!(b.data.closing_stock, 50);
}

#[test]
fn damaged_restore_beyond_day_ledger_splits() {
    let events = vec![
        event(DAY1_10H, 100, S::AVALABLE_INVENTORY_STATUS, S::DAMAGED_INVENTORY_STATUS, 2, ""),
        event(DAY1_10H + DAY, 100, S::AVALABLE_INVENTORY_STATUS, S::DAMAGED_INVENTORY_STATUS, 3, ""),
        event(DAY1_10H + DAY + 60, 100, S::DAMAGED_INVENTORY_STATUS, S::AVALABLE_INVENTORY_STATUS, 5, ""),
    ];
    let out = run(events, DAY1_10H, 100, DAY1_10H as i64 + DAY as i64, None, None);
    let day2 = &out.merged_inventory_history[1];
    assert_eq!(day2.data.restore_stock_qty, 3);
    assert_eq!(day2.data.disposal_stock, 1);
    assert_eq!(out.merged_inventory_history[0].data.disposal_stock, 2);
}

#[test]
fn returned_to_on_hand_moves_ledger_excess_to_allocated() {
    let events = vec![
        event(DAY1_10H, 100, S::AVALABLE_INVENTORY_STATUS, S::RETURN_INVENTORY_STATUS, 4, ""),
        event(DAY1_10H + 60, 100, S::RETURN_INVENTORY_STATUS, S::ON_HAND_INVENTORY_STATUS, 4, "GI2"),
    ];
    let out = run(events, DAY1_10H, 100, DAY1_10H as i64, None, None);
    let b = &out.merged_inventory_history[0];
    // Lifetime 4, ledger 4: nothing stays, so the whole ledger entry is the
    // excess, moved to allocated; the remaining 0 units reduce disposal.
    assert_eq!(b.data.allocated_qty, 4);
    assert_eq!(b.data.disposal_stock, 4);
}

#[test]
fn on_hand_to_disposal_split_moves_allocation() {
    let events = vec![
        event(DAY1_10H, 100, S::AVALABLE_INVENTORY_STATUS, S::ON_HAND_INVENTORY_STATUS, 6, "GI1"),
        event(DAY1_10H + 60, 100, S::ON_HAND_INVENTORY_STATUS, S::LIQUIDATION_INVENTORY_STATUS, 4, "GI1"),
    ];
    let out = run(events, DAY1_10H, 100, DAY1_10H as i64, None, None);
    let b = &out.merged_inventory_history[0];
    assert_eq!(b.data.allocated_qty, 2);
    assert_eq!(b.data.disposal_stock, 4);
}

#[test]
fn pending_for_import_is_skipped() {
    let events = vec![event(DAY1_10H, 100, S::OTHER_INVENTORY_STATUS, S::PENDING_FOR_IMPORT_INVENTORY_STATUS, 100, "")];
    let out = run(events, DAY1_10H, 100, DAY1_10H as i64, None, None);
    assert_eq!(out.merged_inventory_history.len(), 0);
}

#[test]
fn pending_event_leaves_state_alone() {
    let ctx = ReconcileContext {
        inventory: item(),
        asin_outbound_list: vec![],
        goods_receipt: ProshipGoodsReceipt { imported_at: DAY1_10H },
        inbound_qty: 0,
        from_date: None,
        to_date: None,
    };
    let mut rec = Reconciliation::new(9);
    let e = event(DAY1_10H, 100, S::AVALABLE_INVENTORY_STATUS, S::PENDING_FOR_IMPORT_INVENTORY_STATUS, 1, "");
    assert!(rec.apply_history(&e, &ctx).is_ok());
    assert_eq!(rec.buckets.len(), 0);
    assert_eq!(rec.last_stock_qty, 9);
}

#[test]
fn opening_carries_previous_closing() {
    let events = vec![
        event(DAY1_10H, 40, S::OTHER_INVENTORY_STATUS, S::AVALABLE_INVENTORY_STATUS, 40, ""),
        event(DAY1_10H + DAY, 30, S::AVALABLE_INVENTORY_STATUS, S::DAMAGED_INVENTORY_STATUS, 10, ""),
    ];
    let out = run(events, DAY1_10H, 40, DAY1_10H as i64 + DAY as i64, None, None);
    assert_eq!(out.merged_inventory_history[1].data.opening_stock, 40);
    assert_eq!(out.merged_inventory_history[1].data.opening_cbm, 32);
    assert_eq!(out.merged_inventory_history[1].data.closing_stock, 30);
}

#[test]
fn total_duration_with_and_without_window() {
    let events = vec![
        event(DAY1_10H, 10, S::AVALABLE_INVENTORY_STATUS, S::ON_HAND_INVENTORY_STATUS, 5, "A"),
        event(DAY1_10H + 60, 5, S::ON_HAND_INVENTORY_STATUS, S::EXPORTED_INVENTORY_STATUS, 5, "A"),
        event(DAY1_10H + 2 * DAY, 5, S::AVALABLE_INVENTORY_STATUS, S::ON_HAND_INVENTORY_STATUS, 5, "B"),
        event(DAY1_10H + 2 * DAY + 60, 0, S::ON_HAND_INVENTORY_STATUS, S::EXPORTED_INVENTORY_STATUS, 5, "B"),
    ];
    let now = DAY1_10H as i64 + 10 * DAY as i64;
    let all = run(events.clone(), DAY1_10H, 10, now, None, None);
    let sum: i64 = all.merged_inventory_history.iter().map(|b| b.data.storage_time_days as i64).sum();
    assert_eq!(all.merged_inventory_history[0].data.storage_time_days, 1);
    assert_eq!(all.merged_inventory_history[1].data.storage_time_days, 3);
    assert_eq!(all.total_duration, sum);
    assert_eq!(all.total_duration, 4);
    let windowed = run(events, DAY1_10H, 10, now, Some(DAY1_10H + DAY), Some(DAY1_10H + 5 * DAY));
    assert_eq!(windowed.merged_inventory_history[1].data.storage_time_days, 2);
    assert_eq!(windowed.total_duration, 2);
}

#[test]
fn repeated_runs_agree() {
    let events = || vec![
        event(DAY1_10H, 100, S::AVALABLE_INVENTORY_STATUS, S::ON_HAND_INVENTORY_STATUS, 7, "GI1"),
        event(DAY1_10H + DAY, 93, S::ON_HAND_INVENTORY_STATUS, S::EXPORTED_INVENTORY_STATUS, 7, "GI1"),
    ];
    let now = DAY1_10H as i64 + 3 * DAY as i64;
    let a = run(events(), DAY1_10H, 100, now, None, None);
    let b = run(events(), DAY1_10H, 100, now, None, None);
    assert_eq!(format!("{:?}", a.merged_inventory_history), format!("{:?}", b.merged_inventory_history));
    assert_eq!(a.total_duration, b.total_duration);
}

#[test]
fn reversal_beyond_totals_is_floored_at_zero() {
    let events = vec![event(DAY1_10H, 100, S::ON_HAND_INVENTORY_STATUS, S::EXPORTED_INVENTORY_STATUS, 9, "X")];
    let out = run(events, DAY1_10H, 100, DAY1_10H as i64, None, None);
    let b = &out.merged_inventory_history[0];
    assert_eq!(b.data.allocated_qty, 0);
    assert_eq!(b.data.outbound_qty, 9);
}

#[test]
fn error_variants_differ() {
    assert_ne!(ProcessError::Overflow, ProcessError::UnrepresentableDate);
}

#[test]
fn trailing_day_at_window_end() {
    let events = vec![event(1699938000, 10, S::AVALABLE_INVENTORY_STATUS, S::AVALABLE_INVENTORY_STATUS, 0, "")];
    let out = run(events, 1699938000, 0, 1800000000, None, Some(1700000000));
    let keys: Vec<&str> = out.merged_inventory_history.iter().map(|b| b.key.as_str()).collect();
    assert_eq!(keys, vec!["20231114", "20231115"]);
    let t = &out.merged_inventory_history[1].data;
    assert_eq!((t.opening_stock, t.closing_stock), (10, 10));
    assert_eq!((t.allocated_qty, t.disposal_stock, t.restore_stock_qty, t.outbound_qty), (0, 0, 0, 0));
    assert_eq!(t.date, 1700000000);
    assert_eq!(t.storage_time_days, 2);
    assert_eq!(out.total_duration, 2);
}

#[test]
fn damaged_restore_with_earlier_lifetime_splits() {
    let events = vec![
        event(1699938000, 8, S::AVALABLE_INVENTORY_STATUS, S::DAMAGED_INVENTORY_STATUS, 2, ""),
        event(1699984800, 5, S::AVALABLE_INVENTORY_STATUS, S::DAMAGED_INVENTORY_STATUS, 3, ""),
        event(1699988400, 9, S::DAMAGED_INVENTORY_STATUS, S::AVALABLE_INVENTORY_STATUS, 4, ""),
    ];
    let out = run(events, 1699938000, 0, 1699988400, None, None);
    let b = &out.merged_inventory_history[1];
    assert_eq!(b.key, "20231115");
    assert_eq!(b.data.restore_stock_qty, 2);
    assert_eq!(b.data.disposal_stock, 1);
}

#[test]
fn receipt_just_before_gmt7_midnight_books_no_inbound_next_day() {
    let events = vec![event(1699984800, 7, S::AVALABLE_INVENTORY_STATUS, S::AVALABLE_INVENTORY_STATUS, 0, "")];
    let out = run(events, 1699981199, 7, 1699988400, None, None);
    let b = &out.merged_inventory_history[0];
    assert_eq!(b.key, "20231115");
    assert_eq!((b.data.inbound_qty, b.data.inbound_cbm, b.data.inbound_master_qty), (0, 0, 0));
}

#[test]
fn new_day_copies_item_details() {
    let events = vec![event(DAY1_10H, 5, S::AVALABLE_INVENTORY_STATUS, S::AVALABLE_INVENTORY_STATUS, 0, "")];
    let out = run(events, DAY1_10H, 5, DAY1_10H as i64, None, None);
    let d = &out.merged_inventory_history[0].data;
    assert_eq!(d.asin, "B0TEST");
    assert_eq!(d.po_no, "PO-9");
    assert_eq!(d.asin_outbound, vec!["OUT1".to_string()]);
    assert_eq!(d.inner_qty_on_mas, 10);
    assert_eq!(d.received_date, DAY1_10H);
}

#[test]
fn export_lists_each_shipment_once() {
    let events = vec![
        event(DAY1_10H, 100, S::AVALABLE_INVENTORY_STATUS, S::ON_HAND_INVENTORY_STATUS, 4, "S"),
        event(DAY1_10H + 10, 98, S::ON_HAND_INVENTORY_STATUS, S::EXPORTED_INVENTORY_STATUS, 2, "S"),
        event(DAY1_10H + 20, 96, S::ON_HAND_INVENTORY_STATUS, S::EXPORTED_INVENTORY_STATUS, 2, "S"),
    ];
    let out = run(events, DAY1_10H, 100, DAY1_10H as i64, None, None);
    assert_eq!(out.merged_inventory_history[0].goods_issue_ids, vec!["S".to_string()]);
}
