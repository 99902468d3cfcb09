use inventory_ledger::{
    apply_deltas, calculate_cbm, calculate_master_qty, classify_transition, days_between, epoch_to_human_gmt7,
    inbound_qty_for, is_same_day_gmt7, movement_deltas, round_float, storage_days, Deltas,
    EnumProshipType_InventoryStatus, InventoryData, Measures, ProshipGoodsReceipt, ProshipInventory,
    ReconcileContext, Transition,
};
use EnumProshipType_InventoryStatus as S;

#[test]
fn cbm_cartons_and_remainder() {
    assert_eq!(calculate_cbm(25, 10, 1000, 8000), 21);
    assert_eq!(calculate_cbm(25, 10, 1000, 0), 25);
    assert_eq!(calculate_cbm(0, 10, 1000, 8000), 0);
}

#[test]
fn cbm_rounds_half_away_from_zero() {
    assert_eq!(calculate_cbm(1, 1, 1500, 0), 2);
    assert_eq!(calculate_cbm(1, 1, 1499, 0), 1);
    assert_eq!(calculate_cbm(-1, 1, 1500, 0), -2);
}

#[test]
fn round_float_precision() {
    assert_eq!(round_float(12345, 4, None), 123);
    assert_eq!(round_float(125, 2, Some(1)), 13);
    assert_eq!(round_float(-125, 2, Some(1)), -13);
    assert_eq!(round_float(124, 2, Some(1)), 12);
    assert_eq!(round_float(7, 3, Some(3)), 7);
}

#[test]
fn master_qty_is_ceiling() {
    assert_eq!(calculate_master_qty(25, 10), 3);
    assert_eq!(calculate_master_qty(30, 10), 3);
    assert_eq!(calculate_master_qty(0, 10), 0);
    assert_eq!(calculate_master_qty(1, 1), 1);
}

#[test]
fn day_count_clamps_at_zero() {
    let a: i64 = 1705287600;
    assert_eq!(days_between(a, a - 5 * 86400), 0);
    assert_eq!(days_between(a, a), 0);
    assert_eq!(days_between(a, a + 2 * 86400), 2);
}

#[test]
fn day_count_goes_midnight_to_midnight_at_gmt7() {
    // 2024-01-15 23:00 and 2024-01-16 01:00 at UTC+7.
    let late: i64 = 1705334400;
    let early_next: i64 = late + 7200;
    assert_eq!(days_between(late, early_next), 1);
    assert!(!is_same_day_gmt7(late, early_next));
    assert!(is_same_day_gmt7(late, late - 3600 * 20));
}

#[test]
fn day_key_is_gmt7_date() {
    assert_eq!(epoch_to_human_gmt7(1705287600), Some("20240115".to_string()));
    // 2024-01-15 18:00 UTC is already the 16th at UTC+7.
    assert_eq!(epoch_to_human_gmt7(1705341600), Some("20240116".to_string()));
    assert_eq!(epoch_to_human_gmt7(0), Some("19700101".to_string()));
}

#[test]
fn status_codes() {
    assert_eq!(S::from_i32(2), S::ON_HAND_INVENTORY_STATUS);
    assert_eq!(S::from_i32(7), S::PENDING_FOR_IMPORT_INVENTORY_STATUS);
    assert_eq!(S::from_i32(42), S::OTHER_INVENTORY_STATUS);
    assert_eq!(S::from_i32(-1), S::OTHER_INVENTORY_STATUS);
    assert_eq!(S::DAMAGED_INVENTORY_STATUS.to_i32(), 3);
}

#[test]
fn transitions_follow_the_table() {
    assert_eq!(classify_transition(S::AVALABLE_INVENTORY_STATUS, S::ON_HAND_INVENTORY_STATUS), Transition::Allocate);
    assert_eq!(classify_transition(S::ON_HAND_INVENTORY_STATUS, S::EXPORTED_INVENTORY_STATUS), Transition::Export);
    assert_eq!(classify_transition(S::LIQUIDATION_INVENTORY_STATUS, S::ON_HAND_INVENTORY_STATUS), Transition::DisposalToAllocated);
    assert_eq!(classify_transition(S::EXPORTED_INVENTORY_STATUS, S::AVALABLE_INVENTORY_STATUS), Transition::Ignore);
}

#[test]
fn split_of_a_reversal() {
    let d = movement_deltas(Transition::Deallocate, 5, 5, Some(3));
    assert_eq!((d.restore, d.allocated), (3, -2));
    let d = movement_deltas(Transition::Deallocate, 5, 9, Some(3));
    assert_eq!((d.restore, d.allocated), (5, 0));
    let d = movement_deltas(Transition::RestoreDisposal, 4, 4, None);
    assert_eq!((d.restore, d.disposal), (4, 0));
    let d = movement_deltas(Transition::AllocatedToDisposal, 4, 6, Some(6));
    assert_eq!((d.allocated, d.disposal), (-4, 4));
}

#[test]
fn inbound_lookup_takes_first_entry_or_zero() {
    let ids = vec![("A".to_string(), 4), ("B".to_string(), 9), ("A".to_string(), 7)];
    assert_eq!(inbound_qty_for(&ids, &"A".to_string()), 4);
    assert_eq!(inbound_qty_for(&ids, &"B".to_string()), 9);
    assert_eq!(inbound_qty_for(&ids, &"C".to_string()), 0);
}

#[test]
fn deltas_floor_totals_at_zero_and_recompute_volumes() {
    let m = Measures { inner_qty_on_mas: 10, volume: 1000, master_volume: 8000 };
    let mut d = InventoryData::new();
    d.allocated_qty = 3;
    d.allocated_cbm = 3;
    d.allocated_master_qty = 1;
    let r = apply_deltas(&mut d, &Deltas { allocated: -5, disposal: 25, restore: 0, outbound: 0 }, &m);
    assert!(r.is_ok());
    assert_eq!(d.allocated_qty, 0);
    assert_eq!(d.allocated_cbm, 0);
    assert_eq!(d.allocated_master_qty, 0);
    assert_eq!(d.disposal_stock, 25);
    assert_eq!(d.disposal_cbm, 21);
    assert_eq!(d.disposal_master_qty, 3);
}

#[test]
fn storage_days_use_window_bounds() {
    let receipt: i32 = 1705287600;
    let mut ctx = ReconcileContext {
        inventory: ProshipInventory::new(),
        asin_outbound_list: vec![],
        goods_receipt: ProshipGoodsReceipt { imported_at: receipt },
        inbound_qty: 0,
        from_date: None,
        to_date: None,
    };
    assert_eq!(storage_days(&ctx, receipt as i64 + 9 * 86400), Ok(10));
    ctx.from_date = Some(receipt + 3 * 86400);
    ctx.to_date = Some(receipt + 5 * 86400);
    assert_eq!(storage_days(&ctx, receipt as i64 + 9 * 86400), Ok(3));
    ctx.from_date = Some(receipt - 3 * 86400);
    assert_eq!(storage_days(&ctx, receipt as i64 + 2 * 86400), Ok(3));
}

#[test]
fn day_key_late_utc_evening_is_next_gmt7_day() {
    assert_eq!(epoch_to_human_gmt7(1700000000), Some("20231115".to_string()));
}
