use vstd::prelude::*;

pub mod calendar;
pub mod ledger;
pub mod records;
pub mod status;
pub mod units;

pub use calendar::{days_between, epoch_to_human_gmt7, is_same_day_gmt7, local_day_of};
pub use ledger::{
    apply_deltas, classify_transition, inbound_qty_for, movement_deltas, process_inventory_history_data,
    storage_days, total_duration, DayBucket, Deltas, Measures, ProcessError, ProcessInventoryHistoryInput,
    ProcessInventoryHistoryOutput, ReconcileContext, Reconciliation, Transition,
};
pub use records::{
    InventoryData, ProshipDimension, ProshipGoodsReceipt, ProshipInventory, ProshipInventoryHistory,
};
pub use status::EnumProshipType_InventoryStatus;
pub use units::{calculate_cbm, calculate_master_qty, round_float};

verus! {

} // verus!
