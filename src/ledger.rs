use vstd::prelude::*;

use crate::calendar::{
    days_between, days_between_spec, epoch_to_human_gmt7, gmt7_day_key, is_same_day_gmt7, local_day,
    local_day_of,
};
use crate::records::{InventoryData, ProshipDimension, ProshipGoodsReceipt, ProshipInventory, ProshipInventoryHistory};
use crate::status::EnumProshipType_InventoryStatus;
use crate::units::{calculate_cbm, calculate_master_qty, cbm_spec, master_qty_spec};

verus! {

/// Why a reconciliation could not be completed.
#[derive(Clone, Copy, Debug, PartialEq, Eq, Structural)]
pub enum ProcessError {
    /// A quantity or a total left the range of its integer type.
    Overflow,
    /// A timestamp has no calendar date that the date library can represent.
    UnrepresentableDate,
}

/// What an event does to the ledger, by its old and new status.
#[derive(Clone, Copy, Debug, PartialEq, Eq, Structural)]
pub enum Transition {
    /// AVAILABLE to ON_HAND.
    Allocate,
    /// AVAILABLE to a disposal status.
    Dispose,
    /// ON_HAND back to AVAILABLE.
    Deallocate,
    /// ON_HAND to a disposal status.
    AllocatedToDisposal,
    /// ON_HAND to EXPORTED.
    Export,
    /// A disposal status back to AVAILABLE.
    RestoreDisposal,
    /// A disposal status to ON_HAND.
    DisposalToAllocated,
    /// Any other pair.
    Ignore,
}

pub open spec fn transition_of(
    old_status: EnumProshipType_InventoryStatus,
    new_status: EnumProshipType_InventoryStatus,
) -> Transition {
    if old_status == EnumProshipType_InventoryStatus::AVALABLE_INVENTORY_STATUS {
        if new_status == EnumProshipType_InventoryStatus::ON_HAND_INVENTORY_STATUS {
            Transition::Allocate
        } else if new_status.is_disposal() {
            Transition::Dispose
        } else {
            Transition::Ignore
        }
    } else if old_status == EnumProshipType_InventoryStatus::ON_HAND_INVENTORY_STATUS {
        if new_status == EnumProshipType_InventoryStatus::AVALABLE_INVENTORY_STATUS {
            Transition::Deallocate
        } else if new_status.is_disposal() {
            Transition::AllocatedToDisposal
        } else if new_status == EnumProshipType_InventoryStatus::EXPORTED_INVENTORY_STATUS {
            Transition::Export
        } else {
            Transition::Ignore
        }
    } else if old_status.is_disposal() {
        if new_status == EnumProshipType_InventoryStatus::AVALABLE_INVENTORY_STATUS {
            Transition::RestoreDisposal
        } else if new_status == EnumProshipType_InventoryStatus::ON_HAND_INVENTORY_STATUS {
            Transition::DisposalToAllocated
        } else {
            Transition::Ignore
        }
    } else {
        Transition::Ignore
    }
}

/// Classifies a status change.
pub fn classify_transition(
    old_status: EnumProshipType_InventoryStatus,
    new_status: EnumProshipType_InventoryStatus,
) -> (r: Transition)
    ensures
        r == transition_of(old_status, new_status),
{
    match old_status {
        EnumProshipType_InventoryStatus::AVALABLE_INVENTORY_STATUS => match new_status {
            EnumProshipType_InventoryStatus::ON_HAND_INVENTORY_STATUS => Transition::Allocate,
            EnumProshipType_InventoryStatus::DAMAGED_INVENTORY_STATUS
            | EnumProshipType_InventoryStatus::RETURN_INVENTORY_STATUS
            | EnumProshipType_InventoryStatus::LIQUIDATION_INVENTORY_STATUS => Transition::Dispose,
            _ => Transition::Ignore,
        },
        EnumProshipType_InventoryStatus::ON_HAND_INVENTORY_STATUS => match new_status {
            EnumProshipType_InventoryStatus::AVALABLE_INVENTORY_STATUS => Transition::Deallocate,
            EnumProshipType_InventoryStatus::DAMAGED_INVENTORY_STATUS
            | EnumProshipType_InventoryStatus::RETURN_INVENTORY_STATUS
            | EnumProshipType_InventoryStatus::LIQUIDATION_INVENTORY_STATUS => Transition::AllocatedToDisposal,
            EnumProshipType_InventoryStatus::EXPORTED_INVENTORY_STATUS => Transition::Export,
            _ => Transition::Ignore,
        },
        EnumProshipType_InventoryStatus::DAMAGED_INVENTORY_STATUS
        | EnumProshipType_InventoryStatus::RETURN_INVENTORY_STATUS
        | EnumProshipType_InventoryStatus::LIQUIDATION_INVENTORY_STATUS => match new_status {
            EnumProshipType_InventoryStatus::AVALABLE_INVENTORY_STATUS => Transition::RestoreDisposal,
            EnumProshipType_InventoryStatus::ON_HAND_INVENTORY_STATUS => Transition::DisposalToAllocated,
            _ => Transition::Ignore,
        },
        _ => Transition::Ignore,
    }
}

/// A reversal of `qty` units splits when the day's forward ledger holds more
/// than what stays of the lifetime total once the reversal is taken out.
pub open spec fn reversal_splits(qty: int, lifetime: int, ledger: Option<i64>) -> bool {
    ledger matches Some(o) && lifetime - qty < o
}

/// The part of a reversal that the day's own ledger accounts for: all of it when
/// the reversal does not split, else the ledger's excess over what stays.
pub open spec fn reversal_moved(qty: int, lifetime: int, ledger: Option<i64>) -> int {
    match ledger {
        Some(o) => if lifetime - qty < o { o - (lifetime - qty) } else { qty },
        None => qty,
    }
}

/// The rest of a reversal: what reduces the day's forward total.
pub open spec fn reversal_reduced(qty: int, lifetime: int, ledger: Option<i64>) -> int {
    qty - reversal_moved(qty, lifetime, ledger)
}

/// Changes to a day's allocated, disposal, restore and outbound totals, before
/// they are floored at zero.
pub struct Deltas {
    pub allocated: i128,
    pub disposal: i128,
    pub restore: i128,
    pub outbound: i128,
}

/// The decision table: the change to each of a day's movement totals for an
/// event of `qty` units, where `lifetime` is the running total that the event
/// reverses and `ledger` what the day's forward ledger holds for it.
pub open spec fn deltas_spec(t: Transition, qty: int, lifetime: int, ledger: Option<i64>) -> (int, int, int, int) {
    let moved = reversal_moved(qty, lifetime, ledger);
    let reduced = reversal_reduced(qty, lifetime, ledger);
    match t {
        Transition::Allocate => (qty, 0, 0, 0),
        Transition::Dispose => (0, qty, 0, 0),
        Transition::Deallocate => (-reduced, 0, moved, 0),
        Transition::AllocatedToDisposal => if reversal_splits(qty, lifetime, ledger) {
            (-moved, moved, 0, 0)
        } else {
            (0, 0, 0, 0)
        },
        Transition::Export => (-qty, 0, 0, qty),
        Transition::RestoreDisposal => (0, -reduced, moved, 0),
        Transition::DisposalToAllocated => (moved, -reduced, 0, 0),
        Transition::Ignore => (0, 0, 0, 0),
    }
}

/// Computes the decision table for one event.
pub fn movement_deltas(t: Transition, qty: i64, lifetime: i64, ledger: Option<i64>) -> (r: Deltas)
    ensures
        (r.allocated as int, r.disposal as int, r.restore as int, r.outbound as int)
            == deltas_spec(t, qty as int, lifetime as int, ledger),
        -0x4_0000_0000_0000_0000 <= r.allocated <= 0x4_0000_0000_0000_0000,
        -0x4_0000_0000_0000_0000 <= r.disposal <= 0x4_0000_0000_0000_0000,
        -0x4_0000_0000_0000_0000 <= r.restore <= 0x4_0000_0000_0000_0000,
        -0x4_0000_0000_0000_0000 <= r.outbound <= 0x4_0000_0000_0000_0000,
{
    let q = qty as i128;
    let stays: i128 = lifetime as i128 - q;
    let (splits, moved): (bool, i128) = match ledger {
        Some(o) => if stays < o as i128 {
            (true, o as i128 - stays)
        } else {
            (false, q)
        },
        None => (false, q),
    };
    let reduced: i128 = q - moved;
    match t {
        Transition::Allocate => Deltas { allocated: q, disposal: 0, restore: 0, outbound: 0 },
        Transition::Dispose => Deltas { allocated: 0, disposal: q, restore: 0, outbound: 0 },
        Transition::Deallocate => Deltas { allocated: -reduced, disposal: 0, restore: moved, outbound: 0 },
        Transition::AllocatedToDisposal => if splits {
            Deltas { allocated: -moved, disposal: moved, restore: 0, outbound: 0 }
        } else {
            Deltas { allocated: 0, disposal: 0, restore: 0, outbound: 0 }
        },
        Transition::Export => Deltas { allocated: -q, disposal: 0, restore: 0, outbound: q },
        Transition::RestoreDisposal => Deltas { allocated: 0, disposal: -reduced, restore: moved, outbound: 0 },
        Transition::DisposalToAllocated => Deltas { allocated: moved, disposal: -reduced, restore: 0, outbound: 0 },
        Transition::Ignore => Deltas { allocated: 0, disposal: 0, restore: 0, outbound: 0 },
    }
}

/// `x`, or 0 where `x` is negative.
pub open spec fn clamp0(x: int) -> int {
    if x < 0 { 0 } else { x }
}

/// What the volume and carton figures are computed from.
#[derive(Clone, Copy, Debug, PartialEq, Eq, Structural)]
pub struct Measures {
    pub inner_qty_on_mas: i32,
    pub volume: u32,
    pub master_volume: u32,
}

impl Measures {
    pub open spec fn valid(self) -> bool {
        self.inner_qty_on_mas >= 1
    }

    pub open spec fn cbm(self, q: int) -> int {
        cbm_spec(q, self.inner_qty_on_mas as int, self.volume as int, self.master_volume as int)
    }

    pub open spec fn master(self, q: int) -> int {
        master_qty_spec(q, self.inner_qty_on_mas as int)
    }

    /// Volume and master-carton count of `q` units.
    pub fn measure(&self, q: i32) -> (r: (i64, i32))
        requires
            self.valid(),
        ensures
            r.0 == self.cbm(q as int),
            r.1 == self.master(q as int),
    {
        (
            calculate_cbm(q, self.inner_qty_on_mas, self.volume, self.master_volume),
            calculate_master_qty(q, self.inner_qty_on_mas),
        )
    }
}

/// Every volume and carton figure of a snapshot is the converters applied to
/// its unit quantity.
pub open spec fn measures_consistent(d: InventoryData, m: Measures) -> bool {
    &&& d.opening_cbm == m.cbm(d.opening_stock as int)
    &&& d.opening_master_qty == m.master(d.opening_stock as int)
    &&& d.inbound_cbm == m.cbm(d.inbound_qty as int)
    &&& d.inbound_master_qty == m.master(d.inbound_qty as int)
    &&& d.closing_cbm == m.cbm(d.closing_stock as int)
    &&& d.closing_master_qty == m.master(d.closing_stock as int)
    &&& d.allocated_cbm == m.cbm(d.allocated_qty as int)
    &&& d.allocated_master_qty == m.master(d.allocated_qty as int)
    &&& d.disposal_cbm == m.cbm(d.disposal_stock as int)
    &&& d.disposal_master_qty == m.master(d.disposal_stock as int)
    &&& d.restore_stock_cbm == m.cbm(d.restore_stock_qty as int)
    &&& d.restore_master_qty == m.master(d.restore_stock_qty as int)
    &&& d.outbound_cbm == m.cbm(d.outbound_qty as int)
    &&& d.outbound_master_qty == m.master(d.outbound_qty as int)
}

/// The movement totals of a snapshot are never negative.
pub open spec fn movements_nonneg(d: InventoryData) -> bool {
    &&& d.allocated_qty >= 0
    &&& d.disposal_stock >= 0
    &&& d.restore_stock_qty >= 0
    &&& d.outbound_qty >= 0
}

/// One calendar day of the reconciled ledger.
#[derive(Clone, Debug)]
pub struct DayBucket {
    /// Index of the UTC+7 day (days since 1970-01-01 there).
    pub day: i64,
    /// The day as YYYYMMDD.
    pub key: String,
    pub data: InventoryData,
    /// Outbound shipments exported that day, each once.
    pub goods_issue_ids: Vec<String>,
}

pub open spec fn bucket_wf(b: DayBucket, m: Measures) -> bool {
    measures_consistent(b.data, m) && movements_nonneg(b.data)
}

/// Accumulated on-hand quantity of one shipment on one day.
#[derive(Clone, Debug)]
pub struct OnHandEntry {
    pub day: i64,
    pub goods_issue_id: String,
    pub qty: i64,
}

/// Accumulated quantity moved into one disposal status on one day.
#[derive(Clone, Copy, Debug)]
pub struct DisposalEntry {
    pub day: i64,
    pub status: EnumProshipType_InventoryStatus,
    pub qty: i64,
}

/// Running allocated-but-not-shipped total of one shipment.
#[derive(Clone, Debug)]
pub struct IssueTotal {
    pub goods_issue_id: String,
    pub qty: i64,
}

/// The latest on-hand ledger entry of shipment `id` on `day`.
pub open spec fn on_hand_lookup(s: Seq<OnHandEntry>, day: i64, id: Seq<char>) -> Option<i64>
    decreases s.len(),
{
    if s.len() == 0 {
        None
    } else if s.last().day == day && s.last().goods_issue_id@ == id {
        Some(s.last().qty)
    } else {
        on_hand_lookup(s.drop_last(), day, id)
    }
}

/// The latest disposal ledger entry of `status` on `day`.
pub open spec fn disposal_lookup(s: Seq<DisposalEntry>, day: i64, status: EnumProshipType_InventoryStatus) -> Option<i64>
    decreases s.len(),
{
    if s.len() == 0 {
        None
    } else if s.last().day == day && s.last().status == status {
        Some(s.last().qty)
    } else {
        disposal_lookup(s.drop_last(), day, status)
    }
}

/// The latest allocated total of shipment `id`, 0 where it has none.
pub open spec fn allocated_lookup(s: Seq<IssueTotal>, id: Seq<char>) -> i64
    decreases s.len(),
{
    if s.len() == 0 {
        0
    } else if s.last().goods_issue_id@ == id {
        s.last().qty
    } else {
        allocated_lookup(s.drop_last(), id)
    }
}

/// An optional entry read as an integer.
pub open spec fn opt_int(o: Option<i64>) -> Option<int> {
    match o {
        Some(v) => Some(v as int),
        None => None,
    }
}

/// An entry after adding `delta` to `cur`, which counts as zero when absent;
/// an absent entry stays absent unless `create`.
pub open spec fn on_hand_added(cur: Option<i64>, delta: int, create: bool) -> Option<int> {
    match cur {
        Some(v) => Some(v + delta),
        None => if create { Some(delta) } else { None },
    }
}

proof fn lemma_on_hand_update(s: Seq<OnHandEntry>, i: int, qty: i64, day: i64, id: Seq<char>, dy: i64, k: Seq<char>)
    requires
        0 <= i < s.len(),
        s[i].day == day && s[i].goods_issue_id@ == id,
        forall|j: int| i < j < s.len() ==> !(s[j].day == day && s[j].goods_issue_id@ == id),
    ensures
        on_hand_lookup(s.update(i, OnHandEntry { qty, ..s[i] }), dy, k)
            == if dy == day && k == id { Some(qty) } else { on_hand_lookup(s, dy, k) },
    decreases s.len(),
{
    let u = s.update(i, OnHandEntry { qty, ..s[i] });
    if i == s.len() - 1 {
        assert(u.drop_last() =~= s.drop_last());
    } else {
        assert(u.drop_last() =~= s.drop_last().update(i, OnHandEntry { qty, ..s[i] }));
        lemma_on_hand_update(s.drop_last(), i, qty, day, id, dy, k);
    }
}

proof fn lemma_disposal_update(
    s: Seq<DisposalEntry>,
    i: int,
    qty: i64,
    day: i64,
    status: EnumProshipType_InventoryStatus,
    dy: i64,
    st: EnumProshipType_InventoryStatus,
)
    requires
        0 <= i < s.len(),
        s[i].day == day && s[i].status == status,
        forall|j: int| i < j < s.len() ==> !(s[j].day == day && s[j].status == status),
    ensures
        disposal_lookup(s.update(i, DisposalEntry { qty, ..s[i] }), dy, st)
            == if dy == day && st == status { Some(qty) } else { disposal_lookup(s, dy, st) },
    decreases s.len(),
{
    let u = s.update(i, DisposalEntry { qty, ..s[i] });
    if i == s.len() - 1 {
        assert(u.drop_last() =~= s.drop_last());
    } else {
        assert(u.drop_last() =~= s.drop_last().update(i, DisposalEntry { qty, ..s[i] }));
        lemma_disposal_update(s.drop_last(), i, qty, day, status, dy, st);
    }
}

proof fn lemma_allocated_update(s: Seq<IssueTotal>, i: int, qty: i64, id: Seq<char>, k: Seq<char>)
    requires
        0 <= i < s.len(),
        s[i].goods_issue_id@ == id,
        forall|j: int| i < j < s.len() ==> s[j].goods_issue_id@ != id,
    ensures
        allocated_lookup(s.update(i, IssueTotal { qty, ..s[i] }), k)
            == if k == id { qty } else { allocated_lookup(s, k) },
        allocated_lookup(s, id) == s[i].qty,
    decreases s.len(),
{
    let u = s.update(i, IssueTotal { qty, ..s[i] });
    if i == s.len() - 1 {
        assert(u.drop_last() =~= s.drop_last());
    } else {
        assert(u.drop_last() =~= s.drop_last().update(i, IssueTotal { qty, ..s[i] }));
        lemma_allocated_update(s.drop_last(), i, qty, id, k);
    }
}

proof fn lemma_allocated_absent(s: Seq<IssueTotal>, id: Seq<char>)
    requires
        forall|j: int| 0 <= j < s.len() ==> s[j].goods_issue_id@ != id,
    ensures
        allocated_lookup(s, id) == 0,
    decreases s.len(),
{
    if s.len() > 0 {
        lemma_allocated_absent(s.drop_last(), id);
    }
}

impl Reconciliation {
    /// The on-hand ledger entry of shipment `k` on day `dy` after an event `h`
    /// of kind `t` on `day`.
    pub open spec fn on_hand_next(self, t: Transition, h: ProshipInventoryHistory, day: i64, dy: i64, k: Seq<char>) -> Option<int> {
        let cur = opt_int(on_hand_lookup(self.on_hand@, dy, k));
        let basis = self.basis_spec(t, h, day);
        let q = h.quantity as int;
        if dy != day || k != h.goods_issue_id@ {
            cur
        } else {
            match t {
                Transition::Allocate | Transition::DisposalToAllocated => on_hand_added(on_hand_lookup(self.on_hand@, dy, k), q, true),
                Transition::Deallocate | Transition::AllocatedToDisposal => if reversal_splits(q, basis.0 as int, basis.1) {
                    Some(basis.0 - q)
                } else {
                    cur
                },
                Transition::Export => on_hand_added(on_hand_lookup(self.on_hand@, dy, k), -q, false),
                _ => cur,
            }
        }
    }

    /// The disposal ledger entry of status `st` on day `dy` after an event `h`
    /// of kind `t` on `day`.
    pub open spec fn disposal_next(
        self,
        t: Transition,
        h: ProshipInventoryHistory,
        day: i64,
        dy: i64,
        st: EnumProshipType_InventoryStatus,
    ) -> Option<int> {
        let cur = opt_int(disposal_lookup(self.disposal@, dy, st));
        let basis = self.basis_spec(t, h, day);
        let q = h.quantity as int;
        match t {
            Transition::Dispose | Transition::AllocatedToDisposal => if dy == day && st == h.new_status {
                on_hand_added(disposal_lookup(self.disposal@, dy, st), q, true)
            } else {
                cur
            },
            Transition::RestoreDisposal | Transition::DisposalToAllocated => if dy == day && st == h.old_status
                && reversal_splits(q, basis.0 as int, basis.1) {
                Some(basis.0 - q)
            } else {
                cur
            },
            _ => cur,
        }
    }

    /// The allocated total of shipment `k` after an event `h` of kind `t`.
    pub open spec fn allocated_next(self, t: Transition, h: ProshipInventoryHistory, k: Seq<char>) -> int {
        let cur = allocated_lookup(self.allocated_totals@, k) as int;
        let q = h.quantity as int;
        if k != h.goods_issue_id@ {
            cur
        } else {
            match t {
                Transition::Allocate | Transition::DisposalToAllocated => cur + q,
                Transition::Deallocate | Transition::AllocatedToDisposal | Transition::Export => cur - q,
                _ => cur,
            }
        }
    }

    /// The lifetime disposal total of `st` after an event `h` of kind `t`.
    pub open spec fn disposal_total_next(self, t: Transition, h: ProshipInventoryHistory, st: EnumProshipType_InventoryStatus) -> int {
        let cur = self.disposal_total_spec(st) as int;
        let q = h.quantity as int;
        match t {
            Transition::Dispose | Transition::AllocatedToDisposal => if st == h.new_status { cur + q } else { cur },
            Transition::RestoreDisposal | Transition::DisposalToAllocated => if st == h.old_status { cur - q } else { cur },
            _ => cur,
        }
    }

    /// The four trackers after an event `h` of kind `t` on `day` are what the
    /// ledger rules make of `prev`'s.
    pub open spec fn trackers_follow(self, prev: Reconciliation, t: Transition, h: ProshipInventoryHistory, day: i64) -> bool {
        &&& forall|dy: i64, k: Seq<char>| opt_int(#[trigger] on_hand_lookup(self.on_hand@, dy, k))
            == prev.on_hand_next(t, h, day, dy, k)
        &&& forall|dy: i64, st: EnumProshipType_InventoryStatus| opt_int(#[trigger] disposal_lookup(self.disposal@, dy, st))
            == prev.disposal_next(t, h, day, dy, st)
        &&& forall|k: Seq<char>| #[trigger] allocated_lookup(self.allocated_totals@, k) == prev.allocated_next(t, h, k)
        &&& forall|st: EnumProshipType_InventoryStatus| #[trigger] self.disposal_total_spec(st) == prev.disposal_total_next(t, h, st)
    }
}

/// What one event does to a reconciliation: nothing when its new status is
/// PENDING_FOR_IMPORT; otherwise the day's bucket is opened where needed (at
/// the carried stock, with inbound units on the receipt day only), its closing
/// stock set, its movement totals changed by the decision table, the storage
/// duration stamped on an export, and the trackers updated; other days stay.
pub open spec fn event_applied(prev: Reconciliation, next: Reconciliation, h: ProshipInventoryHistory, ctx: ReconcileContext) -> bool {
    let day = local_day(h.created_at as int) as i64;
    let t = transition_of(h.old_status, h.new_status);
    let basis = prev.basis_spec(t, h, day);
    let d = deltas_spec(t, h.quantity as int, basis.0 as int, basis.1);
    let prior = prev.prior_movements(day);
    if h.new_status == EnumProshipType_InventoryStatus::PENDING_FOR_IMPORT_INVENTORY_STATUS {
        next == prev
    } else {
        &&& next.wf(ctx.measures())
        &&& next.last_stock_qty == h.stock_qty
        &&& exists|i: int| 0 <= i < next.buckets@.len()
            && next.buckets@[i].day == day
            && next.buckets@[i].data.closing_stock == h.stock_qty
        &&& exists|i: int| 0 <= i < next.buckets@.len()
            && next.buckets@[i].day == day
            && next.buckets@[i].data.allocated_qty == clamp0(prior.0 + d.0)
            && next.buckets@[i].data.disposal_stock == clamp0(prior.1 + d.1)
            && next.buckets@[i].data.restore_stock_qty == clamp0(prior.2 + d.2)
            && next.buckets@[i].data.outbound_qty == clamp0(prior.3 + d.3)
            && (t == Transition::Export ==> {
                &&& next.buckets@[i].data.storage_time_days == storage_days_spec(
                    ctx.from_date,
                    ctx.goods_receipt.imported_at,
                    storage_end(ctx.to_date, h.created_at as int),
                )
                &&& exists|j: int| 0 <= j < next.buckets@[i].goods_issue_ids@.len()
                    && next.buckets@[i].goods_issue_ids@[j]@ == h.goods_issue_id@
            })
        &&& forall|j: int| 0 <= j < prev.buckets@.len() && prev.buckets@[j].day != day
            ==> next.buckets@[j] == prev.buckets@[j]
        &&& forall|j: int| 0 <= j < prev.buckets@.len() ==> {
            &&& #[trigger] next.buckets@[j].day == prev.buckets@[j].day
            &&& next.buckets@[j].key == prev.buckets@[j].key
            &&& next.buckets@[j].data.opening_stock == prev.buckets@[j].data.opening_stock
            &&& next.buckets@[j].data.inbound_qty == prev.buckets@[j].data.inbound_qty
            &&& next.buckets@[j].data.date == prev.buckets@[j].data.date
            &&& metadata_of(next.buckets@[j].data) == metadata_of(prev.buckets@[j].data)
            &&& next.buckets@[j].goods_issue_ids@ == if t == Transition::Export && prev.buckets@[j].day == day {
                ids_after(prev.buckets@[j].goods_issue_ids@, h.goods_issue_id)
            } else {
                prev.buckets@[j].goods_issue_ids@
            }
            &&& t != Transition::Export ==> next.buckets@[j].data.storage_time_days == prev.buckets@[j].data.storage_time_days
        }
        &&& if exists|j: int| 0 <= j < prev.buckets@.len() && prev.buckets@[j].day == day {
            next.buckets@.len() == prev.buckets@.len()
        } else {
            let b = next.buckets@.last();
            &&& next.buckets@.len() == prev.buckets@.len() + 1
            &&& b.day == day
            &&& b.key@ == gmt7_day_key(h.created_at as int)
            &&& b.data.opening_stock == prev.last_stock_qty
            &&& b.data.date == h.created_at
            &&& b.data.inbound_qty == (if local_day(h.created_at as int) == local_day(ctx.goods_receipt.imported_at as int) {
                ctx.inbound_qty
            } else {
                0i32
            })
            &&& t != Transition::Export ==> b.data.storage_time_days == 0
            &&& metadata_of(b.data) == context_metadata(ctx)
            &&& b.goods_issue_ids@ == if t == Transition::Export {
                ids_after(Seq::empty(), h.goods_issue_id)
            } else {
                Seq::empty()
            }
        }
        &&& next.trackers_follow(prev, t, h, day)
    }
}

/// The reconciliation closed at the cutoff (`now`, or the window's end where
/// that is earlier): the cutoff day's bucket gets the storage duration up to
/// the cutoff; where that day has no bucket and stock is still held, a
/// trailing bucket with no movement is added for it; nothing else changes.
pub open spec fn ledger_closed(prev: Reconciliation, next: Reconciliation, ctx: ReconcileContext, now: int) -> bool {
    let cutoff = cutoff_spec(ctx.to_date, now);
    let cday = local_day(cutoff);
    let days = storage_days_spec(ctx.from_date, ctx.goods_receipt.imported_at, cutoff);
    &&& next.wf(ctx.measures())
    &&& next.last_stock_qty == prev.last_stock_qty
    &&& if exists|i: int| 0 <= i < prev.buckets@.len() && prev.buckets@[i].day == cday {
        &&& days <= i32::MAX
        &&& next.buckets@.len() == prev.buckets@.len()
        &&& forall|i: int| 0 <= i < prev.buckets@.len() ==> if prev.buckets@[i].day == cday {
            next.buckets@[i] == (DayBucket { data: InventoryData { storage_time_days: days as i32, ..prev.buckets@[i].data }, ..prev.buckets@[i] })
        } else {
            next.buckets@[i] == prev.buckets@[i]
        }
    } else if prev.last_stock_qty > 0 {
        let b = next.buckets@.last();
        &&& next.buckets@.len() == prev.buckets@.len() + 1
        &&& next.buckets@.drop_last() == prev.buckets@
        &&& b.day == cday
        &&& b.key@ == gmt7_day_key(cutoff)
        &&& b.data.date == cutoff
        &&& b.data.opening_stock == prev.last_stock_qty
        &&& b.data.closing_stock == prev.last_stock_qty
        &&& b.data.inbound_qty == 0
        &&& b.data.allocated_qty == 0 && b.data.disposal_stock == 0
        &&& b.data.restore_stock_qty == 0 && b.data.outbound_qty == 0
        &&& b.data.storage_time_days == days
        &&& metadata_of(b.data) == context_metadata(ctx)
        &&& b.goods_issue_ids@.len() == 0
    } else {
        next.buckets@ == prev.buckets@
    }
}

/// A reconciliation before any event: no buckets, `carried` units held, and
/// every tracker empty.
pub open spec fn fresh(s: Reconciliation, carried: i32) -> bool {
    &&& s.buckets@.len() == 0
    &&& s.last_stock_qty == carried
    &&& s.on_hand@.len() == 0
    &&& s.disposal@.len() == 0
    &&& s.allocated_totals@.len() == 0
    &&& s.total_damaged == 0 && s.total_returned == 0 && s.total_liquidation == 0
}

/// `states` runs from a fresh reconciliation through one state per event of
/// `events` and ends with the ledger closed at `now`.
pub open spec fn history_reconciled(
    states: Seq<Reconciliation>,
    events: Seq<ProshipInventoryHistory>,
    ctx: ReconcileContext,
    now: int,
) -> bool {
    &&& states.len() == events.len() + 2
    &&& fresh(states[0], 0)
    &&& forall|i: int| 0 <= i < events.len() ==> #[trigger] event_applied(states[i], states[i + 1], events[i], ctx)
    &&& ledger_closed(states[events.len() as int], states[events.len() + 1int], ctx, now)
}

/// The context a reconciliation of `input` runs in.
pub open spec fn context_of(input: ProcessInventoryHistoryInput) -> ReconcileContext {
    ReconcileContext {
        inventory: input.inventory,
        asin_outbound_list: input.asin_outbound_list,
        goods_receipt: input.goods_receipt,
        inbound_qty: inbound_spec(input.inventory_ids@, input.inventory_id@) as i32,
        from_date: input.from_date,
        to_date: input.to_date,
    }
}

/// Over any reconciled history, every day's volume and carton figures equal
/// the converters applied to its unit quantities, and no day's allocated,
/// disposal, restore or outbound total is negative.
pub proof fn lemma_reconciled_buckets_sound(
    states: Seq<Reconciliation>,
    events: Seq<ProshipInventoryHistory>,
    ctx: ReconcileContext,
    now: int,
)
    requires
        history_reconciled(states, events, ctx, now),
    ensures
        forall|i: int| 0 <= i < states.last().buckets@.len() ==> {
            &&& measures_consistent(#[trigger] states.last().buckets@[i].data, ctx.measures())
            &&& movements_nonneg(states.last().buckets@[i].data)
        },
{
    assert(states.last() == states[events.len() + 1int]);
    assert forall|i: int| 0 <= i < states.last().buckets@.len() implies {
        &&& measures_consistent(#[trigger] states.last().buckets@[i].data, ctx.measures())
        &&& movements_nonneg(states.last().buckets@[i].data)
    } by {
        assert(bucket_wf(states.last().buckets@[i], ctx.measures()));
    }
}

/// An event whose new status is PENDING_FOR_IMPORT neither creates nor changes
/// any bucket, nor the carried stock.
pub proof fn lemma_pending_event_changes_nothing(
    prev: Reconciliation,
    next: Reconciliation,
    h: ProshipInventoryHistory,
    ctx: ReconcileContext,
)
    requires
        event_applied(prev, next, h, ctx),
        h.new_status == EnumProshipType_InventoryStatus::PENDING_FOR_IMPORT_INVENTORY_STATUS,
    ensures
        next.buckets@ == prev.buckets@,
        next.last_stock_qty == prev.last_stock_qty,
{
}

/// What the ledger rules fix of a day: its day, key and date, its opening,
/// closing and inbound stock, its four movement totals, its storage duration,
/// the item details it carries and its shipment list.
pub open spec fn bucket_summary(b: DayBucket) -> (
    i64,
    Seq<char>,
    i32,
    i32,
    i32,
    i32,
    i32,
    i32,
    i32,
    i32,
    i32,
    (String, Seq<String>, i64, i32, i32, String, String, ProshipDimension, ProshipDimension),
    Seq<String>,
) {
    (
        b.day,
        b.key@,
        b.data.date,
        b.data.opening_stock,
        b.data.closing_stock,
        b.data.inbound_qty,
        b.data.allocated_qty,
        b.data.disposal_stock,
        b.data.restore_stock_qty,
        b.data.outbound_qty,
        b.data.storage_time_days,
        metadata_of(b.data),
        b.goods_issue_ids@,
    )
}

/// Two bucket lists that agree day by day on every figure the rules fix.
pub open spec fn same_buckets(a: Seq<DayBucket>, b: Seq<DayBucket>) -> bool {
    &&& a.len() == b.len()
    &&& forall|i: int| 0 <= i < a.len() ==> #[trigger] bucket_summary(a[i]) == bucket_summary(b[i])
}

/// Two reconciliations that agree on their buckets, carried stock and trackers.
pub open spec fn same_ledger(a: Reconciliation, b: Reconciliation) -> bool {
    &&& same_buckets(a.buckets@, b.buckets@)
    &&& a.last_stock_qty == b.last_stock_qty
    &&& forall|dy: i64, k: Seq<char>| #[trigger] on_hand_lookup(a.on_hand@, dy, k) == on_hand_lookup(b.on_hand@, dy, k)
    &&& forall|dy: i64, st: EnumProshipType_InventoryStatus| #[trigger] disposal_lookup(a.disposal@, dy, st)
        == disposal_lookup(b.disposal@, dy, st)
    &&& forall|k: Seq<char>| #[trigger] allocated_lookup(a.allocated_totals@, k) == allocated_lookup(b.allocated_totals@, k)
    &&& forall|st: EnumProshipType_InventoryStatus| #[trigger] a.disposal_total_spec(st) == b.disposal_total_spec(st)
}

proof fn lemma_opt_int_injective(a: Option<i64>, b: Option<i64>)
    requires
        opt_int(a) == opt_int(b),
    ensures
        a == b,
{
}

proof fn lemma_prior_agrees(p1: Reconciliation, p2: Reconciliation, m: Measures, day: i64)
    requires
        same_ledger(p1, p2),
        p1.wf(m),
        p2.wf(m),
    ensures
        p1.prior_movements(day) == p2.prior_movements(day),
        (exists|i: int| 0 <= i < p1.buckets@.len() && p1.buckets@[i].day == day)
            == (exists|i: int| 0 <= i < p2.buckets@.len() && p2.buckets@[i].day == day),
{
    if exists|i: int| 0 <= i < p1.buckets@.len() && p1.buckets@[i].day == day {
        let i1 = choose|i: int| 0 <= i < p1.buckets@.len() && p1.buckets@[i].day == day;
        assert(bucket_summary(p1.buckets@[i1]) == bucket_summary(p2.buckets@[i1]));
        let i2 = choose|i: int| 0 <= i < p2.buckets@.len() && p2.buckets@[i].day == day;
        assert(i1 == i2);
    } else {
        assert forall|i: int| 0 <= i < p2.buckets@.len() implies p2.buckets@[i].day != day by {
            assert(bucket_summary(p1.buckets@[i]) == bucket_summary(p2.buckets@[i]));
        }
    }
}

proof fn lemma_step_agrees(
    p1: Reconciliation,
    p2: Reconciliation,
    n1: Reconciliation,
    n2: Reconciliation,
    h: ProshipInventoryHistory,
    ctx: ReconcileContext,
)
    requires
        same_ledger(p1, p2),
        p1.wf(ctx.measures()),
        p2.wf(ctx.measures()),
        event_applied(p1, n1, h, ctx),
        event_applied(p2, n2, h, ctx),
    ensures
        same_ledger(n1, n2),
        n1.wf(ctx.measures()),
        n2.wf(ctx.measures()),
{
    if h.new_status == EnumProshipType_InventoryStatus::PENDING_FOR_IMPORT_INVENTORY_STATUS {
        return;
    }
    let m = ctx.measures();
    let day = local_day(h.created_at as int) as i64;
    let t = transition_of(h.old_status, h.new_status);
    lemma_prior_agrees(p1, p2, m, day);
    assert(p1.basis_spec(t, h, day) == p2.basis_spec(t, h, day));
    assert forall|dy: i64, k: Seq<char>| #[trigger] on_hand_lookup(n1.on_hand@, dy, k) == on_hand_lookup(n2.on_hand@, dy, k) by {
        assert(p1.on_hand_next(t, h, day, dy, k) == p2.on_hand_next(t, h, day, dy, k));
        lemma_opt_int_injective(on_hand_lookup(n1.on_hand@, dy, k), on_hand_lookup(n2.on_hand@, dy, k));
    }
    assert forall|dy: i64, st: EnumProshipType_InventoryStatus| #[trigger] disposal_lookup(n1.disposal@, dy, st)
        == disposal_lookup(n2.disposal@, dy, st) by {
        assert(p1.disposal_next(t, h, day, dy, st) == p2.disposal_next(t, h, day, dy, st));
        lemma_opt_int_injective(disposal_lookup(n1.disposal@, dy, st), disposal_lookup(n2.disposal@, dy, st));
    }
    assert forall|k: Seq<char>| #[trigger] allocated_lookup(n1.allocated_totals@, k) == allocated_lookup(n2.allocated_totals@, k) by {
        assert(p1.allocated_next(t, h, k) == p2.allocated_next(t, h, k));
    }
    assert forall|st: EnumProshipType_InventoryStatus| #[trigger] n1.disposal_total_spec(st) == n2.disposal_total_spec(st) by {
        assert(p1.disposal_total_next(t, h, st) == p2.disposal_total_next(t, h, st));
    }
    let c1 = choose|i: int| 0 <= i < n1.buckets@.len() && n1.buckets@[i].day == day
        && n1.buckets@[i].data.closing_stock == h.stock_qty;
    let c2 = choose|i: int| 0 <= i < n2.buckets@.len() && n2.buckets@[i].day == day
        && n2.buckets@[i].data.closing_stock == h.stock_qty;
    let basis = p1.basis_spec(t, h, day);
    let d = deltas_spec(t, h.quantity as int, basis.0 as int, basis.1);
    let prior = p1.prior_movements(day);
    let e1 = choose|i: int| 0 <= i < n1.buckets@.len()
        && n1.buckets@[i].day == day
        && n1.buckets@[i].data.allocated_qty == clamp0(prior.0 + d.0)
        && n1.buckets@[i].data.disposal_stock == clamp0(prior.1 + d.1)
        && n1.buckets@[i].data.restore_stock_qty == clamp0(prior.2 + d.2)
        && n1.buckets@[i].data.outbound_qty == clamp0(prior.3 + d.3)
        && (t == Transition::Export ==> {
            &&& n1.buckets@[i].data.storage_time_days == storage_days_spec(
                ctx.from_date,
                ctx.goods_receipt.imported_at,
                storage_end(ctx.to_date, h.created_at as int),
            )
            &&& exists|j: int| 0 <= j < n1.buckets@[i].goods_issue_ids@.len()
                && n1.buckets@[i].goods_issue_ids@[j]@ == h.goods_issue_id@
        });
    let e2 = choose|i: int| 0 <= i < n2.buckets@.len()
        && n2.buckets@[i].day == day
        && n2.buckets@[i].data.allocated_qty == clamp0(prior.0 + d.0)
        && n2.buckets@[i].data.disposal_stock == clamp0(prior.1 + d.1)
        && n2.buckets@[i].data.restore_stock_qty == clamp0(prior.2 + d.2)
        && n2.buckets@[i].data.outbound_qty == clamp0(prior.3 + d.3)
        && (t == Transition::Export ==> {
            &&& n2.buckets@[i].data.storage_time_days == storage_days_spec(
                ctx.from_date,
                ctx.goods_receipt.imported_at,
                storage_end(ctx.to_date, h.created_at as int),
            )
            &&& exists|j: int| 0 <= j < n2.buckets@[i].goods_issue_ids@.len()
                && n2.buckets@[i].goods_issue_ids@[j]@ == h.goods_issue_id@
        });
    assert(c1 == e1);
    assert(c2 == e2);
    assert(n1.buckets@.len() == n2.buckets@.len());
    assert forall|i: int| 0 <= i < n1.buckets@.len() implies #[trigger] bucket_summary(n1.buckets@[i])
        == bucket_summary(n2.buckets@[i]) by {
        if i < p1.buckets@.len() {
            assert(bucket_summary(p1.buckets@[i]) == bucket_summary(p2.buckets@[i]));
            if p1.buckets@[i].day == day {
                assert(n1.buckets@[i].day == day);
                assert(i == c1);
                assert(n2.buckets@[i].day == day);
                assert(i == c2);
            }
        } else {
            assert(n1.buckets@[i].day == day);
            assert(i == c1);
            assert(n2.buckets@[i].day == day);
            assert(i == c2);
        }
    }
}

proof fn lemma_close_agrees(p1: Reconciliation, p2: Reconciliation, n1: Reconciliation, n2: Reconciliation, ctx: ReconcileContext, now: int)
    requires
        same_ledger(p1, p2),
        p1.wf(ctx.measures()),
        p2.wf(ctx.measures()),
        ledger_closed(p1, n1, ctx, now),
        ledger_closed(p2, n2, ctx, now),
    ensures
        same_buckets(n1.buckets@, n2.buckets@),
{
    let cday = local_day(cutoff_spec(ctx.to_date, now)) as i64;
    lemma_prior_agrees(p1, p2, ctx.measures(), cday);
    if exists|i: int| 0 <= i < p1.buckets@.len() && p1.buckets@[i].day == cday {
        assert forall|i: int| 0 <= i < n1.buckets@.len() implies #[trigger] bucket_summary(n1.buckets@[i])
            == bucket_summary(n2.buckets@[i]) by {
            assert(bucket_summary(p1.buckets@[i]) == bucket_summary(p2.buckets@[i]));
        }
    } else if p1.last_stock_qty > 0 {
        assert forall|i: int| 0 <= i < n1.buckets@.len() implies #[trigger] bucket_summary(n1.buckets@[i])
            == bucket_summary(n2.buckets@[i]) by {
            if i < p1.buckets@.len() {
                assert(bucket_summary(p1.buckets@[i]) == bucket_summary(p2.buckets@[i]));
                assert(n1.buckets@.drop_last()[i] == n1.buckets@[i]);
                assert(n2.buckets@.drop_last()[i] == n2.buckets@[i]);
            }
        }
    } else {
        assert forall|i: int| 0 <= i < n1.buckets@.len() implies #[trigger] bucket_summary(n1.buckets@[i])
            == bucket_summary(n2.buckets@[i]) by {
            assert(bucket_summary(p1.buckets@[i]) == bucket_summary(p2.buckets@[i]));
        }
    }
}

proof fn lemma_prefix_agrees(
    s1: Seq<Reconciliation>,
    s2: Seq<Reconciliation>,
    events: Seq<ProshipInventoryHistory>,
    ctx: ReconcileContext,
    now: int,
    i: int,
)
    requires
        history_reconciled(s1, events, ctx, now),
        history_reconciled(s2, events, ctx, now),
        0 <= i <= events.len(),
    ensures
        same_ledger(s1[i], s2[i]),
        s1[i].wf(ctx.measures()),
        s2[i].wf(ctx.measures()),
    decreases i,
{
    if i > 0 {
        let j = i - 1;
        lemma_prefix_agrees(s1, s2, events, ctx, now, j);
        assert(event_applied(s1[j], s1[j + 1], events[j], ctx));
        assert(event_applied(s2[j], s2[j + 1], events[j], ctx));
        lemma_step_agrees(s1[j], s2[j], s1[j + 1], s2[j + 1], events[j], ctx);
    }
}

/// Reconciling the same events in the same context, closed at the same
/// instant, always gives the same days with the same figures and the same
/// total storage duration: the result depends on the inputs alone.
pub proof fn lemma_reconciliation_deterministic(
    s1: Seq<Reconciliation>,
    s2: Seq<Reconciliation>,
    events: Seq<ProshipInventoryHistory>,
    ctx: ReconcileContext,
    now: int,
)
    requires
        history_reconciled(s1, events, ctx, now),
        history_reconciled(s2, events, ctx, now),
    ensures
        same_buckets(s1.last().buckets@, s2.last().buckets@),
        duration_sum(s1.last().buckets@, ctx.from_date, ctx.to_date)
            == duration_sum(s2.last().buckets@, ctx.from_date, ctx.to_date),
{
    let n = events.len() as int;
    lemma_prefix_agrees(s1, s2, events, ctx, now, n);
    lemma_close_agrees(s1[n], s2[n], s1[n + 1], s2[n + 1], ctx, now);
    assert(s1.last() == s1[n + 1] && s2.last() == s2[n + 1]);
    lemma_same_buckets_same_duration(s1.last().buckets@, s2.last().buckets@, ctx.from_date, ctx.to_date);
}

proof fn lemma_same_buckets_same_duration(a: Seq<DayBucket>, b: Seq<DayBucket>, from_date: Option<i32>, to_date: Option<i32>)
    requires
        same_buckets(a, b),
    ensures
        duration_sum(a, from_date, to_date) == duration_sum(b, from_date, to_date),
    decreases a.len(),
{
    if a.len() > 0 {
        assert(bucket_summary(a[a.len() - 1]) == bucket_summary(b[b.len() - 1]));
        assert forall|i: int| 0 <= i < a.drop_last().len() implies #[trigger] bucket_summary(a.drop_last()[i])
            == bucket_summary(b.drop_last()[i]) by {
            assert(bucket_summary(a[i]) == bucket_summary(b[i]));
        }
        lemma_same_buckets_same_duration(a.drop_last(), b.drop_last(), from_date, to_date);
    }
}

/// The item details a snapshot carries: product code, outbound codes, unit
/// price, receipt date, units per carton, customs line, order number and both
/// box dimensions.
pub open spec fn metadata_of(d: InventoryData) -> (String, Seq<String>, i64, i32, i32, String, String, ProshipDimension, ProshipDimension) {
    (d.asin, d.asin_outbound@, d.unit_price, d.received_date, d.inner_qty_on_mas, d.line_in_cd, d.po_no, d.master_dimension, d.dimension)
}

/// The item details a new snapshot copies from the context.
pub open spec fn context_metadata(ctx: ReconcileContext) -> (String, Seq<String>, i64, i32, i32, String, String, ProshipDimension, ProshipDimension) {
    (
        ctx.inventory.asin,
        ctx.asin_outbound_list@,
        ctx.inventory.unit_price,
        ctx.goods_receipt.imported_at,
        ctx.inventory.inner_qty_on_mas,
        ctx.inventory.index_customs_declaration,
        ctx.inventory.po_no,
        match ctx.inventory.master_dimension {
            Some(d) => d,
            None => ProshipDimension::new_spec(),
        },
        match ctx.inventory.dimension {
            Some(d) => d,
            None => ProshipDimension::new_spec(),
        },
    )
}

/// A day's shipment list after recording `id`: unchanged where it is already there.
pub open spec fn ids_after(ids: Seq<String>, id: String) -> Seq<String> {
    if exists|j: int| 0 <= j < ids.len() && ids[j]@ == id@ {
        ids
    } else {
        ids.push(id)
    }
}

/// A copy of a list of strings.
fn clone_strings(v: &Vec<String>) -> (r: Vec<String>)
    ensures
        r@ == v@,
{
    let r = v.clone();
    assert forall|i: int| 0 <= i < v@.len() implies r@[i] == v@[i] by {
        assert(cloned::<String>(v[i], r[i]));
    }
    assert(r@ =~= v@);
    r
}

/// Whether `x` fits an `i64`.
pub open spec fn fits_i64(x: int) -> bool {
    i64::MIN <= x <= i64::MAX
}

/// Whether an optional tracker entry fits an `i64`.
pub open spec fn entry_fits(o: Option<int>) -> bool {
    match o {
        Some(v) => fits_i64(v),
        None => true,
    }
}

impl Reconciliation {
    /// Every tracker value that an event `h` of kind `t` on `day` writes fits an `i64`.
    pub open spec fn trackers_fit(self, t: Transition, h: ProshipInventoryHistory, day: i64) -> bool {
        &&& entry_fits(self.on_hand_next(t, h, day, day, h.goods_issue_id@))
        &&& entry_fits(self.disposal_next(t, h, day, day, h.new_status))
        &&& entry_fits(self.disposal_next(t, h, day, day, h.old_status))
        &&& fits_i64(self.allocated_next(t, h, h.goods_issue_id@))
        &&& fits_i64(self.disposal_total_next(t, h, h.new_status))
        &&& fits_i64(self.disposal_total_next(t, h, h.old_status))
    }
}

/// Whether an event can be applied with every figure inside its integer
/// type: the day's movement totals and storage duration in `i32`, the
/// trackers in `i64`.
pub open spec fn event_fits(prev: Reconciliation, h: ProshipInventoryHistory, ctx: ReconcileContext) -> bool {
    let day = local_day(h.created_at as int) as i64;
    let t = transition_of(h.old_status, h.new_status);
    let basis = prev.basis_spec(t, h, day);
    let d = deltas_spec(t, h.quantity as int, basis.0 as int, basis.1);
    let prior = prev.prior_movements(day);
    ||| h.new_status == EnumProshipType_InventoryStatus::PENDING_FOR_IMPORT_INVENTORY_STATUS
    ||| {
        &&& clamp0(prior.0 + d.0) <= i32::MAX
        &&& clamp0(prior.1 + d.1) <= i32::MAX
        &&& clamp0(prior.2 + d.2) <= i32::MAX
        &&& clamp0(prior.3 + d.3) <= i32::MAX
        &&& t == Transition::Export ==> storage_days_spec(
            ctx.from_date,
            ctx.goods_receipt.imported_at,
            storage_end(ctx.to_date, h.created_at as int),
        ) <= i32::MAX
        &&& prev.trackers_fit(t, h, day)
    }
}

/// Whether the ledger can be closed at `now` with every figure inside its
/// integer type: the storage duration in `i32` and, for a trailing day, the
/// cutoff as an `i32` date.
pub open spec fn close_fits(prev: Reconciliation, ctx: ReconcileContext, now: int) -> bool {
    let cutoff = cutoff_spec(ctx.to_date, now);
    let cday = local_day(cutoff);
    let days = storage_days_spec(ctx.from_date, ctx.goods_receipt.imported_at, cutoff);
    if exists|i: int| 0 <= i < prev.buckets@.len() && prev.buckets@[i].day == cday {
        days <= i32::MAX
    } else if prev.last_stock_qty > 0 {
        days <= i32::MAX && i32::MIN <= cutoff <= i32::MAX
    } else {
        true
    }
}

/// `states` runs from a fresh reconciliation through the first `k` events.
pub open spec fn run_prefix(states: Seq<Reconciliation>, events: Seq<ProshipInventoryHistory>, ctx: ReconcileContext, k: int) -> bool {
    &&& 0 <= k <= events.len()
    &&& states.len() == k + 1
    &&& fresh(states[0], 0)
    &&& forall|i: int| 0 <= i < k ==> #[trigger] event_applied(states[i], states[i + 1], events[i], ctx)
}

/// The run over `events` reaches a step that does not fit: an event, the
/// close, or the total duration leaves its integer type.
pub open spec fn run_overflows(events: Seq<ProshipInventoryHistory>, ctx: ReconcileContext, now: int) -> bool {
    ||| exists|states: Seq<Reconciliation>, k: int|
        #[trigger] run_prefix(states, events, ctx, k) && k < events.len() && !event_fits(states[k], events[k], ctx)
    ||| exists|states: Seq<Reconciliation>|
        #[trigger] run_prefix(states, events, ctx, events.len() as int) && !close_fits(states.last(), ctx, now)
    ||| exists|states: Seq<Reconciliation>|
        #[trigger] history_reconciled(states, events, ctx, now)
            && !fits_i64(duration_sum(states.last().buckets@, ctx.from_date, ctx.to_date))
}

proof fn lemma_applied_fits(prev: Reconciliation, next: Reconciliation, h: ProshipInventoryHistory, ctx: ReconcileContext)
    requires
        prev.wf(ctx.measures()),
        event_applied(prev, next, h, ctx),
    ensures
        event_fits(prev, h, ctx),
{
    if h.new_status != EnumProshipType_InventoryStatus::PENDING_FOR_IMPORT_INVENTORY_STATUS {
        let day = local_day(h.created_at as int) as i64;
        let t = transition_of(h.old_status, h.new_status);
        assert(opt_int(on_hand_lookup(next.on_hand@, day, h.goods_issue_id@)) == prev.on_hand_next(t, h, day, day, h.goods_issue_id@));
        assert(opt_int(disposal_lookup(next.disposal@, day, h.new_status)) == prev.disposal_next(t, h, day, day, h.new_status));
        assert(opt_int(disposal_lookup(next.disposal@, day, h.old_status)) == prev.disposal_next(t, h, day, day, h.old_status));
        assert(allocated_lookup(next.allocated_totals@, h.goods_issue_id@) == prev.allocated_next(t, h, h.goods_issue_id@));
        assert(next.disposal_total_spec(h.new_status) == prev.disposal_total_next(t, h, h.new_status));
        assert(next.disposal_total_spec(h.old_status) == prev.disposal_total_next(t, h, h.old_status));
    }
}

proof fn lemma_fits_agrees(p1: Reconciliation, p2: Reconciliation, h: ProshipInventoryHistory, ctx: ReconcileContext, now: int)
    requires
        same_ledger(p1, p2),
        p1.wf(ctx.measures()),
        p2.wf(ctx.measures()),
    ensures
        event_fits(p1, h, ctx) == event_fits(p2, h, ctx),
        close_fits(p1, ctx, now) == close_fits(p2, ctx, now),
{
    let day = local_day(h.created_at as int) as i64;
    let t = transition_of(h.old_status, h.new_status);
    lemma_prior_agrees(p1, p2, ctx.measures(), day);
    lemma_prior_agrees(p1, p2, ctx.measures(), local_day(cutoff_spec(ctx.to_date, now)) as i64);
    assert(p1.basis_spec(t, h, day) == p2.basis_spec(t, h, day));
    assert(p1.on_hand_next(t, h, day, day, h.goods_issue_id@) == p2.on_hand_next(t, h, day, day, h.goods_issue_id@));
    assert(p1.disposal_next(t, h, day, day, h.new_status) == p2.disposal_next(t, h, day, day, h.new_status));
    assert(p1.disposal_next(t, h, day, day, h.old_status) == p2.disposal_next(t, h, day, day, h.old_status));
    assert(p1.allocated_next(t, h, h.goods_issue_id@) == p2.allocated_next(t, h, h.goods_issue_id@));
    assert(p1.disposal_total_next(t, h, h.new_status) == p2.disposal_total_next(t, h, h.new_status));
    assert(p1.disposal_total_next(t, h, h.old_status) == p2.disposal_total_next(t, h, h.old_status));
}

proof fn lemma_run_prefix_agrees(
    s1: Seq<Reconciliation>,
    s2: Seq<Reconciliation>,
    events: Seq<ProshipInventoryHistory>,
    ctx: ReconcileContext,
    now: int,
    k: int,
    i: int,
)
    requires
        history_reconciled(s1, events, ctx, now),
        run_prefix(s2, events, ctx, k),
        0 <= i <= k,
    ensures
        same_ledger(s1[i], s2[i]),
        s1[i].wf(ctx.measures()),
        s2[i].wf(ctx.measures()),
    decreases i,
{
    if i == 0 {
        assert(same_ledger(s1[0], s2[0]));
    } else {
        let j = i - 1;
        lemma_run_prefix_agrees(s1, s2, events, ctx, now, k, j);
        assert(event_applied(s1[j], s1[j + 1], events[j], ctx));
        assert(event_applied(s2[j], s2[j + 1], events[j], ctx));
        lemma_step_agrees(s1[j], s2[j], s1[j + 1], s2[j + 1], events[j], ctx);
    }
}

/// Where one reconciliation of some events in some context, closed at some
/// instant, completes with a total that fits, no reconciliation of the same
/// inputs overflows: success and failure depend on the inputs alone.
pub proof fn lemma_outcome_deterministic(
    s1: Seq<Reconciliation>,
    events: Seq<ProshipInventoryHistory>,
    ctx: ReconcileContext,
    now: int,
)
    requires
        history_reconciled(s1, events, ctx, now),
        fits_i64(duration_sum(s1.last().buckets@, ctx.from_date, ctx.to_date)),
    ensures
        !run_overflows(events, ctx, now),
{
    let n = events.len() as int;
    assert forall|s2: Seq<Reconciliation>, k: int|
        #[trigger] run_prefix(s2, events, ctx, k) && k < events.len() implies event_fits(s2[k], events[k], ctx) by {
        lemma_run_prefix_agrees(s1, s2, events, ctx, now, k, k);
        assert(event_applied(s1[k], s1[k + 1], events[k], ctx));
        lemma_applied_fits(s1[k], s1[k + 1], events[k], ctx);
        lemma_fits_agrees(s1[k], s2[k], events[k], ctx, now);
    }
    assert forall|s2: Seq<Reconciliation>|
        #[trigger] run_prefix(s2, events, ctx, n) implies close_fits(s2.last(), ctx, now) by {
        lemma_run_prefix_agrees(s1, s2, events, ctx, now, n, n);
        assert(s2.last() == s2[n]);
        lemma_fits_agrees(s1[n], s2[n], events[0], ctx, now);
        assert(ledger_closed(s1[n], s1[n + 1], ctx, now));
        let cutoff = cutoff_spec(ctx.to_date, now);
        if !(exists|i: int| 0 <= i < s1[n].buckets@.len() && s1[n].buckets@[i].day == local_day(cutoff))
            && s1[n].last_stock_qty > 0 {
            assert(s1[n + 1].buckets@.last().data.date == cutoff);
        }
    }
    assert forall|s2: Seq<Reconciliation>|
        #[trigger] history_reconciled(s2, events, ctx, now) implies fits_i64(
        duration_sum(s2.last().buckets@, ctx.from_date, ctx.to_date),
    ) by {
        lemma_reconciliation_deterministic(s1, s2, events, ctx, now);
    }
}

/// `events` without those whose new status is PENDING_FOR_IMPORT, in order.
pub open spec fn realized(events: Seq<ProshipInventoryHistory>) -> Seq<ProshipInventoryHistory>
    decreases events.len(),
{
    if events.len() == 0 {
        Seq::empty()
    } else if events.last().new_status == EnumProshipType_InventoryStatus::PENDING_FOR_IMPORT_INVENTORY_STATUS {
        realized(events.drop_last())
    } else {
        realized(events.drop_last()).push(events.last())
    }
}

proof fn lemma_realized_run(states: Seq<Reconciliation>, events: Seq<ProshipInventoryHistory>, ctx: ReconcileContext) -> (r: Seq<Reconciliation>)
    requires
        run_prefix(states, events, ctx, events.len() as int),
    ensures
        run_prefix(r, realized(events), ctx, realized(events).len() as int),
        r.last() == states.last(),
    decreases events.len(),
{
    let n = events.len() as int;
    if n == 0 {
        states
    } else {
        let short = states.take(n);
        let evs = events.drop_last();
        assert forall|i: int| 0 <= i < n - 1 implies #[trigger] event_applied(short[i], short[i + 1], evs[i], ctx) by {
            assert(event_applied(states[i], states[i + 1], events[i], ctx));
        }
        assert(run_prefix(short, evs, ctx, n - 1));
        let r0 = lemma_realized_run(short, evs, ctx);
        assert(r0.last() == states[n - 1]);
        assert(event_applied(states[n - 1], states[n], events[n - 1], ctx));
        if events.last().new_status == EnumProshipType_InventoryStatus::PENDING_FOR_IMPORT_INVENTORY_STATUS {
            r0
        } else {
            let r = r0.push(states[n]);
            let rev = realized(events);
            let m = realized(evs).len() as int;
            assert(rev == realized(evs).push(events.last()));
            assert forall|i: int| 0 <= i < m + 1 implies #[trigger] event_applied(r[i], r[i + 1], rev[i], ctx) by {
                if i < m {
                    assert(event_applied(r0[i], r0[i + 1], realized(evs)[i], ctx));
                }
            }
            r
        }
    }
}

/// Dropping every event whose new status is PENDING_FOR_IMPORT changes no
/// day of the reconciled ledger: any reconciliation of the remaining events,
/// in the same context and closed at the same instant, has the same days with
/// the same figures and the same total storage duration.
pub proof fn lemma_pending_events_ignored(
    s: Seq<Reconciliation>,
    s3: Seq<Reconciliation>,
    events: Seq<ProshipInventoryHistory>,
    ctx: ReconcileContext,
    now: int,
)
    requires
        history_reconciled(s, events, ctx, now),
        history_reconciled(s3, realized(events), ctx, now),
    ensures
        same_buckets(s.last().buckets@, s3.last().buckets@),
        duration_sum(s.last().buckets@, ctx.from_date, ctx.to_date)
            == duration_sum(s3.last().buckets@, ctx.from_date, ctx.to_date),
{
    let n = events.len() as int;
    let pre = s.take(n + 1);
    assert forall|i: int| 0 <= i < n implies #[trigger] event_applied(pre[i], pre[i + 1], events[i], ctx) by {
        assert(event_applied(s[i], s[i + 1], events[i], ctx));
    }
    let r = lemma_realized_run(pre, events, ctx);
    let m = realized(events).len() as int;
    let s2 = r.push(s[n + 1]);
    assert forall|i: int| 0 <= i < m implies #[trigger] event_applied(s2[i], s2[i + 1], realized(events)[i], ctx) by {
        assert(event_applied(r[i], r[i + 1], realized(events)[i], ctx));
    }
    assert(history_reconciled(s2, realized(events), ctx, now));
    lemma_reconciliation_deterministic(s2, s3, realized(events), ctx, now);
}

/// What stays fixed while one item's history is reconciled.
#[derive(Clone, Debug)]
pub struct ReconcileContext {
    pub inventory: ProshipInventory,
    pub asin_outbound_list: Vec<String>,
    pub goods_receipt: ProshipGoodsReceipt,
    /// Units received, booked on the goods-receipt day.
    pub inbound_qty: i32,
    pub from_date: Option<i32>,
    pub to_date: Option<i32>,
}

impl ReconcileContext {
    pub open spec fn measures(self) -> Measures {
        Measures {
            inner_qty_on_mas: self.inventory.inner_qty_on_mas,
            volume: self.inventory.volume,
            master_volume: self.inventory.master_volume,
        }
    }

    pub open spec fn valid(self) -> bool {
        self.inventory.inner_qty_on_mas >= 1
    }

    fn get_measures(&self) -> (r: Measures)
        ensures
            r == self.measures(),
    {
        Measures {
            inner_qty_on_mas: self.inventory.inner_qty_on_mas,
            volume: self.inventory.volume,
            master_volume: self.inventory.master_volume,
        }
    }
}

/// Start of the storage window: the later of the window's start and the receipt.
pub open spec fn storage_start(from_date: Option<i32>, imported_at: i32) -> int {
    match from_date {
        Some(f) => if f < imported_at { imported_at as int } else { f as int },
        None => imported_at as int,
    }
}

/// End of the storage window for an instant `t`: the earlier of `t` and the window's end.
pub open spec fn storage_end(to_date: Option<i32>, t: int) -> int {
    match to_date {
        Some(e) => if e <= t { e as int } else { t },
        None => t,
    }
}

/// Inclusive storage days from the window's start to `end`.
pub open spec fn storage_days_spec(from_date: Option<i32>, imported_at: i32, end: int) -> int {
    days_between_spec(storage_start(from_date, imported_at), end) + 1
}

/// Clamped update of a movement total: `cur + delta`, floored at zero.
fn bump(cur: i32, delta: i128) -> (r: Result<i32, ProcessError>)
    requires
        -0x4_0000_0000_0000_0000 <= delta <= 0x4_0000_0000_0000_0000,
    ensures
        r matches Ok(v) ==> v == clamp0(cur + delta),
        r is Err <==> clamp0(cur + delta) > i32::MAX,
        r is Err ==> r == Err::<i32, ProcessError>(ProcessError::Overflow),
{
    let x: i128 = cur as i128 + delta;
    if x < 0 {
        Ok(0)
    } else if x > i32::MAX as i128 {
        Err(ProcessError::Overflow)
    } else {
        Ok(x as i32)
    }
}

/// Narrows a tracker value to `i64`.
fn narrow(x: i128) -> (r: Result<i64, ProcessError>)
    ensures
        r matches Ok(v) ==> v == x,
        r is Err <==> !(i64::MIN <= x <= i64::MAX),
{
    if x < i64::MIN as i128 || x > i64::MAX as i128 {
        Err(ProcessError::Overflow)
    } else {
        Ok(x as i64)
    }
}

/// Applies `d` to a snapshot's four movement totals, each floored at zero, and
/// recomputes their volume and carton figures from the new unit quantities.
pub fn apply_deltas(data: &mut InventoryData, d: &Deltas, m: &Measures) -> (r: Result<(), ProcessError>)
    requires
        m.valid(),
        -0x4_0000_0000_0000_0000 <= d.allocated <= 0x4_0000_0000_0000_0000,
        -0x4_0000_0000_0000_0000 <= d.disposal <= 0x4_0000_0000_0000_0000,
        -0x4_0000_0000_0000_0000 <= d.restore <= 0x4_0000_0000_0000_0000,
        -0x4_0000_0000_0000_0000 <= d.outbound <= 0x4_0000_0000_0000_0000,
        measures_consistent(*old(data), *m),
    ensures
        r is Ok <==> (clamp0(old(data).allocated_qty + d.allocated) <= i32::MAX
            && clamp0(old(data).disposal_stock + d.disposal) <= i32::MAX
            && clamp0(old(data).restore_stock_qty + d.restore) <= i32::MAX
            && clamp0(old(data).outbound_qty + d.outbound) <= i32::MAX),
        r is Ok ==> {
            &&& final(data).allocated_qty == clamp0(old(data).allocated_qty + d.allocated)
            &&& final(data).disposal_stock == clamp0(old(data).disposal_stock + d.disposal)
            &&& final(data).restore_stock_qty == clamp0(old(data).restore_stock_qty + d.restore)
            &&& final(data).outbound_qty == clamp0(old(data).outbound_qty + d.outbound)
            &&& measures_consistent(*final(data), *m)
            &&& movements_nonneg(*final(data))
            &&& final(data).opening_stock == old(data).opening_stock
            &&& final(data).inbound_qty == old(data).inbound_qty
            &&& final(data).closing_stock == old(data).closing_stock
            &&& final(data).date == old(data).date
            &&& final(data).storage_time_days == old(data).storage_time_days
            &&& metadata_of(*final(data)) == metadata_of(*old(data))
        },
{
    let a = bump(data.allocated_qty, d.allocated)?;
    let b = bump(data.disposal_stock, d.disposal)?;
    let c = bump(data.restore_stock_qty, d.restore)?;
    let o = bump(data.outbound_qty, d.outbound)?;
    let (a_cbm, a_mas) = m.measure(a);
    let (b_cbm, b_mas) = m.measure(b);
    let (c_cbm, c_mas) = m.measure(c);
    let (o_cbm, o_mas) = m.measure(o);
    data.allocated_qty = a;
    data.allocated_cbm = a_cbm;
    data.allocated_master_qty = a_mas;
    data.disposal_stock = b;
    data.disposal_cbm = b_cbm;
    data.disposal_master_qty = b_mas;
    data.restore_stock_qty = c;
    data.restore_stock_cbm = c_cbm;
    data.restore_master_qty = c_mas;
    data.outbound_qty = o;
    data.outbound_cbm = o_cbm;
    data.outbound_master_qty = o_mas;
    Ok(())
}

proof fn lemma_zero_measures(m: Measures)
    requires
        m.valid(),
    ensures
        m.cbm(0) == 0,
        m.master(0) == 0,
{
    let n = m.inner_qty_on_mas as int;
    assert(0int / n == 0) by (nonlinear_arith)
        requires n >= 1;
    assert((n - 1) / n == 0) by (nonlinear_arith)
        requires n >= 1;
    reveal_with_fuel(crate::units::pow10, 4);
    assert(crate::units::pow10(3) == 1000);
    assert(0 * (m.master_volume as int) == 0 && 0 * (m.volume as int) == 0 && 0 * n == 0);
    assert(crate::units::raw_volume(0, n, m.volume as int, m.master_volume as int) == 0);
    assert((0int + 500) / 1000 == 0);
}

/// The running state of one reconciliation: the day buckets so far, the stock
/// carried to the next day, and the four trackers.
pub struct Reconciliation {
    pub buckets: Vec<DayBucket>,
    pub last_stock_qty: i32,
    pub on_hand: Vec<OnHandEntry>,
    pub disposal: Vec<DisposalEntry>,
    pub total_damaged: i64,
    pub total_returned: i64,
    pub total_liquidation: i64,
    pub allocated_totals: Vec<IssueTotal>,
}

impl Reconciliation {
    /// Every bucket is consistent with the converters and has no negative
    /// movement total, and no two buckets share a day.
    pub open spec fn wf(self, m: Measures) -> bool {
        &&& forall|i: int| 0 <= i < self.buckets@.len() ==> #[trigger] bucket_wf(self.buckets@[i], m)
        &&& forall|i: int, j: int|
            0 <= i < self.buckets@.len() && 0 <= j < self.buckets@.len() && i != j
                ==> #[trigger] self.buckets@[i].day != #[trigger] self.buckets@[j].day
    }

    /// A reconciliation with no buckets, whose next opening balance is `carried_stock`.
    pub fn new(carried_stock: i32) -> (r: Reconciliation)
        ensures
            fresh(r, carried_stock),
            forall|m: Measures| r.wf(m),
    {
        Reconciliation {
            buckets: Vec::new(),
            last_stock_qty: carried_stock,
            on_hand: Vec::new(),
            disposal: Vec::new(),
            total_damaged: 0,
            total_returned: 0,
            total_liquidation: 0,
            allocated_totals: Vec::new(),
        }
    }

    /// Index of the bucket of `day`, if there is one.
    pub fn find_bucket(&self, day: i64) -> (r: Option<usize>)
        ensures
            r matches Some(i) ==> i < self.buckets@.len() && self.buckets@[i as int].day == day,
            r is None ==> forall|i: int| 0 <= i < self.buckets@.len() ==> self.buckets@[i].day != day,
    {
        let mut i: usize = 0;
        while i < self.buckets.len()
            invariant
                i <= self.buckets@.len(),
                forall|j: int| 0 <= j < i ==> self.buckets@[j].day != day,
            decreases self.buckets@.len() - i,
        {
            if self.buckets[i].day == day {
                return Some(i);
            }
            i = i + 1;
        }
        None
    }

    /// Index of the latest on-hand entry of shipment `id` on `day`.
    fn find_on_hand(&self, day: i64, id: &String) -> (r: Option<usize>)
        ensures
            r matches Some(i) ==> {
                &&& i < self.on_hand@.len()
                &&& self.on_hand@[i as int].day == day
                &&& self.on_hand@[i as int].goods_issue_id@ == id@
                &&& forall|j: int| i < j < self.on_hand@.len() ==> !(self.on_hand@[j].day == day
                    && self.on_hand@[j].goods_issue_id@ == id@)
            },
            r is None ==> on_hand_lookup(self.on_hand@, day, id@) is None,
    {
        let mut i: usize = self.on_hand.len();
        assert(self.on_hand@.subrange(0, i as int) =~= self.on_hand@);
        while i > 0
            invariant
                i <= self.on_hand@.len(),
                on_hand_lookup(self.on_hand@, day, id@) == on_hand_lookup(self.on_hand@.subrange(0, i as int), day, id@),
                forall|j: int| i <= j < self.on_hand@.len() ==> !(self.on_hand@[j].day == day
                    && self.on_hand@[j].goods_issue_id@ == id@),
            decreases i,
        {
            let ghost pre = self.on_hand@.subrange(0, i as int);
            assert(pre.drop_last() =~= self.on_hand@.subrange(0, i as int - 1));
            assert(pre.last() == self.on_hand@[i as int - 1]);
            if self.on_hand[i - 1].day == day && self.on_hand[i - 1].goods_issue_id == *id {
                return Some(i - 1);
            }
            i = i - 1;
        }
        None
    }

    /// Index of the latest disposal entry of `status` on `day`.
    fn find_disposal(&self, day: i64, status: EnumProshipType_InventoryStatus) -> (r: Option<usize>)
        ensures
            r matches Some(i) ==> {
                &&& i < self.disposal@.len()
                &&& self.disposal@[i as int].day == day
                &&& self.disposal@[i as int].status == status
                &&& forall|j: int| i < j < self.disposal@.len() ==> !(self.disposal@[j].day == day
                    && self.disposal@[j].status == status)
            },
            r is None ==> disposal_lookup(self.disposal@, day, status) is None,
    {
        let mut i: usize = self.disposal.len();
        assert(self.disposal@.subrange(0, i as int) =~= self.disposal@);
        while i > 0
            invariant
                i <= self.disposal@.len(),
                disposal_lookup(self.disposal@, day, status) == disposal_lookup(self.disposal@.subrange(0, i as int), day, status),
                forall|j: int| i <= j < self.disposal@.len() ==> !(self.disposal@[j].day == day
                    && self.disposal@[j].status == status),
            decreases i,
        {
            let ghost pre = self.disposal@.subrange(0, i as int);
            assert(pre.drop_last() =~= self.disposal@.subrange(0, i as int - 1));
            assert(pre.last() == self.disposal@[i as int - 1]);
            if self.disposal[i - 1].day == day && self.disposal[i - 1].status == status {
                return Some(i - 1);
            }
            i = i - 1;
        }
        None
    }

    /// Index of the latest allocated total of shipment `id`.
    fn find_allocated_total(&self, id: &String) -> (r: Option<usize>)
        ensures
            r matches Some(i) ==> {
                &&& i < self.allocated_totals@.len()
                &&& self.allocated_totals@[i as int].goods_issue_id@ == id@
                &&& forall|j: int| i < j < self.allocated_totals@.len()
                    ==> self.allocated_totals@[j].goods_issue_id@ != id@
            },
            r is None ==> forall|j: int| 0 <= j < self.allocated_totals@.len()
                ==> self.allocated_totals@[j].goods_issue_id@ != id@,
    {
        let mut i: usize = self.allocated_totals.len();
        while i > 0
            invariant
                i <= self.allocated_totals@.len(),
                forall|j: int| i <= j < self.allocated_totals@.len()
                    ==> self.allocated_totals@[j].goods_issue_id@ != id@,
            decreases i,
        {
            if self.allocated_totals[i - 1].goods_issue_id == *id {
                return Some(i - 1);
            }
            i = i - 1;
        }
        None
    }

    /// The on-hand ledger entry of a shipment on a day.
    fn on_hand_qty(&self, day: i64, id: &String) -> (r: Option<i64>)
        ensures
            r == on_hand_lookup(self.on_hand@, day, id@),
    {
        match self.find_on_hand(day, id) {
            Some(i) => {
                proof {
                    let s0 = self.on_hand@;
                    lemma_on_hand_update(s0, i as int, s0[i as int].qty, day, id@, day, id@);
                    assert(s0.update(i as int, OnHandEntry { qty: s0[i as int].qty, ..s0[i as int] }) =~= s0);
                }
                Some(self.on_hand[i].qty)
            },
            None => None,
        }
    }

    /// Sets the on-hand ledger entry of a shipment on a day.
    fn set_on_hand(&mut self, day: i64, id: &String, qty: i64)
        ensures
            forall|st: EnumProshipType_InventoryStatus| #[trigger] final(self).disposal_total_spec(st)
                == old(self).disposal_total_spec(st),
            final(self).buckets == old(self).buckets,
            final(self).last_stock_qty == old(self).last_stock_qty,
            final(self).disposal == old(self).disposal,
            final(self).allocated_totals == old(self).allocated_totals,
            final(self).total_damaged == old(self).total_damaged,
            final(self).total_returned == old(self).total_returned,
            final(self).total_liquidation == old(self).total_liquidation,
            forall|dy: i64, k: Seq<char>| #[trigger] on_hand_lookup(final(self).on_hand@, dy, k)
                == if dy == day && k == id@ { Some(qty) } else { on_hand_lookup(old(self).on_hand@, dy, k) },
    {
        match self.find_on_hand(day, id) {
            Some(i) => {
                let ghost s0 = self.on_hand@;
                self.on_hand[i].qty = qty;
                proof {
                    assert forall|dy: i64, k: Seq<char>| #[trigger] on_hand_lookup(self.on_hand@, dy, k)
                        == if dy == day && k == id@ { Some(qty) } else { on_hand_lookup(s0, dy, k) } by {
                        lemma_on_hand_update(s0, i as int, qty, day, id@, dy, k);
                    }
                }
            },
            None => {
                let ghost s0 = self.on_hand@;
                self.on_hand.push(OnHandEntry { day, goods_issue_id: id.clone(), qty });
                proof {
                    assert(self.on_hand@.drop_last() =~= s0);
                }
            },
        }
    }

    /// Adds `delta` to the on-hand ledger entry of a shipment on a day, which
    /// starts at zero; with `create` false an absent entry stays absent.
    fn add_on_hand(&mut self, day: i64, id: &String, delta: i64, create: bool) -> (r: Result<(), ProcessError>)
        ensures
            r is Err ==> (on_hand_lookup(old(self).on_hand@, day, id@) matches Some(v) && !fits_i64(v + delta)),
            forall|st: EnumProshipType_InventoryStatus| #[trigger] final(self).disposal_total_spec(st)
                == old(self).disposal_total_spec(st),
            final(self).buckets == old(self).buckets,
            final(self).last_stock_qty == old(self).last_stock_qty,
            final(self).disposal == old(self).disposal,
            final(self).allocated_totals == old(self).allocated_totals,
            final(self).total_damaged == old(self).total_damaged,
            final(self).total_returned == old(self).total_returned,
            final(self).total_liquidation == old(self).total_liquidation,
            r is Ok ==> forall|dy: i64, k: Seq<char>| opt_int(#[trigger] on_hand_lookup(final(self).on_hand@, dy, k))
                == if dy == day && k == id@ {
                    on_hand_added(on_hand_lookup(old(self).on_hand@, day, id@), delta as int, create)
                } else {
                    opt_int(on_hand_lookup(old(self).on_hand@, dy, k))
                },
    {
        match self.on_hand_qty(day, id) {
            Some(q) => {
                let v = narrow(q as i128 + delta as i128)?;
                self.set_on_hand(day, id, v);
            },
            None => {
                if create {
                    self.set_on_hand(day, id, delta);
                }
            },
        }
        Ok(())
    }

    fn disposal_qty(&self, day: i64, status: EnumProshipType_InventoryStatus) -> (r: Option<i64>)
        ensures
            r == disposal_lookup(self.disposal@, day, status),
    {
        match self.find_disposal(day, status) {
            Some(i) => {
                proof {
                    let s0 = self.disposal@;
                    lemma_disposal_update(s0, i as int, s0[i as int].qty, day, status, day, status);
                    assert(s0.update(i as int, DisposalEntry { qty: s0[i as int].qty, ..s0[i as int] }) =~= s0);
                }
                Some(self.disposal[i].qty)
            },
            None => None,
        }
    }

    fn set_disposal(&mut self, day: i64, status: EnumProshipType_InventoryStatus, qty: i64)
        ensures
            forall|st: EnumProshipType_InventoryStatus| #[trigger] final(self).disposal_total_spec(st)
                == old(self).disposal_total_spec(st),
            final(self).buckets == old(self).buckets,
            final(self).last_stock_qty == old(self).last_stock_qty,
            final(self).on_hand == old(self).on_hand,
            final(self).allocated_totals == old(self).allocated_totals,
            final(self).total_damaged == old(self).total_damaged,
            final(self).total_returned == old(self).total_returned,
            final(self).total_liquidation == old(self).total_liquidation,
            forall|dy: i64, st: EnumProshipType_InventoryStatus| #[trigger] disposal_lookup(final(self).disposal@, dy, st)
                == if dy == day && st == status { Some(qty) } else { disposal_lookup(old(self).disposal@, dy, st) },
    {
        match self.find_disposal(day, status) {
            Some(i) => {
                let ghost s0 = self.disposal@;
                self.disposal[i].qty = qty;
                proof {
                    assert forall|dy: i64, st: EnumProshipType_InventoryStatus| #[trigger] disposal_lookup(self.disposal@, dy, st)
                        == if dy == day && st == status { Some(qty) } else { disposal_lookup(s0, dy, st) } by {
                        lemma_disposal_update(s0, i as int, qty, day, status, dy, st);
                    }
                }
            },
            None => {
                let ghost s0 = self.disposal@;
                self.disposal.push(DisposalEntry { day, status, qty });
                proof {
                    assert(self.disposal@.drop_last() =~= s0);
                }
            },
        }
    }

    /// Adds `delta` to the disposal ledger entry of `status` on `day`, which starts at zero.
    fn add_disposal(&mut self, day: i64, status: EnumProshipType_InventoryStatus, delta: i64) -> (r: Result<(), ProcessError>)
        ensures
            r is Err ==> !fits_i64(match disposal_lookup(old(self).disposal@, day, status) { Some(v) => v as int, None => 0 } + delta),
            forall|st: EnumProshipType_InventoryStatus| #[trigger] final(self).disposal_total_spec(st)
                == old(self).disposal_total_spec(st),
            final(self).buckets == old(self).buckets,
            final(self).last_stock_qty == old(self).last_stock_qty,
            final(self).on_hand == old(self).on_hand,
            final(self).allocated_totals == old(self).allocated_totals,
            final(self).total_damaged == old(self).total_damaged,
            final(self).total_returned == old(self).total_returned,
            final(self).total_liquidation == old(self).total_liquidation,
            r is Ok ==> forall|dy: i64, st: EnumProshipType_InventoryStatus| opt_int(#[trigger] disposal_lookup(final(self).disposal@, dy, st))
                == if dy == day && st == status {
                    on_hand_added(disposal_lookup(old(self).disposal@, day, status), delta as int, true)
                } else {
                    opt_int(disposal_lookup(old(self).disposal@, dy, st))
                },
    {
        let cur: i64 = match self.disposal_qty(day, status) {
            Some(q) => q,
            None => 0,
        };
        let v = narrow(cur as i128 + delta as i128)?;
        self.set_disposal(day, status, v);
        Ok(())
    }

    /// Lifetime disposal total of a disposal status.
    fn disposal_total(&self, status: EnumProshipType_InventoryStatus) -> (r: i64)
        ensures
            r == self.disposal_total_spec(status),
    {
        match status {
            EnumProshipType_InventoryStatus::DAMAGED_INVENTORY_STATUS => self.total_damaged,
            EnumProshipType_InventoryStatus::RETURN_INVENTORY_STATUS => self.total_returned,
            EnumProshipType_InventoryStatus::LIQUIDATION_INVENTORY_STATUS => self.total_liquidation,
            _ => 0,
        }
    }

    pub open spec fn disposal_total_spec(self, status: EnumProshipType_InventoryStatus) -> i64 {
        match status {
            EnumProshipType_InventoryStatus::DAMAGED_INVENTORY_STATUS => self.total_damaged,
            EnumProshipType_InventoryStatus::RETURN_INVENTORY_STATUS => self.total_returned,
            EnumProshipType_InventoryStatus::LIQUIDATION_INVENTORY_STATUS => self.total_liquidation,
            _ => 0,
        }
    }

    /// The running total and the day's ledger entry that an event of kind `t`
    /// reverses: the shipment's allocation for reversals out of ON_HAND, the
    /// old status's disposal for reversals out of a disposal status.
    pub open spec fn basis_spec(self, t: Transition, h: ProshipInventoryHistory, day: i64) -> (i64, Option<i64>) {
        match t {
            Transition::Deallocate | Transition::AllocatedToDisposal | Transition::Export => (
                allocated_lookup(self.allocated_totals@, h.goods_issue_id@),
                on_hand_lookup(self.on_hand@, day, h.goods_issue_id@),
            ),
            Transition::RestoreDisposal | Transition::DisposalToAllocated => (
                self.disposal_total_spec(h.old_status),
                disposal_lookup(self.disposal@, day, h.old_status),
            ),
            _ => (0, None),
        }
    }

    /// The allocated, disposal, restore and outbound totals of the bucket of
    /// `day` before an event, zeros where the day has no bucket yet.
    pub open spec fn prior_movements(self, day: i64) -> (int, int, int, int) {
        if exists|i: int| 0 <= i < self.buckets@.len() && self.buckets@[i].day == day {
            let i = choose|i: int| 0 <= i < self.buckets@.len() && self.buckets@[i].day == day;
            let d = self.buckets@[i].data;
            (d.allocated_qty as int, d.disposal_stock as int, d.restore_stock_qty as int, d.outbound_qty as int)
        } else {
            (0, 0, 0, 0)
        }
    }

    fn add_disposal_total(&mut self, status: EnumProshipType_InventoryStatus, delta: i64) -> (r: Result<(), ProcessError>)
        ensures
            r is Err ==> !fits_i64(old(self).disposal_total_spec(status) + delta),
            final(self).buckets == old(self).buckets,
            final(self).last_stock_qty == old(self).last_stock_qty,
            final(self).on_hand == old(self).on_hand,
            final(self).disposal == old(self).disposal,
            final(self).allocated_totals == old(self).allocated_totals,
            r is Ok ==> forall|st: EnumProshipType_InventoryStatus| #[trigger] final(self).disposal_total_spec(st)
                == if st == status && status.is_disposal() {
                    old(self).disposal_total_spec(st) + delta
                } else {
                    old(self).disposal_total_spec(st) as int
                },
    {
        let v = narrow(self.disposal_total(status) as i128 + delta as i128)?;
        match status {
            EnumProshipType_InventoryStatus::DAMAGED_INVENTORY_STATUS => {
                self.total_damaged = v;
            },
            EnumProshipType_InventoryStatus::RETURN_INVENTORY_STATUS => {
                self.total_returned = v;
            },
            EnumProshipType_InventoryStatus::LIQUIDATION_INVENTORY_STATUS => {
                self.total_liquidation = v;
            },
            _ => {},
        }
        Ok(())
    }

    /// Lifetime allocated total of a shipment; zero when it has none yet.
    fn allocated_total(&self, id: &String) -> (r: i64)
        ensures
            r == allocated_lookup(self.allocated_totals@, id@),
    {
        match self.find_allocated_total(id) {
            Some(i) => {
                proof {
                    lemma_allocated_update(self.allocated_totals@, i as int, 0, id@, id@);
                }
                self.allocated_totals[i].qty
            },
            None => {
                proof {
                    lemma_allocated_absent(self.allocated_totals@, id@);
                }
                0
            },
        }
    }

    fn add_allocated_total(&mut self, id: &String, delta: i64) -> (r: Result<(), ProcessError>)
        ensures
            r is Err ==> !fits_i64(allocated_lookup(old(self).allocated_totals@, id@) + delta),
            forall|st: EnumProshipType_InventoryStatus| #[trigger] final(self).disposal_total_spec(st)
                == old(self).disposal_total_spec(st),
            final(self).buckets == old(self).buckets,
            final(self).last_stock_qty == old(self).last_stock_qty,
            final(self).on_hand == old(self).on_hand,
            final(self).disposal == old(self).disposal,
            final(self).total_damaged == old(self).total_damaged,
            final(self).total_returned == old(self).total_returned,
            final(self).total_liquidation == old(self).total_liquidation,
            r is Ok ==> forall|k: Seq<char>| #[trigger] allocated_lookup(final(self).allocated_totals@, k)
                == if k == id@ {
                    allocated_lookup(old(self).allocated_totals@, id@) + delta
                } else {
                    allocated_lookup(old(self).allocated_totals@, k) as int
                },
    {
        match self.find_allocated_total(id) {
            Some(i) => {
                let ghost s0 = self.allocated_totals@;
                proof {
                    lemma_allocated_update(s0, i as int, 0, id@, id@);
                }
                let v = narrow(self.allocated_totals[i].qty as i128 + delta as i128)?;
                self.allocated_totals[i].qty = v;
                proof {
                    lemma_allocated_update(s0, i as int, v, id@, id@);
                    assert forall|k: Seq<char>| #[trigger] allocated_lookup(self.allocated_totals@, k)
                        == if k == id@ { v } else { allocated_lookup(s0, k) } by {
                        lemma_allocated_update(s0, i as int, v, id@, k);
                    }
                }
            },
            None => {
                let ghost s0 = self.allocated_totals@;
                proof {
                    lemma_allocated_absent(s0, id@);
                }
                self.allocated_totals.push(IssueTotal { goods_issue_id: id.clone(), qty: delta });
                proof {
                    assert(self.allocated_totals@.drop_last() =~= s0);
                }
            },
        }
        Ok(())
    }
}

/// The instant the ledger is closed at: `now`, or the window's end where that is earlier.
pub open spec fn cutoff_spec(to_date: Option<i32>, now: int) -> int {
    match to_date {
        Some(t) => if t > now { now } else { t as int },
        None => now,
    }
}

/// Sum of `storage_time_days` over the buckets inside the window `[from, to]`,
/// where both bounds are given; over all buckets otherwise.
pub open spec fn duration_sum(bs: Seq<DayBucket>, from_date: Option<i32>, to_date: Option<i32>) -> int
    decreases bs.len(),
{
    if bs.len() == 0 {
        0
    } else {
        duration_sum(bs.drop_last(), from_date, to_date) + if in_window(bs.last().data.date, from_date, to_date) {
            bs.last().data.storage_time_days as int
        } else {
            0
        }
    }
}

/// Whether a bucket dated `date` counts toward the total.
pub open spec fn in_window(date: i32, from_date: Option<i32>, to_date: Option<i32>) -> bool {
    match (from_date, to_date) {
        (Some(f), Some(t)) => f <= date <= t,
        _ => true,
    }
}

/// Total storage duration of `buckets` inside the window; `None` where it does
/// not fit an `i64`.
pub fn total_duration(buckets: &Vec<DayBucket>, from_date: Option<i32>, to_date: Option<i32>) -> (r: Option<i64>)
    ensures
        r matches Some(v) ==> v == duration_sum(buckets@, from_date, to_date),
        r is None <==> !(i64::MIN <= duration_sum(buckets@, from_date, to_date) <= i64::MAX),
{
    let mut sum: i128 = 0;
    let mut i: usize = 0;
    while i < buckets.len()
        invariant
            i <= buckets@.len(),
            sum == duration_sum(buckets@.subrange(0, i as int), from_date, to_date),
            -0x8000_0000 * i <= sum <= 0x8000_0000 * i,
        decreases buckets@.len() - i,
    {
        let b = &buckets[i];
        let counts = match (from_date, to_date) {
            (Some(f), Some(t)) => f <= b.data.date && b.data.date <= t,
            _ => true,
        };
        proof {
            let s = buckets@.subrange(0, i as int + 1);
            assert(s.drop_last() =~= buckets@.subrange(0, i as int));
            assert(s.last() == buckets@[i as int]);
            assert(i < 0x1_0000_0000_0000_0000);
        }
        if counts {
            sum = sum + b.data.storage_time_days as i128;
        }
        i = i + 1;
    }
    proof {
        assert(buckets@.subrange(0, buckets@.len() as int) =~= buckets@);
    }
    if sum < i64::MIN as i128 || sum > i64::MAX as i128 {
        None
    } else {
        Some(sum as i64)
    }
}

/// Adds `id` to a day's shipment list unless it is already there.
fn insert_issue_id(ids: &mut Vec<String>, id: &String)
    ensures
        final(ids)@ == ids_after(old(ids)@, *id),
        exists|i: int| 0 <= i < final(ids)@.len() && final(ids)@[i]@ == id@,
{
    let mut i: usize = 0;
    while i < ids.len()
        invariant
            i <= ids@.len(),
            ids@ == old(ids)@,
            forall|j: int| 0 <= j < i ==> ids@[j]@ != id@,
        decreases ids@.len() - i,
    {
        if ids[i] == *id {
            assert(ids@[i as int]@ == id@);
            return;
        }
        i = i + 1;
    }
    ids.push(id.clone());
    proof {
        assert(final(ids)@[old(ids)@.len() as int]@ == id@);
        assert(final(ids)@ =~= old(ids)@.push(*id));
    }
}

/// Inclusive storage days from the window's start to `end_instant`, clipped to
/// the window's end.
pub fn storage_days(ctx: &ReconcileContext, end_instant: i64) -> (r: Result<i32, ProcessError>)
    ensures
        r matches Ok(v) ==> v == storage_days_spec(
            ctx.from_date,
            ctx.goods_receipt.imported_at,
            storage_end(ctx.to_date, end_instant as int),
        ),
        r is Err <==> storage_days_spec(
            ctx.from_date,
            ctx.goods_receipt.imported_at,
            storage_end(ctx.to_date, end_instant as int),
        ) > i32::MAX,
{
    let imported = ctx.goods_receipt.imported_at;
    let start: i32 = match ctx.from_date {
        Some(f) => if f < imported { imported } else { f },
        None => imported,
    };
    let end: i64 = match ctx.to_date {
        Some(t) => if (t as i64) <= end_instant { t as i64 } else { end_instant },
        None => end_instant,
    };
    let days = days_between(start as i64, end);
    if days >= i32::MAX as i64 {
        Err(ProcessError::Overflow)
    } else {
        Ok(days as i32 + 1)
    }
}

impl Reconciliation {
    /// A new bucket for the day of `h`, opened at the carried stock, with the
    /// item's details and, on the goods-receipt day only, the inbound quantity.
    pub fn open_bucket(&self, h: &ProshipInventoryHistory, ctx: &ReconcileContext, day: i64) -> (r: Result<DayBucket, ProcessError>)
        requires
            ctx.valid(),
        ensures
            r matches Ok(b) ==> {
                &&& bucket_wf(b, ctx.measures())
                &&& b.day == day
                &&& b.key@ == gmt7_day_key(h.created_at as int)
                &&& b.data.opening_stock == self.last_stock_qty
                &&& b.data.closing_stock == 0
                &&& b.data.inbound_qty == (if local_day(h.created_at as int) == local_day(ctx.goods_receipt.imported_at as int) {
                    ctx.inbound_qty
                } else {
                    0i32
                })
                &&& b.data.allocated_qty == 0 && b.data.disposal_stock == 0
                &&& b.data.restore_stock_qty == 0 && b.data.outbound_qty == 0
                &&& b.data.date == h.created_at
                &&& b.data.storage_time_days == 0
                &&& b.goods_issue_ids@ == Seq::<String>::empty()
                &&& metadata_of(b.data) == context_metadata(*ctx)
            },
            r is Ok,
    {
        let key = match epoch_to_human_gmt7(h.created_at as i64) {
            Some(k) => k,
            None => {
                return Err(ProcessError::UnrepresentableDate);
            },
        };
        let m = ctx.get_measures();
        proof {
            lemma_zero_measures(m);
        }
        let inbound: i32 = if is_same_day_gmt7(h.created_at as i64, ctx.goods_receipt.imported_at as i64) {
            ctx.inbound_qty
        } else {
            0
        };
        let (open_cbm, open_mas) = m.measure(self.last_stock_qty);
        let (in_cbm, in_mas) = m.measure(inbound);
        let inv = &ctx.inventory;
        let data = InventoryData {
            opening_stock: self.last_stock_qty,
            opening_cbm: open_cbm,
            opening_master_qty: open_mas,
            asin: inv.asin.clone(),
            asin_outbound: clone_strings(&ctx.asin_outbound_list),
            unit_price: inv.unit_price,
            received_date: ctx.goods_receipt.imported_at,
            inner_qty_on_mas: inv.inner_qty_on_mas,
            date: h.created_at,
            line_in_cd: inv.index_customs_declaration.clone(),
            po_no: inv.po_no.clone(),
            master_dimension: inv.get_master_dimension(),
            dimension: inv.get_dimension(),
            inbound_qty: inbound,
            inbound_cbm: in_cbm,
            inbound_master_qty: in_mas,
            closing_stock: 0,
            closing_cbm: 0,
            closing_master_qty: 0,
            allocated_qty: 0,
            allocated_cbm: 0,
            allocated_master_qty: 0,
            disposal_stock: 0,
            disposal_cbm: 0,
            disposal_master_qty: 0,
            restore_stock_qty: 0,
            restore_stock_cbm: 0,
            restore_master_qty: 0,
            outbound_qty: 0,
            outbound_cbm: 0,
            outbound_master_qty: 0,
            storage_time_days: 0,
        };
        Ok(DayBucket { day, key, data, goods_issue_ids: Vec::new() })
    }

    /// Sets the closing stock of bucket `idx` from `h`, applies `d` to its
    /// movement totals and, for an export, records the shipment and stamps the
    /// storage duration.
    fn update_bucket(&mut self, idx: usize, h: &ProshipInventoryHistory, ctx: &ReconcileContext, t: Transition, d: &Deltas) -> (r: Result<(), ProcessError>)
        requires
            ctx.valid(),
            old(self).wf(ctx.measures()),
            idx < old(self).buckets@.len(),
            -0x4_0000_0000_0000_0000 <= d.allocated <= 0x4_0000_0000_0000_0000,
            -0x4_0000_0000_0000_0000 <= d.disposal <= 0x4_0000_0000_0000_0000,
            -0x4_0000_0000_0000_0000 <= d.restore <= 0x4_0000_0000_0000_0000,
            -0x4_0000_0000_0000_0000 <= d.outbound <= 0x4_0000_0000_0000_0000,
        ensures
            r is Err ==> {
                let o = old(self).buckets@[idx as int].data;
                ||| clamp0(o.allocated_qty + d.allocated) > i32::MAX
                ||| clamp0(o.disposal_stock + d.disposal) > i32::MAX
                ||| clamp0(o.restore_stock_qty + d.restore) > i32::MAX
                ||| clamp0(o.outbound_qty + d.outbound) > i32::MAX
                ||| t == Transition::Export && storage_days_spec(
                    ctx.from_date,
                    ctx.goods_receipt.imported_at,
                    storage_end(ctx.to_date, h.created_at as int),
                ) > i32::MAX
            },
            r is Ok ==> final(self).wf(ctx.measures()),
            r is Ok ==> final(self).buckets@.len() == old(self).buckets@.len(),
            r is Ok ==> final(self).buckets@[idx as int].day == old(self).buckets@[idx as int].day,
            r is Ok ==> final(self).buckets@[idx as int].data.closing_stock == h.stock_qty,
            r is Ok ==> final(self).buckets@[idx as int].data.opening_stock == old(self).buckets@[idx as int].data.opening_stock,
            r is Ok ==> final(self).buckets@[idx as int].data.inbound_qty == old(self).buckets@[idx as int].data.inbound_qty,
            r is Ok ==> final(self).buckets@[idx as int].key == old(self).buckets@[idx as int].key,
            r is Ok ==> final(self).buckets@[idx as int].data.date == old(self).buckets@[idx as int].data.date,
            r is Ok ==> metadata_of(final(self).buckets@[idx as int].data) == metadata_of(old(self).buckets@[idx as int].data),
            r is Ok ==> final(self).buckets@[idx as int].goods_issue_ids@ == if t == Transition::Export {
                ids_after(old(self).buckets@[idx as int].goods_issue_ids@, h.goods_issue_id)
            } else {
                old(self).buckets@[idx as int].goods_issue_ids@
            },
            r is Ok && t != Transition::Export ==> final(self).buckets@[idx as int].data.storage_time_days
                == old(self).buckets@[idx as int].data.storage_time_days,
            r is Ok && t == Transition::Export ==> {
                &&& final(self).buckets@[idx as int].data.storage_time_days == storage_days_spec(
                    ctx.from_date,
                    ctx.goods_receipt.imported_at,
                    storage_end(ctx.to_date, h.created_at as int),
                )
                &&& exists|j: int| 0 <= j < final(self).buckets@[idx as int].goods_issue_ids@.len()
                    && final(self).buckets@[idx as int].goods_issue_ids@[j]@ == h.goods_issue_id@
            },
            r is Ok ==> forall|j: int| 0 <= j < old(self).buckets@.len() && j != idx ==> final(self).buckets@[j] == old(self).buckets@[j],
            r is Ok ==> {
                let o = old(self).buckets@[idx as int].data;
                let n = final(self).buckets@[idx as int].data;
                &&& n.allocated_qty == clamp0(o.allocated_qty + d.allocated)
                &&& n.disposal_stock == clamp0(o.disposal_stock + d.disposal)
                &&& n.restore_stock_qty == clamp0(o.restore_stock_qty + d.restore)
                &&& n.outbound_qty == clamp0(o.outbound_qty + d.outbound)
            },
            final(self).last_stock_qty == old(self).last_stock_qty,
            final(self).on_hand == old(self).on_hand,
            final(self).disposal == old(self).disposal,
            final(self).allocated_totals == old(self).allocated_totals,
            final(self).total_damaged == old(self).total_damaged,
            final(self).total_returned == old(self).total_returned,
            final(self).total_liquidation == old(self).total_liquidation,
    {
        let m = ctx.get_measures();
        let id = &h.goods_issue_id;
        let ghost before = self.buckets@;
        let mut b = self.buckets.remove(idx);
        assert(bucket_wf(b, m));
        let (close_cbm, close_mas) = m.measure(h.stock_qty);
        b.data.closing_stock = h.stock_qty;
        b.data.closing_cbm = close_cbm;
        b.data.closing_master_qty = close_mas;
        apply_deltas(&mut b.data, d, &m)?;
        let ghost mut w: int = 0;
        if t == Transition::Export {
            insert_issue_id(&mut b.goods_issue_ids, id);
            proof {
                w = choose|j: int| 0 <= j < b.goods_issue_ids@.len() && b.goods_issue_ids@[j]@ == id@;
            }
            b.data.storage_time_days = storage_days(ctx, h.created_at as i64)?;
        }
        assert(bucket_wf(b, m));
        self.buckets.insert(idx, b);
        assert(self.buckets@ =~= before.update(idx as int, b));
        if t == Transition::Export {
            assert(self.buckets@[idx as int].goods_issue_ids@[w]@ == h.goods_issue_id@);
        }
        Ok(())
    }

    /// Updates the four trackers for an event of kind `t` on `day`, where
    /// `lifetime` and `ledger` are the values the decision table read.
    fn update_trackers(&mut self, t: Transition, h: &ProshipInventoryHistory, day: i64, lifetime: i64, ledger: Option<i64>) -> (r: Result<(), ProcessError>)
        requires
            t == transition_of(h.old_status, h.new_status),
            (lifetime, ledger) == old(self).basis_spec(t, *h, day),
        ensures
            r is Err ==> !old(self).trackers_fit(t, *h, day),
            final(self).buckets == old(self).buckets,
            final(self).last_stock_qty == old(self).last_stock_qty,
            r is Ok ==> final(self).trackers_follow(*old(self), t, *h, day),
    {
        proof {
            if t == Transition::Dispose || t == Transition::AllocatedToDisposal {
                assert(h.new_status.is_disposal());
            }
            if t == Transition::RestoreDisposal || t == Transition::DisposalToAllocated {
                assert(h.old_status.is_disposal());
            }
        }
        let q = h.quantity as i64;
        let id = &h.goods_issue_id;
        let stays: i128 = lifetime as i128 - q as i128;
        let splits = match ledger {
            Some(o) => stays < o as i128,
            None => false,
        };
        match t {
            Transition::Allocate => {
                self.add_on_hand(day, id, q, true)?;
                self.add_allocated_total(id, q)?;
            },
            Transition::Dispose => {
                self.add_disposal(day, h.new_status, q)?;
                self.add_disposal_total(h.new_status, q)?;
            },
            Transition::Deallocate => {
                if splits {
                    let v = narrow(stays)?;
                    self.set_on_hand(day, id, v);
                }
                self.add_allocated_total(id, -q)?;
            },
            Transition::AllocatedToDisposal => {
                if splits {
                    let v = narrow(stays)?;
                    self.set_on_hand(day, id, v);
                }
                self.add_allocated_total(id, -q)?;
                self.add_disposal_total(h.new_status, q)?;
                self.add_disposal(day, h.new_status, q)?;
            },
            Transition::Export => {
                self.add_on_hand(day, id, -q, false)?;
                self.add_allocated_total(id, -q)?;
            },
            Transition::RestoreDisposal => {
                if splits {
                    let v = narrow(stays)?;
                    self.set_disposal(day, h.old_status, v);
                }
                self.add_disposal_total(h.old_status, -q)?;
            },
            Transition::DisposalToAllocated => {
                if splits {
                    let v = narrow(stays)?;
                    self.set_disposal(day, h.old_status, v);
                }
                self.add_on_hand(day, id, q, true)?;
                self.add_disposal_total(h.old_status, -q)?;
                self.add_allocated_total(id, q)?;
            },
            Transition::Ignore => {},
        }
        Ok(())
    }

    /// Processes one history event: skips it when its new status is
    /// PENDING_FOR_IMPORT; otherwise opens the day's bucket where needed, sets
    /// the closing stock, applies the decision table to the day's movement
    /// totals and updates the trackers.
    pub fn apply_history(&mut self, h: &ProshipInventoryHistory, ctx: &ReconcileContext) -> (r: Result<(), ProcessError>)
        requires
            ctx.valid(),
            old(self).wf(ctx.measures()),
        ensures
            r is Err ==> !event_fits(*old(self), *h, *ctx),
            h.new_status == EnumProshipType_InventoryStatus::PENDING_FOR_IMPORT_INVENTORY_STATUS ==> r is Ok,
            r is Ok ==> event_applied(*old(self), *final(self), *h, *ctx),
    {
        if h.new_status == EnumProshipType_InventoryStatus::PENDING_FOR_IMPORT_INVENTORY_STATUS {
            return Ok(());
        }
        let day = local_day_of(h.created_at as i64);
        let idx: usize = match self.find_bucket(day) {
            Some(i) => i,
            None => {
                let b = self.open_bucket(h, ctx, day)?;
                self.buckets.push(b);
                self.buckets.len() - 1
            },
        };
        let t = classify_transition(h.old_status, h.new_status);
        let q = h.quantity as i64;
        let id = &h.goods_issue_id;
        let (lifetime, ledger): (i64, Option<i64>) = match t {
            Transition::Deallocate | Transition::AllocatedToDisposal | Transition::Export => {
                (self.allocated_total(id), self.on_hand_qty(day, id))
            },
            Transition::RestoreDisposal | Transition::DisposalToAllocated => {
                (self.disposal_total(h.old_status), self.disposal_qty(day, h.old_status))
            },
            _ => (0, None),
        };
        let d = movement_deltas(t, q, lifetime, ledger);
        self.update_bucket(idx, h, ctx, t, &d)?;
        self.last_stock_qty = h.stock_qty;
        self.update_trackers(t, h, day, lifetime, ledger)?;
        Ok(())
    }
}

impl Reconciliation {
    /// Closes the ledger at the cutoff (`now`, or the window's end where that
    /// is earlier): stamps the storage duration of the cutoff day's bucket, or,
    /// where there is none and stock is still held, adds a trailing bucket for
    /// that day with no movement.
    pub fn finalize(&mut self, ctx: &ReconcileContext, now: i64) -> (r: Result<(), ProcessError>)
        requires
            ctx.valid(),
            old(self).wf(ctx.measures()),
        ensures
            r is Err ==> !close_fits(*old(self), *ctx, now as int),
            r is Ok ==> ledger_closed(*old(self), *final(self), *ctx, now as int),
    {
        let m = ctx.get_measures();
        let cutoff: i64 = match ctx.to_date {
            Some(t) => if (t as i64) > now { now } else { t as i64 },
            None => now,
        };
        let cday = local_day_of(cutoff);
        let ghost before = self.buckets@;
        match self.find_bucket(cday) {
            Some(idx) => {
                let days = storage_days(ctx, cutoff)?;
                proof {
                    assert(storage_end(ctx.to_date, cutoff as int) == cutoff);
                }
                let mut b = self.buckets.remove(idx);
                assert(bucket_wf(b, m));
                b.data.storage_time_days = days;
                self.buckets.insert(idx, b);
                assert(self.buckets@ =~= before.update(idx as int, b));
            },
            None => {
                if self.last_stock_qty > 0 {
                    let days = storage_days(ctx, cutoff)?;
                    proof {
                        assert(storage_end(ctx.to_date, cutoff as int) == cutoff);
                    }
                    let date: i32 = if cutoff < i32::MIN as i64 || cutoff > i32::MAX as i64 {
                        return Err(ProcessError::Overflow);
                    } else {
                        cutoff as i32
                    };
                    let key = match epoch_to_human_gmt7(cutoff) {
                        Some(k) => k,
                        None => {
                            return Err(ProcessError::UnrepresentableDate);
                        },
                    };
                    proof {
                        lemma_zero_measures(m);
                    }
                    let stock = self.last_stock_qty;
                    let (cbm, mas) = m.measure(stock);
                    let inv = &ctx.inventory;
                    let data = InventoryData {
                        opening_stock: stock,
                        opening_cbm: cbm,
                        opening_master_qty: mas,
                        asin: inv.asin.clone(),
                        asin_outbound: clone_strings(&ctx.asin_outbound_list),
                        unit_price: inv.unit_price,
                        received_date: ctx.goods_receipt.imported_at,
                        inner_qty_on_mas: inv.inner_qty_on_mas,
                        date,
                        line_in_cd: inv.index_customs_declaration.clone(),
                        po_no: inv.po_no.clone(),
                        master_dimension: inv.get_master_dimension(),
                        dimension: inv.get_dimension(),
                        inbound_qty: 0,
                        inbound_cbm: 0,
                        inbound_master_qty: 0,
                        closing_stock: stock,
                        closing_cbm: cbm,
                        closing_master_qty: mas,
                        allocated_qty: 0,
                        allocated_cbm: 0,
                        allocated_master_qty: 0,
                        disposal_stock: 0,
                        disposal_cbm: 0,
                        disposal_master_qty: 0,
                        restore_stock_qty: 0,
                        restore_stock_cbm: 0,
                        restore_master_qty: 0,
                        outbound_qty: 0,
                        outbound_cbm: 0,
                        outbound_master_qty: 0,
                        storage_time_days: days,
                    };
                    self.buckets.push(DayBucket { day: cday, key, data, goods_issue_ids: Vec::new() });
                    assert(self.buckets@.drop_last() =~= before);
                }
            },
        }
        Ok(())
    }
}

/// Everything one reconciliation reads, fetched beforehand.
pub struct ProcessInventoryHistoryInput {
    pub inventory: ProshipInventory,
    pub inventory_id: String,
    pub asin_outbound_list: Vec<String>,
    pub goods_receipt: ProshipGoodsReceipt,
    /// Status changes in chronological order.
    pub inventory_history_list: Vec<ProshipInventoryHistory>,
    /// Units received per inventory identifier.
    pub inventory_ids: Vec<(String, i32)>,
    pub from_date: Option<i32>,
    pub to_date: Option<i32>,
}

/// The reconciled ledger: one bucket per day, in order of first appearance,
/// and the total storage duration.
pub struct ProcessInventoryHistoryOutput {
    pub merged_inventory_history: Vec<DayBucket>,
    pub total_duration: i64,
}

/// Units received for `id`: the first entry for it, or 0 where there is none.
pub open spec fn inbound_spec(ids: Seq<(String, i32)>, id: Seq<char>) -> int
    decreases ids.len(),
{
    if ids.len() == 0 {
        0
    } else if ids[0].0@ == id {
        ids[0].1 as int
    } else {
        inbound_spec(ids.skip(1), id)
    }
}

/// Looks up the units received for `id`.
pub fn inbound_qty_for(ids: &Vec<(String, i32)>, id: &String) -> (r: i32)
    ensures
        r == inbound_spec(ids@, id@),
{
    let mut i: usize = 0;
    assert(ids@.skip(0) =~= ids@);
    while i < ids.len()
        invariant
            i <= ids@.len(),
            inbound_spec(ids@, id@) == inbound_spec(ids@.skip(i as int), id@),
        decreases ids@.len() - i,
    {
        let ghost rest = ids@.skip(i as int);
        assert(rest[0] == ids@[i as int]);
        if ids[i].0 == *id {
            return ids[i].1;
        }
        assert(rest.skip(1) =~= ids@.skip(i as int + 1));
        i = i + 1;
    }
    0
}

/// Reconciles one item's history into day buckets, closed at `now` (epoch
/// seconds), with the total storage duration inside the optional window.
/// Fails only where a figure overflows or a date cannot be represented.
pub fn process_inventory_history_data(input: ProcessInventoryHistoryInput, now: i64) -> (r: Result<ProcessInventoryHistoryOutput, ProcessError>)
    requires
        input.inventory.inner_qty_on_mas >= 1,
    ensures
        r is Err ==> run_overflows(input.inventory_history_list@, context_of(input), now as int),
        r matches Ok(out) ==> {
            &&& exists|states: Seq<Reconciliation>| #[trigger] history_reconciled(states, input.inventory_history_list@, context_of(input), now as int)
                && out.merged_inventory_history@ == states.last().buckets@
            &&& out.total_duration == duration_sum(out.merged_inventory_history@, input.from_date, input.to_date)
            &&& forall|i: int| 0 <= i < out.merged_inventory_history@.len()
                ==> #[trigger] bucket_wf(out.merged_inventory_history@[i], context_of(input).measures())
            &&& forall|i: int, j: int|
                0 <= i < out.merged_inventory_history@.len() && 0 <= j < out.merged_inventory_history@.len() && i != j
                    ==> #[trigger] out.merged_inventory_history@[i].day != #[trigger] out.merged_inventory_history@[j].day
        },
{
    let inbound_qty = inbound_qty_for(&input.inventory_ids, &input.inventory_id);
    let ProcessInventoryHistoryInput {
        inventory,
        inventory_id: _,
        asin_outbound_list,
        goods_receipt,
        inventory_history_list,
        inventory_ids: _,
        from_date,
        to_date,
    } = input;
    let ctx = ReconcileContext { inventory, asin_outbound_list, goods_receipt, inbound_qty, from_date, to_date };
    let mut rec = Reconciliation::new(0);
    let ghost mut states: Seq<Reconciliation> = seq![rec];
    let mut i: usize = 0;
    while i < inventory_history_list.len()
        invariant
            ctx == context_of(input),
            inventory_history_list == input.inventory_history_list,
            ctx.valid(),
            rec.wf(ctx.measures()),
            i <= inventory_history_list@.len(),
            states.len() == i + 1,
            fresh(states[0], 0),
            states.last() == rec,
            forall|k: int| 0 <= k < i ==> #[trigger] event_applied(states[k], states[k + 1], inventory_history_list@[k], ctx),
        decreases inventory_history_list@.len() - i,
    {
        match rec.apply_history(&inventory_history_list[i], &ctx) {
            Ok(()) => {},
            Err(e) => {
                proof {
                    assert(run_prefix(states, input.inventory_history_list@, ctx, i as int));
                    assert(!event_fits(states[i as int], input.inventory_history_list@[i as int], ctx));
                }
                return Err(e);
            },
        }
        proof {
            let prev = states;
            states = states.push(rec);
            assert forall|k: int| 0 <= k < i + 1 implies #[trigger] event_applied(states[k], states[k + 1], inventory_history_list@[k], ctx) by {
                if k < i {
                    assert(states[k] == prev[k] && states[k + 1] == prev[k + 1]);
                }
            }
        }
        i = i + 1;
    }
    match rec.finalize(&ctx, now) {
        Ok(()) => {},
        Err(e) => {
            proof {
                assert(run_prefix(states, input.inventory_history_list@, ctx, i as int));
                assert(!close_fits(states.last(), ctx, now as int));
            }
            return Err(e);
        },
    }
    proof {
        states = states.push(rec);
        assert(history_reconciled(states, input.inventory_history_list@, context_of(input), now as int));
    }
    match total_duration(&rec.buckets, from_date, to_date) {
        Some(total) => Ok(ProcessInventoryHistoryOutput { merged_inventory_history: rec.buckets, total_duration: total }),
        None => {
            proof {
                assert(states.last() == rec);
            }
            Err(ProcessError::Overflow)
        },
    }
}

} // verus!
