use vstd::prelude::*;

use crate::status::EnumProshipType_InventoryStatus;

verus! {

/// Box dimensions, each in millionths of the unit that the source records use.
#[derive(Clone, Copy, Debug, PartialEq, Eq, Structural)]
pub struct ProshipDimension {
    pub length: i64,
    pub width: i64,
    pub height: i64,
}

impl ProshipDimension {
    /// The all-zero dimension.
    pub open spec fn new_spec() -> ProshipDimension {
        ProshipDimension { length: 0, width: 0, height: 0 }
    }

    /// The all-zero dimension.
    pub fn new() -> (r: ProshipDimension)
        ensures
            r == ProshipDimension::new_spec(),
    {
        ProshipDimension { length: 0, width: 0, height: 0 }
    }
}

/// An inventory item, as read from the store; fixed during one reconciliation.
#[derive(Clone, Debug)]
pub struct ProshipInventory {
    pub id: String,
    pub creator_id: i64,
    pub created_at: i32,
    pub updated_at: i32,
    pub status: EnumProshipType_InventoryStatus,
    pub shelf_code: String,
    pub customer_id: i64,
    pub stock_qty: i32,
    /// Stock volume in thousandths of a cubic metre.
    pub stock_cbm: i64,
    pub goods_receipt_id: String,
    pub goods_issue_id: String,
    pub goods_id: String,
    pub duration: i32,
    pub export_at: i32,
    pub asin: String,
    pub supplier_id: String,
    pub asin_outbound: String,
    pub index_customs_declaration: String,
    /// Unit price in millionths of the currency unit.
    pub unit_price: i64,
    /// Inner units per master carton; at least 1 for every item that is reconciled.
    pub inner_qty_on_mas: i32,
    pub po_no: String,
    pub master_dimension: Option<ProshipDimension>,
    pub dimension: Option<ProshipDimension>,
    /// Volume of one inner unit, in millionths of a cubic metre.
    pub volume: u32,
    /// Volume of one master carton, in millionths of a cubic metre; 0 when unknown.
    pub master_volume: u32,
    pub master_qty: i32,
    pub do_no: String,
}

impl ProshipInventory {
    /// An item with every field empty or zero.
    pub fn new() -> (r: ProshipInventory)
        ensures
            r.id@.len() == 0,
            r.creator_id == 0,
            r.created_at == 0,
            r.updated_at == 0,
            r.status == EnumProshipType_InventoryStatus::OTHER_INVENTORY_STATUS,
            r.shelf_code@.len() == 0,
            r.customer_id == 0,
            r.stock_qty == 0,
            r.stock_cbm == 0,
            r.goods_receipt_id@.len() == 0,
            r.goods_issue_id@.len() == 0,
            r.goods_id@.len() == 0,
            r.duration == 0,
            r.export_at == 0,
            r.asin@.len() == 0,
            r.supplier_id@.len() == 0,
            r.asin_outbound@.len() == 0,
            r.index_customs_declaration@.len() == 0,
            r.unit_price == 0,
            r.inner_qty_on_mas == 0,
            r.po_no@.len() == 0,
            r.master_dimension is None,
            r.dimension is None,
            r.volume == 0,
            r.master_volume == 0,
            r.master_qty == 0,
            r.do_no@.len() == 0,
    {
        ProshipInventory {
            id: String::new(),
            creator_id: 0,
            created_at: 0,
            updated_at: 0,
            status: EnumProshipType_InventoryStatus::OTHER_INVENTORY_STATUS,
            shelf_code: String::new(),
            customer_id: 0,
            stock_qty: 0,
            stock_cbm: 0,
            goods_receipt_id: String::new(),
            goods_issue_id: String::new(),
            goods_id: String::new(),
            duration: 0,
            export_at: 0,
            asin: String::new(),
            supplier_id: String::new(),
            asin_outbound: String::new(),
            index_customs_declaration: String::new(),
            unit_price: 0,
            inner_qty_on_mas: 0,
            po_no: String::new(),
            master_dimension: None,
            dimension: None,
            volume: 0,
            master_volume: 0,
            master_qty: 0,
            do_no: String::new(),
        }
    }

    pub fn get_volume(&self) -> (r: u32)
        ensures
            r == self.volume,
    {
        self.volume
    }

    pub fn get_master_volume(&self) -> (r: u32)
        ensures
            r == self.master_volume,
    {
        self.master_volume
    }

    pub fn get_inner_qty_on_mas(&self) -> (r: i32)
        ensures
            r == self.inner_qty_on_mas,
    {
        self.inner_qty_on_mas
    }

    pub fn get_asin(&self) -> (r: &str)
        ensures
            r@ == self.asin@,
    {
        self.asin.as_str()
    }

    pub fn get_unit_price(&self) -> (r: i64)
        ensures
            r == self.unit_price,
    {
        self.unit_price
    }

    pub fn get_index_customs_declaration(&self) -> (r: &str)
        ensures
            r@ == self.index_customs_declaration@,
    {
        self.index_customs_declaration.as_str()
    }

    pub fn get_po_no(&self) -> (r: &str)
        ensures
            r@ == self.po_no@,
    {
        self.po_no.as_str()
    }

    /// The recorded dimension, or all zeros when none is recorded.
    pub fn get_master_dimension(&self) -> (r: ProshipDimension)
        ensures
            r == (match self.master_dimension {
                Some(d) => d,
                None => ProshipDimension::new_spec(),
            }),
    {
        match self.master_dimension {
            Some(d) => d,
            None => ProshipDimension::new(),
        }
    }

    /// The recorded dimension, or all zeros when none is recorded.
    pub fn get_dimension(&self) -> (r: ProshipDimension)
        ensures
            r == (match self.dimension {
                Some(d) => d,
                None => ProshipDimension::new_spec(),
            }),
    {
        match self.dimension {
            Some(d) => d,
            None => ProshipDimension::new(),
        }
    }

}

/// The goods receipt of an item: when the stock was physically received.
#[derive(Clone, Copy, Debug)]
pub struct ProshipGoodsReceipt {
    pub imported_at: i32,
}

impl ProshipGoodsReceipt {
    pub fn new() -> (r: ProshipGoodsReceipt)
        ensures
            r.imported_at == 0,
    {
        ProshipGoodsReceipt { imported_at: 0 }
    }

    pub fn get_imported_at(&self) -> (r: i32)
        ensures
            r == self.imported_at,
    {
        self.imported_at
    }
}

/// One status change of an item's stock.
#[derive(Clone, Debug)]
pub struct ProshipInventoryHistory {
    /// When the change happened (epoch seconds).
    pub created_at: i32,
    /// Stock quantity after the change.
    pub stock_qty: i32,
    pub old_status: EnumProshipType_InventoryStatus,
    pub new_status: EnumProshipType_InventoryStatus,
    /// Units moved by the change.
    pub quantity: i32,
    /// Outbound shipment the change belongs to; empty when none.
    pub goods_issue_id: String,
}

impl ProshipInventoryHistory {
    pub fn new() -> (r: ProshipInventoryHistory)
        ensures
            r.created_at == 0,
            r.stock_qty == 0,
            r.old_status == EnumProshipType_InventoryStatus::OTHER_INVENTORY_STATUS,
            r.new_status == EnumProshipType_InventoryStatus::OTHER_INVENTORY_STATUS,
            r.quantity == 0,
            r.goods_issue_id@.len() == 0,
    {
        ProshipInventoryHistory {
            created_at: 0,
            stock_qty: 0,
            old_status: EnumProshipType_InventoryStatus::OTHER_INVENTORY_STATUS,
            new_status: EnumProshipType_InventoryStatus::OTHER_INVENTORY_STATUS,
            quantity: 0,
            goods_issue_id: String::new(),
        }
    }

    pub fn get_created_at(&self) -> (r: i32)
        ensures
            r == self.created_at,
    {
        self.created_at
    }

    pub fn get_stock_qty(&self) -> (r: i32)
        ensures
            r == self.stock_qty,
    {
        self.stock_qty
    }

    pub fn get_old_status(&self) -> (r: EnumProshipType_InventoryStatus)
        ensures
            r == self.old_status,
    {
        self.old_status
    }

    pub fn get_new_status(&self) -> (r: EnumProshipType_InventoryStatus)
        ensures
            r == self.new_status,
    {
        self.new_status
    }

    pub fn get_quantity(&self) -> (r: i32)
        ensures
            r == self.quantity,
    {
        self.quantity
    }

    pub fn get_goods_issue_id(&self) -> (r: &str)
        ensures
            r@ == self.goods_issue_id@,
    {
        self.goods_issue_id.as_str()
    }

}

/// The reconciled snapshot of one calendar day. Quantities are in units, volumes
/// in thousandths of a cubic metre.
#[derive(Clone, Debug)]
pub struct InventoryData {
    pub opening_stock: i32,
    /// Volume in thousandths of a cubic metre.
    pub opening_cbm: i64,
    pub opening_master_qty: i32,
    pub asin: String,
    pub asin_outbound: Vec<String>,
    /// Unit price in millionths of the currency unit.
    pub unit_price: i64,
    pub received_date: i32,
    pub inner_qty_on_mas: i32,
    /// Timestamp of the event that opened the day, or of the cutoff for a trailing day.
    pub date: i32,
    pub line_in_cd: String,
    pub po_no: String,
    pub master_dimension: ProshipDimension,
    pub dimension: ProshipDimension,
    pub inbound_qty: i32,
    pub inbound_cbm: i64,
    pub inbound_master_qty: i32,
    pub closing_stock: i32,
    pub closing_cbm: i64,
    pub closing_master_qty: i32,
    pub allocated_qty: i32,
    pub allocated_cbm: i64,
    pub allocated_master_qty: i32,
    pub disposal_stock: i32,
    pub disposal_cbm: i64,
    pub disposal_master_qty: i32,
    pub restore_stock_qty: i32,
    pub restore_stock_cbm: i64,
    pub restore_master_qty: i32,
    pub outbound_qty: i32,
    pub outbound_cbm: i64,
    pub outbound_master_qty: i32,
    /// Inclusive storage duration in days, where the day stamps one.
    pub storage_time_days: i32,
}

impl InventoryData {
    /// A snapshot with every field empty or zero.
    pub fn new() -> (r: InventoryData)
        ensures
            r.opening_stock == 0,
            r.opening_cbm == 0,
            r.opening_master_qty == 0,
            r.asin@.len() == 0,
            r.asin_outbound@.len() == 0,
            r.unit_price == 0,
            r.received_date == 0,
            r.inner_qty_on_mas == 0,
            r.date == 0,
            r.line_in_cd@.len() == 0,
            r.po_no@.len() == 0,
            r.master_dimension == ProshipDimension::new_spec(),
            r.dimension == ProshipDimension::new_spec(),
            r.inbound_qty == 0,
            r.inbound_cbm == 0,
            r.inbound_master_qty == 0,
            r.closing_stock == 0,
            r.closing_cbm == 0,
            r.closing_master_qty == 0,
            r.allocated_qty == 0,
            r.allocated_cbm == 0,
            r.allocated_master_qty == 0,
            r.disposal_stock == 0,
            r.disposal_cbm == 0,
            r.disposal_master_qty == 0,
            r.restore_stock_qty == 0,
            r.restore_stock_cbm == 0,
            r.restore_master_qty == 0,
            r.outbound_qty == 0,
            r.outbound_cbm == 0,
            r.outbound_master_qty == 0,
            r.storage_time_days == 0,
    {
        InventoryData {
            opening_stock: 0,
            opening_cbm: 0,
            opening_master_qty: 0,
            asin: String::new(),
            asin_outbound: Vec::new(),
            unit_price: 0,
            received_date: 0,
            inner_qty_on_mas: 0,
            date: 0,
            line_in_cd: String::new(),
            po_no: String::new(),
            master_dimension: ProshipDimension::new(),
            dimension: ProshipDimension::new(),
            inbound_qty: 0,
            inbound_cbm: 0,
            inbound_master_qty: 0,
            closing_stock: 0,
            closing_cbm: 0,
            closing_master_qty: 0,
            allocated_qty: 0,
            allocated_cbm: 0,
            allocated_master_qty: 0,
            disposal_stock: 0,
            disposal_cbm: 0,
            disposal_master_qty: 0,
            restore_stock_qty: 0,
            restore_stock_cbm: 0,
            restore_master_qty: 0,
            outbound_qty: 0,
            outbound_cbm: 0,
            outbound_master_qty: 0,
            storage_time_days: 0,
        }
    }

    pub fn set_opening_stock(&mut self, v: i32)
        ensures
            final(self).opening_stock == v,
            *final(self) == (InventoryData { opening_stock: v, ..*old(self) }),
    {
        self.opening_stock = v;
    }

    pub fn set_opening_cbm(&mut self, v: i64)
        ensures
            final(self).opening_cbm == v,
            *final(self) == (InventoryData { opening_cbm: v, ..*old(self) }),
    {
        self.opening_cbm = v;
    }

    pub fn set_opening_master_qty(&mut self, v: i32)
        ensures
            final(self).opening_master_qty == v,
            *final(self) == (InventoryData { opening_master_qty: v, ..*old(self) }),
    {
        self.opening_master_qty = v;
    }

    pub fn set_asin(&mut self, v: String)
        ensures
            final(self).asin == v,
            *final(self) == (InventoryData { asin: v, ..*old(self) }),
    {
        self.asin = v;
    }

    pub fn set_asin_outbound(&mut self, v: Vec<String>)
        ensures
            final(self).asin_outbound == v,
            *final(self) == (InventoryData { asin_outbound: v, ..*old(self) }),
    {
        self.asin_outbound = v;
    }

    pub fn set_unit_price(&mut self, v: i64)
        ensures
            final(self).unit_price == v,
            *final(self) == (InventoryData { unit_price: v, ..*old(self) }),
    {
        self.unit_price = v;
    }

    pub fn set_received_date(&mut self, v: i32)
        ensures
            final(self).received_date == v,
            *final(self) == (InventoryData { received_date: v, ..*old(self) }),
    {
        self.received_date = v;
    }

    pub fn set_inner_qty_on_mas(&mut self, v: i32)
        ensures
            final(self).inner_qty_on_mas == v,
            *final(self) == (InventoryData { inner_qty_on_mas: v, ..*old(self) }),
    {
        self.inner_qty_on_mas = v;
    }

    pub fn set_date(&mut self, v: i32)
        ensures
            final(self).date == v,
            *final(self) == (InventoryData { date: v, ..*old(self) }),
    {
        self.date = v;
    }

    pub fn set_line_in_cd(&mut self, v: String)
        ensures
            final(self).line_in_cd == v,
            *final(self) == (InventoryData { line_in_cd: v, ..*old(self) }),
    {
        self.line_in_cd = v;
    }

    pub fn set_po_no(&mut self, v: String)
        ensures
            final(self).po_no == v,
            *final(self) == (InventoryData { po_no: v, ..*old(self) }),
    {
        self.po_no = v;
    }

    pub fn set_master_dimension(&mut self, v: ProshipDimension)
        ensures
            final(self).master_dimension == v,
            *final(self) == (InventoryData { master_dimension: v, ..*old(self) }),
    {
        self.master_dimension = v;
    }

    pub fn set_dimension(&mut self, v: ProshipDimension)
        ensures
            final(self).dimension == v,
            *final(self) == (InventoryData { dimension: v, ..*old(self) }),
    {
        self.dimension = v;
    }

    pub fn set_inbound_qty(&mut self, v: i32)
        ensures
            final(self).inbound_qty == v,
            *final(self) == (InventoryData { inbound_qty: v, ..*old(self) }),
    {
        self.inbound_qty = v;
    }

    pub fn set_inbound_cbm(&mut self, v: i64)
        ensures
            final(self).inbound_cbm == v,
            *final(self) == (InventoryData { inbound_cbm: v, ..*old(self) }),
    {
        self.inbound_cbm = v;
    }

    pub fn set_inbound_master_qty(&mut self, v: i32)
        ensures
            final(self).inbound_master_qty == v,
            *final(self) == (InventoryData { inbound_master_qty: v, ..*old(self) }),
    {
        self.inbound_master_qty = v;
    }

    pub fn set_closing_stock(&mut self, v: i32)
        ensures
            final(self).closing_stock == v,
            *final(self) == (InventoryData { closing_stock: v, ..*old(self) }),
    {
        self.closing_stock = v;
    }

    pub fn set_closing_cbm(&mut self, v: i64)
        ensures
            final(self).closing_cbm == v,
            *final(self) == (InventoryData { closing_cbm: v, ..*old(self) }),
    {
        self.closing_cbm = v;
    }

    pub fn set_closing_master_qty(&mut self, v: i32)
        ensures
            final(self).closing_master_qty == v,
            *final(self) == (InventoryData { closing_master_qty: v, ..*old(self) }),
    {
        self.closing_master_qty = v;
    }

    pub fn set_allocated_qty(&mut self, v: i32)
        ensures
            final(self).allocated_qty == v,
            *final(self) == (InventoryData { allocated_qty: v, ..*old(self) }),
    {
        self.allocated_qty = v;
    }

    pub fn set_allocated_cbm(&mut self, v: i64)
        ensures
            final(self).allocated_cbm == v,
            *final(self) == (InventoryData { allocated_cbm: v, ..*old(self) }),
    {
        self.allocated_cbm = v;
    }

    pub fn set_allocated_master_qty(&mut self, v: i32)
        ensures
            final(self).allocated_master_qty == v,
            *final(self) == (InventoryData { allocated_master_qty: v, ..*old(self) }),
    {
        self.allocated_master_qty = v;
    }

    pub fn set_disposal_stock(&mut self, v: i32)
        ensures
            final(self).disposal_stock == v,
            *final(self) == (InventoryData { disposal_stock: v, ..*old(self) }),
    {
        self.disposal_stock = v;
    }

    pub fn set_disposal_cbm(&mut self, v: i64)
        ensures
            final(self).disposal_cbm == v,
            *final(self) == (InventoryData { disposal_cbm: v, ..*old(self) }),
    {
        self.disposal_cbm = v;
    }

    pub fn set_disposal_master_qty(&mut self, v: i32)
        ensures
            final(self).disposal_master_qty == v,
            *final(self) == (InventoryData { disposal_master_qty: v, ..*old(self) }),
    {
        self.disposal_master_qty = v;
    }

    pub fn set_restore_stock_qty(&mut self, v: i32)
        ensures
            final(self).restore_stock_qty == v,
            *final(self) == (InventoryData { restore_stock_qty: v, ..*old(self) }),
    {
        self.restore_stock_qty = v;
    }

    pub fn set_restore_stock_cbm(&mut self, v: i64)
        ensures
            final(self).restore_stock_cbm == v,
            *final(self) == (InventoryData { restore_stock_cbm: v, ..*old(self) }),
    {
        self.restore_stock_cbm = v;
    }

    pub fn set_restore_master_qty(&mut self, v: i32)
        ensures
            final(self).restore_master_qty == v,
            *final(self) == (InventoryData { restore_master_qty: v, ..*old(self) }),
    {
        self.restore_master_qty = v;
    }

    pub fn set_outbound_qty(&mut self, v: i32)
        ensures
            final(self).outbound_qty == v,
            *final(self) == (InventoryData { outbound_qty: v, ..*old(self) }),
    {
        self.outbound_qty = v;
    }

    pub fn set_outbound_cbm(&mut self, v: i64)
        ensures
            final(self).outbound_cbm == v,
            *final(self) == (InventoryData { outbound_cbm: v, ..*old(self) }),
    {
        self.outbound_cbm = v;
    }

    pub fn set_outbound_master_qty(&mut self, v: i32)
        ensures
            final(self).outbound_master_qty == v,
            *final(self) == (InventoryData { outbound_master_qty: v, ..*old(self) }),
    {
        self.outbound_master_qty = v;
    }

    pub fn set_storage_time_days(&mut self, v: i32)
        ensures
            final(self).storage_time_days == v,
            *final(self) == (InventoryData { storage_time_days: v, ..*old(self) }),
    {
        self.storage_time_days = v;
    }

    pub fn get_allocated_qty(&self) -> (r: i32)
        ensures
            r == self.allocated_qty,
    {
        self.allocated_qty
    }

    pub fn get_disposal_stock(&self) -> (r: i32)
        ensures
            r == self.disposal_stock,
    {
        self.disposal_stock
    }

    pub fn get_restore_stock_qty(&self) -> (r: i32)
        ensures
            r == self.restore_stock_qty,
    {
        self.restore_stock_qty
    }

    pub fn get_outbound_qty(&self) -> (r: i32)
        ensures
            r == self.outbound_qty,
    {
        self.outbound_qty
    }

    pub fn get_date(&self) -> (r: i32)
        ensures
            r == self.date,
    {
        self.date
    }

    pub fn get_storage_time_days(&self) -> (r: i32)
        ensures
            r == self.storage_time_days,
    {
        self.storage_time_days
    }

}

} // verus!
