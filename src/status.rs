use vstd::prelude::*;

verus! {

/// Status of a unit of stock; an unknown numeric code reads as `OTHER_INVENTORY_STATUS`.
#[allow(non_camel_case_types)]
#[derive(Clone, Copy, Debug, PartialEq, Eq, Structural)]
pub enum EnumProshipType_InventoryStatus {
    OTHER_INVENTORY_STATUS,
    AVALABLE_INVENTORY_STATUS,
    ON_HAND_INVENTORY_STATUS,
    DAMAGED_INVENTORY_STATUS,
    RETURN_INVENTORY_STATUS,
    LIQUIDATION_INVENTORY_STATUS,
    EXPORTED_INVENTORY_STATUS,
    PENDING_FOR_IMPORT_INVENTORY_STATUS,
}

impl EnumProshipType_InventoryStatus {
    /// The numeric code of a status on the wire.
    pub open spec fn code(self) -> int {
        match self {
            EnumProshipType_InventoryStatus::OTHER_INVENTORY_STATUS => 0,
            EnumProshipType_InventoryStatus::AVALABLE_INVENTORY_STATUS => 1,
            EnumProshipType_InventoryStatus::ON_HAND_INVENTORY_STATUS => 2,
            EnumProshipType_InventoryStatus::DAMAGED_INVENTORY_STATUS => 3,
            EnumProshipType_InventoryStatus::RETURN_INVENTORY_STATUS => 4,
            EnumProshipType_InventoryStatus::LIQUIDATION_INVENTORY_STATUS => 5,
            EnumProshipType_InventoryStatus::EXPORTED_INVENTORY_STATUS => 6,
            EnumProshipType_InventoryStatus::PENDING_FOR_IMPORT_INVENTORY_STATUS => 7,
        }
    }

    /// Damaged, returned and liquidated stock are the three disposal statuses.
    pub open spec fn is_disposal(self) -> bool {
        ||| self == EnumProshipType_InventoryStatus::DAMAGED_INVENTORY_STATUS
        ||| self == EnumProshipType_InventoryStatus::RETURN_INVENTORY_STATUS
        ||| self == EnumProshipType_InventoryStatus::LIQUIDATION_INVENTORY_STATUS
    }

    /// The status with numeric code `v`; codes outside 1..=7 give `OTHER_INVENTORY_STATUS`.
    pub fn from_i32(v: i32) -> (r: Self)
        ensures
            1 <= v <= 7 ==> r.code() == v,
            !(1 <= v <= 7) ==> r == EnumProshipType_InventoryStatus::OTHER_INVENTORY_STATUS,
    {
        match v {
            1 => EnumProshipType_InventoryStatus::AVALABLE_INVENTORY_STATUS,
            2 => EnumProshipType_InventoryStatus::ON_HAND_INVENTORY_STATUS,
            3 => EnumProshipType_InventoryStatus::DAMAGED_INVENTORY_STATUS,
            4 => EnumProshipType_InventoryStatus::RETURN_INVENTORY_STATUS,
            5 => EnumProshipType_InventoryStatus::LIQUIDATION_INVENTORY_STATUS,
            6 => EnumProshipType_InventoryStatus::EXPORTED_INVENTORY_STATUS,
            7 => EnumProshipType_InventoryStatus::PENDING_FOR_IMPORT_INVENTORY_STATUS,
            _ => EnumProshipType_InventoryStatus::OTHER_INVENTORY_STATUS,
        }
    }

    /// The numeric code of this status.
    pub fn to_i32(&self) -> (r: i32)
        ensures
            r == self.code(),
    {
        match self {
            EnumProshipType_InventoryStatus::OTHER_INVENTORY_STATUS => 0,
            EnumProshipType_InventoryStatus::AVALABLE_INVENTORY_STATUS => 1,
            EnumProshipType_InventoryStatus::ON_HAND_INVENTORY_STATUS => 2,
            EnumProshipType_InventoryStatus::DAMAGED_INVENTORY_STATUS => 3,
            EnumProshipType_InventoryStatus::RETURN_INVENTORY_STATUS => 4,
            EnumProshipType_InventoryStatus::LIQUIDATION_INVENTORY_STATUS => 5,
            EnumProshipType_InventoryStatus::EXPORTED_INVENTORY_STATUS => 6,
            EnumProshipType_InventoryStatus::PENDING_FOR_IMPORT_INVENTORY_STATUS => 7,
        }
    }
}

impl Default for EnumProshipType_InventoryStatus {
    fn default() -> (r: Self)
        ensures
            r == EnumProshipType_InventoryStatus::OTHER_INVENTORY_STATUS,
    {
        EnumProshipType_InventoryStatus::OTHER_INVENTORY_STATUS
    }
}

} // verus!
