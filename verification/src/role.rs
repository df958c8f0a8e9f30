//! The data roles an item view asks a model for, with their numeric values.
use vstd::prelude::*;

verus! {

/// The roles under which a view asks an item model for data; the first fourteen
/// are the toolkit's standard roles, the rest are this application's own.
#[derive(Debug, Clone, Copy, PartialEq, Eq, Structural)]
pub enum ItemDataRole {
    DisplayRole,
    DecorationRole,
    EditRole,
    ToolTipRole,
    StatusTipRole,
    WhatsThisRole,
    FontRole,
    TextAlignmentRole,
    BackgroundRole,
    ForegroundRole,
    CheckStateRole,
    AccessibleTextRole,
    AccessibleDescriptionRole,
    SizeTipRole,
    UserRole,
    NodeLabelRole,
    FieldLabelRole,
    FieldCountRole,
    UnknownRole,
}

/// The numeric value of each role.
pub open spec fn role_value(r: ItemDataRole) -> i32 {
    match r {
        ItemDataRole::DisplayRole => 0,
        ItemDataRole::DecorationRole => 1,
        ItemDataRole::EditRole => 2,
        ItemDataRole::ToolTipRole => 3,
        ItemDataRole::StatusTipRole => 4,
        ItemDataRole::WhatsThisRole => 5,
        ItemDataRole::FontRole => 6,
        ItemDataRole::TextAlignmentRole => 7,
        ItemDataRole::BackgroundRole => 8,
        ItemDataRole::ForegroundRole => 9,
        ItemDataRole::CheckStateRole => 10,
        ItemDataRole::AccessibleTextRole => 11,
        ItemDataRole::AccessibleDescriptionRole => 12,
        ItemDataRole::SizeTipRole => 13,
        ItemDataRole::UserRole => 0x0100,
        ItemDataRole::NodeLabelRole => 0x0101,
        ItemDataRole::FieldLabelRole => 0x0102,
        ItemDataRole::FieldCountRole => 0x0103,
        ItemDataRole::UnknownRole => 0x7fffffff,
    }
}

/// The role whose numeric value is `v`, if any.
pub open spec fn role_of_value(v: i32) -> Option<ItemDataRole> {
    if v == 0 {
        Some(ItemDataRole::DisplayRole)
    } else if v == 1 {
        Some(ItemDataRole::DecorationRole)
    } else if v == 2 {
        Some(ItemDataRole::EditRole)
    } else if v == 3 {
        Some(ItemDataRole::ToolTipRole)
    } else if v == 4 {
        Some(ItemDataRole::StatusTipRole)
    } else if v == 5 {
        Some(ItemDataRole::WhatsThisRole)
    } else if v == 6 {
        Some(ItemDataRole::FontRole)
    } else if v == 7 {
        Some(ItemDataRole::TextAlignmentRole)
    } else if v == 8 {
        Some(ItemDataRole::BackgroundRole)
    } else if v == 9 {
        Some(ItemDataRole::ForegroundRole)
    } else if v == 10 {
        Some(ItemDataRole::CheckStateRole)
    } else if v == 11 {
        Some(ItemDataRole::AccessibleTextRole)
    } else if v == 12 {
        Some(ItemDataRole::AccessibleDescriptionRole)
    } else if v == 13 {
        Some(ItemDataRole::SizeTipRole)
    } else if v == 0x0100 {
        Some(ItemDataRole::UserRole)
    } else if v == 0x0101 {
        Some(ItemDataRole::NodeLabelRole)
    } else if v == 0x0102 {
        Some(ItemDataRole::FieldLabelRole)
    } else if v == 0x0103 {
        Some(ItemDataRole::FieldCountRole)
    } else if v == 0x7fffffff {
        Some(ItemDataRole::UnknownRole)
    } else {
        None
    }
}

impl ItemDataRole {
    /// The numeric value of the role.
    pub fn to_i32(self) -> (v: i32)
        ensures
            v == role_value(self),
    {
        match self {
            ItemDataRole::DisplayRole => 0,
            ItemDataRole::DecorationRole => 1,
            ItemDataRole::EditRole => 2,
            ItemDataRole::ToolTipRole => 3,
            ItemDataRole::StatusTipRole => 4,
            ItemDataRole::WhatsThisRole => 5,
            ItemDataRole::FontRole => 6,
            ItemDataRole::TextAlignmentRole => 7,
            ItemDataRole::BackgroundRole => 8,
            ItemDataRole::ForegroundRole => 9,
            ItemDataRole::CheckStateRole => 10,
            ItemDataRole::AccessibleTextRole => 11,
            ItemDataRole::AccessibleDescriptionRole => 12,
            ItemDataRole::SizeTipRole => 13,
            ItemDataRole::UserRole => 0x0100,
            ItemDataRole::NodeLabelRole => 0x0101,
            ItemDataRole::FieldLabelRole => 0x0102,
            ItemDataRole::FieldCountRole => 0x0103,
            ItemDataRole::UnknownRole => 0x7fffffff,
        }
    }

    /// The role with numeric value `v`, or `None` where no role has that value.
    pub fn from_i32(v: i32) -> (r: Option<ItemDataRole>)
        ensures
            r == role_of_value(v),
    {
        match v {
            0 => Some(ItemDataRole::DisplayRole),
            1 => Some(ItemDataRole::DecorationRole),
            2 => Some(ItemDataRole::EditRole),
            3 => Some(ItemDataRole::ToolTipRole),
            4 => Some(ItemDataRole::StatusTipRole),
            5 => Some(ItemDataRole::WhatsThisRole),
            6 => Some(ItemDataRole::FontRole),
            7 => Some(ItemDataRole::TextAlignmentRole),
            8 => Some(ItemDataRole::BackgroundRole),
            9 => Some(ItemDataRole::ForegroundRole),
            10 => Some(ItemDataRole::CheckStateRole),
            11 => Some(ItemDataRole::AccessibleTextRole),
            12 => Some(ItemDataRole::AccessibleDescriptionRole),
            13 => Some(ItemDataRole::SizeTipRole),
            0x0100 => Some(ItemDataRole::UserRole),
            0x0101 => Some(ItemDataRole::NodeLabelRole),
            0x0102 => Some(ItemDataRole::FieldLabelRole),
            0x0103 => Some(ItemDataRole::FieldCountRole),
            0x7fffffff => Some(ItemDataRole::UnknownRole),
            _ => None,
        }
    }

    /// The role under which a numeric role value is answered: the role with that
    /// value, or `UnknownRole` where there is none.
    pub fn from_i32_or_default(v: i32) -> (r: ItemDataRole)
        ensures
            r == (match role_of_value(v) {
                Some(role) => role,
                None => ItemDataRole::UnknownRole,
            }),
    {
        match Self::from_i32(v) {
            Some(role) => role,
            None => Self::default(),
        }
    }
}

impl Default for ItemDataRole {
    fn default() -> (r: Self)
        ensures
            r == ItemDataRole::UnknownRole,
    {
        ItemDataRole::UnknownRole
    }
}

/// Reading a role back from its numeric value gives the role itself.
pub proof fn lemma_role_value_round_trip(r: ItemDataRole)
    ensures
        role_of_value(role_value(r)) == Some(r),
{
}

/// A numeric value that names a role is that role's value: no two roles share a value.
pub proof fn lemma_role_of_value_inverse(v: i32, r: ItemDataRole)
    requires
        role_of_value(v) == Some(r),
    ensures
        role_value(r) == v,
{
}

/// The roles carry the toolkit's numbers: the standard roles 0 to 13 in order, the
/// user role 0x100 and this application's roles after it, and the unknown role the
/// largest `i32`.
pub proof fn lemma_role_numbers()
    ensures
        role_value(ItemDataRole::DisplayRole) == 0,
        role_value(ItemDataRole::DecorationRole) == 1,
        role_value(ItemDataRole::EditRole) == 2,
        role_value(ItemDataRole::ToolTipRole) == 3,
        role_value(ItemDataRole::StatusTipRole) == 4,
        role_value(ItemDataRole::WhatsThisRole) == 5,
        role_value(ItemDataRole::FontRole) == 6,
        role_value(ItemDataRole::TextAlignmentRole) == 7,
        role_value(ItemDataRole::BackgroundRole) == 8,
        role_value(ItemDataRole::ForegroundRole) == 9,
        role_value(ItemDataRole::CheckStateRole) == 10,
        role_value(ItemDataRole::AccessibleTextRole) == 11,
        role_value(ItemDataRole::AccessibleDescriptionRole) == 12,
        role_value(ItemDataRole::SizeTipRole) == 13,
        role_value(ItemDataRole::UserRole) == 256,
        role_value(ItemDataRole::NodeLabelRole) == 257,
        role_value(ItemDataRole::FieldLabelRole) == 258,
        role_value(ItemDataRole::FieldCountRole) == 259,
        role_value(ItemDataRole::UnknownRole) == i32::MAX,
        forall|v: i32| 0 <= v <= 13 ==> #[trigger] role_of_value(v) is Some,
        forall|v: i32| 14 <= v < 256 ==> #[trigger] role_of_value(v) is None,
{
}

} // verus!
