//! The packet browser: a flat list of the packets of the first packet set, and a
//! two-level tree of the fields of the packet chosen in it, with the items of each
//! bit field under it.
//!
//! An index of the field tree marks a bit-field item by setting bit 32 of its id;
//! the lower bits then hold the row of the bit field the item belongs to.
use vstd::prelude::*;

use crate::model::{BitFieldItem, Field, Model, Packet};
use crate::tree::{Cell, CellView};
use crate::tree_model::ModelIndex;

verus! {

/// The id bit that marks an index of a bit-field item.
pub const BITFIELD_FLAG: u64 = 0x1_0000_0000u64;

/// The position of an item of the field tree.
#[derive(Debug, Clone, Copy, PartialEq, Eq, Structural)]
pub struct FieldIndex {
    pub row: i32,
    pub column: i32,
    pub id: u64,
}

impl FieldIndex {
    /// An index stands for an item where its row and column are not negative.
    pub open spec fn spec_is_valid(self) -> bool {
        self.row >= 0 && self.column >= 0
    }

    /// Whether the index stands for an item.
    pub fn is_valid(&self) -> (b: bool)
        ensures
            b == self.spec_is_valid(),
    {
        self.row >= 0 && self.column >= 0
    }

    /// Whether the index marks a bit-field item.
    pub open spec fn spec_is_bit_item(self) -> bool {
        self.id & BITFIELD_FLAG != 0
    }

    /// Whether the index marks a bit-field item.
    pub fn is_bit_item(&self) -> (b: bool)
        ensures
            b == self.spec_is_bit_item(),
    {
        self.id & BITFIELD_FLAG != 0
    }
}

/// The index that stands for no item.
pub open spec fn no_field_index() -> FieldIndex {
    FieldIndex { row: -1i32, column: -1i32, id: 0u64 }
}

/// An item of the field tree: a field of the packet, or an item of one of its bit fields.
#[derive(Debug, Clone, Copy)]
pub enum DetailItem<'a> {
    Field(&'a Field),
    Bit(&'a BitFieldItem),
}

/// The text of a field or bit-field item in one of the three columns (name, type, units).
pub trait TreeNode {
    fn data(&self, col: usize) -> Option<String>;
}

/// The text of column `col` of a field: its name, then "bitfield" or its type, then
/// nothing or its units.
pub open spec fn spec_field_text(f: Field, col: int) -> Seq<char> {
    match f {
        Field::Bits { name, .. } => if col == 0 {
            name@
        } else if col == 1 {
            "bitfield"@
        } else {
            ""@
        },
        Field::Plain { name, typ, units } => if col == 0 {
            name@
        } else if col == 1 {
            typ@
        } else {
            units@
        },
    }
}

/// The text of column `col` of a bit-field item: its name, then "field", then nothing.
pub open spec fn spec_bit_text(b: BitFieldItem, col: int) -> Seq<char> {
    if col == 0 {
        b.name@
    } else if col == 1 {
        "field"@
    } else {
        ""@
    }
}

/// The text of column `col` of an item of the field tree.
pub open spec fn spec_item_text(item: DetailItem, col: int) -> Seq<char> {
    match item {
        DetailItem::Field(f) => spec_field_text(*f, col),
        DetailItem::Bit(b) => spec_bit_text(*b, col),
    }
}

impl TreeNode for Field {
    fn data(&self, col: usize) -> (r: Option<String>)
        ensures
            r matches Some(s) && s@ == spec_field_text(*self, col as int),
    {
        match self {
            Field::Bits { name, .. } => Some(
                if col == 0 {
                    name.clone()
                } else if col == 1 {
                    "bitfield".to_owned()
                } else {
                    "".to_owned()
                },
            ),
            Field::Plain { name, typ, units } => Some(
                if col == 0 {
                    name.clone()
                } else if col == 1 {
                    typ.clone()
                } else {
                    units.clone()
                },
            ),
        }
    }
}

impl TreeNode for BitFieldItem {
    fn data(&self, col: usize) -> (r: Option<String>)
        ensures
            r matches Some(s) && s@ == spec_bit_text(*self, col as int),
    {
        Some(
            if col == 0 {
                self.name.clone()
            } else if col == 1 {
                "field".to_owned()
            } else {
                "".to_owned()
            },
        )
    }
}

impl<'a> TreeNode for DetailItem<'a> {
    fn data(&self, col: usize) -> (r: Option<String>)
        ensures
            r matches Some(s) && s@ == spec_item_text(*self, col as int),
    {
        match self {
            DetailItem::Field(f) => f.data(col),
            DetailItem::Bit(b) => b.data(col),
        }
    }
}

/// The item an index of the field tree of `p` stands for: the bit-field item at its
/// row where it marks one and the bit field and item exist, or else the field at its row.
pub open spec fn spec_item<'a>(p: &'a Packet, idx: FieldIndex) -> Option<DetailItem<'a>> {
    let r = idx.id ^ BITFIELD_FLAG;
    if idx.spec_is_bit_item() && r < p.data@.len() && p.data@[r as int] is Bits && 0 <= idx.row
        < p.data@[r as int]->bits@.len() {
        Some(DetailItem::Bit(&p.data@[r as int]->bits@[idx.row as int]))
    } else if 0 <= idx.row < p.data@.len() {
        Some(DetailItem::Field(&p.data@[idx.row as int]))
    } else {
        None
    }
}

/// The index `index(row, column, parent)` answers.
pub open spec fn spec_field_index(row: i32, column: i32, parent: FieldIndex) -> FieldIndex {
    if parent.spec_is_bit_item() {
        no_field_index()
    } else if !parent.spec_is_valid() {
        FieldIndex { row, column, id: 0 }
    } else {
        FieldIndex { row, column, id: (parent.row as u64) | BITFIELD_FLAG }
    }
}

/// The index `parent(index)` answers.
pub open spec fn spec_field_parent(index: FieldIndex) -> FieldIndex {
    if index.spec_is_bit_item() {
        FieldIndex { row: (index.id ^ BITFIELD_FLAG) as i32, column: 0, id: 0 }
    } else {
        no_field_index()
    }
}

/// The number of rows under `parent`: none under a bit-field item, the fields of the
/// packet under the root, the items of a bit field under it, and none under a plain field.
pub open spec fn spec_field_row_count(p: &Packet, parent: FieldIndex) -> i32 {
    if parent.spec_is_bit_item() {
        0
    } else if !parent.spec_is_valid() {
        p.data@.len() as i32
    } else {
        match p.data@[parent.row as int] {
            Field::Bits { bits, .. } => bits@.len() as i32,
            Field::Plain { .. } => 0,
        }
    }
}

/// The cell shown for `index` under the numeric role `role`: the item's text in
/// its column for the display role, and nothing otherwise.
pub open spec fn spec_field_data(p: &Packet, index: FieldIndex, role: i32) -> CellView {
    if role != 0 {
        CellView::Empty
    } else {
        match spec_item(p, index) {
            Some(item) => CellView::Text(
                spec_item_text(item, if index.column < 0 {
                    2
                } else {
                    index.column as int
                }),
            ),
            None => CellView::Empty,
        }
    }
}

/// The tree model of the fields of one packet.
pub struct FieldListModel<'a> {
    pub packet: &'a Packet,
}

impl<'a> FieldListModel<'a> {
    /// The item `idx` stands for.
    pub fn item(&self, idx: FieldIndex) -> (r: Option<DetailItem<'a>>)
        ensures
            r == spec_item(self.packet, idx),
    {
        let data = &self.packet.data;
        if idx.is_bit_item() {
            let r = idx.id ^ BITFIELD_FLAG;
            if r < data.len() as u64 {
                let a = &data[r as usize];
                if let Field::Bits { bits, .. } = a {
                    if idx.row >= 0 && (idx.row as usize) < bits.len() {
                        return Some(DetailItem::Bit(&bits[idx.row as usize]));
                    }
                }
            }
        }
        if idx.row >= 0 && (idx.row as usize) < data.len() {
            return Some(DetailItem::Field(&data[idx.row as usize]));
        }
        None
    }

    /// The index of the item at `row`, `column` under `parent`.
    pub fn index(&self, row: i32, column: i32, parent: FieldIndex) -> (r: FieldIndex)
        ensures
            r == spec_field_index(row, column, parent),
    {
        if parent.is_bit_item() {
            return FieldIndex { row: -1, column: -1, id: 0 };
        }
        if !parent.is_valid() {
            return FieldIndex { row, column, id: 0 };
        }
        FieldIndex { row, column, id: (parent.row as u64) | BITFIELD_FLAG }
    }

    /// The index of the parent of `index`.
    pub fn parent(&self, index: FieldIndex) -> (r: FieldIndex)
        ensures
            r == spec_field_parent(index),
    {
        if index.is_bit_item() {
            return FieldIndex { row: (index.id ^ BITFIELD_FLAG) as i32, column: 0, id: 0 };
        }
        FieldIndex { row: -1, column: -1, id: 0 }
    }

    /// The number of rows under `parent`.
    pub fn row_count(&self, parent: FieldIndex) -> (r: i32)
        requires
            !parent.spec_is_bit_item() && parent.spec_is_valid() ==> parent.row
                < self.packet.data@.len(),
        ensures
            r == spec_field_row_count(self.packet, parent),
    {
        if parent.is_bit_item() {
            return 0;
        }
        if !parent.is_valid() {
            return self.packet.data.len() as i32;
        }
        if let Field::Bits { bits, .. } = &self.packet.data[parent.row as usize] {
            return bits.len() as i32;
        }
        0
    }

    /// The number of columns: name, type and units.
    pub fn column_count(&self, parent: FieldIndex) -> (r: i32)
        ensures
            r == 3,
    {
        3
    }

    /// The cell shown for `index` under the numeric role `role`.
    pub fn data(&self, index: FieldIndex, role: i32) -> (r: Cell)
        ensures
            r@ == spec_field_data(self.packet, index, role),
    {
        if role != 0 {
            return Cell::Empty;
        }
        match self.item(index) {
            Some(x) => {
                let col: usize = if index.column < 0 {
                    2
                } else {
                    index.column as usize
                };
                match x.data(col) {
                    Some(s) => Cell::Text(s),
                    None => Cell::Empty,
                }
            },
            None => Cell::Empty,
        }
    }
}

/// The list model of the packets of the first packet set of a model.
pub struct PacketListModel<'a> {
    pub list: &'a Model,
}

impl<'a> PacketListModel<'a> {
    /// The number of packets of the first set.
    pub fn row_count(&self) -> (r: i32)
        requires
            self.list.sets@.len() > 0,
        ensures
            r == self.list.sets@[0].packets@.len() as i32,
    {
        self.list.sets[0].packets.len() as i32
    }

    /// The cell shown for `index` under the numeric role `role`: the name of the packet
    /// at its row for the display role, and nothing otherwise or past the last packet.
    pub fn data(&self, index: ModelIndex, role: i32) -> (r: Cell)
        requires
            self.list.sets@.len() > 0,
        ensures
            r@ == (if 0 <= index.row < self.list.sets@[0].packets@.len() && role == 0 {
                CellView::Text(self.list.sets@[0].packets@[index.row as int].name@)
            } else {
                CellView::Empty
            }),
    {
        let packets = &self.list.sets[0].packets;
        if index.row < 0 || index.row as usize >= packets.len() {
            return Cell::Empty;
        }
        if role != 0 {
            return Cell::Empty;
        }
        Cell::Text(packets[index.row as usize].name.clone())
    }

    /// The packet whose fields the field tree shows once the packet at `row` is clicked.
    pub fn clicked_packet(&self, row: i32) -> (p: &'a Packet)
        requires
            self.list.sets@.len() > 0,
            0 <= row < self.list.sets@[0].packets@.len(),
        ensures
            *p == self.list.sets@[0].packets@[row as int],
    {
        &self.list.sets[0].packets[row as usize]
    }
}


/// Setting the flag bit on a row marks it, and clearing it gives the row back.
proof fn lemma_flag_bits(x: u64)
    requires
        x < 0x8000_0000u64,
    ensures
        (x | BITFIELD_FLAG) & BITFIELD_FLAG != 0,
        (x | BITFIELD_FLAG) ^ BITFIELD_FLAG == x,
        0u64 & BITFIELD_FLAG == 0,
{
    assert((x | 0x1_0000_0000u64) & 0x1_0000_0000u64 != 0) by (bit_vector)
        requires
            x < 0x8000_0000u64,
    ;
    assert((x | 0x1_0000_0000u64) ^ 0x1_0000_0000u64 == x) by (bit_vector)
        requires
            x < 0x8000_0000u64,
    ;
    assert(0u64 & 0x1_0000_0000u64 == 0) by (bit_vector);
}

/// The parent of an item handed out under a field is that field, in the first column.
pub proof fn lemma_field_parent_of_index(row: i32, column: i32, parent: FieldIndex)
    requires
        parent.spec_is_valid(),
        !parent.spec_is_bit_item(),
    ensures
        spec_field_parent(spec_field_index(row, column, parent)) == (FieldIndex {
            row: parent.row,
            column: 0,
            id: 0,
        }),
{
    lemma_flag_bits(parent.row as u64);
}

/// The parent of a field handed out under the root is no item.
pub proof fn lemma_field_parent_of_top_index(row: i32, column: i32, parent: FieldIndex)
    requires
        !parent.spec_is_valid(),
        !parent.spec_is_bit_item(),
    ensures
        spec_field_parent(spec_field_index(row, column, parent)) == no_field_index(),
{
    lemma_flag_bits(0);
}

/// An index handed out under a bit field stands for the item at its row of that bit field.
pub proof fn lemma_field_index_designates_bit(p: &Packet, row: i32, column: i32, parent: FieldIndex)
    requires
        parent.spec_is_valid(),
        !parent.spec_is_bit_item(),
        parent.row < p.data@.len(),
        p.data@[parent.row as int] is Bits,
        0 <= row < p.data@[parent.row as int]->bits@.len(),
    ensures
        spec_item(p, spec_field_index(row, column, parent)) == Some(
            DetailItem::Bit(&p.data@[parent.row as int]->bits@[row as int]),
        ),
{
    lemma_flag_bits(parent.row as u64);
}

/// An index handed out under the root stands for the field at its row.
pub proof fn lemma_field_index_designates_field(p: &Packet, row: i32, column: i32, parent: FieldIndex)
    requires
        !parent.spec_is_valid(),
        !parent.spec_is_bit_item(),
        0 <= row < p.data@.len(),
    ensures
        spec_item(p, spec_field_index(row, column, parent)) == Some(
            DetailItem::Field(&p.data@[row as int]),
        ),
{
    lemma_flag_bits(0);
}

/// Under a parent that is not a bit-field item, the index answered carries the row
/// and column asked for; under a bit-field item it is no item.
pub proof fn lemma_field_index_keeps_row_and_column(row: i32, column: i32, parent: FieldIndex)
    ensures
        !parent.spec_is_bit_item() ==> spec_field_index(row, column, parent).row == row
            && spec_field_index(row, column, parent).column == column,
        parent.spec_is_bit_item() ==> spec_field_index(row, column, parent) == no_field_index(),
{
}

/// Under a bit field, the rows counted are exactly the rows whose index stands for an
/// item of that bit field.
pub proof fn lemma_bit_rows_are_items(p: &Packet, parent: FieldIndex, row: i32, column: i32)
    requires
        parent.spec_is_valid(),
        !parent.spec_is_bit_item(),
        parent.row < p.data@.len(),
        p.data@[parent.row as int] is Bits,
        p.data@[parent.row as int]->bits@.len() <= i32::MAX,
        row >= 0,
    ensures
        (row < spec_field_row_count(p, parent)) <==> (spec_item(
            p,
            spec_field_index(row, column, parent),
        ) matches Some(DetailItem::Bit(_))),
        spec_field_row_count(p, parent) == p.data@[parent.row as int]->bits@.len(),
{
    lemma_flag_bits(parent.row as u64);
}

/// Under the root, the rows counted are exactly the rows whose index stands for a
/// field of the packet.
pub proof fn lemma_top_rows_are_fields(p: &Packet, parent: FieldIndex, row: i32, column: i32)
    requires
        !parent.spec_is_valid(),
        !parent.spec_is_bit_item(),
        p.data@.len() <= i32::MAX,
        row >= 0,
    ensures
        (row < spec_field_row_count(p, parent)) <==> (spec_item(
            p,
            spec_field_index(row, column, parent),
        ) matches Some(DetailItem::Field(_))),
        spec_field_row_count(p, parent) == p.data@.len(),
{
    lemma_flag_bits(0);
}

/// Under a plain field or a bit-field item there are no rows.
pub proof fn lemma_leaf_rows(p: &Packet, parent: FieldIndex)
    requires
        parent.spec_is_bit_item() || (parent.spec_is_valid() && parent.row < p.data@.len()
            && p.data@[parent.row as int] is Plain),
    ensures
        spec_field_row_count(p, parent) == 0,
{
}

} // verus!
