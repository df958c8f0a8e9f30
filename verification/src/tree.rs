//! The data model seen as a tree of nodes, each with a row of cells: the model's
//! packet sets, their packets, the packets' fields and the bit fields' items.
use vstd::prelude::*;

use crate::decimal::{decimal, parse_decimal, parse_decimal_text, u16_to_decimal};
use crate::model::{BitFieldItem, Field, Model, Packet, PacketSet};

verus! {

/// What a model hands a view for one cell: nothing, a flag, or a text.
#[derive(Debug, PartialEq, Eq)]
pub enum Cell {
    Empty,
    Flag(bool),
    Text(String),
}

/// The mathematical value of a cell.
pub enum CellView {
    Empty,
    Flag(bool),
    Text(Seq<char>),
}

impl View for Cell {
    type V = CellView;

    open spec fn view(&self) -> CellView {
        match self {
            Cell::Empty => CellView::Empty,
            Cell::Flag(b) => CellView::Flag(*b),
            Cell::Text(s) => CellView::Text(s@),
        }
    }
}

/// A reference to one node of the tree.
#[derive(Debug, Clone, Copy)]
pub enum NodeRef<'a> {
    Model(&'a Model),
    PacketSet(&'a PacketSet),
    Packet(&'a Packet),
    Field(&'a Field),
    BitFieldItem(&'a BitFieldItem),
}

/// The number of children of a node.
pub open spec fn spec_len(n: NodeRef) -> nat {
    match n {
        NodeRef::Model(m) => m.sets@.len(),
        NodeRef::PacketSet(s) => s.packets@.len(),
        NodeRef::Packet(p) => p.data@.len(),
        NodeRef::Field(f) => match f {
            Field::Bits { bits, .. } => bits@.len(),
            Field::Plain { .. } => 0,
        },
        NodeRef::BitFieldItem(_) => 0,
    }
}

/// The `i`th child of a node, if it has one.
pub open spec fn spec_child<'a>(n: NodeRef<'a>, i: int) -> Option<NodeRef<'a>> {
    if 0 <= i < spec_len(n) {
        match n {
            NodeRef::Model(m) => Some(NodeRef::PacketSet(&m.sets@[i])),
            NodeRef::PacketSet(s) => Some(NodeRef::Packet(&s.packets@[i])),
            NodeRef::Packet(p) => Some(NodeRef::Field(&p.data@[i])),
            NodeRef::Field(f) => match f {
                Field::Bits { bits, .. } => Some(NodeRef::BitFieldItem(&bits@[i])),
                Field::Plain { .. } => None,
            },
            NodeRef::BitFieldItem(_) => None,
        }
    } else {
        None
    }
}

/// A text cell.
pub open spec fn text(s: Seq<char>) -> CellView {
    CellView::Text(s)
}

/// The cell a node shows outside the columns it has.
pub open spec fn no_cell() -> CellView {
    CellView::Flag(false)
}

/// The `col`th data cell of a node: the node's own values, in declaration order.
pub open spec fn spec_data(n: NodeRef, col: int) -> CellView {
    match n {
        NodeRef::Model(_) => no_cell(),
        NodeRef::PacketSet(s) => if col == 0 {
            text(s.name@)
        } else {
            no_cell()
        },
        NodeRef::Packet(p) => if col == 0 {
            text(p.name@)
        } else if col == 1 {
            text(decimal(p.id as nat))
        } else if col == 2 {
            text(p.description@)
        } else {
            no_cell()
        },
        NodeRef::Field(f) => match f {
            Field::Bits { name, .. } => if col == 0 {
                text(name@)
            } else {
                no_cell()
            },
            Field::Plain { name, typ, units } => if col == 0 {
                text(name@)
            } else if col == 1 {
                text(typ@)
            } else if col == 2 {
                text(units@)
            } else {
                no_cell()
            },
        },
        NodeRef::BitFieldItem(b) => if col == 0 {
            text(b.name@)
        } else if col == 1 {
            text(decimal(b.bitnum as nat))
        } else {
            no_cell()
        },
    }
}

/// The `col`th field-name cell of a node: the name of the value its `col`th data cell shows.
pub open spec fn spec_field(n: NodeRef, col: int) -> CellView {
    match n {
        NodeRef::Model(_) => no_cell(),
        NodeRef::PacketSet(_) => if col == 0 {
            text("name"@)
        } else {
            no_cell()
        },
        NodeRef::Packet(_) => if col == 0 {
            text("name"@)
        } else if col == 1 {
            text("id"@)
        } else if col == 2 {
            text("description"@)
        } else {
            no_cell()
        },
        NodeRef::Field(f) => match f {
            Field::Bits { .. } => if col == 0 {
                text("name"@)
            } else {
                no_cell()
            },
            Field::Plain { .. } => if col == 0 {
                text("name"@)
            } else if col == 1 {
                text("typ"@)
            } else if col == 2 {
                text("units"@)
            } else {
                no_cell()
            },
        },
        NodeRef::BitFieldItem(_) => if col == 0 {
            text("name"@)
        } else if col == 1 {
            text("bitnum"@)
        } else {
            no_cell()
        },
    }
}

/// The column titles a node offers when it is the root of a view.
pub open spec fn spec_columns(n: NodeRef) -> Seq<Seq<char>> {
    match n {
        NodeRef::Model(_) => seq!["Name"@, "Type"@, "Units"@],
        _ => Seq::empty(),
    }
}

/// The type name of a node.
pub open spec fn spec_label(n: NodeRef) -> Seq<char> {
    match n {
        NodeRef::Model(_) => "Model"@,
        NodeRef::PacketSet(_) => "PacketSet"@,
        NodeRef::Packet(_) => "Packet"@,
        NodeRef::Field(_) => "Field"@,
        NodeRef::BitFieldItem(_) => "BitFieldItem"@,
    }
}

/// A packet set takes a text cell in column 0, its name.
pub open spec fn set_accepts(idx: int, c: Cell) -> bool {
    c is Text && idx == 0
}

/// The packet set with its name set from a text cell.
pub open spec fn set_with(s: PacketSet, c: Cell) -> PacketSet {
    match c {
        Cell::Text(t) => PacketSet { name: t, ..s },
        _ => s,
    }
}

/// A packet takes a text cell in column 0 or 2, and in column 1 a text that spells
/// a 16-bit number in decimal.
pub open spec fn packet_accepts(idx: int, c: Cell) -> bool {
    match c {
        Cell::Text(t) => idx == 0 || idx == 2 || (idx == 1 && parse_decimal(t@, 65535) is Some),
        _ => false,
    }
}

/// The packet with the field of column `idx` set from a text cell.
pub open spec fn packet_with(p: Packet, idx: int, c: Cell) -> Packet {
    match c {
        Cell::Text(t) => if idx == 0 {
            Packet { name: t, ..p }
        } else if idx == 1 {
            Packet { id: parse_decimal(t@, 65535)->0 as u16, ..p }
        } else {
            Packet { description: t, ..p }
        },
        _ => p,
    }
}

/// A field takes a text cell in column 0, and a plain field also in columns 1 and 2.
pub open spec fn field_accepts(f: Field, idx: int, c: Cell) -> bool {
    c is Text && match f {
        Field::Bits { .. } => idx == 0,
        Field::Plain { .. } => 0 <= idx <= 2,
    }
}

/// The field with the value of column `idx` set from a text cell.
pub open spec fn field_with(f: Field, idx: int, c: Cell) -> Field {
    match c {
        Cell::Text(t) => match f {
            Field::Bits { name, typ, units, bits } => Field::Bits { name: t, typ, units, bits },
            Field::Plain { name, typ, units } => if idx == 0 {
                Field::Plain { name: t, typ, units }
            } else if idx == 1 {
                Field::Plain { name, typ: t, units }
            } else {
                Field::Plain { name, typ, units: t }
            },
        },
        _ => f,
    }
}

/// A bit-field item takes a text cell in column 0, and in column 1 a text that
/// spells an 8-bit number in decimal.
pub open spec fn bit_accepts(idx: int, c: Cell) -> bool {
    match c {
        Cell::Text(t) => idx == 0 || (idx == 1 && parse_decimal(t@, 255) is Some),
        _ => false,
    }
}

/// The bit-field item with the value of column `idx` set from a text cell.
pub open spec fn bit_with(b: BitFieldItem, idx: int, c: Cell) -> BitFieldItem {
    match c {
        Cell::Text(t) => if idx == 0 {
            BitFieldItem { name: t, ..b }
        } else {
            BitFieldItem { bitnum: parse_decimal(t@, 255)->0 as u8, ..b }
        },
        _ => b,
    }
}

/// After a packet takes a text in a column, that column shows the text (the id as the
/// decimal text of the number it spells), and every other column shows what it showed.
pub proof fn lemma_packet_set_reads_back(p: Packet, idx: int, t: String, j: int)
    requires
        packet_accepts(idx, Cell::Text(t)),
    ensures
        spec_data(NodeRef::Packet(&packet_with(p, idx, Cell::Text(t))), idx) == (if idx == 1 {
            text(decimal(parse_decimal(t@, 65535)->0 as nat))
        } else {
            text(t@)
        }),
        j != idx ==> spec_data(NodeRef::Packet(&packet_with(p, idx, Cell::Text(t))), j)
            == spec_data(NodeRef::Packet(&p), j),
{
    crate::decimal::lemma_parse_decimal_in_range(t@, 65535);
}

/// Setting a packet's id to the text it shows leaves the packet as it was.
pub proof fn lemma_packet_set_shown_id(p: Packet, t: String)
    requires
        t@ == decimal(p.id as nat),
    ensures
        packet_accepts(1, Cell::Text(t)),
        packet_with(p, 1, Cell::Text(t)) == p,
{
    crate::decimal::lemma_parse_decimal_round_trip(p.id as nat, 65535);
}

/// After a bit-field item takes a text in a column, that column shows the text (the
/// bit count as the decimal text of the number it spells), and the other columns
/// show what they showed.
pub proof fn lemma_bit_set_reads_back(b: BitFieldItem, idx: int, t: String, j: int)
    requires
        bit_accepts(idx, Cell::Text(t)),
    ensures
        spec_data(NodeRef::BitFieldItem(&bit_with(b, idx, Cell::Text(t))), idx) == (if idx == 1 {
            text(decimal(parse_decimal(t@, 255)->0 as nat))
        } else {
            text(t@)
        }),
        j != idx ==> spec_data(NodeRef::BitFieldItem(&bit_with(b, idx, Cell::Text(t))), j)
            == spec_data(NodeRef::BitFieldItem(&b), j),
{
    crate::decimal::lemma_parse_decimal_in_range(t@, 255);
}

/// Setting a bit-field item's bit count to the text it shows leaves it as it was.
pub proof fn lemma_bit_set_shown_bitnum(b: BitFieldItem, t: String)
    requires
        t@ == decimal(b.bitnum as nat),
    ensures
        bit_accepts(1, Cell::Text(t)),
        bit_with(b, 1, Cell::Text(t)) == b,
{
    crate::decimal::lemma_parse_decimal_round_trip(b.bitnum as nat, 255);
}

/// After a field takes a text in a column, that column shows the text and the other
/// columns show what they showed; its bits stay.
pub proof fn lemma_field_set_reads_back(f: Field, idx: int, t: String, j: int)
    requires
        field_accepts(f, idx, Cell::Text(t)),
    ensures
        spec_data(NodeRef::Field(&field_with(f, idx, Cell::Text(t))), idx) == text(t@),
        j != idx ==> spec_data(NodeRef::Field(&field_with(f, idx, Cell::Text(t))), j) == spec_data(
            NodeRef::Field(&f),
            j,
        ),
        spec_len(NodeRef::Field(&field_with(f, idx, Cell::Text(t)))) == spec_len(NodeRef::Field(&f)),
{
}

/// After a packet set takes a text as its name, it shows that name and keeps its packets.
pub proof fn lemma_set_set_reads_back(s: PacketSet, t: String)
    ensures
        spec_data(NodeRef::PacketSet(&set_with(s, Cell::Text(t))), 0) == text(t@),
        set_with(s, Cell::Text(t)).packets == s.packets,
{
}

/// A node of a tree that an item view shows: it has children, a row of data cells,
/// the names of those cells, and a type name.
pub trait TreeNode {
    /// Returns the nth child node, if one exists.
    fn get(&self, n: usize) -> Option<NodeRef<'_>>;

    /// Returns a mutable reference to the nth child node, if one exists.
    fn get_mut(&mut self, n: usize) -> Option<NodeMut<'_>>;

    /// Returns the number of children of this node.
    fn len(&self) -> usize;

    /// Returns the names of the columns. Only needed on nodes intended for root usage.
    fn columns(&self) -> Vec<&'static str>;

    /// Returns the nth field's name if it exists.
    fn field(&self, idx: i32) -> Cell;

    /// Returns the nth field's data if it exists.
    fn data(&self, idx: i32) -> Cell;

    /// Sets the nth field's data if it exists.
    fn set_data(&mut self, idx: i32, data: Cell) -> bool;

    /// Returns the user-facing type name of the node.
    fn label(&self) -> &'static str;
}

fn text_cell(s: &String) -> (c: Cell)
    ensures
        c@ == text(s@),
{
    Cell::Text(s.clone())
}

fn literal_cell(s: &str) -> (c: Cell)
    ensures
        c@ == text(s@),
{
    Cell::Text(s.to_owned())
}

fn number_cell(n: u16) -> (c: Cell)
    ensures
        c@ == text(decimal(n as nat)),
{
    Cell::Text(u16_to_decimal(n))
}

impl<'a> NodeRef<'a> {
    /// The `n`th child of this node, borrowed for as long as the node itself.
    pub fn child(self, n: usize) -> (r: Option<NodeRef<'a>>)
        ensures
            r == spec_child(self, n as int),
    {
        match self {
            NodeRef::Model(m) => if n < m.sets.len() {
                Some(NodeRef::PacketSet(&m.sets[n]))
            } else {
                None
            },
            NodeRef::PacketSet(s) => if n < s.packets.len() {
                Some(NodeRef::Packet(&s.packets[n]))
            } else {
                None
            },
            NodeRef::Packet(p) => if n < p.data.len() {
                Some(NodeRef::Field(&p.data[n]))
            } else {
                None
            },
            NodeRef::Field(f) => match f {
                Field::Bits { bits, .. } => if n < bits.len() {
                    Some(NodeRef::BitFieldItem(&bits[n]))
                } else {
                    None
                },
                Field::Plain { .. } => None,
            },
            NodeRef::BitFieldItem(_) => None,
        }
    }

    /// The number of children of this node.
    pub fn child_count(self) -> (r: usize)
        ensures
            r == spec_len(self),
    {
        match self {
            NodeRef::Model(m) => m.sets.len(),
            NodeRef::PacketSet(s) => s.packets.len(),
            NodeRef::Packet(p) => p.data.len(),
            NodeRef::Field(f) => match f {
                Field::Bits { bits, .. } => bits.len(),
                Field::Plain { .. } => 0,
            },
            NodeRef::BitFieldItem(_) => 0,
        }
    }

    /// The `idx`th data cell of this node.
    pub fn data_cell(self, idx: i32) -> (r: Cell)
        ensures
            r@ == spec_data(self, idx as int),
    {
        match self {
            NodeRef::Model(_) => Cell::Flag(false),
            NodeRef::PacketSet(s) => if idx == 0 {
                text_cell(&s.name)
            } else {
                Cell::Flag(false)
            },
            NodeRef::Packet(p) => if idx == 0 {
                text_cell(&p.name)
            } else if idx == 1 {
                number_cell(p.id)
            } else if idx == 2 {
                text_cell(&p.description)
            } else {
                Cell::Flag(false)
            },
            NodeRef::Field(f) => match f {
                Field::Bits { name, .. } => if idx == 0 {
                    text_cell(name)
                } else {
                    Cell::Flag(false)
                },
                Field::Plain { name, typ, units } => if idx == 0 {
                    text_cell(name)
                } else if idx == 1 {
                    text_cell(typ)
                } else if idx == 2 {
                    text_cell(units)
                } else {
                    Cell::Flag(false)
                },
            },
            NodeRef::BitFieldItem(b) => if idx == 0 {
                text_cell(&b.name)
            } else if idx == 1 {
                number_cell(b.bitnum as u16)
            } else {
                Cell::Flag(false)
            },
        }
    }

    /// The `idx`th field-name cell of this node.
    pub fn field_cell(self, idx: i32) -> (r: Cell)
        ensures
            r@ == spec_field(self, idx as int),
    {
        match self {
            NodeRef::Model(_) => Cell::Flag(false),
            NodeRef::PacketSet(_) => if idx == 0 {
                literal_cell("name")
            } else {
                Cell::Flag(false)
            },
            NodeRef::Packet(_) => if idx == 0 {
                literal_cell("name")
            } else if idx == 1 {
                literal_cell("id")
            } else if idx == 2 {
                literal_cell("description")
            } else {
                Cell::Flag(false)
            },
            NodeRef::Field(f) => match f {
                Field::Bits { .. } => if idx == 0 {
                    literal_cell("name")
                } else {
                    Cell::Flag(false)
                },
                Field::Plain { .. } => if idx == 0 {
                    literal_cell("name")
                } else if idx == 1 {
                    literal_cell("typ")
                } else if idx == 2 {
                    literal_cell("units")
                } else {
                    Cell::Flag(false)
                },
            },
            NodeRef::BitFieldItem(_) => if idx == 0 {
                literal_cell("name")
            } else if idx == 1 {
                literal_cell("bitnum")
            } else {
                Cell::Flag(false)
            },
        }
    }

    /// The column titles of this node.
    pub fn column_titles(self) -> (r: Vec<&'static str>)
        ensures
            r@.map_values(|s: &'static str| s@) == spec_columns(self),
    {
        match self {
            NodeRef::Model(_) => {
                let r = vec!["Name", "Type", "Units"];
                assert(r@.map_values(|s: &'static str| s@) =~= spec_columns(self));
                r
            },
            _ => {
                let r = Vec::new();
                assert(r@.map_values(|s: &'static str| s@) =~= spec_columns(self));
                r
            },
        }
    }

    /// The type name of this node.
    pub fn type_label(self) -> (r: &'static str)
        ensures
            r@ == spec_label(self),
    {
        match self {
            NodeRef::Model(_) => "Model",
            NodeRef::PacketSet(_) => "PacketSet",
            NodeRef::Packet(_) => "Packet",
            NodeRef::Field(_) => "Field",
            NodeRef::BitFieldItem(_) => "BitFieldItem",
        }
    }
}

impl<'a> TreeNode for NodeRef<'a> {
    fn get(&self, n: usize) -> (r: Option<NodeRef<'_>>)
        ensures
            r == spec_child(*self, n as int),
    {
        (*self).child(n)
    }

    /// A shared node reference hands out no mutable child.
    fn get_mut(&mut self, n: usize) -> (r: Option<NodeMut<'_>>)
        ensures
            r is None,
            *final(self) == *old(self),
    {
        None
    }

    fn len(&self) -> (r: usize)
        ensures
            r == spec_len(*self),
    {
        (*self).child_count()
    }

    fn columns(&self) -> (r: Vec<&'static str>)
        ensures
            r@.map_values(|s: &'static str| s@) == spec_columns(*self),
    {
        (*self).column_titles()
    }

    fn field(&self, idx: i32) -> (r: Cell)
        ensures
            r@ == spec_field(*self, idx as int),
    {
        (*self).field_cell(idx)
    }

    fn data(&self, idx: i32) -> (r: Cell)
        ensures
            r@ == spec_data(*self, idx as int),
    {
        (*self).data_cell(idx)
    }

    /// A shared node reference cannot be edited: the edit is refused.
    fn set_data(&mut self, idx: i32, data: Cell) -> (r: bool)
        ensures
            !r,
            *final(self) == *old(self),
    {
        false
    }

    fn label(&self) -> (r: &'static str)
        ensures
            r@ == spec_label(*self),
    {
        (*self).type_label()
    }
}

impl TreeNode for Model {
    fn get(&self, n: usize) -> (r: Option<NodeRef<'_>>)
        ensures
            r == spec_child(NodeRef::Model(self), n as int),
    {
        (NodeRef::Model(self)).child(n)
    }

    fn get_mut(&mut self, n: usize) -> (r: Option<NodeMut<'_>>)
        ensures
            n < old(self).sets@.len() ==> (r matches Some(NodeMut::PacketSet(s)) && *s
                == old(self).sets@[n as int] && final(self).sets@ == old(self).sets@.update(
                n as int,
                *final(s),
            )),
            n >= old(self).sets@.len() ==> r is None && *final(self) == *old(self),
    {
        if n < self.sets.len() {
            Some(NodeMut::PacketSet(&mut self.sets[n]))
        } else {
            None
        }
    }

    fn len(&self) -> (r: usize)
        ensures
            r == spec_len(NodeRef::Model(self)),
    {
        (NodeRef::Model(self)).child_count()
    }

    fn columns(&self) -> (r: Vec<&'static str>)
        ensures
            r@.map_values(|s: &'static str| s@) == spec_columns(NodeRef::Model(self)),
    {
        (NodeRef::Model(self)).column_titles()
    }

    fn field(&self, idx: i32) -> (r: Cell)
        ensures
            r@ == spec_field(NodeRef::Model(self), idx as int),
    {
        (NodeRef::Model(self)).field_cell(idx)
    }

    fn data(&self, idx: i32) -> (r: Cell)
        ensures
            r@ == spec_data(NodeRef::Model(self), idx as int),
    {
        (NodeRef::Model(self)).data_cell(idx)
    }

    /// The model has no fields of its own, so no edit is taken.
    fn set_data(&mut self, idx: i32, data: Cell) -> (r: bool)
        ensures
            !r,
            *final(self) == *old(self),
    {
        false
    }

    fn label(&self) -> (r: &'static str)
        ensures
            r@ == spec_label(NodeRef::Model(self)),
    {
        (NodeRef::Model(self)).type_label()
    }
}

impl TreeNode for PacketSet {
    fn get(&self, n: usize) -> (r: Option<NodeRef<'_>>)
        ensures
            r == spec_child(NodeRef::PacketSet(self), n as int),
    {
        (NodeRef::PacketSet(self)).child(n)
    }

    fn get_mut(&mut self, n: usize) -> (r: Option<NodeMut<'_>>)
        ensures
            n < old(self).packets@.len() ==> (r matches Some(NodeMut::Packet(p)) && *p
                == old(self).packets@[n as int] && final(self).packets@ == old(self).packets@.update(n as int, *final(p)) && final(self).name == old(self).name),
            n >= old(self).packets@.len() ==> r is None && *final(self) == *old(self),
    {
        if n < self.packets.len() {
            Some(NodeMut::Packet(&mut self.packets[n]))
        } else {
            None
        }
    }

    fn len(&self) -> (r: usize)
        ensures
            r == spec_len(NodeRef::PacketSet(self)),
    {
        (NodeRef::PacketSet(self)).child_count()
    }

    fn columns(&self) -> (r: Vec<&'static str>)
        ensures
            r@.map_values(|s: &'static str| s@) == spec_columns(NodeRef::PacketSet(self)),
    {
        (NodeRef::PacketSet(self)).column_titles()
    }

    fn field(&self, idx: i32) -> (r: Cell)
        ensures
            r@ == spec_field(NodeRef::PacketSet(self), idx as int),
    {
        (NodeRef::PacketSet(self)).field_cell(idx)
    }

    fn data(&self, idx: i32) -> (r: Cell)
        ensures
            r@ == spec_data(NodeRef::PacketSet(self), idx as int),
    {
        (NodeRef::PacketSet(self)).data_cell(idx)
    }

    /// Sets the set's name from a text cell in column 0.
    fn set_data(&mut self, idx: i32, data: Cell) -> (r: bool)
        ensures
            r == set_accepts(idx as int, data),
            *final(self) == (if r {
                set_with(*old(self), data)
            } else {
                *old(self)
            }),
    {
        match data {
            Cell::Text(t) => if idx == 0 {
                self.name = t;
                true
            } else {
                false
            },
            _ => false,
        }
    }

    fn label(&self) -> (r: &'static str)
        ensures
            r@ == spec_label(NodeRef::PacketSet(self)),
    {
        (NodeRef::PacketSet(self)).type_label()
    }
}

impl TreeNode for Packet {
    fn get(&self, n: usize) -> (r: Option<NodeRef<'_>>)
        ensures
            r == spec_child(NodeRef::Packet(self), n as int),
    {
        (NodeRef::Packet(self)).child(n)
    }

    fn get_mut(&mut self, n: usize) -> (r: Option<NodeMut<'_>>)
        ensures
            n < old(self).data@.len() ==> (r matches Some(NodeMut::Field(f)) && *f == old(self).data@[n as int] && final(self).data@ == old(self).data@.update(n as int, *final(f))
                && final(self).name == old(self).name && final(self).description == old(self).description && final(self).id == old(self).id),
            n >= old(self).data@.len() ==> r is None && *final(self) == *old(self),
    {
        if n < self.data.len() {
            Some(NodeMut::Field(&mut self.data[n]))
        } else {
            None
        }
    }

    fn len(&self) -> (r: usize)
        ensures
            r == spec_len(NodeRef::Packet(self)),
    {
        (NodeRef::Packet(self)).child_count()
    }

    fn columns(&self) -> (r: Vec<&'static str>)
        ensures
            r@.map_values(|s: &'static str| s@) == spec_columns(NodeRef::Packet(self)),
    {
        (NodeRef::Packet(self)).column_titles()
    }

    fn field(&self, idx: i32) -> (r: Cell)
        ensures
            r@ == spec_field(NodeRef::Packet(self), idx as int),
    {
        (NodeRef::Packet(self)).field_cell(idx)
    }

    fn data(&self, idx: i32) -> (r: Cell)
        ensures
            r@ == spec_data(NodeRef::Packet(self), idx as int),
    {
        (NodeRef::Packet(self)).data_cell(idx)
    }

    /// Sets the packet's name (column 0), id (column 1, from its decimal text) or
    /// description (column 2) from a text cell.
    fn set_data(&mut self, idx: i32, data: Cell) -> (r: bool)
        ensures
            r == packet_accepts(idx as int, data),
            *final(self) == (if r {
                packet_with(*old(self), idx as int, data)
            } else {
                *old(self)
            }),
    {
        match data {
            Cell::Text(t) => if idx == 0 {
                self.name = t;
                true
            } else if idx == 1 {
                match parse_decimal_text(t.as_str(), 65535) {
                    Some(v) => {
                        self.id = v as u16;
                        true
                    },
                    None => false,
                }
            } else if idx == 2 {
                self.description = t;
                true
            } else {
                false
            },
            _ => false,
        }
    }

    fn label(&self) -> (r: &'static str)
        ensures
            r@ == spec_label(NodeRef::Packet(self)),
    {
        (NodeRef::Packet(self)).type_label()
    }
}

impl TreeNode for Field {
    fn get(&self, n: usize) -> (r: Option<NodeRef<'_>>)
        ensures
            r == spec_child(NodeRef::Field(self), n as int),
    {
        (NodeRef::Field(self)).child(n)
    }

    fn get_mut(&mut self, n: usize) -> (r: Option<NodeMut<'_>>)
        ensures
            match *old(self) {
                Field::Bits { name, typ, units, bits } => if n < bits@.len() {
                    r matches Some(NodeMut::BitFieldItem(b)) && *b == bits@[n as int] && (*final(self) matches Field::Bits { name: n2, typ: t2, units: u2, bits: b2 } && n2 == name
                        && t2 == typ && u2 == units && b2@ == bits@.update(n as int, *final(b)))
                } else {
                    r is None && *final(self) == *old(self)
                },
                Field::Plain { .. } => r is None && *final(self) == *old(self),
            },
    {
        match self {
            Field::Bits { bits, .. } => if n < bits.len() {
                Some(NodeMut::BitFieldItem(&mut bits[n]))
            } else {
                None
            },
            Field::Plain { .. } => None,
        }
    }

    fn len(&self) -> (r: usize)
        ensures
            r == spec_len(NodeRef::Field(self)),
    {
        (NodeRef::Field(self)).child_count()
    }

    fn columns(&self) -> (r: Vec<&'static str>)
        ensures
            r@.map_values(|s: &'static str| s@) == spec_columns(NodeRef::Field(self)),
    {
        (NodeRef::Field(self)).column_titles()
    }

    fn field(&self, idx: i32) -> (r: Cell)
        ensures
            r@ == spec_field(NodeRef::Field(self), idx as int),
    {
        (NodeRef::Field(self)).field_cell(idx)
    }

    fn data(&self, idx: i32) -> (r: Cell)
        ensures
            r@ == spec_data(NodeRef::Field(self), idx as int),
    {
        (NodeRef::Field(self)).data_cell(idx)
    }

    /// Sets the field's name (column 0), or, of a plain field, its type (column 1)
    /// or units (column 2), from a text cell.
    fn set_data(&mut self, idx: i32, data: Cell) -> (r: bool)
        ensures
            r == field_accepts(*old(self), idx as int, data),
            *final(self) == (if r {
                field_with(*old(self), idx as int, data)
            } else {
                *old(self)
            }),
    {
        match data {
            Cell::Text(t) => match self {
                Field::Bits { name, .. } => if idx == 0 {
                    *name = t;
                    true
                } else {
                    false
                },
                Field::Plain { name, typ, units } => if idx == 0 {
                    *name = t;
                    true
                } else if idx == 1 {
                    *typ = t;
                    true
                } else if idx == 2 {
                    *units = t;
                    true
                } else {
                    false
                },
            },
            _ => false,
        }
    }

    fn label(&self) -> (r: &'static str)
        ensures
            r@ == spec_label(NodeRef::Field(self)),
    {
        (NodeRef::Field(self)).type_label()
    }
}

impl TreeNode for BitFieldItem {
    fn get(&self, n: usize) -> (r: Option<NodeRef<'_>>)
        ensures
            r == spec_child(NodeRef::BitFieldItem(self), n as int),
    {
        (NodeRef::BitFieldItem(self)).child(n)
    }

    /// A bit-field item has no children.
    fn get_mut(&mut self, n: usize) -> (r: Option<NodeMut<'_>>)
        ensures
            r is None,
            *final(self) == *old(self),
    {
        None
    }

    fn len(&self) -> (r: usize)
        ensures
            r == spec_len(NodeRef::BitFieldItem(self)),
    {
        (NodeRef::BitFieldItem(self)).child_count()
    }

    fn columns(&self) -> (r: Vec<&'static str>)
        ensures
            r@.map_values(|s: &'static str| s@) == spec_columns(NodeRef::BitFieldItem(self)),
    {
        (NodeRef::BitFieldItem(self)).column_titles()
    }

    fn field(&self, idx: i32) -> (r: Cell)
        ensures
            r@ == spec_field(NodeRef::BitFieldItem(self), idx as int),
    {
        (NodeRef::BitFieldItem(self)).field_cell(idx)
    }

    fn data(&self, idx: i32) -> (r: Cell)
        ensures
            r@ == spec_data(NodeRef::BitFieldItem(self), idx as int),
    {
        (NodeRef::BitFieldItem(self)).data_cell(idx)
    }

    /// Sets the item's name (column 0) or bit count (column 1, from its decimal
    /// text) from a text cell.
    fn set_data(&mut self, idx: i32, data: Cell) -> (r: bool)
        ensures
            r == bit_accepts(idx as int, data),
            *final(self) == (if r {
                bit_with(*old(self), idx as int, data)
            } else {
                *old(self)
            }),
    {
        match data {
            Cell::Text(t) => if idx == 0 {
                self.name = t;
                true
            } else if idx == 1 {
                match parse_decimal_text(t.as_str(), 255) {
                    Some(v) => {
                        self.bitnum = v as u8;
                        true
                    },
                    None => false,
                }
            } else {
                false
            },
            _ => false,
        }
    }

    fn label(&self) -> (r: &'static str)
        ensures
            r@ == spec_label(NodeRef::BitFieldItem(self)),
    {
        (NodeRef::BitFieldItem(self)).type_label()
    }
}

/// A node has a child at exactly the positions below its number of children.
pub proof fn lemma_children_below_len(n: NodeRef, i: int)
    ensures
        spec_child(n, i) is Some <==> 0 <= i < spec_len(n),
{
}

/// A mutable reference to one node of the tree below the root.
#[derive(Debug)]
pub enum NodeMut<'a> {
    PacketSet(&'a mut PacketSet),
    Packet(&'a mut Packet),
    Field(&'a mut Field),
    BitFieldItem(&'a mut BitFieldItem),
}

/// The node that a mutable reference refers to.
pub open spec fn node_of<'a>(n: &'a NodeMut) -> NodeRef<'a> {
    match n {
        NodeMut::PacketSet(s) => NodeRef::PacketSet(&**s),
        NodeMut::Packet(p) => NodeRef::Packet(&**p),
        NodeMut::Field(f) => NodeRef::Field(&**f),
        NodeMut::BitFieldItem(b) => NodeRef::BitFieldItem(&**b),
    }
}

impl<'a> NodeMut<'a> {
    /// The node this mutable reference refers to, for reading.
    pub fn as_node(&self) -> (r: NodeRef<'_>)
        ensures
            r == node_of(self),
    {
        match self {
            NodeMut::PacketSet(s) => NodeRef::PacketSet(&**s),
            NodeMut::Packet(p) => NodeRef::Packet(&**p),
            NodeMut::Field(f) => NodeRef::Field(&**f),
            NodeMut::BitFieldItem(b) => NodeRef::BitFieldItem(&**b),
        }
    }
}

impl<'a> TreeNode for NodeMut<'a> {
    fn get(&self, n: usize) -> (r: Option<NodeRef<'_>>)
        ensures
            r == spec_child(node_of(self), n as int),
    {
        self.as_node().child(n)
    }

    fn get_mut(&mut self, n: usize) -> (r: Option<NodeMut<'_>>)
        ensures
            match r {
                Some(m) => spec_child(node_of(&*old(self)), n as int) == Some(node_of(&m)),
                None => spec_child(node_of(&*old(self)), n as int) is None,
            },
            match *old(self) {
                NodeMut::PacketSet(s) => if n < s.packets@.len() {
                    r matches Some(NodeMut::Packet(p)) && *p == s.packets@[n as int] && (*final(
                        self) matches NodeMut::PacketSet(s2) && s2.name == s.name && s2.packets@
                        == s.packets@.update(n as int, *final(p)))
                } else {
                    r is None && (*final(self) matches NodeMut::PacketSet(s2) && *s2 == *s)
                },
                NodeMut::Packet(pk) => if n < pk.data@.len() {
                    r matches Some(NodeMut::Field(f)) && *f == pk.data@[n as int] && (*final(
                        self) matches NodeMut::Packet(p2) && p2.name == pk.name && p2.description
                        == pk.description && p2.id == pk.id && p2.data@ == pk.data@.update(
                        n as int,
                        *final(f),
                    ))
                } else {
                    r is None && (*final(self) matches NodeMut::Packet(p2) && *p2 == *pk)
                },
                NodeMut::Field(fd) => match *fd {
                    Field::Bits { name, typ, units, bits } => if n < bits@.len() {
                        r matches Some(NodeMut::BitFieldItem(b)) && *b == bits@[n as int] && (*final(
                            self) matches NodeMut::Field(f2) && (*f2 matches Field::Bits {
                            name: n2,
                            typ: t2,
                            units: u2,
                            bits: b2,
                        } && n2 == name && t2 == typ && u2 == units && b2@ == bits@.update(
                            n as int,
                            *final(b),
                        )))
                    } else {
                        r is None && (*final(self) matches NodeMut::Field(f2) && *f2 == *fd)
                    },
                    Field::Plain { .. } => r is None && (*final(self) matches NodeMut::Field(f2)
                        && *f2 == *fd),
                },
                NodeMut::BitFieldItem(bi) => r is None && (*final(self) matches NodeMut::BitFieldItem(
                    b2,
                ) && *b2 == *bi),
            },
    {
        match self {
            NodeMut::PacketSet(s) => s.get_mut(n),
            NodeMut::Packet(p) => p.get_mut(n),
            NodeMut::Field(f) => f.get_mut(n),
            NodeMut::BitFieldItem(b) => b.get_mut(n),
        }
    }

    fn len(&self) -> (r: usize)
        ensures
            r == spec_len(node_of(self)),
    {
        self.as_node().child_count()
    }

    fn columns(&self) -> (r: Vec<&'static str>)
        ensures
            r@.map_values(|s: &'static str| s@) == spec_columns(node_of(self)),
    {
        self.as_node().column_titles()
    }

    fn field(&self, idx: i32) -> (r: Cell)
        ensures
            r@ == spec_field(node_of(self), idx as int),
    {
        self.as_node().field_cell(idx)
    }

    fn data(&self, idx: i32) -> (r: Cell)
        ensures
            r@ == spec_data(node_of(self), idx as int),
    {
        self.as_node().data_cell(idx)
    }

    /// Sets the nth field's data of the node referred to, as that node's own
    /// `set_data` does.
    fn set_data(&mut self, idx: i32, data: Cell) -> (r: bool)
        ensures
            match *old(self) {
                NodeMut::PacketSet(s) => r == set_accepts(idx as int, data) && (*final(self) matches NodeMut::PacketSet(q) && *q == (if r {
                    set_with(*s, data)
                } else {
                    *s
                })),
                NodeMut::Packet(p) => r == packet_accepts(idx as int, data) && (*final(self) matches NodeMut::Packet(q) && *q == (if r {
                    packet_with(*p, idx as int, data)
                } else {
                    *p
                })),
                NodeMut::Field(f) => r == field_accepts(*f, idx as int, data) && (*final(self) matches NodeMut::Field(q) && *q == (if r {
                    field_with(*f, idx as int, data)
                } else {
                    *f
                })),
                NodeMut::BitFieldItem(b) => r == bit_accepts(idx as int, data) && (*final(self) matches NodeMut::BitFieldItem(q) && *q == (if r {
                    bit_with(*b, idx as int, data)
                } else {
                    *b
                })),
            },
    {
        match self {
            NodeMut::PacketSet(s) => s.set_data(idx, data),
            NodeMut::Packet(p) => p.set_data(idx, data),
            NodeMut::Field(f) => f.set_data(idx, data),
            NodeMut::BitFieldItem(b) => b.set_data(idx, data),
        }
    }

    fn label(&self) -> (r: &'static str)
        ensures
            r@ == spec_label(node_of(self)),
    {
        self.as_node().type_label()
    }
}

} // verus!
