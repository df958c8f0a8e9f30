use std::collections::BTreeMap;

use toucan::model::{BitFieldItem, Field, Model, Packet, PacketSet};
use toucan::tree::Cell;
use toucan::tree_model::{ModelIndex, PacketListModel};
use toucan::viewer::{
    DetailItem, FieldIndex, FieldListModel, PacketListModel as PacketList, TreeNode,
    BITFIELD_FLAG,
};

fn text(s: &str) -> Cell {
    Cell::Text(s.to_string())
}

fn packet(name: &str, id: u16) -> Packet {
    let bits = vec![
        BitFieldItem { name: "power".to_string(), bitnum: 1, values: BTreeMap::new() },
        BitFieldItem { name: "mode".to_string(), bitnum: 3, values: BTreeMap::new() },
    ];
    Packet {
        name: name.to_string(),
        id,
        description: format!("{} packet", name),
        data: vec![
            Field::Plain { name: "voltage".to_string(), typ: "u16".to_string(), units: "mV".to_string() },
            Field::Bits { name: "flags".to_string(), typ: String::new(), units: String::new(), bits },
        ],
    }
}

fn sample() -> Model {
    Model {
        sets: vec![
            PacketSet { name: "switchboard".to_string(), packets: vec![packet("status", 1), packet("reset", 2)] },
            PacketSet { name: "motor".to_string(), packets: vec![] },
        ],
    }
}

fn root() -> ModelIndex {
    ModelIndex::invalid()
}

#[test]
fn tree_model_top_level() {
    let mut m = PacketListModel::new(sample());
    assert_eq!(m.row_count(root()), 2);
    assert_eq!(m.column_count(root()), 3);
    let set0 = m.index(0, 0, root());
    assert_eq!(set0, ModelIndex { row: 0, column: 0, id: 0 });
    assert_eq!(m.data(set0, 0), text("switchboard"));
    assert_eq!(m.data(set0, 0x102), text("name"));
    assert_eq!(m.data(set0, 2), text("switchboard"));
    assert_eq!(m.data(set0, 3), Cell::Empty);
    assert_eq!(m.data(ModelIndex::create(0, 1, 0), 0), Cell::Flag(false));
    assert_eq!(m.parent(set0), ModelIndex::invalid());
    assert_eq!(m.row_count(set0), 2);
    let set1 = m.index(1, 0, root());
    assert_eq!(m.row_count(set1), 0);
}

#[test]
fn tree_model_descends_and_climbs() {
    let mut m = PacketListModel::new(sample());
    let set0 = m.index(0, 0, root());
    let reset = m.index(1, 2, set0);
    assert!(reset.is_valid());
    assert_eq!(m.data(reset, 0), text("reset packet"));
    assert_eq!(m.data(ModelIndex::create(1, 1, reset.id), 0), text("2"));
    assert_eq!(m.parent(reset), ModelIndex { row: 0, column: 0, id: 0 });
    assert_eq!(m.row_count(reset), 2);
    let flags = m.index(1, 0, reset);
    assert_eq!(m.data(flags, 0), text("flags"));
    assert_eq!(m.row_count(flags), 2);
    let parent = m.parent(flags);
    assert_eq!(parent.row, 1);
    assert_eq!(parent.column, 0);
    assert_eq!(m.data(parent, 0), text("reset"));
    let mode = m.index(1, 1, flags);
    assert_eq!(m.data(mode, 0), text("3"));
    assert_eq!(m.data(mode, 0x102), text("bitnum"));
    assert_eq!(m.row_count(mode), 0);
    let up = m.parent(mode);
    assert_eq!(m.data(up, 0), text("flags"));
    // asking again hands out the same ids
    assert_eq!(m.index(1, 0, reset), flags);
}

#[test]
fn tree_model_out_of_range() {
    let mut m = PacketListModel::new(sample());
    let missing = m.index(5, 0, root());
    assert_eq!(m.data(missing, 0), Cell::Empty);
    assert_eq!(m.row_count(missing), 0);
    assert_eq!(m.data(root(), 0), Cell::Empty);
    let bogus = ModelIndex::create(0, 0, 1000);
    assert_eq!(m.index(0, 0, bogus), ModelIndex::invalid());
    assert_eq!(m.parent(bogus), ModelIndex::invalid());
}

#[test]
fn tree_model_role_names() {
    let m = PacketListModel::new(sample());
    let names = m.role_names();
    assert_eq!(names, vec![(0x101, "nodeLabel".to_string()), (0x102, "fieldLabel".to_string())]);
}

#[test]
fn field_tree_indexes() {
    let p = packet("status", 1);
    let f = FieldListModel { packet: &p };
    let top = FieldIndex { row: -1, column: -1, id: 0 };
    assert_eq!(f.row_count(top), 2);
    assert_eq!(f.column_count(top), 3);
    let flags = f.index(1, 0, top);
    assert_eq!(flags, FieldIndex { row: 1, column: 0, id: 0 });
    assert_eq!(f.parent(flags), top);
    assert_eq!(f.row_count(flags), 2);
    let mode = f.index(1, 2, flags);
    assert_eq!(mode, FieldIndex { row: 1, column: 2, id: 1 | BITFIELD_FLAG });
    assert_eq!(f.parent(mode), FieldIndex { row: 1, column: 0, id: 0 });
    assert_eq!(f.row_count(mode), 0);
    assert_eq!(f.index(0, 0, mode), top);
    let voltage = f.index(0, 0, top);
    assert_eq!(f.row_count(voltage), 0);
}

#[test]
fn field_tree_items_and_cells() {
    let p = packet("status", 1);
    let f = FieldListModel { packet: &p };
    let mode = FieldIndex { row: 1, column: 0, id: 1 | BITFIELD_FLAG };
    match f.item(mode) {
        Some(DetailItem::Bit(b)) => assert_eq!(b.name, "mode"),
        _ => panic!("expected a bit-field item"),
    }
    assert_eq!(f.data(mode, 0), text("mode"));
    assert_eq!(f.data(FieldIndex { column: 1, ..mode }, 0), text("field"));
    assert_eq!(f.data(FieldIndex { column: 2, ..mode }, 0), text(""));
    assert_eq!(f.data(mode, 1), Cell::Empty);
    let voltage = FieldIndex { row: 0, column: 0, id: 0 };
    assert_eq!(f.data(voltage, 0), text("voltage"));
    assert_eq!(f.data(FieldIndex { column: 1, ..voltage }, 0), text("u16"));
    assert_eq!(f.data(FieldIndex { column: 2, ..voltage }, 0), text("mV"));
    assert_eq!(f.data(FieldIndex { column: -1, ..voltage }, 0), text("mV"));
    let flags = FieldIndex { row: 1, column: 1, id: 0 };
    assert_eq!(f.data(flags, 0), text("bitfield"));
    // a bit-field mark on a plain field falls back to the field at the row
    let odd = FieldIndex { row: 1, column: 0, id: BITFIELD_FLAG };
    match f.item(odd) {
        Some(DetailItem::Field(x)) => assert_eq!(x.data(0), Some("flags".to_string())),
        _ => panic!("expected a field"),
    }
    assert!(f.item(FieldIndex { row: 2, column: 0, id: 0 }).is_none());
    assert_eq!(f.data(FieldIndex { row: 2, column: 0, id: 0 }, 0), Cell::Empty);
}

#[test]
fn packet_list_rows() {
    let m = sample();
    let l = PacketList { list: &m };
    assert_eq!(l.row_count(), 2);
    assert_eq!(l.data(ModelIndex::create(1, 0, 0), 0), text("reset"));
    assert_eq!(l.data(ModelIndex::create(1, 0, 0), 2), Cell::Empty);
    assert_eq!(l.data(ModelIndex::create(2, 0, 0), 0), Cell::Empty);
    assert_eq!(l.data(ModelIndex::create(-1, 0, 0), 0), Cell::Empty);
    assert_eq!(l.clicked_packet(0).name, "status");
}
