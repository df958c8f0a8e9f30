use std::collections::BTreeMap;

use toucan::model::{BitFieldItem, Field, Model, Packet, PacketSet};
use toucan::tree::{Cell, NodeMut as NodeMutRef, NodeRef, TreeNode};

fn text(s: &str) -> Cell {
    Cell::Text(s.to_string())
}

fn sample() -> Model {
    let bits = vec![
        BitFieldItem { name: "power".to_string(), bitnum: 1, values: BTreeMap::new() },
        BitFieldItem { name: "mode".to_string(), bitnum: 3, values: BTreeMap::new() },
    ];
    let packet = Packet {
        name: "status".to_string(),
        id: 258,
        description: "device status".to_string(),
        data: vec![
            Field::Plain { name: "voltage".to_string(), typ: "u16".to_string(), units: "mV".to_string() },
            Field::Bits { name: "flags".to_string(), typ: "u8".to_string(), units: String::new(), bits },
        ],
    };
    Model {
        sets: vec![PacketSet { name: "switchboard".to_string(), packets: vec![packet] }],
    }
}

#[test]
fn root_node_offers_columns_and_sets() {
    let m = sample();
    assert_eq!(m.columns(), vec!["Name", "Type", "Units"]);
    assert_eq!(TreeNode::len(&m), 1);
    assert_eq!(m.label(), "Model");
    assert_eq!(m.data(0), Cell::Flag(false));
    assert_eq!(m.field(0), Cell::Flag(false));
    assert!(m.get(1).is_none());
    match m.get(0) {
        Some(NodeRef::PacketSet(s)) => assert_eq!(s.name, "switchboard"),
        _ => panic!("expected a packet set"),
    }
}

#[test]
fn packet_set_node_cells() {
    let m = sample();
    let s = &m.sets[0];
    assert_eq!(s.data(0), text("switchboard"));
    assert_eq!(s.data(1), Cell::Flag(false));
    assert_eq!(s.field(0), text("name"));
    assert_eq!(s.label(), "PacketSet");
    assert!(s.columns().is_empty());
    assert_eq!(TreeNode::len(s), 1);
}

#[test]
fn packet_node_cells() {
    let m = sample();
    let p = &m.sets[0].packets[0];
    assert_eq!(p.data(0), text("status"));
    assert_eq!(p.data(1), text("258"));
    assert_eq!(p.data(2), text("device status"));
    assert_eq!(p.data(3), Cell::Flag(false));
    assert_eq!(p.data(-1), Cell::Flag(false));
    assert_eq!(p.field(0), text("name"));
    assert_eq!(p.field(1), text("id"));
    assert_eq!(p.field(2), text("description"));
    assert_eq!(p.field(3), Cell::Flag(false));
    assert_eq!(p.label(), "Packet");
    assert_eq!(TreeNode::len(p), 2);
}

#[test]
fn field_node_cells() {
    let m = sample();
    let plain = &m.sets[0].packets[0].data[0];
    assert_eq!(plain.data(0), text("voltage"));
    assert_eq!(plain.data(1), text("u16"));
    assert_eq!(plain.data(2), text("mV"));
    assert_eq!(plain.field(1), text("typ"));
    assert_eq!(plain.field(2), text("units"));
    assert_eq!(TreeNode::len(plain), 0);
    assert!(plain.get(0).is_none());
    let bits = &m.sets[0].packets[0].data[1];
    assert_eq!(bits.data(0), text("flags"));
    assert_eq!(bits.data(1), Cell::Flag(false));
    assert_eq!(bits.field(0), text("name"));
    assert_eq!(bits.field(1), Cell::Flag(false));
    assert_eq!(TreeNode::len(bits), 2);
    assert_eq!(bits.label(), "Field");
}

#[test]
fn bit_item_node_cells() {
    let m = sample();
    let bits = &m.sets[0].packets[0].data[1];
    match bits.get(1) {
        Some(NodeRef::BitFieldItem(b)) => {
            assert_eq!(b.data(0), text("mode"));
            assert_eq!(b.data(1), text("3"));
            assert_eq!(b.data(2), Cell::Flag(false));
            assert_eq!(b.field(1), text("bitnum"));
            assert_eq!(b.label(), "BitFieldItem");
            assert_eq!(TreeNode::len(b), 0);
        }
        _ => panic!("expected a bit-field item"),
    }
}

#[test]
fn packet_cells_can_be_set() {
    let mut m = sample();
    let p = &mut m.sets[0].packets[0];
    assert!(p.set_data(0, text("renamed")));
    assert_eq!(p.name, "renamed");
    assert!(p.set_data(1, text("513")));
    assert_eq!(p.id, 513);
    assert_eq!(p.data(1), text("513"));
    assert!(!p.set_data(1, text("70000")));
    assert!(!p.set_data(1, text("12a")));
    assert!(!p.set_data(1, text("")));
    assert_eq!(p.id, 513);
    assert!(p.set_data(2, text("new status")));
    assert_eq!(p.description, "new status");
    assert!(!p.set_data(3, text("x")));
    assert!(!p.set_data(0, Cell::Flag(true)));
    assert!(!p.set_data(0, Cell::Empty));
    assert_eq!(p.name, "renamed");
}

#[test]
fn field_and_bit_cells_can_be_set() {
    let mut m = sample();
    let plain = &mut m.sets[0].packets[0].data[0];
    assert!(plain.set_data(1, text("i16")));
    assert!(plain.set_data(2, text("V")));
    assert_eq!(plain.data(1), text("i16"));
    assert_eq!(plain.data(2), text("V"));
    let bits = &mut m.sets[0].packets[0].data[1];
    assert!(bits.set_data(0, text("status flags")));
    assert!(!bits.set_data(1, text("u16")));
    assert_eq!(TreeNode::len(bits), 2);
    assert_eq!(bits.data(0), text("status flags"));
    match bits.get_mut(1) {
        Some(NodeMutRef::BitFieldItem(b)) => {
            assert!(b.set_data(1, text("4")));
            assert!(!b.set_data(1, text("256")));
            assert!(b.set_data(0, text("speed")));
        }
        _ => panic!("expected a bit-field item"),
    }
    match &m.sets[0].packets[0].data[1] {
        Field::Bits { bits, .. } => {
            assert_eq!(bits[1].bitnum, 4);
            assert_eq!(bits[1].name, "speed");
        }
        Field::Plain { .. } => panic!("expected a bit field"),
    }
}

#[test]
fn set_and_model_refuse_edits() {
    let mut m = sample();
    assert!(!m.set_data(0, text("x")));
    assert!(m.sets[0].set_data(0, text("renamed")));
    assert_eq!(m.sets[0].name, "renamed");
    assert!(!m.sets[0].set_data(1, text("x")));
}

#[test]
fn mutable_children_reach_down_the_tree() {
    let mut m = sample();
    assert!(m.get_mut(1).is_none());
    let mut set = m.get_mut(0).unwrap();
    assert_eq!(set.label(), "PacketSet");
    assert_eq!(set.data(0), text("switchboard"));
    let mut packet = set.get_mut(0).unwrap();
    assert!(packet.set_data(0, text("state")));
    let mut field = packet.get_mut(0).unwrap();
    assert!(field.set_data(2, text("V")));
    assert!(field.get_mut(0).is_none());
    assert_eq!(m.sets[0].packets[0].name, "state");
    assert_eq!(m.sets[0].packets[0].data[0].data(2), text("V"));
    let r = NodeRef::Model(&m);
    let mut copy = r;
    assert!(copy.get_mut(0).is_none());
    assert!(!copy.set_data(0, text("x")));
}

#[test]
fn node_refs_walk_down() {
    let m = sample();
    let root = NodeRef::Model(&m);
    let field = root.child(0).and_then(|s| s.child(0)).and_then(|p| p.child(1)).unwrap();
    assert_eq!(field.child_count(), 2);
    assert_eq!(field.data_cell(0), text("flags"));
    assert!(field.child(2).is_none());
    assert_eq!(field.type_label(), "Field");
}
