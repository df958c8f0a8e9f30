use std::collections::BTreeMap;

use toucan::decimal::{parse_decimal_text, u16_to_decimal};
use toucan::model::{
    contains_bytes, default_bitnum, is_backing_file, yaml_payload, BitFieldItem, Field, Model,
    Packet, PacketSet,
};

#[test]
fn bitnum_defaults_to_one() {
    assert_eq!(default_bitnum(), 1);
}

#[test]
fn payload_drops_a_leading_bom() {
    let data = [0xef, 0xbb, 0xbf, b'a', b':', b' ', b'1'];
    assert_eq!(yaml_payload(&data), b"a: 1");
}

#[test]
fn payload_of_a_bare_bom_is_empty() {
    let data = [0xef, 0xbb, 0xbf];
    assert_eq!(yaml_payload(&data), b"");
}

#[test]
fn payload_keeps_contents_without_bom() {
    assert_eq!(yaml_payload(b"packets: []"), b"packets: []");
    let short = [0xef, 0xbb];
    assert_eq!(yaml_payload(&short), &short);
    let late = [b'x', 0xef, 0xbb, 0xbf];
    assert_eq!(yaml_payload(&late), &late);
}

#[test]
fn backing_files_skip_ignored_names_and_non_files() {
    assert!(is_backing_file(true, "switchboard.yaml"));
    assert!(!is_backing_file(true, "switchboard.ignore.yaml"));
    assert!(!is_backing_file(true, "ignore"));
    assert!(!is_backing_file(false, "switchboard.yaml"));
    assert!(is_backing_file(true, "ignor.yaml"));
}

#[test]
fn byte_runs_are_found_anywhere() {
    assert!(contains_bytes(b"abcdef", b"cde"));
    assert!(contains_bytes(b"abc", b""));
    assert!(!contains_bytes(b"ab", b"abc"));
    assert!(!contains_bytes(b"abcdef", b"ce"));
}

#[test]
fn decimal_text_of_ids() {
    assert_eq!(u16_to_decimal(0), "0");
    assert_eq!(u16_to_decimal(7), "7");
    assert_eq!(u16_to_decimal(10), "10");
    assert_eq!(u16_to_decimal(4096), "4096");
    assert_eq!(u16_to_decimal(65535), "65535");
}

#[test]
fn model_grows_by_added_sets() {
    let mut m = Model::new();
    assert_eq!(m.sets.len(), 0);
    m.add_packet_set(PacketSet { name: "a".to_string(), packets: vec![] });
    m.add_packet_set(PacketSet { name: "b".to_string(), packets: vec![Packet::default()] });
    assert_eq!(m.sets.len(), 2);
    assert_eq!(m.sets[0].name, "a");
    assert_eq!(m.sets[1].name, "b");
    assert_eq!(m.sets[1].packets.len(), 1);
    assert_eq!(Model::default().sets.len(), 0);
}

#[test]
fn defaults_of_packets_and_bits() {
    let p = Packet::default();
    assert_eq!(p.name, "");
    assert_eq!(p.id, 0);
    assert!(p.data.is_empty());
    let b = BitFieldItem::default();
    assert_eq!(b.bitnum, 0);
    assert!(b.values.is_empty());
    let mut values = BTreeMap::new();
    values.insert(0u8, "off".to_string());
    let f = Field::Bits {
        name: "flags".to_string(),
        typ: String::new(),
        units: String::new(),
        bits: vec![BitFieldItem { name: "power".to_string(), bitnum: 1, values }],
    };
    match f {
        Field::Bits { bits, .. } => assert_eq!(bits[0].values[&0], "off"),
        Field::Plain { .. } => unreachable!(),
    }
}

#[test]
fn decimal_text_is_read_back() {
    assert_eq!(parse_decimal_text("0", 65535), Some(0));
    assert_eq!(parse_decimal_text("0042", 65535), Some(42));
    assert_eq!(parse_decimal_text("65535", 65535), Some(65535));
    assert_eq!(parse_decimal_text("65536", 65535), None);
    assert_eq!(parse_decimal_text("256", 255), None);
    assert_eq!(parse_decimal_text("", 255), None);
    assert_eq!(parse_decimal_text("+1", 255), None);
    assert_eq!(parse_decimal_text("1 ", 255), None);
    assert_eq!(parse_decimal_text("99999999999", 65535), None);
}

#[test]
fn packet_debug_lists_fields_in_order() {
    let p = Packet { name: "a".to_string(), description: "d".to_string(), id: 7, data: vec![] };
    assert_eq!(format!("{:?}", p), "Packet { name: \"a\", description: \"d\", id: 7, data: [] }");
}
