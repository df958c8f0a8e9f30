//! The packet description data model: sets of packets, their fields and bit fields,
//! and the handling of a description file's bytes before they are parsed.
use vstd::prelude::*;

use std::collections::BTreeMap;
use vstd::string::StringSliceAdditionalSpecFns;

verus! {

/// A named collection of packet descriptions, as read from one description file.
#[derive(Debug)]
pub struct PacketSet {
    /// The file stem of the description file the set was read from.
    pub name: String,
    pub packets: Vec<Packet>,
}

/// One packet: its name, description, numeric id and fields.
#[derive(Debug, Default)]
pub struct Packet {
    pub name: String,
    pub description: String,
    pub id: u16,
    pub data: Vec<Field>,
}

/// A field of a packet: either a bit field, made of named bits, or a plain typed field.
#[derive(Debug)]
pub enum Field {
    Bits { name: String, typ: String, units: String, bits: Vec<BitFieldItem> },
    Plain { name: String, typ: String, units: String },
}

/// One named bit (or group of bits) of a bit field, with the names of its values.
#[derive(Debug, Default)]
pub struct BitFieldItem {
    pub name: String,
    pub bitnum: u8,
    pub values: BTreeMap<u8, String>,
}

/// Number of bits a bit-field item spans when its description leaves it out.
pub fn default_bitnum() -> (r: u8)
    ensures
        r == 1,
{
    1
}

/// All packet sets that have been loaded.
#[derive(Debug)]
pub struct Model {
    pub sets: Vec<PacketSet>,
}

impl Model {
    /// A model without any packet set.
    pub fn new() -> (m: Self)
        ensures
            m.sets@.len() == 0,
    {
        Model { sets: Vec::new() }
    }

    /// Adds a packet set read from a description file after the ones already loaded.
    pub fn add_packet_set(&mut self, set: PacketSet)
        ensures
            final(self).sets@ == old(self).sets@.push(set),
    {
        self.sets.push(set);
    }
}

impl Default for Model {
    fn default() -> (m: Self)
        ensures
            m.sets@.len() == 0,
    {
        Self::new()
    }
}

/// The byte order mark that UTF-8 text may start with.
pub open spec fn utf8_bom() -> Seq<u8> {
    seq![0xefu8, 0xbbu8, 0xbfu8]
}

/// The bytes a description parser is given: the file contents without a leading
/// UTF-8 byte order mark.
pub open spec fn spec_yaml_payload(data: Seq<u8>) -> Seq<u8> {
    if data.len() > 2 && data.subrange(0, 3) == utf8_bom() {
        data.subrange(3, data.len() as int)
    } else {
        data
    }
}

/// Slices off a UTF-8 byte order mark at the start of a description file's contents.
pub fn yaml_payload(data: &[u8]) -> (r: &[u8])
    ensures
        r@ == spec_yaml_payload(data@),
{
    if data.len() > 2 && data[0] == 0xef && data[1] == 0xbb && data[2] == 0xbf {
        assert(data@.subrange(0, 3) =~= utf8_bom());
        let (_, rest) = data.split_at(3);
        rest
    } else {
        assert(data@.len() > 2 ==> data@.subrange(0, 3)[0] == data@[0]);
        assert(data@.len() > 2 ==> data@.subrange(0, 3)[1] == data@[1]);
        assert(data@.len() > 2 ==> data@.subrange(0, 3)[2] == data@[2]);
        data
    }
}

/// The bytes of "ignore": a description file whose name holds them is not loaded.
pub open spec fn ignore_marker() -> Seq<u8> {
    seq![0x69u8, 0x67u8, 0x6eu8, 0x6fu8, 0x72u8, 0x65u8]
}

/// `pat` occurs in `s` as a contiguous run.
pub open spec fn contains_run(s: Seq<u8>, pat: Seq<u8>) -> bool {
    exists|i: int| 0 <= i && i + pat.len() <= s.len() && #[trigger] s.subrange(i, i + pat.len()) == pat
}

/// Whether `pat` matches `s` at position `at`.
fn matches_at(s: &[u8], pat: &[u8], at: usize) -> (r: bool)
    requires
        at + pat@.len() <= s@.len(),
    ensures
        r == (s@.subrange(at as int, at + pat@.len()) == pat@),
{
    let slen = s.len();
    let mut j: usize = 0;
    while j < pat.len()
        invariant
            slen == s@.len(),
            at + pat@.len() <= s@.len(),
            j <= pat@.len(),
            forall|k: int| 0 <= k < j ==> s@[at + k] == pat@[k],
        decreases pat@.len() - j,
    {
        if s[at + j] != pat[j] {
            assert(s@.subrange(at as int, at + pat@.len())[j as int] != pat@[j as int]);
            return false;
        }
        j = j + 1;
    }
    assert(s@.subrange(at as int, at + pat@.len()) =~= pat@);
    true
}

/// Whether the byte run `pat` occurs in `s`.
pub fn contains_bytes(s: &[u8], pat: &[u8]) -> (r: bool)
    ensures
        r == contains_run(s@, pat@),
{
    if pat.len() > s.len() {
        return false;
    }
    let last = s.len() - pat.len();
    let mut i: usize = 0;
    while i < last
        invariant
            last + pat@.len() == s@.len(),
            i <= last,
            forall|k: int| 0 <= k < i ==> #[trigger] s@.subrange(k, k + pat@.len()) != pat@,
        decreases last - i,
    {
        if matches_at(s, pat, i) {
            return true;
        }
        i = i + 1;
    }
    if matches_at(s, pat, last) {
        return true;
    }
    assert forall|k: int| 0 <= k && k + pat@.len() <= s@.len() implies #[trigger] s@.subrange(
        k,
        k + pat@.len(),
    ) != pat@ by {
        assert(k <= last);
    }
    false
}

/// Whether a directory entry is a description file to load: a file whose name
/// does not contain "ignore".
pub fn is_backing_file(is_file: bool, name: &str) -> (r: bool)
    ensures
        r == (is_file && !contains_run(name.spec_bytes(), ignore_marker())),
{
    if !is_file {
        return false;
    }
    let marker: [u8; 6] = [0x69, 0x67, 0x6e, 0x6f, 0x72, 0x65];
    assert(marker@ =~= ignore_marker());
    !contains_bytes(name.as_bytes(), marker.as_slice())
}

/// A leading byte order mark is taken off, and nothing else.
pub proof fn lemma_payload_drops_bom(rest: Seq<u8>)
    ensures
        spec_yaml_payload(utf8_bom() + rest) == rest,
{
    let d = utf8_bom() + rest;
    assert(d.subrange(0, 3) =~= utf8_bom());
    assert(d.subrange(3, d.len() as int) =~= rest);
}

/// Contents that do not start with a byte order mark are handed on whole.
pub proof fn lemma_payload_keeps_plain(data: Seq<u8>)
    requires
        !(data.len() >= 3 && data.subrange(0, 3) == utf8_bom()),
    ensures
        spec_yaml_payload(data) == data,
{
}

} // verus!
