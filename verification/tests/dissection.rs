use wireshark_dissector::dissector::{
    field_to_display, find_field_index, Dissection, Dissector, DisplayItem, FieldDisplay,
    FieldType, PacketField, Registration, StringContainer,
};
use wireshark_dissector::epan::{Encoding, ETTIndex, HFIndex, ProtoTree, TVB};
use wireshark_dissector::plugin_register;
use wireshark_dissector::wireshark::{
    ftenum, header_field_info, hf_register_info, proto_tree, tvbuff_t,
};

struct DissectionTest {
    pos: usize,
}

impl Dissection for DissectionTest {
    fn u8(&mut self) -> u8 {
        self.pos as u8
    }

    fn display_u8<I: DisplayItem>(&mut self, _item: &I) -> u8 {
        println!("Displaying u8");
        let val = self.pos as u8;
        self.pos += 1;
        val
    }
}

#[test]
fn it_works() {
    let mut z: DissectionTest = DissectionTest { pos: 0 };
    let peeked_u8 = z.u8();
    println!("Peeked {}", peeked_u8);

    let field1 = PacketField {
        name: StringContainer::StaticStr("protoname"),
        abbrev: StringContainer::StaticStr("proto.main"),
        field_type: FieldType::PROTOCOL,
        display: FieldDisplay::NONE,
    };
    z.display_u8(&field_to_display(field1));
    println!("Peeked {}", z.u8());
}

#[test]
fn display_item_carries_its_field() {
    let f = PacketField::fixed("delta", "demo.delta", FieldType::BOOLEAN, FieldDisplay::NONE);
    let item = field_to_display(f);
    let got = item.get_field();
    assert_eq!(got.name.text(), "delta");
    assert!(matches!(got.field_type, FieldType::BOOLEAN));
}

#[test]
fn owned_and_static_texts_compare_by_characters() {
    let a = StringContainer::StaticStr("runtime.field");
    let b = StringContainer::Owned(String::from("runtime.field"));
    let c = StringContainer::Owned(String::from("other.field"));
    assert!(a.text_eq(&b));
    assert!(b.text_eq(&a));
    assert!(!a.text_eq(&c));
    assert_eq!(b.text(), "runtime.field");
}

#[test]
fn undeclared_descriptor_lookup_yields_no_handle() {
    let mapping = vec![
        (PacketField::fixed("alpha", "demo.alpha", FieldType::U8, FieldDisplay::HEX), HFIndex(7)),
        (
            PacketField {
                name: StringContainer::Owned(String::from("built")),
                abbrev: StringContainer::Owned(String::from("demo.built")),
                field_type: FieldType::U16,
                display: FieldDisplay::HEX,
            },
            HFIndex(9),
        ),
    ];
    let undeclared = PacketField::fixed("gamma", "demo.gamma", FieldType::U8, FieldDisplay::HEX);
    assert_eq!(find_field_index(&mapping, &undeclared), None);
    let declared = PacketField::fixed("alpha", "demo.alpha", FieldType::U8, FieldDisplay::HEX);
    assert_eq!(find_field_index(&mapping, &declared), Some(HFIndex(7)));
    let built = PacketField::fixed("built", "demo.built", FieldType::U16, FieldDisplay::HEX);
    assert_eq!(find_field_index(&mapping, &built), Some(HFIndex(9)));
}

#[test]
fn header_field_info_translates_field() {
    let f = PacketField::fixed("gamma", "demo.gamma", FieldType::I32, FieldDisplay::DEC);
    let info = header_field_info::from(f);
    assert_eq!(info.type_, ftenum::INT32);
    assert_eq!(info.display, FieldDisplay::DEC);
    assert_eq!(info.name.text(), "gamma");
    assert_eq!(info.abbrev.text(), "demo.gamma");
    assert_eq!(info.bitmask, 0);

    let d: header_field_info = Default::default();
    assert_eq!(d.type_, ftenum::NONE);
    assert_eq!(d.name.text(), "");

    let r: hf_register_info = Default::default();
    assert!(r.p_id.is_none());
}

/// A dissector that declares a one-byte field and a two-byte field, shows
/// the first at the root and the second inside a foldout, and consumes the
/// whole packet.
struct TwoFieldDissector {
    mapping: Vec<(PacketField, HFIndex)>,
    trees: Vec<ETTIndex>,
}

impl TwoFieldDissector {
    fn new() -> Self {
        TwoFieldDissector { mapping: Vec::new(), trees: Vec::new() }
    }

    fn field_a() -> PacketField {
        PacketField::fixed("alpha", "demo.alpha", FieldType::U8, FieldDisplay::HEX)
    }

    fn field_b() -> PacketField {
        PacketField::fixed("beta", "demo.beta", FieldType::U16, FieldDisplay::HEX)
    }

    fn handle(&self, f: &PacketField) -> HFIndex {
        match find_field_index(&self.mapping, f) {
            Some(h) => h,
            None => panic!("descriptor was never declared"),
        }
    }
}

impl Dissector for TwoFieldDissector {
    fn get_fields(&self) -> Vec<PacketField> {
        vec![Self::field_a(), Self::field_b()]
    }

    fn set_field_indices(&mut self, hfindices: Vec<(PacketField, HFIndex)>) {
        self.mapping = hfindices;
    }

    fn get_tree_count(&self) -> usize {
        1
    }

    fn set_tree_indices(&mut self, ett_indices: Vec<ETTIndex>) {
        self.trees = ett_indices;
    }

    fn get_protocol_name(&self) -> (&'static str, &'static str, &'static str) {
        ("Demo protocol", "demo", "demo")
    }

    fn get_registration(&self) -> Vec<Registration> {
        vec![Registration::Post]
    }

    fn dissect(&self, tree: &mut proto_tree, tvb: &tvbuff_t) -> usize {
        let root = tree.root();
        let a = tree.add_item(root, self.handle(&Self::field_a()), tvb, 0, 1, Encoding::BIG_ENDIAN);
        let sub = tree.open_subtree(a, self.trees[0]);
        tree.add_item(sub, self.handle(&Self::field_b()), tvb, 1, 2, Encoding::BIG_ENDIAN);
        tvb.reported_length()
    }
}

#[test]
fn record_builder_keeps_order_and_empty_cells() {
    let fields = vec![TwoFieldDissector::field_a(), TwoFieldDissector::field_b()];
    let records = wireshark_dissector::dissector::build_registration_records(&fields);
    assert_eq!(records.len(), 2);
    assert_eq!(records[0].hfinfo.name.text(), "alpha");
    assert_eq!(records[1].hfinfo.name.text(), "beta");
    assert_eq!(records[1].hfinfo.type_, ftenum::UINT16);
    assert!(records[0].p_id.is_none());
    assert!(records[1].p_id.is_none());
}

#[test]
fn registration_records_mirror_declared_fields() {
    let mut bridge = plugin_register(TwoFieldDissector::new());
    bridge.prepare_registration();
    assert_eq!(bridge.field_count(), 2);
    assert_eq!(bridge.subtree_count(), 1);
    assert_eq!(bridge.get_protocol_name(), ("Demo protocol", "demo", "demo"));
    assert!(matches!(bridge.get_registration()[0], Registration::Post));
    {
        let records = bridge.registration_records();
        assert_eq!(records.len(), 2);
        assert_eq!(records[0].hfinfo.name.text(), "alpha");
        assert_eq!(records[0].hfinfo.abbrev.text(), "demo.alpha");
        assert_eq!(records[0].hfinfo.type_, ftenum::UINT8);
        assert_eq!(records[1].hfinfo.type_, ftenum::UINT16);
        assert!(records[0].p_id.is_none());
        assert!(records[1].p_id.is_none());
    }
    bridge.complete_registration(5, &vec![7, 9], &vec![21]);
    let records = bridge.registration_records();
    assert_eq!(records[0].p_id, Some(7));
    assert_eq!(records[1].p_id, Some(9));
}

#[test]
fn two_field_scenario_builds_expected_tree() {
    let mut bridge = plugin_register(TwoFieldDissector::new());
    bridge.prepare_registration();
    bridge.complete_registration(1, &vec![7, 9], &vec![21]);

    let (tree, consumed) = bridge.dissect_packet(vec![0x01, 0x02, 0x03]);
    assert_eq!(consumed, 3);
    assert_eq!(tree.item_count(), 2);
    assert_eq!(tree.node_count(), 2);

    // Item A: field 7, covering byte 0, at the root.
    assert_eq!(tree.item_field(0), HFIndex(7));
    assert_eq!(tree.item_range(0), (0, 1));
    assert_eq!(tree.item_node(0), 0);
    assert!(!tree.item_is_malformed(0));

    // Item B: field 9, covering bytes 1-2, one nesting level deeper.
    assert_eq!(tree.item_field(1), HFIndex(9));
    assert_eq!(tree.item_range(1), (1, 2));
    assert_eq!(tree.item_node(1), 1);
    assert_eq!(tree.node_depth(1), 1);
    assert_eq!(tree.node_parent(1), Some(0));
    assert_eq!(tree.node_anchor(1), Some(0));
    assert_eq!(tree.node_ett(1), Some(ETTIndex(21)));
    assert!(!tree.item_is_malformed(1));
}

#[test]
fn zero_length_buffer_degrades_without_abort() {
    let mut bridge = plugin_register(TwoFieldDissector::new());
    bridge.prepare_registration();
    bridge.complete_registration(1, &vec![7, 9], &vec![21]);

    let (tree, consumed) = bridge.dissect_packet(Vec::new());
    assert_eq!(consumed, 0);
    assert_eq!(tree.item_count(), 2);
    assert!(tree.item_is_malformed(0));
    assert!(tree.item_is_malformed(1));
}
