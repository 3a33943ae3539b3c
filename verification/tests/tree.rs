use wireshark_dissector::epan::{Encoding, ETTIndex, HFIndex, ProtoTree, TVB};
use wireshark_dissector::wireshark::{proto_tree, tvbuff_t};

#[test]
fn reported_length_and_bytes() {
    let t = tvbuff_t::new(vec![0x10, 0x20, 0x30]);
    assert_eq!(t.reported_length(), 3);
    assert_eq!(t.get_u8(0), Some(0x10));
    assert_eq!(t.get_u8(2), Some(0x30));
    assert_eq!(t.get_u8(3), None);
}

#[test]
fn uint_decoding_big_endian() {
    let t = tvbuff_t::new(vec![0x01, 0x02, 0x03, 0x04]);
    assert_eq!(t.get_uint(0, 2, Encoding::BIG_ENDIAN), Some(0x0102));
    assert_eq!(t.get_uint(1, 3, Encoding::BIG_ENDIAN), Some(0x020304));
    assert_eq!(t.get_uint(0, 4, Encoding::BIG_ENDIAN), Some(0x01020304));
}

#[test]
fn uint_decoding_little_endian() {
    let t = tvbuff_t::new(vec![0x01, 0x02, 0x03, 0x04]);
    assert_eq!(t.get_uint(0, 2, Encoding::LITTLE_ENDIAN), Some(0x0201));
    assert_eq!(t.get_uint(0, 4, Encoding::LITTLE_ENDIAN), Some(0x04030201));
}

#[test]
fn uint_decoding_rejects_bad_ranges() {
    let t = tvbuff_t::new(vec![0x01, 0x02]);
    assert_eq!(t.get_uint(1, 2, Encoding::BIG_ENDIAN), None);
    assert_eq!(t.get_uint(0, 0, Encoding::BIG_ENDIAN), None);
    let wide = tvbuff_t::new(vec![0xFF; 9]);
    assert_eq!(wide.get_uint(0, 9, Encoding::BIG_ENDIAN), None);
    assert_eq!(wide.get_uint(0, 8, Encoding::BIG_ENDIAN), Some(u64::MAX));
}

#[test]
fn one_byte_buffer_bounds_mark_malformed() {
    let t = tvbuff_t::new(vec![0x41]);
    let mut tree = proto_tree::new();
    let root = tree.root();
    let fits = tree.add_item(root, HFIndex(1), &t, 0, 1, Encoding::BIG_ENDIAN);
    let leaves = tree.add_item(root, HFIndex(1), &t, 0, 2, Encoding::BIG_ENDIAN);
    assert!(!tree.item_is_malformed(fits.index()));
    assert!(tree.item_is_malformed(leaves.index()));
}

#[test]
fn empty_buffer_marks_any_read_malformed() {
    let t = tvbuff_t::new(vec![]);
    let mut tree = proto_tree::new();
    let root = tree.root();
    let it = tree.add_item(root, HFIndex(1), &t, 0, 1, Encoding::BIG_ENDIAN);
    assert!(tree.item_is_malformed(it.index()));
    let zero = tree.add_item(root, HFIndex(1), &t, 0, 0, Encoding::BIG_ENDIAN);
    assert!(!tree.item_is_malformed(zero.index()));
}

#[test]
fn subtree_nesting_depth_counts_openings() {
    let t = tvbuff_t::new(vec![1, 2, 3, 4]);
    let mut tree = proto_tree::new();
    let root = tree.root();
    assert_eq!(tree.node_depth(root.id()), 0);

    let outer_item = tree.add_item(root, HFIndex(1), &t, 0, 1, Encoding::BIG_ENDIAN);
    let level1 = tree.open_subtree(outer_item, ETTIndex(10));
    assert_eq!(tree.node_depth(level1.id()), 1);
    assert_eq!(tree.node_parent(level1.id()), Some(root.id()));
    assert_eq!(tree.node_anchor(level1.id()), Some(outer_item.index()));
    assert_eq!(tree.node_ett(level1.id()), Some(ETTIndex(10)));

    let inner_item = tree.add_item(level1, HFIndex(2), &t, 1, 1, Encoding::BIG_ENDIAN);
    let level2 = tree.open_subtree(inner_item, ETTIndex(11));
    assert_eq!(tree.node_depth(level2.id()), 2);
    assert_eq!(tree.node_parent(level2.id()), Some(level1.id()));

    // The opened node descends from its anchor's node: follow parents back.
    let mut walk = level2.id();
    let mut hops = 0;
    while let Some(up) = tree.node_parent(walk) {
        walk = up;
        hops += 1;
    }
    assert_eq!(walk, root.id());
    assert_eq!(hops, 2);
}

#[test]
fn items_record_field_range_and_node() {
    let t = tvbuff_t::new(vec![9, 8, 7]);
    let mut tree = proto_tree::new();
    let root = tree.root();
    let it = tree.add_item(root, HFIndex(42), &t, 1, 2, Encoding::LITTLE_ENDIAN);
    assert_eq!(tree.item_count(), 1);
    assert_eq!(tree.item_field(it.index()), HFIndex(42));
    assert_eq!(tree.item_range(it.index()), (1, 2));
    assert_eq!(tree.item_node(it.index()), root.id());
    assert_eq!(tree.item_encoding(it.index()), Encoding::LITTLE_ENDIAN);
    assert_eq!(tree.item_prefix(it.index()), &None);
}

#[test]
fn add_item_returning_value_decodes_in_range_only() {
    let t = tvbuff_t::new(vec![0xAB, 0xCD]);
    let mut tree = proto_tree::new();
    let root = tree.root();
    let (it, value) = tree.add_item_returning_value(root, HFIndex(5), &t, 0, 2, Encoding::BIG_ENDIAN);
    assert_eq!(value, Some(0xABCD));
    assert!(!tree.item_is_malformed(it.index()));
    let (bad, none) = tree.add_item_returning_value(root, HFIndex(5), &t, 1, 2, Encoding::BIG_ENDIAN);
    assert_eq!(none, None);
    assert!(tree.item_is_malformed(bad.index()));
}

#[test]
fn label_prefix_touches_only_its_item() {
    let t = tvbuff_t::new(vec![1, 2]);
    let mut tree = proto_tree::new();
    let root = tree.root();
    let a = tree.add_item(root, HFIndex(1), &t, 0, 1, Encoding::BIG_ENDIAN);
    let b = tree.add_item(root, HFIndex(2), &t, 1, 1, Encoding::BIG_ENDIAN);
    tree.set_item_label_prefix(a, String::from("checksum ok: "));
    assert_eq!(tree.item_prefix(a.index()), &Some(String::from("checksum ok: ")));
    assert_eq!(tree.item_prefix(b.index()), &None);
    assert_eq!(tree.item_field(a.index()), HFIndex(1));
    assert_eq!(tree.item_range(a.index()), (0, 1));
}
