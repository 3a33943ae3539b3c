//! Models of the data that crosses the host's plugin boundary: the
//! field-registration records the host reads, the handle cells it writes,
//! the packet buffer it hands in, and the display tree it renders.

use vstd::arithmetic::power2::{lemma2_to64, lemma2_to64_rest, lemma_pow2_adds, pow2};
use vstd::prelude::*;

use crate::dissector::{FieldType, PacketField, StringContainer};
use crate::epan::{
    be_value, is_descendant, le_value, lemma_be_value_bound, lemma_le_value_bound, node_link_wf,
    uint_value, Encoding, ETTIndex, HFIndex, ProtoItem, ProtoTree, ProtoTreeNode, TVB,
};

verus! {

/// How the host is asked to reference a registered field.
#[derive(Debug, Clone, Copy, PartialEq, Eq, Structural)]
#[allow(non_camel_case_types)]
pub enum hf_ref_type {
    NONE,
    INDIRECT,
    DIRECT,
}

impl Default for hf_ref_type {
    fn default() -> (r: Self)
        ensures
            r == hf_ref_type::NONE,
    {
        hf_ref_type::NONE
    }
}

/// The host's own field-type tags, one per semantic type it can render.
#[derive(Debug, Clone, Copy, PartialEq, Eq, Structural)]
#[allow(non_camel_case_types)]
pub enum ftenum {
    NONE,
    PROTOCOL,
    BOOLEAN,
    CHAR,
    UINT8,
    UINT16,
    UINT24,
    UINT32,
    UINT64,
    INT8,
    INT16,
    INT32,
    INT64,
}

impl Default for ftenum {
    fn default() -> (r: Self)
        ensures
            r == ftenum::NONE,
    {
        ftenum::NONE
    }
}

/// The host tag that renders a given field type.
pub open spec fn ftenum_of(t: FieldType) -> ftenum {
    match t {
        FieldType::PROTOCOL => ftenum::PROTOCOL,
        FieldType::BOOLEAN => ftenum::BOOLEAN,
        FieldType::U8 => ftenum::UINT8,
        FieldType::U16 => ftenum::UINT16,
        FieldType::U32 => ftenum::UINT32,
        FieldType::U64 => ftenum::UINT64,
        FieldType::I8 => ftenum::INT8,
        FieldType::I16 => ftenum::INT16,
        FieldType::I32 => ftenum::INT32,
        FieldType::I64 => ftenum::INT64,
    }
}

impl From<FieldType> for ftenum {
    fn from(t: FieldType) -> (r: Self) {
        match t {
            FieldType::PROTOCOL => ftenum::PROTOCOL,
            FieldType::BOOLEAN => ftenum::BOOLEAN,
            FieldType::U8 => ftenum::UINT8,
            FieldType::U16 => ftenum::UINT16,
            FieldType::U32 => ftenum::UINT32,
            FieldType::U64 => ftenum::UINT64,
            FieldType::I8 => ftenum::INT8,
            FieldType::I16 => ftenum::INT16,
            FieldType::I32 => ftenum::INT32,
            FieldType::I64 => ftenum::INT64,
        }
    }
}

impl vstd::std_specs::convert::FromSpecImpl<FieldType> for ftenum {
    open spec fn obeys_from_spec() -> bool {
        true
    }

    open spec fn from_spec(t: FieldType) -> Self {
        ftenum_of(t)
    }
}

/// Descriptor block of one field-registration record, mirroring the layout
/// the host expects: texts, type tag, display hint and bitmask, plus the
/// bookkeeping slots the host fills for its own use.
#[allow(non_camel_case_types)]
pub struct header_field_info {
    pub name: StringContainer,
    pub abbrev: StringContainer,
    pub type_: ftenum,
    pub display: crate::dissector::FieldDisplay,
    pub bitmask: u64,
    pub id: i32,
    pub parent: i32,
    pub ref_type: hf_ref_type,
}

impl Default for header_field_info {
    fn default() -> (r: Self)
        ensures
            r.name@ == Seq::<char>::empty(),
            r.abbrev@ == Seq::<char>::empty(),
            r.type_ == ftenum::NONE,
            r.display == crate::dissector::FieldDisplay::NONE,
            r.bitmask == 0,
            r.id == 0,
            r.parent == 0,
            r.ref_type == hf_ref_type::NONE,
    {
        header_field_info {
            name: StringContainer::Owned(String::new()),
            abbrev: StringContainer::Owned(String::new()),
            type_: ftenum::NONE,
            display: crate::dissector::FieldDisplay::NONE,
            bitmask: 0,
            id: 0,
            parent: 0,
            ref_type: hf_ref_type::NONE,
        }
    }
}

impl From<PacketField> for header_field_info {
    fn from(f: PacketField) -> (r: Self) {
        header_field_info {
            name: f.name,
            abbrev: f.abbrev,
            type_: ftenum::from(f.field_type),
            display: f.display,
            bitmask: 0,
            id: 0,
            parent: 0,
            ref_type: hf_ref_type::NONE,
        }
    }
}

impl vstd::std_specs::convert::FromSpecImpl<PacketField> for header_field_info {
    open spec fn obeys_from_spec() -> bool {
        true
    }

    open spec fn from_spec(f: PacketField) -> Self {
        header_field_info {
            name: f.name,
            abbrev: f.abbrev,
            type_: ftenum_of(f.field_type),
            display: f.display,
            bitmask: 0,
            id: 0,
            parent: 0,
            ref_type: hf_ref_type::NONE,
        }
    }
}

/// One field-registration record: the descriptor block, plus the output
/// cell the host overwrites with the field's handle. The cell is empty
/// until registration completes.
#[allow(non_camel_case_types)]
pub struct hf_register_info {
    pub p_id: Option<i32>,
    pub hfinfo: header_field_info,
}

impl Default for hf_register_info {
    fn default() -> (r: Self)
        ensures
            r.p_id is None,
            r.hfinfo.name@ == Seq::<char>::empty(),
            r.hfinfo.abbrev@ == Seq::<char>::empty(),
            r.hfinfo.type_ == ftenum::NONE,
            r.hfinfo.display == crate::dissector::FieldDisplay::NONE,
            r.hfinfo.bitmask == 0,
            r.hfinfo.id == 0,
            r.hfinfo.parent == 0,
            r.hfinfo.ref_type == hf_ref_type::NONE,
    {
        hf_register_info { p_id: None, hfinfo: Default::default() }
    }
}

/// One packet's bytes, as handed over by the host for a single dissection
/// call.
#[allow(non_camel_case_types)]
pub struct tvbuff_t {
    data: Vec<u8>,
}

impl View for tvbuff_t {
    type V = Seq<u8>;

    closed spec fn view(&self) -> Seq<u8> {
        self.data@
    }
}

impl tvbuff_t {
    /// A buffer over the given bytes.
    pub fn new(data: Vec<u8>) -> (t: tvbuff_t)
        ensures
            t@ == data@,
    {
        tvbuff_t { data }
    }
}

impl TVB for tvbuff_t {
    open spec fn buf(&self) -> Seq<u8> {
        self@
    }

    fn reported_length(&self) -> (n: usize) {
        proof {
            assert(self.buf() == self.data@);
        }
        self.data.len()
    }

    fn get_u8(&self, offset: usize) -> (r: Option<u8>) {
        if offset < self.data.len() {
            Some(self.data[offset])
        } else {
            None
        }
    }

    fn get_uint(&self, offset: usize, length: usize, encoding: Encoding) -> (r: Option<u64>) {
        let n = self.data.len();
        if length < 1 || length > 8 || offset > n || length > n - offset {
            return None;
        }
        let ghost s = self@.subrange(offset as int, offset + length);
        match encoding {
            Encoding::BIG_ENDIAN => {
                let mut value: u64 = 0;
                let mut i: usize = 0;
                while i < length
                    invariant
                        i <= length <= 8,
                        n == self@.len(),
                        offset + length <= n,
                        s == self@.subrange(offset as int, offset + length),
                        value as nat == be_value(s.take(i as int)),
                    decreases length - i,
                {
                    proof {
                        lemma_be_value_bound(s.take(i as int));
                        lemma_pow2_adds(8 * i as nat, 8);
                        lemma2_to64();
                        lemma2_to64_rest();
                        assert(pow2(8 * i as nat) <= pow2(56)) by {
                            if (8 * i as nat) < 56 {
                                vstd::arithmetic::power2::lemma_pow2_strictly_increases(
                                    8 * i as nat,
                                    56,
                                );
                            }
                        }
                        assert(s.take(i + 1).drop_last() =~= s.take(i as int));
                        assert(s.take(i + 1).last() == s[i as int]);
                        assert(value <= 0xffffffffffffff);
                        lemma_pow2_adds(56, 8);
                    }
                    value = value * 256 + self.data[offset + i] as u64;
                    i = i + 1;
                }
                proof {
                    assert(s.take(length as int) =~= s);
                }
                Some(value)
            },
            Encoding::LITTLE_ENDIAN => {
                let mut value: u64 = 0;
                let mut j: usize = length;
                while j > 0
                    invariant
                        j <= length <= 8,
                        n == self@.len(),
                        offset + length <= n,
                        s == self@.subrange(offset as int, offset + length),
                        value as nat == le_value(s.skip(j as int)),
                    decreases j,
                {
                    proof {
                        lemma_le_value_bound(s.skip(j as int));
                        lemma_pow2_adds(8 * (length - j) as nat, 8);
                        lemma2_to64();
                        lemma2_to64_rest();
                        assert(pow2(8 * (length - j) as nat) <= pow2(56)) by {
                            if (8 * (length - j) as nat) < 56 {
                                vstd::arithmetic::power2::lemma_pow2_strictly_increases(
                                    8 * (length - j) as nat,
                                    56,
                                );
                            }
                        }
                        assert(s.skip(j - 1).drop_first() =~= s.skip(j as int));
                        assert(s.skip(j - 1).first() == s[j - 1]);
                        assert(value <= 0xffffffffffffff);
                        lemma_pow2_adds(56, 8);
                    }
                    value = value * 256 + self.data[offset + (j - 1)] as u64;
                    j = j - 1;
                }
                proof {
                    assert(s.skip(0) =~= s);
                }
                Some(value)
            },
        }
    }
}


/// One node of the display tree: the root, or a foldout opened under an
/// item. `parent` and `anchor` are positions in the same tree; `depth`
/// counts subtree openings from the root.
pub struct TreeNode {
    pub parent: Option<usize>,
    pub anchor: Option<usize>,
    pub ett: Option<ETTIndex>,
    pub depth: usize,
}

/// One item of the display tree: the field it shows, the node it sits
/// under, the byte range it covers, whether that range left the buffer,
/// the byte order of its value, and an optional label prefix.
pub struct TreeItem {
    pub hf: HFIndex,
    pub node: usize,
    pub start: usize,
    pub length: usize,
    pub malformed: bool,
    pub encoding: Encoding,
    pub prefix: Option<String>,
}

/// Handle to one added item of a display tree.
#[derive(Debug, Clone, Copy, PartialEq, Eq, Structural)]
#[allow(non_camel_case_types)]
pub struct proto_item {
    pub(crate) idx: usize,
}

impl ProtoItem for proto_item {
    closed spec fn item_index(&self) -> int {
        self.idx as int
    }
}

impl proto_item {
    /// Position of the item in its tree, in order of addition.
    pub fn index(&self) -> (i: usize)
        ensures
            i == self.item_index(),
    {
        self.idx
    }
}

/// The display tree built during one dissection call, as the host will
/// render it.
#[allow(non_camel_case_types)]
pub struct proto_tree {
    nodes: Vec<TreeNode>,
    items: Vec<TreeItem>,
}

impl proto_tree {
    /// A fresh tree holding only its root node.
    pub fn new() -> (t: proto_tree)
        ensures
            t.wf(),
            t.tree_nodes().len() == 1,
            t.tree_items().len() == 0,
            t.tree_nodes()[0].depth == 0,
            t.tree_nodes()[0].ett is None,
    {
        let mut nodes: Vec<TreeNode> = Vec::new();
        nodes.push(TreeNode { parent: None, anchor: None, ett: None, depth: 0 });
        proto_tree { nodes, items: Vec::new() }
    }
}

impl proto_tree {
    /// Number of items added so far.
    pub fn item_count(&self) -> (n: usize)
        ensures
            n == self.tree_items().len(),
    {
        self.items.len()
    }

    /// Number of nodes opened so far, the root included.
    pub fn node_count(&self) -> (n: usize)
        ensures
            n == self.tree_nodes().len(),
    {
        self.nodes.len()
    }

    /// The field handle item `i` is labeled with.
    pub fn item_field(&self, i: usize) -> (h: HFIndex)
        requires
            i < self.tree_items().len(),
        ensures
            h == self.tree_items()[i as int].hf,
    {
        self.items[i].hf
    }

    /// The node item `i` sits under.
    pub fn item_node(&self, i: usize) -> (n: usize)
        requires
            i < self.tree_items().len(),
        ensures
            n == self.tree_items()[i as int].node,
    {
        self.items[i].node
    }

    /// The byte range item `i` covers: offset and length.
    pub fn item_range(&self, i: usize) -> (r: (usize, usize))
        requires
            i < self.tree_items().len(),
        ensures
            r.0 == self.tree_items()[i as int].start,
            r.1 == self.tree_items()[i as int].length,
    {
        (self.items[i].start, self.items[i].length)
    }

    /// Whether item `i` was marked malformed when it was added.
    pub fn item_is_malformed(&self, i: usize) -> (m: bool)
        requires
            i < self.tree_items().len(),
        ensures
            m == self.tree_items()[i as int].malformed,
    {
        self.items[i].malformed
    }

    /// The byte order item `i` was added with.
    pub fn item_encoding(&self, i: usize) -> (e: Encoding)
        requires
            i < self.tree_items().len(),
        ensures
            e == self.tree_items()[i as int].encoding,
    {
        self.items[i].encoding
    }

    /// The label prefix of item `i`, if one was set.
    pub fn item_prefix(&self, i: usize) -> (p: &Option<String>)
        requires
            i < self.tree_items().len(),
        ensures
            *p == self.tree_items()[i as int].prefix,
    {
        &self.items[i].prefix
    }

    /// The parent of node `n`; `None` only for the root.
    pub fn node_parent(&self, n: usize) -> (p: Option<usize>)
        requires
            n < self.tree_nodes().len(),
        ensures
            p == self.tree_nodes()[n as int].parent,
    {
        self.nodes[n].parent
    }

    /// The item node `n` was opened under; `None` only for the root.
    pub fn node_anchor(&self, n: usize) -> (a: Option<usize>)
        requires
            n < self.tree_nodes().len(),
        ensures
            a == self.tree_nodes()[n as int].anchor,
    {
        self.nodes[n].anchor
    }

    /// The foldout identity node `n` displays; `None` only for the root.
    pub fn node_ett(&self, n: usize) -> (e: Option<ETTIndex>)
        requires
            n < self.tree_nodes().len(),
        ensures
            e == self.tree_nodes()[n as int].ett,
    {
        self.nodes[n].ett
    }

    /// How many subtree openings separate node `n` from the root.
    pub fn node_depth(&self, n: usize) -> (d: usize)
        requires
            n < self.tree_nodes().len(),
        ensures
            d == self.tree_nodes()[n as int].depth,
    {
        self.nodes[n].depth
    }
}

impl ProtoTree for proto_tree {
    closed spec fn tree_nodes(&self) -> Seq<TreeNode> {
        self.nodes@
    }

    closed spec fn tree_items(&self) -> Seq<TreeItem> {
        self.items@
    }

    fn root(&self) -> (n: ProtoTreeNode) {
        ProtoTreeNode::from_index(0)
    }

    fn add_item(
        &mut self,
        node: ProtoTreeNode,
        hf: HFIndex,
        tvb: &tvbuff_t,
        offset: usize,
        length: usize,
        encoding: Encoding,
    ) -> (item: proto_item) {
        let n = tvb.reported_length();
        let malformed = offset > n || length > n - offset;
        let idx = self.items.len();
        self.items.push(
            TreeItem { hf, node: node.id(), start: offset, length, malformed, encoding, prefix: None },
        );
        proof {
            assert forall|i: int| 1 <= i < self.nodes@.len() implies node_link_wf(
                self.nodes@,
                self.items@,
                i,
            ) by {
                assert(node_link_wf(self.nodes@, old(self).items@, i));
            }
        }
        proto_item { idx }
    }

    fn add_item_returning_value(
        &mut self,
        node: ProtoTreeNode,
        hf: HFIndex,
        tvb: &tvbuff_t,
        offset: usize,
        length: usize,
        encoding: Encoding,
    ) -> (r: (proto_item, Option<u64>)) {
        let value = tvb.get_uint(offset, length, encoding);
        let item = self.add_item(node, hf, tvb, offset, length, encoding);
        (item, value)
    }

    fn open_subtree(&mut self, anchor: proto_item, ett: ETTIndex) -> (n: ProtoTreeNode) {
        let a = anchor.idx;
        let p = self.items[a].node;
        proof {
            assert(self.items@[a as int].node < self.nodes@.len());
            if p >= 1 {
                assert(node_link_wf(self.nodes@, self.items@, p as int));
            }
        }
        let d = self.nodes[p].depth;
        let idx = self.nodes.len();
        self.nodes.push(TreeNode { parent: Some(p), anchor: Some(a), ett: Some(ett), depth: d + 1 });
        proof {
            assert forall|i: int| 1 <= i < self.nodes@.len() implies node_link_wf(
                self.nodes@,
                self.items@,
                i,
            ) by {
                if i < old(self).nodes@.len() {
                    assert(node_link_wf(old(self).nodes@, self.items@, i));
                }
            }
            assert(is_descendant(self.nodes@, p as int, p as int));
            assert(is_descendant(self.nodes@, idx as int, p as int));
        }
        ProtoTreeNode::from_index(idx)
    }

    fn set_item_label_prefix(&mut self, item: proto_item, text: String) {
        let i = item.idx;
        self.items[i].prefix = Some(text);
        proof {
            assert forall|k: int| 1 <= k < self.nodes@.len() implies node_link_wf(
                self.nodes@,
                self.items@,
                k,
            ) by {
                assert(node_link_wf(self.nodes@, old(self).items@, k));
            }
        }
    }
}

} // verus!
