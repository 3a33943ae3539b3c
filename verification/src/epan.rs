//! The safe, author-facing surface of the host's dissection machinery:
//! opaque handles, byte-order selection, the bounds-checked buffer view and
//! the append-only display-tree builder.

use vstd::arithmetic::power2::{lemma2_to64, lemma_pow2_adds, pow2};
use vstd::prelude::*;

use crate::wireshark::{proto_item, tvbuff_t, TreeItem, TreeNode};

verus! {

/// Host-issued handle for one registered field. Opaque: only the host gives
/// these out, during registration, one per declared field.
#[derive(Debug, Clone, Copy, PartialEq, Eq, Structural)]
pub struct HFIndex(pub i32);

/// Host-issued handle for one foldout-tree identity.
#[derive(Debug, Clone, Copy, PartialEq, Eq, Structural)]
pub struct ETTIndex(pub i32);

/// Byte order used when a field's value is decoded from the buffer.
#[derive(Debug, Clone, Copy, PartialEq, Eq, Structural)]
#[allow(non_camel_case_types)]
pub enum Encoding {
    BIG_ENDIAN,
    LITTLE_ENDIAN,
}

/// Value of a byte sequence read as a big-endian unsigned integer.
pub open spec fn be_value(s: Seq<u8>) -> nat
    decreases s.len(),
{
    if s.len() == 0 {
        0
    } else {
        (be_value(s.drop_last()) * 256 + s.last()) as nat
    }
}

/// Value of a byte sequence read as a little-endian unsigned integer.
pub open spec fn le_value(s: Seq<u8>) -> nat
    decreases s.len(),
{
    if s.len() == 0 {
        0
    } else {
        (s.first() + le_value(s.drop_first()) * 256) as nat
    }
}

/// Value of a byte sequence read as an unsigned integer in the given order.
pub open spec fn uint_value(s: Seq<u8>, encoding: Encoding) -> nat {
    match encoding {
        Encoding::BIG_ENDIAN => be_value(s),
        Encoding::LITTLE_ENDIAN => le_value(s),
    }
}

/// A big-endian reading of `n` bytes is below `2^(8n)`.
pub proof fn lemma_be_value_bound(s: Seq<u8>)
    ensures
        be_value(s) < pow2(8 * s.len()),
    decreases s.len(),
{
    lemma2_to64();
    if s.len() == 0 {
    } else {
        lemma_be_value_bound(s.drop_last());
        lemma_pow2_adds(8 * (s.len() - 1) as nat, 8);
    }
}

/// A little-endian reading of `n` bytes is below `2^(8n)`.
pub proof fn lemma_le_value_bound(s: Seq<u8>)
    ensures
        le_value(s) < pow2(8 * s.len()),
    decreases s.len(),
{
    lemma2_to64();
    if s.len() == 0 {
    } else {
        lemma_le_value_bound(s.drop_first());
        lemma_pow2_adds(8 * (s.len() - 1) as nat, 8);
    }
}

/// Read-only, bounds-checked access to one packet's bytes. Out-of-range
/// reads yield `None`, the recoverable malformed-packet signal; nothing
/// here aborts.
pub trait TVB {
    /// The bytes this view exposes.
    spec fn buf(&self) -> Seq<u8>;

    /// Total reported length of the packet.
    fn reported_length(&self) -> (n: usize)
        ensures
            n == self.buf().len(),
    ;

    /// The byte at `offset`, if the packet is that long.
    fn get_u8(&self, offset: usize) -> (r: Option<u8>)
        ensures
            (offset < self.buf().len()) <==> r is Some,
            r matches Some(b) ==> b == self.buf()[offset as int],
    ;

    /// The unsigned integer held by `length` bytes starting at `offset`,
    /// read in the given byte order. `None` when the range leaves the
    /// packet or no unsigned 64-bit integer could hold the result.
    fn get_uint(&self, offset: usize, length: usize, encoding: Encoding) -> (r: Option<u64>)
        ensures
            (offset + length <= self.buf().len() && 1 <= length <= 8) <==> r is Some,
            r matches Some(v) ==> v as nat == uint_value(
                self.buf().subrange(offset as int, offset + length),
                encoding,
            ),
    ;
}

/// Handle to one item added to a display tree. Valid only for the tree that
/// produced it, and only until the owning dissection call returns.
pub trait ProtoItem {
    /// Position of the item in its tree, in order of addition.
    spec fn item_index(&self) -> int;
}

/// Handle to one node (nesting level) of a display tree: the root, or a
/// foldout opened under some item. Valid only for the tree that produced
/// it, and only until the owning dissection call returns.
#[derive(Debug, Clone, Copy, PartialEq, Eq, Structural)]
pub struct ProtoTreeNode {
    pub(crate) idx: usize,
}

impl ProtoTreeNode {
    /// Position of the node in its tree, in order of opening; the root is 0.
    pub closed spec fn node_id(&self) -> int {
        self.idx as int
    }

    /// Position of the node in its tree, in order of opening; the root is 0.
    pub fn id(&self) -> (i: usize)
        ensures
            i == self.node_id(),
    {
        self.idx
    }

    pub(crate) fn from_index(idx: usize) -> (n: ProtoTreeNode)
        ensures
            n.node_id() == idx,
    {
        ProtoTreeNode { idx }
    }
}

/// The links of one non-root tree node are well formed: it was opened
/// under an earlier item, its parent is that item's node, and its depth is
/// one more than the parent's.
pub open spec fn node_link_wf(nodes: Seq<TreeNode>, items: Seq<TreeItem>, i: int) -> bool {
    &&& nodes[i].parent is Some
    &&& nodes[i].anchor is Some
    &&& {
        let p = nodes[i].parent->Some_0 as int;
        let a = nodes[i].anchor->Some_0 as int;
        &&& 0 <= p < i
        &&& 0 <= a < items.len()
        &&& items[a].node == p
        &&& nodes[i].depth == nodes[p].depth + 1
        &&& nodes[i].depth <= i
    }
}

/// Well-formedness of a display tree: exactly one root, first and at depth
/// zero; every later node anchored to an earlier item; every item under an
/// existing node.
pub open spec fn tree_wf(nodes: Seq<TreeNode>, items: Seq<TreeItem>) -> bool {
    &&& nodes.len() >= 1
    &&& nodes[0].parent is None
    &&& nodes[0].anchor is None
    &&& nodes[0].depth == 0
    &&& forall|i: int| 1 <= i < nodes.len() ==> #[trigger] node_link_wf(nodes, items, i)
    &&& forall|i: int| 0 <= i < items.len() ==> (#[trigger] items[i]).node < nodes.len()
}

/// Node `d` is node `a` itself, or sits below it along parent links.
pub open spec fn is_descendant(nodes: Seq<TreeNode>, d: int, a: int) -> bool
    decreases d when 0 <= d
{
    if d == a {
        true
    } else if 0 <= d < nodes.len() && nodes[d].parent is Some && nodes[d].parent->Some_0 < d {
        is_descendant(nodes, nodes[d].parent->Some_0 as int, a)
    } else {
        false
    }
}

/// Number of subtree openings along the path from the root down to node
/// `i`.
pub open spec fn path_depth(nodes: Seq<TreeNode>, i: int) -> nat
    decreases i when 0 <= i
{
    if 0 <= i < nodes.len() && nodes[i].parent is Some && nodes[i].parent->Some_0 < i {
        (1 + path_depth(nodes, nodes[i].parent->Some_0 as int)) as nat
    } else {
        0
    }
}

/// In a well-formed tree, the depth stored at a node equals the number of
/// subtree openings along the path from the root: nesting depth counts
/// `open_subtree` calls.
pub proof fn lemma_depth_counts_openings(nodes: Seq<TreeNode>, items: Seq<TreeItem>, i: int)
    requires
        tree_wf(nodes, items),
        0 <= i < nodes.len(),
    ensures
        nodes[i].depth == path_depth(nodes, i),
    decreases i,
{
    if i != 0 {
        assert(node_link_wf(nodes, items, i));
        lemma_depth_counts_openings(nodes, items, nodes[i].parent->Some_0 as int);
    }
}

/// Append-only builder for one packet's display tree, filled during a
/// single dissection call and rendered by the host afterwards. Handles it
/// returns are positions in the finished tree; none survives the call.
pub trait ProtoTree: Sized {
    /// The nodes opened so far, root first.
    spec fn tree_nodes(&self) -> Seq<TreeNode>;

    /// The items added so far, in order of addition.
    spec fn tree_items(&self) -> Seq<TreeItem>;

    /// The builder keeps its tree well formed.
    open spec fn wf(&self) -> bool {
        tree_wf(self.tree_nodes(), self.tree_items())
    }

    /// The root node, under which the outermost items stand.
    fn root(&self) -> (n: ProtoTreeNode)
        ensures
            n.node_id() == 0,
    ;

    /// Append a leaf under `node`, labeled per `hf`, covering `length`
    /// bytes of `tvb` from `offset`. A range that leaves the buffer marks
    /// the item malformed — a recoverable condition, never an abort.
    fn add_item(
        &mut self,
        node: ProtoTreeNode,
        hf: HFIndex,
        tvb: &tvbuff_t,
        offset: usize,
        length: usize,
        encoding: Encoding,
    ) -> (item: proto_item)
        requires
            old(self).wf(),
            0 <= node.node_id() < old(self).tree_nodes().len(),
        ensures
            final(self).wf(),
            final(self).tree_nodes() == old(self).tree_nodes(),
            final(self).tree_items().len() == old(self).tree_items().len() + 1,
            forall|i: int|
                0 <= i < old(self).tree_items().len() ==> final(self).tree_items()[i] == old(
                    self,
                ).tree_items()[i],
            item.item_index() == old(self).tree_items().len(),
            final(self).tree_items().last().hf == hf,
            final(self).tree_items().last().node == node.node_id(),
            final(self).tree_items().last().start == offset,
            final(self).tree_items().last().length == length,
            final(self).tree_items().last().malformed == (offset + length > tvb@.len()),
            final(self).tree_items().last().encoding == encoding,
            final(self).tree_items().last().prefix is None,
    ;

    /// As [`Self::add_item`], and also decode and return the covered
    /// bytes as an unsigned integer in the given byte order, for branching
    /// on the value. The value is `None` exactly when the item is
    /// malformed or no unsigned 64-bit integer could hold it.
    fn add_item_returning_value(
        &mut self,
        node: ProtoTreeNode,
        hf: HFIndex,
        tvb: &tvbuff_t,
        offset: usize,
        length: usize,
        encoding: Encoding,
    ) -> (r: (proto_item, Option<u64>))
        requires
            old(self).wf(),
            0 <= node.node_id() < old(self).tree_nodes().len(),
        ensures
            final(self).wf(),
            final(self).tree_nodes() == old(self).tree_nodes(),
            final(self).tree_items().len() == old(self).tree_items().len() + 1,
            forall|i: int|
                0 <= i < old(self).tree_items().len() ==> final(self).tree_items()[i] == old(
                    self,
                ).tree_items()[i],
            r.0.item_index() == old(self).tree_items().len(),
            final(self).tree_items().last().hf == hf,
            final(self).tree_items().last().node == node.node_id(),
            final(self).tree_items().last().start == offset,
            final(self).tree_items().last().length == length,
            final(self).tree_items().last().malformed == (offset + length > tvb@.len()),
            final(self).tree_items().last().encoding == encoding,
            final(self).tree_items().last().prefix is None,
            (offset + length <= tvb@.len() && 1 <= length <= 8) <==> r.1 is Some,
            r.1 matches Some(v) ==> v as nat == uint_value(
                tvb@.subrange(offset as int, offset + length),
                encoding,
            ),
    ;

    /// Open a nested foldout under item `anchor`, labeled per `ett`: a new
    /// node one level deeper than the anchor's node, and a descendant of
    /// it.
    fn open_subtree(&mut self, anchor: proto_item, ett: ETTIndex) -> (n: ProtoTreeNode)
        requires
            old(self).wf(),
            0 <= anchor.item_index() < old(self).tree_items().len(),
        ensures
            final(self).wf(),
            final(self).tree_items() == old(self).tree_items(),
            final(self).tree_nodes().len() == old(self).tree_nodes().len() + 1,
            forall|i: int|
                0 <= i < old(self).tree_nodes().len() ==> final(self).tree_nodes()[i] == old(
                    self,
                ).tree_nodes()[i],
            n.node_id() == old(self).tree_nodes().len(),
            final(self).tree_nodes().last().parent == Some(
                old(self).tree_items()[anchor.item_index()].node,
            ),
            final(self).tree_nodes().last().anchor == Some(anchor.item_index() as usize),
            final(self).tree_nodes().last().ett == Some(ett),
            final(self).tree_nodes().last().depth == old(self).tree_nodes()[old(self).tree_items()[
                anchor.item_index()
            ].node as int].depth + 1,
            is_descendant(
                final(self).tree_nodes(),
                n.node_id(),
                old(self).tree_items()[anchor.item_index()].node as int,
            ),
    ;

    /// Prepend cosmetic text to an already-added item. No structural
    /// effect: every other item, and everything else about this item, is
    /// untouched.
    fn set_item_label_prefix(&mut self, item: proto_item, text: String)
        requires
            old(self).wf(),
            0 <= item.item_index() < old(self).tree_items().len(),
        ensures
            final(self).wf(),
            final(self).tree_nodes() == old(self).tree_nodes(),
            final(self).tree_items().len() == old(self).tree_items().len(),
            forall|i: int|
                0 <= i < old(self).tree_items().len() && i != item.item_index()
                    ==> final(self).tree_items()[i] == old(self).tree_items()[i],
            final(self).tree_items()[item.item_index()].prefix == Some(text),
            final(self).tree_items()[item.item_index()].hf == old(self).tree_items()[item.item_index()].hf,
            final(self).tree_items()[item.item_index()].node == old(self).tree_items()[item.item_index()].node,
            final(self).tree_items()[item.item_index()].start == old(self).tree_items()[item.item_index()].start,
            final(self).tree_items()[item.item_index()].length == old(self).tree_items()[item.item_index()].length,
            final(self).tree_items()[item.item_index()].malformed == old(self).tree_items()[item.item_index()].malformed,
            final(self).tree_items()[item.item_index()].encoding == old(self).tree_items()[item.item_index()].encoding,
    ;
}

} // verus!
