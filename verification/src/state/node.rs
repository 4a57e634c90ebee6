//! See [`Node`]: a sector layout with a smaller payload, used by the seat free stack.
use vstd::prelude::*;

use crate::error::DropsetError;
use crate::le_bytes::{
    array_from_slice, le_u32_at, le_u32_value, lemma_le_u32_at_array, read_bytes_at, u32_from_le,
    u32_to_le,
};
use crate::state::transmutable::Transmutable;
use crate::state::sector::{NonNilSectorIndex, SectorIndex, LeSectorIndex, NIL};

verus! {

/// The size in bytes of a node's payload.
pub const NODE_PAYLOAD_SIZE: usize = 64;

/// The size in bytes of a node: two little-endian sector indices and the payload.
pub const NODE_SIZE: usize = 72;

/// A sector holding the indices of its `next` and `prev` nodes and a payload of
/// [`NODE_PAYLOAD_SIZE`] bytes.
#[derive(Clone, Copy, Debug)]
pub struct Node {
    /// The little endian bytes of the index of the `next` node.
    next: LeSectorIndex,
    /// The little endian bytes of the index of the `prev` node. Unused by the free stack of nodes,
    /// where it holds meaningless bytes.
    prev: LeSectorIndex,
    /// Either an in-use payload or zeroed bytes.
    payload: [u8; NODE_PAYLOAD_SIZE],
}

/// The meaning of a [`Node`]: its decoded links and its payload bytes.
pub struct NodeView {
    pub next: SectorIndex,
    pub prev: SectorIndex,
    pub payload: Seq<u8>,
}

impl View for Node {
    type V = NodeView;

    closed spec fn view(&self) -> NodeView {
        NodeView {
            next: le_u32_value(self.next),
            prev: le_u32_value(self.prev),
            payload: self.payload@,
        }
    }
}

/// A type that a node's payload can hold, read and written as exactly [`NODE_PAYLOAD_SIZE`]
/// bytes.
pub trait NodePayload: Sized {
    /// The payload bytes of a value.
    spec fn node_payload_bytes(&self) -> Seq<u8>;

    /// The value that `bytes` hold.
    fn load_from_node_payload(bytes: &[u8; NODE_PAYLOAD_SIZE]) -> (r: Self)
        ensures
            r.node_payload_bytes() == bytes@,
    ;
}

impl Node {
    /// A node with the given links and payload.
    pub fn new(next: SectorIndex, prev: SectorIndex, payload: [u8; NODE_PAYLOAD_SIZE]) -> (r: Self)
        ensures
            r@ == (NodeView { next, prev, payload: payload@ }),
    {
        Node { next: u32_to_le(next), prev: u32_to_le(prev), payload }
    }

    #[inline(always)]
    pub fn prev(&self) -> (r: SectorIndex)
        ensures
            r == self@.prev,
    {
        u32_from_le(self.prev)
    }

    #[inline(always)]
    pub fn set_prev(&mut self, index: SectorIndex)
        ensures
            final(self)@ == (NodeView { prev: index, ..old(self)@ }),
    {
        self.prev = u32_to_le(index);
    }

    #[inline(always)]
    pub fn next(&self) -> (r: SectorIndex)
        ensures
            r == self@.next,
    {
        u32_from_le(self.next)
    }

    #[inline(always)]
    pub fn set_next(&mut self, index: SectorIndex)
        ensures
            final(self)@ == (NodeView { next: index, ..old(self)@ }),
    {
        self.next = u32_to_le(index);
    }

    /// Copies `payload` into this node's payload.
    #[inline(always)]
    pub fn set_payload(&mut self, payload: &[u8; NODE_PAYLOAD_SIZE])
        ensures
            final(self)@ == (NodeView { payload: payload@, ..old(self)@ }),
    {
        self.payload = *payload;
    }

    /// Sets every payload byte to zero.
    #[inline(always)]
    pub fn zero_out_payload(&mut self)
        ensures
            final(self)@ == (NodeView {
                payload: Seq::new(NODE_PAYLOAD_SIZE as nat, |i: int| 0u8),
                ..old(self)@
            }),
    {
        self.payload = [0u8; NODE_PAYLOAD_SIZE];
        assert(self.payload@ =~= Seq::new(NODE_PAYLOAD_SIZE as nat, |i: int| 0u8));
    }

    /// The payload read as a `T`.
    #[inline(always)]
    pub fn load_payload<T: NodePayload>(&self) -> (r: T)
        ensures
            r.node_payload_bytes() == self@.payload,
    {
        T::load_from_node_payload(&self.payload)
    }

    /// The node at `index`, to modify: `InvalidSectorIndex` if `index` is `NIL`, and
    /// `IndexOutOfBounds` if it is past the last node.
    #[inline(always)]
    pub fn from_sector_index_mut(nodes: &mut Vec<Node>, index: SectorIndex) -> (r: Result<
        &mut Node,
        DropsetError,
    >)
        ensures
            index == NIL ==> r is Err && r->Err_0 == DropsetError::InvalidSectorIndex && final(nodes)@ == old(nodes)@,
            index != NIL && index >= old(nodes)@.len() ==> r is Err && r->Err_0
                == DropsetError::IndexOutOfBounds && final(nodes)@ == old(nodes)@,
            index != NIL && index < old(nodes)@.len() ==> r is Ok && *r->Ok_0 == old(nodes)@[index as int] && final(nodes)@ == old(nodes)@.update(index as int, *final(r->Ok_0)),
    {
        if index == NIL {
            return Err(DropsetError::InvalidSectorIndex);
        }
        if index as usize >= nodes.len() {
            return Err(DropsetError::IndexOutOfBounds);
        }
        Ok(&mut nodes[index as usize])
    }

    /// The node at the non-nil `index`, or `IndexOutOfBounds` if it is past the last node.
    #[inline(always)]
    pub fn from_non_nil_sector_index(nodes: &Vec<Node>, index: NonNilSectorIndex) -> (r: Result<
        &Node,
        DropsetError,
    >)
        ensures
            index@ < nodes@.len() ==> r is Ok && *r->Ok_0 == nodes@[index@ as int],
            index@ >= nodes@.len() ==> r is Err && r->Err_0 == DropsetError::IndexOutOfBounds,
    {
        let i = index.get();
        if i as usize >= nodes.len() {
            return Err(DropsetError::IndexOutOfBounds);
        }
        Ok(&nodes[i as usize])
    }

    /// The node at the non-nil `index`, to modify, or `IndexOutOfBounds` if it is past the last
    /// node.
    #[inline(always)]
    pub fn from_non_nil_sector_index_mut(nodes: &mut Vec<Node>, index: NonNilSectorIndex) -> (r:
        Result<&mut Node, DropsetError>)
        ensures
            index@ < old(nodes)@.len() ==> r is Ok && *r->Ok_0 == old(nodes)@[index@ as int] && final(nodes)@ == old(nodes)@.update(index@ as int, *final(r->Ok_0)),
            index@ >= old(nodes)@.len() ==> r is Err && r->Err_0 == DropsetError::IndexOutOfBounds
                && final(nodes)@ == old(nodes)@,
    {
        let i = index.get();
        if i as usize >= nodes.len() {
            return Err(DropsetError::IndexOutOfBounds);
        }
        Ok(&mut nodes[i as usize])
    }

    /// The node at `index`, to modify, where the caller knows that `index` is in bounds.
    #[inline(always)]
    pub fn from_sector_index_mut_unchecked(nodes: &mut Vec<Node>, index: SectorIndex) -> (r:
        &mut Node)
        requires
            (index as int) < old(nodes)@.len(),
        ensures
            *r == old(nodes)@[index as int],
            final(nodes)@ == old(nodes)@.update(index as int, *final(r)),
    {
        &mut nodes[index as usize]
    }
}

impl Transmutable for Node {
    open spec fn byte_len() -> nat {
        NODE_SIZE as nat
    }

    fn len() -> (r: usize) {
        NODE_SIZE
    }

    /// The `next` bytes, the `prev` bytes, then the payload.
    closed spec fn byte_repr(&self) -> Seq<u8> {
        self.next@ + self.prev@ + self.payload@
    }

    fn load_unchecked(bytes: &[u8]) -> (r: Self) {
        let b = array_from_slice::<NODE_SIZE>(bytes);
        let r = Node {
            next: read_bytes_at::<NODE_SIZE, 4>(&b, 0),
            prev: read_bytes_at::<NODE_SIZE, 4>(&b, 4),
            payload: read_bytes_at::<NODE_SIZE, NODE_PAYLOAD_SIZE>(&b, 8),
        };
        assert(r.byte_repr() =~= bytes@);
        r
    }
}

/// A node's bytes are its `next` index at 0, its `prev` index at 4 (both little-endian) and its
/// payload at 8, so reading a node from bytes decodes each part from its own offset.
pub proof fn lemma_node_layout(node: Node)
    ensures
        node.byte_repr().len() == NODE_SIZE,
        node@.next == le_u32_at(node.byte_repr(), 0),
        node@.prev == le_u32_at(node.byte_repr(), 4),
        node@.payload == node.byte_repr().subrange(8, NODE_SIZE as int),
{
    let b = node.byte_repr();
    assert(b.subrange(0, 4) =~= node.next@);
    assert(b.subrange(4, 8) =~= node.prev@);
    assert(b.subrange(8, NODE_SIZE as int) =~= node.payload@);
    lemma_le_u32_at_array(b, 0, node.next);
    lemma_le_u32_at_array(b, 4, node.prev);
}

} // verus!
