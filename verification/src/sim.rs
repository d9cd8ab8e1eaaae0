use vstd::prelude::*;

verus! {

/// Mask of the low 56 bits of a packed word: everything but the top byte.
pub const LOW56: u64 = 0x00FF_FFFF_FFFF_FFFF;

/// Mask of the low 48 bits of a packed word.
pub const LOW48: u64 = 0x0000_FFFF_FFFF_FFFF;

/// Mask of the low 32 bits of a packed word.
pub const LOW32: u64 = 0x0000_0000_FFFF_FFFF;

/// Identifies a truth table of a library by its index.
#[derive(Clone, Copy, PartialEq, Eq, Debug, Structural)]
pub struct TruthTableId(pub u8);

/// The address of a node in a simulation.
#[derive(Clone, Copy, PartialEq, Eq, Debug, Structural)]
pub struct NodeAddr(pub u32);

impl Default for NodeAddr {
    fn default() -> (r: NodeAddr)
        ensures
            r.0 == 0,
    {
        NodeAddr(0)
    }
}

/// An inclusive range of node addresses, `self.0 ..= self.1`.
#[derive(Clone, Copy, Debug)]
pub struct NodeRange(pub NodeAddr, pub NodeAddr);

impl NodeRange {
    /// The number of addresses in the range.
    pub fn count(self) -> (r: u32)
        requires
            self.0.0 <= self.1.0,
            self.1.0 - self.0.0 + 1 <= u32::MAX,
        ensures
            r == self.1.0 - self.0.0 + 1,
    {
        (self.1).0 - (self.0).0 + 1
    }

    /// The addresses of the range, in increasing order.
    pub fn addrs(self) -> (r: Vec<NodeAddr>)
        ensures
            r@.len() == (if self.0.0 <= self.1.0 { self.1.0 - self.0.0 + 1 } else { 0int }),
            forall|i: int| 0 <= i < r@.len() ==> #[trigger] r@[i].0 == self.0.0 + i,
    {
        let mut out: Vec<NodeAddr> = Vec::new();
        if (self.0).0 > (self.1).0 {
            return out;
        }
        let mut a: u32 = (self.0).0;
        loop
            invariant
                self.0.0 <= a <= self.1.0,
                out@.len() == a - self.0.0,
                forall|i: int| 0 <= i < out@.len() ==> #[trigger] out@[i].0 == self.0.0 + i,
            decreases self.1.0 - a,
        {
            out.push(NodeAddr(a));
            if a == (self.1).0 {
                return out;
            }
            a = a + 1;
        }
    }
}

/// The state byte of a packed node word (its top byte).
pub open spec fn state_of(word: u64) -> u8 {
    (word >> 56u64) as u8
}

/// A simulation node packed into one word.
///
/// The top byte holds the node's state (0 = off, 1 = on; a node may hold any
/// byte as its state), and the low 56 bits hold its source.
#[derive(Clone, Copy, Debug)]
pub struct Node(pub u64);

impl Default for Node {
    fn default() -> (r: Node)
        ensures
            r.0 == 0,
    {
        Node(0)
    }
}

proof fn lemma_node_pack(state: u8, src: u64)
    ensures
        state_of(((state as u64) << 56u64) | (src & LOW56)) == state,
        (((state as u64) << 56u64) | (src & LOW56)) & LOW56 == src & LOW56,
{
    assert((((((state as u64) << 56u64) | (src & 0x00FF_FFFF_FFFF_FFFFu64)) >> 56u64) as u8 == state)
        && ((((state as u64) << 56u64) | (src & 0x00FF_FFFF_FFFF_FFFFu64)) & 0x00FF_FFFF_FFFF_FFFFu64 == src & 0x00FF_FFFF_FFFF_FFFFu64)) by (bit_vector);
}

proof fn lemma_node_set_source(word: u64, src: u64)
    ensures
        state_of((word & 0xFF00_0000_0000_0000u64) | (src & LOW56)) == state_of(word),
        ((word & 0xFF00_0000_0000_0000u64) | (src & LOW56)) & LOW56 == src & LOW56,
{
    assert(((((word & 0xFF00_0000_0000_0000u64) | (src & 0x00FF_FFFF_FFFF_FFFFu64)) >> 56u64) as u8 == (word >> 56u64) as u8)
        && (((word & 0xFF00_0000_0000_0000u64) | (src & 0x00FF_FFFF_FFFF_FFFFu64)) & 0x00FF_FFFF_FFFF_FFFFu64 == src & 0x00FF_FFFF_FFFF_FFFFu64)) by (bit_vector);
}

impl Node {
    /// A node with state 0 and no source.
    pub fn zero() -> (r: Node)
        ensures
            r.0 == 0,
    {
        Node(0)
    }

    /// The state of the node.
    pub open spec fn spec_state(self) -> u8 {
        state_of(self.0)
    }

    /// The source bits of the node: its low 56 bits.
    pub open spec fn spec_source_bits(self) -> u64 {
        self.0 & LOW56
    }

    /// Flips the state between 0 and 1 (wrapping: a state `s` becomes `1 - s` modulo 256).
    pub fn toggle_state(&mut self)
        ensures
            final(self).spec_state() == (257 - old(self).spec_state()) % 256,
            final(self).spec_source_bits() == old(self).spec_source_bits(),
    {
        let s = self.state();
        let t: u8 = 1u8.wrapping_sub(s);
        assert(t == (257 - s) % 256);
        self.set_state(t);
    }

    /// Packs a state and a source into a node.
    pub fn new(state: u8, src: Source) -> (r: Node)
        ensures
            r.spec_state() == state,
            r.spec_source_bits() == src.0 & LOW56,
    {
        proof {
            lemma_node_pack(state, src.0);
        }
        Node(((state as u64) << 56) | (src.0 & LOW56))
    }

    /// The state of the node.
    pub fn state(&self) -> (r: u8)
        ensures
            r == self.spec_state(),
    {
        (self.0 >> 56) as u8
    }

    /// Replaces the state, keeping the source.
    pub fn set_state(&mut self, state: u8)
        ensures
            final(self).spec_state() == state,
            final(self).spec_source_bits() == old(self).spec_source_bits(),
    {
        let w = self.0;
        proof {
            lemma_node_pack(state, w);
        }
        self.0 = (self.0 & LOW56) | ((state as u64) << 56);
        assert(((w & 0x00FF_FFFF_FFFF_FFFFu64) | ((state as u64) << 56u64)) == (((state as u64)
            << 56u64) | (w & 0x00FF_FFFF_FFFF_FFFFu64))) by (bit_vector);
    }

    /// The source of the node: the node's word read as a source.
    pub fn source(&self) -> (r: Source)
        ensures
            r.0 == self.0,
            r.0 & LOW56 == self.spec_source_bits(),
    {
        Source(self.0)
    }

    /// Replaces the source, keeping the state.
    pub fn set_source(&mut self, src: Source)
        ensures
            final(self).spec_state() == old(self).spec_state(),
            final(self).spec_source_bits() == src.0 & LOW56,
            final(self).0 == (old(self).0 & 0xFF00_0000_0000_0000u64) | (src.0 & LOW56),
    {
        proof {
            lemma_node_set_source(self.0, src.0);
        }
        self.0 = (self.0 & 0xFF00_0000_0000_0000) | (src.0 & LOW56);
    }
}

/// The kind of a source.
#[derive(Clone, Copy, PartialEq, Eq, Debug, Structural)]
pub struct SourceTy(pub u8);

impl SourceTy {
    /// No source: the node keeps its state.
    pub fn none() -> (r: SourceTy)
        ensures
            r.0 == 0,
    {
        SourceTy(0)
    }

    /// The node copies the state of another node.
    pub fn copy() -> (r: SourceTy)
        ensures
            r.0 == 1,
    {
        SourceTy(1)
    }

    /// The node takes one output of a truth table.
    pub fn table() -> (r: SourceTy)
        ensures
            r.0 == 2,
    {
        SourceTy(2)
    }

    /// Reserved for operations; the simulation does not accept it.
    pub fn op() -> (r: SourceTy)
        ensures
            r.0 == 3,
    {
        SourceTy(3)
    }
}

/// A source that copies the node at the address in its low 32 bits.
#[derive(Clone, Copy, Debug)]
pub struct CopySource(pub u64);

impl CopySource {
    /// The address the source copies from.
    pub open spec fn spec_addr(self) -> u32 {
        (self.0 & LOW32) as u32
    }

    /// The bits above the address.
    pub open spec fn spec_high(self) -> u64 {
        self.0 >> 32u64
    }

    /// A copy source reading `addr`.
    pub fn new(addr: NodeAddr) -> (r: CopySource)
        ensures
            r.0 == addr.0 as u64,
            r.spec_addr() == addr.0,
            r.spec_high() == 0,
    {
        let w: u32 = addr.0;
        assert(((w as u64) & 0xFFFF_FFFFu64) as u32 == w && (w as u64) >> 32u64 == 0)
            by (bit_vector);
        CopySource(addr.0 as u64)
    }

    /// The address the source copies from.
    pub fn addr(&self) -> (r: NodeAddr)
        ensures
            r.0 == self.spec_addr(),
    {
        NodeAddr((self.0 & LOW32) as u32)
    }

    /// Replaces the address, keeping the bits above it.
    pub fn set_addr(&mut self, addr: NodeAddr)
        ensures
            final(self).spec_addr() == addr.0,
            final(self).spec_high() == old(self).spec_high(),
    {
        let w = self.0;
        let a: u32 = addr.0;
        self.0 = (self.0 & !0xFFFF_FFFFu64) | addr.0 as u64;
        assert(((((w & !0xFFFF_FFFFu64) | (a as u64)) & 0xFFFF_FFFFu64) as u32 == a)
            && (((w & !0xFFFF_FFFFu64) | (a as u64)) >> 32u64 == w >> 32u64)) by (bit_vector);
    }
}

/// A source that reads one output of a truth table.
///
/// Bits 40..48 hold the table id, bits 32..40 the output index and the low
/// 32 bits the address of the first of the table's consecutive input nodes.
#[derive(Clone, Copy, Debug)]
pub struct TruthTableSource(pub u64);

impl TruthTableSource {
    /// The table id.
    pub open spec fn spec_id(self) -> u8 {
        ((self.0 >> 40u64) & 0xFFu64) as u8
    }

    /// The index of the table output the source reads.
    pub open spec fn spec_output(self) -> u8 {
        ((self.0 >> 32u64) & 0xFFu64) as u8
    }

    /// The address of the first input node.
    pub open spec fn spec_inputs(self) -> u32 {
        self.0 as u32
    }

    /// The bits above the table id.
    pub open spec fn spec_high(self) -> u64 {
        self.0 >> 48u64
    }

    /// Packs a table id, an output index and the first input address.
    pub fn new(id: TruthTableId, output: u8, inputs: NodeAddr) -> (r: TruthTableSource)
        ensures
            r.spec_id() == id.0,
            r.spec_output() == output,
            r.spec_inputs() == inputs.0,
            r.spec_high() == 0,
    {
        let i: u8 = id.0;
        let o: u8 = output;
        let a: u32 = inputs.0;
        let w: u64 = ((id.0 as u64) << 40) | ((output as u64) << 32) | inputs.0 as u64;
        assert(w == ((i as u64) << 40u64) | ((o as u64) << 32u64) | (a as u64));
        assert((((((((i as u64) << 40u64) | ((o as u64) << 32u64) | (a as u64)) >> 40u64) & 0xFFu64) as u8) == i)
            && (((((((i as u64) << 40u64) | ((o as u64) << 32u64) | (a as u64)) >> 32u64) & 0xFFu64) as u8) == o)
            && (((((i as u64) << 40u64) | ((o as u64) << 32u64) | (a as u64)) as u32) == a)
            && (((((i as u64) << 40u64) | ((o as u64) << 32u64) | (a as u64)) >> 48u64) == 0)) by (bit_vector);
        TruthTableSource(w)
    }

    /// The table id.
    pub fn id(&self) -> (r: TruthTableId)
        ensures
            r.0 == self.spec_id(),
    {
        TruthTableId(((self.0 >> 40) & 0xFF) as u8)
    }

    /// The index of the table output the source reads.
    pub fn output(&self) -> (r: u8)
        ensures
            r == self.spec_output(),
    {
        ((self.0 >> 32) & 0xFF) as u8
    }

    /// The address of the first input node.
    pub fn inputs(&self) -> (r: NodeAddr)
        ensures
            r.0 == self.spec_inputs(),
    {
        NodeAddr(self.0 as u32)
    }

    /// Replaces the table id, keeping the other fields.
    pub fn set_id(&mut self, id: TruthTableId)
        ensures
            final(self).spec_id() == id.0,
            final(self).spec_output() == old(self).spec_output(),
            final(self).spec_inputs() == old(self).spec_inputs(),
            final(self).spec_high() == old(self).spec_high(),
    {
        let w = self.0;
        let i: u8 = id.0;
        self.0 = (self.0 & 0xFFFF_00FF_FFFF_FFFF) | ((id.0 as u64) << 40);
        assert((((((w & 0xFFFF_00FF_FFFF_FFFFu64) | ((i as u64) << 40u64)) >> 40u64) & 0xFFu64) as u8 == i)
            && (((((w & 0xFFFF_00FF_FFFF_FFFFu64) | ((i as u64) << 40u64)) >> 32u64) & 0xFFu64) as u8 == ((w >> 32u64) & 0xFFu64) as u8)
            && (((w & 0xFFFF_00FF_FFFF_FFFFu64) | ((i as u64) << 40u64)) as u32 == w as u32)
            && (((w & 0xFFFF_00FF_FFFF_FFFFu64) | ((i as u64) << 40u64)) >> 48u64 == w >> 48u64)) by (bit_vector);
    }

    /// Replaces the output index, keeping the other fields.
    pub fn set_output(&mut self, output: u8)
        ensures
            final(self).spec_id() == old(self).spec_id(),
            final(self).spec_output() == output,
            final(self).spec_inputs() == old(self).spec_inputs(),
            final(self).spec_high() == old(self).spec_high(),
    {
        let w = self.0;
        let o: u8 = output;
        self.0 = (self.0 & 0xFFFF_FF00_FFFF_FFFF) | ((output as u64) << 32);
        assert((((((w & 0xFFFF_FF00_FFFF_FFFFu64) | ((o as u64) << 32u64)) >> 40u64) & 0xFFu64) as u8 == ((w >> 40u64) & 0xFFu64) as u8)
            && (((((w & 0xFFFF_FF00_FFFF_FFFFu64) | ((o as u64) << 32u64)) >> 32u64) & 0xFFu64) as u8 == o)
            && (((w & 0xFFFF_FF00_FFFF_FFFFu64) | ((o as u64) << 32u64)) as u32 == w as u32)
            && (((w & 0xFFFF_FF00_FFFF_FFFFu64) | ((o as u64) << 32u64)) >> 48u64 == w >> 48u64)) by (bit_vector);
    }

    /// Replaces the first input address, keeping the other fields.
    pub fn set_inputs(&mut self, inputs: NodeAddr)
        ensures
            final(self).spec_id() == old(self).spec_id(),
            final(self).spec_output() == old(self).spec_output(),
            final(self).spec_inputs() == inputs.0,
            final(self).spec_high() == old(self).spec_high(),
    {
        let w = self.0;
        let a: u32 = inputs.0;
        self.0 = (self.0 & !0xFFFF_FFFFu64) | inputs.0 as u64;
        assert((((((w & !0xFFFF_FFFFu64) | (a as u64)) >> 40u64) & 0xFFu64) as u8 == ((w >> 40u64) & 0xFFu64) as u8)
            && (((((w & !0xFFFF_FFFFu64) | (a as u64)) >> 32u64) & 0xFFu64) as u8 == ((w >> 32u64) & 0xFFu64) as u8)
            && (((w & !0xFFFF_FFFFu64) | (a as u64)) as u32 == a)
            && (((w & !0xFFFF_FFFFu64) | (a as u64)) >> 48u64 == w >> 48u64)) by (bit_vector);
    }
}

/// The kind of a source word: its bits 48..56.
pub open spec fn source_ty_of(word: u64) -> u8 {
    ((word & 0x00FF_0000_0000_0000u64) >> 48u64) as u8
}

/// The source of a node.
///
/// Bits 48..56 hold the kind (a `SourceTy`); the bits below hold its data:
/// a `TruthTableSource` or the address of a `CopySource`. Bits 56.. are not
/// part of the source (in a node they hold its state).
#[derive(Clone, Copy, Debug)]
pub struct Source(pub u64);

impl Source {
    /// The kind of the source.
    pub open spec fn spec_ty(self) -> u8 {
        source_ty_of(self.0)
    }

    /// No source.
    pub fn new_none() -> (r: Source)
        ensures
            r.0 == 0,
            r.spec_ty() == 0,
    {
        assert(((0u64 & 0x00FF_0000_0000_0000u64) >> 48u64) as u8 == 0) by (bit_vector);
        Source(0)
    }

    /// A source reading an output of a truth table.
    pub fn new_table(table: TruthTableSource) -> (r: Source)
        ensures
            r.spec_ty() == 2,
            r.as_table_spec().spec_id() == table.spec_id(),
            r.as_table_spec().spec_output() == table.spec_output(),
            r.as_table_spec().spec_inputs() == table.spec_inputs(),
            r.0 >> 56u64 == 0,
            r.0 == (2u64 << 48u64) | (table.0 & LOW48),
    {
        let t = table.0;
        let w: u64 = (2u64 << 48) | (table.0 & LOW48);
        assert(w == (2u64 << 48u64) | (t & 0x0000_FFFF_FFFF_FFFFu64));
        assert(((((2u64 << 48u64) | (t & 0x0000_FFFF_FFFF_FFFFu64)) & 0x00FF_0000_0000_0000u64) >> 48u64 == 2)
            && ((((((2u64 << 48u64) | (t & 0x0000_FFFF_FFFF_FFFFu64)) >> 40u64) & 0xFFu64) as u8) == ((t >> 40u64) & 0xFFu64) as u8)
            && ((((((2u64 << 48u64) | (t & 0x0000_FFFF_FFFF_FFFFu64)) >> 32u64) & 0xFFu64) as u8) == ((t >> 32u64) & 0xFFu64) as u8)
            && ((((2u64 << 48u64) | (t & 0x0000_FFFF_FFFF_FFFFu64)) as u32) == t as u32)
            && (((2u64 << 48u64) | (t & 0x0000_FFFF_FFFF_FFFFu64)) >> 56u64 == 0)) by (bit_vector);
        Source(w)
    }

    /// A source copying the node at `addr`.
    pub fn new_addr(addr: NodeAddr) -> (r: Source)
        ensures
            r.spec_ty() == 1,
            r.as_copy_spec().spec_addr() == addr.0,
            r.0 >> 56u64 == 0,
            r.0 == (1u64 << 48u64) | (addr.0 as u64),
    {
        let a: u32 = addr.0;
        let w: u64 = (1u64 << 48) | addr.0 as u64;
        assert(((((1u64 << 48u64) | (a as u64)) & 0x00FF_0000_0000_0000u64) >> 48u64 == 1)
            && (((((1u64 << 48u64) | (a as u64)) & 0xFFFF_FFFFu64) as u32) == a)
            && (((1u64 << 48u64) | (a as u64)) >> 56u64 == 0)) by (bit_vector);
        Source(w)
    }

    /// The kind of the source.
    pub fn ty(&self) -> (r: SourceTy)
        ensures
            r.0 == self.spec_ty(),
    {
        SourceTy(((self.0 & 0x00FF_0000_0000_0000) >> 48) as u8)
    }

    /// The source word read as a truth table source.
    pub open spec fn as_table_spec(self) -> TruthTableSource {
        TruthTableSource(self.0)
    }

    /// The source word read as a copy source.
    pub open spec fn as_copy_spec(self) -> CopySource {
        CopySource(self.0)
    }

    /// The source word read as a truth table source.
    pub fn as_table(&self) -> (r: TruthTableSource)
        ensures
            r == self.as_table_spec(),
    {
        TruthTableSource(self.0)
    }

    /// The source word read as a copy source.
    pub fn as_copy(&self) -> (r: CopySource)
        ensures
            r == self.as_copy_spec(),
    {
        CopySource(self.0)
    }
}

/// The word of a source after its address (copy) or first input (table) moved by `offset`.
pub open spec fn shifted_source_word(word: u64, offset: u32) -> u64 {
    let ty = source_ty_of(word);
    if ty == 1 {
        (word & !0xFFFF_FFFFu64) | ((CopySource(word).spec_addr() + offset) as u32 as u64)
    } else if ty == 2 {
        (word & !0xFFFF_FFFFu64) | ((TruthTableSource(word).spec_inputs() + offset) as u32 as u64)
    } else {
        word
    }
}

/// A region of consecutive node addresses, from `min` up to (not including) `max`.
#[derive(Debug)]
pub struct NodeRegion {
    pub min: NodeAddr,
    pub max: NodeAddr,
}

impl Default for NodeRegion {
    fn default() -> (r: NodeRegion)
        ensures
            r.min.0 == 0,
            r.max.0 == 0,
    {
        NodeRegion { min: NodeAddr(0), max: NodeAddr(0) }
    }
}

impl Clone for NodeRegion {
    fn clone(&self) -> (r: NodeRegion)
        ensures
            r == *self,
    {
        NodeRegion { min: self.min, max: self.max }
    }
}

impl NodeRegion {
    /// Whether an address relative to the region can be mapped without overflow.
    pub open spec fn can_map(self, addr: u32) -> bool {
        addr + self.min.0 <= u32::MAX
    }

    /// Whether the address a source refers to can be mapped without overflow.
    pub open spec fn can_map_src(self, src: Source) -> bool {
        &&& src.spec_ty() == 1 ==> self.can_map(src.as_copy_spec().spec_addr())
        &&& src.spec_ty() == 2 ==> self.can_map(src.as_table_spec().spec_inputs())
    }

    /// Maps an address relative to the region into the simulation: `addr + min`.
    pub fn map(&self, addr: NodeAddr) -> (r: NodeAddr)
        requires
            self.can_map(addr.0),
        ensures
            r.0 == addr.0 + self.min.0,
    {
        NodeAddr(addr.0 + self.min.0)
    }

    /// Maps the address a source refers to (the node a copy source reads, or the
    /// first input of a table source) into the region; a source of another kind
    /// is returned as it is.
    pub fn map_src(&self, src: Source) -> (r: Source)
        requires
            self.can_map_src(src),
        ensures
            r.0 == shifted_source_word(src.0, self.min.0),
            r.spec_ty() == src.spec_ty(),
            src.spec_ty() == 1 ==> r.as_copy_spec().spec_addr() == src.as_copy_spec().spec_addr()
                + self.min.0 && r.as_copy_spec().spec_high() == src.as_copy_spec().spec_high(),
            src.spec_ty() == 2 ==> r.as_table_spec().spec_inputs() == src.as_table_spec().spec_inputs()
                + self.min.0 && r.as_table_spec().spec_id() == src.as_table_spec().spec_id()
                && r.as_table_spec().spec_output() == src.as_table_spec().spec_output()
                && r.as_table_spec().spec_high() == src.as_table_spec().spec_high(),
            src.spec_ty() != 1 && src.spec_ty() != 2 ==> r == src,
    {
        let mut src = src;
        let w = src.0;
        if src.ty().0 == 1 {
            let mut copy = src.as_copy();
            let a = self.map(copy.addr());
            copy.set_addr(a);
            let n: u32 = a.0;
            assert(((w & !0xFFFF_FFFFu64) | (n as u64)) & 0x00FF_0000_0000_0000u64 == w
                & 0x00FF_0000_0000_0000u64) by (bit_vector);
            assert(copy.0 == (w & !0xFFFF_FFFFu64) | (n as u64)) by {
                let c = copy.0;
                assert((c & 0xFFFF_FFFFu64) as u32 == n && c >> 32u64 == w >> 32u64 ==> c == ((w
                    & !0xFFFF_FFFFu64) | (n as u64))) by (bit_vector);
            }
            src = Source(copy.0);
        }
        if src.ty().0 == 2 {
            let mut table = src.as_table();
            let a = self.map(table.inputs());
            table.set_inputs(a);
            let n: u32 = a.0;
            assert(((w & !0xFFFF_FFFFu64) | (n as u64)) & 0x00FF_0000_0000_0000u64 == w
                & 0x00FF_0000_0000_0000u64) by (bit_vector);
            assert(table.0 == (w & !0xFFFF_FFFFu64) | (n as u64)) by {
                let c = table.0;
                assert(c as u32 == n && ((c >> 32u64) & 0xFFu64) as u8 == ((w >> 32u64) & 0xFFu64)
                    as u8 && ((c >> 40u64) & 0xFFu64) as u8 == ((w >> 40u64) & 0xFFu64) as u8 && c
                    >> 48u64 == w >> 48u64 ==> c == ((w & !0xFFFF_FFFFu64) | (n as u64)))
                    by (bit_vector);
            }
            src = Source(table.0);
        }
        src
    }

    /// The node with its source mapped by `map_src` and its state kept.
    pub open spec fn map_node_spec(self, node: Node) -> Node {
        Node((node.0 & 0xFF00_0000_0000_0000u64) | (shifted_source_word(node.0, self.min.0) & LOW56))
    }

    /// Maps the source of a node into the region, keeping its state.
    pub fn map_node(&self, node: Node) -> (r: Node)
        requires
            self.can_map_src(Source(node.0)),
        ensures
            r == self.map_node_spec(node),
            r.spec_state() == node.spec_state(),
            r.spec_source_bits() == self.map_src_spec_bits(Source(node.0)),
    {
        let mut node = node;
        let src = self.map_src(node.source());
        node.set_source(src);
        node
    }

    /// The low 56 bits of a mapped source.
    pub open spec fn map_src_spec_bits(self, src: Source) -> u64 {
        shifted_source_word(src.0, self.min.0) & LOW56
    }
}

/// A truth table: output word `map[i]` for each input word `i`; bit `k` of an
/// output word is the state of output `k`.
#[derive(Debug)]
pub struct TruthTable {
    pub num_inputs: u8,
    pub num_outputs: u8,
    pub name: String,
    pub map: Vec<u64>,
}

impl Clone for TruthTable {
    fn clone(&self) -> (r: TruthTable)
        ensures
            r.num_inputs == self.num_inputs,
            r.num_outputs == self.num_outputs,
            r.name == self.name,
            r.map@ == self.map@,
    {
        TruthTable {
            num_inputs: self.num_inputs,
            num_outputs: self.num_outputs,
            name: self.name.clone(),
            map: self.map.clone(),
        }
    }
}

impl Default for TruthTable {
    fn default() -> (r: TruthTable)
        ensures
            r.num_inputs == 0,
            r.num_outputs == 0,
            r.name@ == Seq::<char>::empty(),
            r.map@ == Seq::<u64>::empty(),
    {
        TruthTable { num_inputs: 0, num_outputs: 0, name: String::new(), map: Vec::new() }
    }
}

/// The input word of a truth table whose `n` inputs are the consecutive nodes
/// from `start`: the bitwise or of each input's state shifted left by the
/// input's position.
pub open spec fn input_word(nodes: Seq<Node>, start: int, n: nat) -> u32
    decreases n,
{
    if n == 0 {
        0
    } else {
        input_word(nodes, start, (n - 1) as nat) | ((nodes[start + n - 1].spec_state() as u32) << ((
        n - 1) as u32))
    }
}

/// Bit `k` of an output word.
pub open spec fn output_bit(word: u64, k: u64) -> bool {
    (word >> k) & 1 == 1
}

/// Whether the simulation can compute the next state of `node`: its source is
/// of no kind, a copy of an existing node, or an output below 64 of an existing
/// table whose (at most 32) inputs exist and whose input word indexes its map.
pub open spec fn can_step_node(nodes: Seq<Node>, tables: Seq<TruthTable>, node: Node) -> bool {
    let src = Source(node.0);
    let ty = src.spec_ty();
    ||| ty == 0
    ||| ty == 1 && src.as_copy_spec().spec_addr() < nodes.len()
    ||| ty == 2 && {
        let t = src.as_table_spec();
        &&& t.spec_id() < tables.len()
        &&& tables[t.spec_id() as int].num_inputs <= 32
        &&& t.spec_inputs() + tables[t.spec_id() as int].num_inputs <= nodes.len()
        &&& t.spec_output() < 64
        &&& input_word(nodes, t.spec_inputs() as int, tables[t.spec_id() as int].num_inputs as nat)
            < tables[t.spec_id() as int].map@.len()
    }
}

/// The state `node` takes in the next step of a simulation whose nodes are
/// `nodes`: with no source it keeps its state; a copy takes the state of the
/// node it reads; a table output is 1 when bit `output` of the table's output
/// word for the current input word is set, else 0.
pub open spec fn next_state(nodes: Seq<Node>, tables: Seq<TruthTable>, node: Node) -> u8 {
    let src = Source(node.0);
    let ty = src.spec_ty();
    if ty == 1 {
        nodes[src.as_copy_spec().spec_addr() as int].spec_state()
    } else if ty == 2 {
        let t = src.as_table_spec();
        let table = tables[t.spec_id() as int];
        let word = table.map@[input_word(nodes, t.spec_inputs() as int, table.num_inputs as nat) as int];
        if output_bit(word, t.spec_output() as u64) {
            1
        } else {
            0
        }
    } else {
        node.spec_state()
    }
}

/// A simulation: a flat list of nodes and the first address not yet allocated.
#[derive(Debug)]
pub struct Sim {
    pub nodes: Vec<Node>,
    pub next_region: u32,
}

impl Clone for Sim {
    fn clone(&self) -> (r: Sim)
        ensures
            r.nodes@ == self.nodes@,
            r.next_region == self.next_region,
    {
        let nodes = self.nodes.clone();
        assert(nodes@ =~= self.nodes@);
        Sim { nodes, next_region: self.next_region }
    }
}

impl Default for Sim {
    fn default() -> (r: Sim)
        ensures
            r.nodes@.len() == 1,
            r.nodes@[0].0 == 0,
            r.next_region == 1,
    {
        Sim { nodes: vec![Node(0)], next_region: 1 }
    }
}

impl Sim {
    /// Whether every node of the simulation can take a step with `tables`.
    pub open spec fn can_step(self, tables: Seq<TruthTable>) -> bool {
        forall|i: int| 0 <= i < self.nodes@.len() ==> can_step_node(self.nodes@, tables, #[trigger] self.nodes@[i])
    }

    /// Empties the simulation: one zero node, next region at 1.
    pub fn clear(&mut self)
        ensures
            final(self).nodes@.len() == 1,
            final(self).nodes@[0].0 == 0,
            final(self).next_region == 1,
    {
        self.nodes = vec![Node(0)];
        self.next_region = 1;
    }

    /// Replaces the source of the node at `addr`, keeping its state.
    pub fn set_node_src(&mut self, addr: NodeAddr, src: Source)
        requires
            addr.0 < old(self).nodes@.len(),
        ensures
            final(self).nodes@.len() == old(self).nodes@.len(),
            final(self).next_region == old(self).next_region,
            final(self).nodes@[addr.0 as int].spec_state() == old(self).nodes@[addr.0 as int].spec_state(),
            final(self).nodes@[addr.0 as int].spec_source_bits() == src.0 & LOW56,
            forall|i: int| 0 <= i < final(self).nodes@.len() && i != addr.0 ==> #[trigger] final(self).nodes@[i] == old(self).nodes@[i],
    {
        self.nodes[addr.0 as usize].set_source(src);
    }

    /// Replaces the node at `addr`.
    pub fn set_node(&mut self, addr: NodeAddr, node: Node)
        requires
            addr.0 < old(self).nodes@.len(),
        ensures
            final(self).nodes@ == old(self).nodes@.update(addr.0 as int, node),
            final(self).next_region == old(self).next_region,
    {
        self.nodes[addr.0 as usize] = node;
    }

    /// The node at `addr`, or a zero node when there is none.
    pub fn get_node(&self, addr: NodeAddr) -> (r: Node)
        ensures
            r == (if addr.0 < self.nodes@.len() { self.nodes@[addr.0 as int] } else { Node(0) }),
    {
        if (addr.0 as usize) < self.nodes.len() {
            self.nodes[addr.0 as usize]
        } else {
            Node(0)
        }
    }

    /// The node at `addr`, to be changed in place.
    pub fn mut_node(&mut self, addr: NodeAddr) -> (r: &mut Node)
        requires
            addr.0 < old(self).nodes@.len(),
        ensures
            *r == old(self).nodes@[addr.0 as int],
            final(self).nodes@ == old(self).nodes@.update(addr.0 as int, *final(r)),
            final(self).next_region == old(self).next_region,
    {
        &mut self.nodes[addr.0 as usize]
    }

    /// Allocates one node: the first node of a region of size 1.
    pub fn alloc_node(&mut self) -> (r: NodeAddr)
        requires
            old(self).next_region < u32::MAX,
        ensures
            r.0 == old(self).next_region,
            final(self).next_region == old(self).next_region + 1,
            final(self).nodes@.len() == old(self).next_region + 1,
            forall|i: int| 0 <= i < final(self).nodes@.len() ==> #[trigger] final(self).nodes@[i] == (if i < old(self).nodes@.len() { old(self).nodes@[i] } else { Node(0) }),
    {
        self.alloc_region(1).min
    }

    /// Allocates a region of `size` nodes from the next free address, and
    /// resizes the node list to end with it (new nodes are zero; a longer list is
    /// cut back).
    pub fn alloc_region(&mut self, size: u32) -> (r: NodeRegion)
        requires
            old(self).next_region + size <= u32::MAX,
        ensures
            r.min.0 == old(self).next_region,
            r.max.0 == old(self).next_region + size,
            final(self).next_region == old(self).next_region + size,
            final(self).nodes@.len() == r.max.0,
            forall|i: int| 0 <= i < final(self).nodes@.len() ==> #[trigger] final(self).nodes@[i] == (if i < old(self).nodes@.len() { old(self).nodes@[i] } else { Node(0) }),
    {
        let min = self.next_region;
        let max = min + size;
        let ghost old_nodes = self.nodes@;
        let target = max as usize;
        if target <= self.nodes.len() {
            self.nodes.truncate(target);
        } else {
            while self.nodes.len() < target
                invariant
                    old_nodes.len() <= self.nodes@.len() <= target,
                    forall|i: int| 0 <= i < self.nodes@.len() ==> #[trigger] self.nodes@[i] == (if i < old_nodes.len() { old_nodes[i] } else { Node(0) }),
                decreases target - self.nodes@.len(),
            {
                self.nodes.push(Node(0));
            }
        }
        self.next_region = max;
        NodeRegion { min: NodeAddr(min), max: NodeAddr(max) }
    }

    /// Computes the input word of a truth table with `n` inputs from `start`.
    fn input_word_of(nodes: &[Node], start: usize, n: u8) -> (r: u32)
        requires
            n <= 32,
            start + n <= nodes@.len(),
        ensures
            r == input_word(nodes@, start as int, n as nat),
    {
        let len = nodes.len();
        let mut input: u32 = 0;
        let mut idx: u8 = 0;
        while idx < n
            invariant
                idx <= n <= 32,
                start + n <= nodes@.len(),
                len == nodes@.len(),
                input == input_word(nodes@, start as int, idx as nat),
            decreases n - idx,
        {
            let st = nodes[start + idx as usize].state();
            input = input | ((st as u32) << (idx as u32));
            idx = idx + 1;
        }
        input
    }

    /// Whether `node` can take a step.
    fn can_step_node_exec(node: Node, nodes: &[Node], tables: &[TruthTable]) -> (r: bool)
        ensures
            r == can_step_node(nodes@, tables@, node),
    {
        let src = node.source();
        let ty = src.ty();
        if ty.0 == 0 {
            true
        } else if ty.0 == 1 {
            (src.as_copy().addr().0 as usize) < nodes.len()
        } else if ty.0 == 2 {
            let t = src.as_table();
            let id = t.id().0 as usize;
            if id >= tables.len() {
                return false;
            }
            let table = &tables[id];
            if table.num_inputs > 32 {
                return false;
            }
            if t.inputs().0 as u64 + table.num_inputs as u64 > nodes.len() as u64 {
                return false;
            }
            if t.output() >= 64 {
                return false;
            }
            let input = Self::input_word_of(nodes, t.inputs().0 as usize, table.num_inputs);
            (input as usize) < table.map.len()
        } else {
            false
        }
    }

    /// Whether every node can take a step with `tables` (the condition of `update`).
    pub fn can_update(&self, tables: &[TruthTable]) -> (r: bool)
        ensures
            r == self.can_step(tables@),
    {
        let mut i: usize = 0;
        while i < self.nodes.len()
            invariant
                i <= self.nodes@.len(),
                forall|j: int| 0 <= j < i ==> can_step_node(self.nodes@, tables@, #[trigger] self.nodes@[j]),
            decreases self.nodes@.len() - i,
        {
            if !Self::can_step_node_exec(self.nodes[i], self.nodes.as_slice(), tables) {
                return false;
            }
            i = i + 1;
        }
        true
    }

    /// Writes the next state of `node` into `out`.
    fn update_node(node: Node, out: &mut Node, nodes: &[Node], tables: &[TruthTable])
        requires
            can_step_node(nodes@, tables@, node),
        ensures
            Source(node.0).spec_ty() == 0 ==> *final(out) == *old(out),
            Source(node.0).spec_ty() != 0 ==> final(out).spec_state() == next_state(nodes@, tables@, node)
                && final(out).spec_source_bits() == old(out).spec_source_bits(),
    {
        let src = node.source();
        let ty = src.ty();
        if ty.0 == 0 {
        } else if ty.0 == 1 {
            let a = src.as_copy().addr();
            out.set_state(nodes[a.0 as usize].state());
        } else {
            let table_src = src.as_table();
            let table = &tables[table_src.id().0 as usize];
            let input = Self::input_word_of(nodes, table_src.inputs().0 as usize, table.num_inputs);
            let output = table.map[input as usize];
            let x = table_src.output() as u64;
            let sel_output = ((output & (1u64 << x)) >> x) != 0;
            assert(sel_output == output_bit(output, x)) by {
                assert(x < 64 ==> ((((output & (1u64 << x)) >> x) != 0) == (((output >> x) & 1) == 1)))
                    by (bit_vector);
            }
            out.set_state(if sel_output { 1u8 } else { 0u8 });
        }
    }

    /// Advances the simulation by one synchronous step: every node takes its
    /// next state computed from the states before the step; sources do not change.
    pub fn update(&mut self, tables: &[TruthTable])
        requires
            old(self).can_step(tables@),
        ensures
            final(self).next_region == old(self).next_region,
            final(self).nodes@.len() == old(self).nodes@.len(),
            forall|i: int| 0 <= i < final(self).nodes@.len() ==> (#[trigger] final(self).nodes@[i]).spec_state() == next_state(old(self).nodes@, tables@, old(self).nodes@[i]),
            forall|i: int| 0 <= i < final(self).nodes@.len() ==> (#[trigger] final(self).nodes@[i]).spec_source_bits() == old(self).nodes@[i].spec_source_bits(),
    {
        let mut new_nodes: Vec<Node> = Vec::with_capacity(self.nodes.len());
        let mut idx: usize = 0;
        while idx < self.nodes.len()
            invariant
                idx <= self.nodes@.len(),
                self.can_step(tables@),
                new_nodes@.len() == idx,
                forall|i: int| 0 <= i < idx ==> (#[trigger] new_nodes@[i]).spec_state() == next_state(self.nodes@, tables@, self.nodes@[i]),
                forall|i: int| 0 <= i < idx ==> (#[trigger] new_nodes@[i]).spec_source_bits() == self.nodes@[i].spec_source_bits(),
            decreases self.nodes@.len() - idx,
        {
            let node = self.nodes[idx];
            let mut out = node;
            Self::update_node(node, &mut out, self.nodes.as_slice(), tables);
            new_nodes.push(out);
            idx = idx + 1;
        }
        self.nodes = new_nodes;
    }
}

/// The number whose binary digit `i` is the state of node `start + i`, for the
/// `n` nodes from `start`.
pub open spec fn binary_value(nodes: Seq<Node>, start: int, n: nat) -> nat
    decreases n,
{
    if n == 0 {
        0
    } else {
        binary_value(nodes, start, (n - 1) as nat) + (nodes[start + n - 1].spec_state() as nat)
            * vstd::arithmetic::power2::pow2((n - 1) as nat)
    }
}

/// When each of the (at most 32) input nodes of a truth table is 0 or 1, the
/// input word is the number they spell in binary, input 0 the lowest digit.
pub proof fn lemma_input_word_is_binary(nodes: Seq<Node>, start: int, n: nat)
    requires
        n <= 32,
        0 <= start,
        start + n <= nodes.len(),
        forall|i: int| start <= i < start + n ==> #[trigger] nodes[i].spec_state() <= 1,
    ensures
        input_word(nodes, start, n) == binary_value(nodes, start, n),
        binary_value(nodes, start, n) < vstd::arithmetic::power2::pow2(n),
    decreases n,
{
    if n == 0 {
        vstd::arithmetic::power2::lemma2_to64();
    } else {
        vstd::arithmetic::power2::lemma_pow2_unfold(n);
        lemma_input_word_is_binary(nodes, start, (n - 1) as nat);
        let x: u32 = input_word(nodes, start, (n - 1) as nat);
        let s: u32 = nodes[start + n - 1].spec_state() as u32;
        let k: u32 = (n - 1) as u32;
        assert(s <= 1);
        vstd::arithmetic::power2::lemma_pow2_pos(k as nat);
        vstd::bits::lemma_u32_pow2_no_overflow(k as nat);
        let p = vstd::arithmetic::power2::pow2(k as nat);
        assert(s * p <= p) by (nonlinear_arith)
            requires
                s <= 1,
                p >= 0,
        ;
        assert(1u32 * p == p);
        vstd::bits::lemma_u32_shl_is_mul(1u32, k);
        vstd::bits::lemma_u32_shl_is_mul(s, k);
        assert(x < (1u32 << k));
        assert(x | (s << k) == x + (s << k)) by (bit_vector)
            requires
                x < (1u32 << k),
                s <= 1,
                k < 32,
        ;
    }
}

/// Toggling a node's state twice gives its state back (a toggle maps a state
/// `s` to `1 - s` modulo 256).
pub proof fn lemma_toggle_twice(s: u8)
    ensures
        (257 - ((257 - s) % 256) as u8) % 256 == s,
{
}

/// Reading a node after setting it gives the node that was set; the other
/// nodes read as before.
pub proof fn lemma_get_after_set(nodes: Seq<Node>, addr: NodeAddr, node: Node, other: NodeAddr)
    requires
        addr.0 < nodes.len(),
    ensures
        ({
            let after = nodes.update(addr.0 as int, node);
            &&& (if addr.0 < after.len() { after[addr.0 as int] } else { Node(0) }) == node
            &&& other != addr ==> (if other.0 < after.len() { after[other.0 as int] } else { Node(0) })
                == (if other.0 < nodes.len() { nodes[other.0 as int] } else { Node(0) })
        }),
{
}

} // verus!
