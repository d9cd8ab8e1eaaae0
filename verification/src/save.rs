use vstd::prelude::*;

use crate::geom::Vec2Bits;
use crate::graphics::{rgba_word, Color};
use crate::scene::{self, Rotation, Scene};
use crate::sim::{self, Node, NodeAddr, NodeRegion, Source, TruthTable, TruthTableId};
use crate::Id;

verus! {

/// Whether a node of a chip is an input or an output.
#[derive(Clone, Copy, PartialEq, Eq, Debug, Structural)]
pub enum IoType {
    Input,
    Output,
}

/// Specifies either sequential logic or combinational logic.
#[derive(Clone, Copy, PartialEq, Eq, Debug, Structural)]
pub enum Logic {
    Sequential,
    Combinational,
}

impl Logic {
    /// The other kind of logic.
    pub open spec fn spec_cycle(self) -> Logic {
        match self {
            Logic::Sequential => Logic::Combinational,
            Logic::Combinational => Logic::Sequential,
        }
    }

    /// The other kind of logic.
    pub fn cycle(self) -> (r: Logic)
        ensures
            r == self.spec_cycle(),
    {
        match self {
            Logic::Sequential => Logic::Combinational,
            Logic::Combinational => Logic::Sequential,
        }
    }

    /// Switches to the other kind of logic.
    pub fn cycle_in_place(&mut self)
        ensures
            *final(self) == old(self).spec_cycle(),
    {
        *self = (*self).cycle();
    }
}

/// Cycling the kind of logic twice gives it back.
pub proof fn lemma_cycle_twice(l: Logic)
    ensures
        l.spec_cycle().spec_cycle() == l,
{
}

/// The name, category and kind of logic of a chip.
#[derive(Debug)]
pub struct ChipAttrs {
    pub name: String,
    pub category: String,
    pub logic: Logic,
}

impl Clone for ChipAttrs {
    fn clone(&self) -> (r: ChipAttrs)
        ensures
            r == *self,
    {
        ChipAttrs { name: self.name.clone(), category: self.category.clone(), logic: self.logic }
    }
}

impl Default for ChipAttrs {
    /// A combinational chip named "New Chip" in the category "Basic".
    fn default() -> (r: ChipAttrs)
        ensures
            r.name@ == "New Chip"@,
            r.category@ == "Basic"@,
            r.logic == Logic::Combinational,
    {
        ChipAttrs {
            name: String::from_str("New Chip"),
            category: String::from_str("Basic"),
            logic: Logic::Combinational,
        }
    }
}

/// Whether two string slices hold the same characters, compared by their
/// UTF-8 bytes: the encoding is one to one, so equal bytes mean equal text.
pub(crate) fn str_eq(a: &str, b: &str) -> (r: bool)
    ensures
        r == (a@ == b@),
{
    let x = a.as_bytes();
    let y = b.as_bytes();
    proof {
        vstd::utf8::encode_utf8_decode_utf8(a@);
        vstd::utf8::encode_utf8_decode_utf8(b@);
    }
    if x.len() != y.len() {
        return false;
    }
    let mut i: usize = 0;
    while i < x.len()
        invariant
            i <= x@.len(),
            x@.len() == y@.len(),
            x@ == vstd::utf8::encode_utf8(a@),
            y@ == vstd::utf8::encode_utf8(b@),
            forall|k: int| 0 <= k < i ==> x@[k] == y@[k],
        decreases x@.len() - i,
    {
        if x[i] != y[i] {
            return false;
        }
        i = i + 1;
    }
    assert(x@ =~= y@);
    true
}

/// The contents of chip attributes.
pub ghost struct ChipAttrsView {
    pub name: Seq<char>,
    pub category: Seq<char>,
    pub logic: Logic,
}

impl View for ChipAttrs {
    type V = ChipAttrsView;

    open spec fn view(&self) -> ChipAttrsView {
        ChipAttrsView { name: self.name@, category: self.category@, logic: self.logic }
    }
}

/// The contents of a truth table.
pub ghost struct TruthTableView {
    pub num_inputs: u8,
    pub num_outputs: u8,
    pub name: Seq<char>,
    pub map: Seq<u64>,
}

/// The contents of a truth table.
pub open spec fn table_view(t: TruthTable) -> TruthTableView {
    TruthTableView { num_inputs: t.num_inputs, num_outputs: t.num_outputs, name: t.name@, map: t.map@ }
}

/// The contents of the default truth table: no inputs or outputs, no name, an empty map.
pub open spec fn empty_table_view() -> TruthTableView {
    TruthTableView { num_inputs: 0, num_outputs: 0, name: Seq::empty(), map: Seq::empty() }
}

/// A chip saved in a library.
#[derive(Debug)]
pub struct ChipSave {
    pub builtin: bool,
    pub region_size: u32,
    pub attrs: ChipAttrs,
    pub scene: Option<Scene>,
    pub l_nodes: Vec<(String, NodeAddr, Node)>,
    pub r_nodes: Vec<(String, NodeAddr, Node)>,
    pub inner_nodes: Vec<(NodeAddr, Node)>,
}

/// The contents of a saved chip.
pub ghost struct ChipSaveView {
    pub builtin: bool,
    pub region_size: u32,
    pub attrs: ChipAttrsView,
    pub scene: Option<scene::SceneView>,
    pub l_nodes: Seq<(Seq<char>, NodeAddr, Node)>,
    pub r_nodes: Seq<(Seq<char>, NodeAddr, Node)>,
    pub inner_nodes: Seq<(NodeAddr, Node)>,
}

/// The contents of a list of named nodes.
pub open spec fn named_nodes_view(v: Seq<(String, NodeAddr, Node)>) -> Seq<(Seq<char>, NodeAddr, Node)> {
    v.map_values(|e: (String, NodeAddr, Node)| (e.0@, e.1, e.2))
}

impl View for ChipSave {
    type V = ChipSaveView;

    open spec fn view(&self) -> ChipSaveView {
        ChipSaveView {
            builtin: self.builtin,
            region_size: self.region_size,
            attrs: self.attrs@,
            scene: match self.scene {
                Some(s) => Some(s@),
                None => None,
            },
            l_nodes: named_nodes_view(self.l_nodes@),
            r_nodes: named_nodes_view(self.r_nodes@),
            inner_nodes: self.inner_nodes@,
        }
    }
}

/// A copy of a list of named nodes.
fn clone_named_nodes(v: &Vec<(String, NodeAddr, Node)>) -> (r: Vec<(String, NodeAddr, Node)>)
    ensures
        r@ == v@,
{
    let mut out: Vec<(String, NodeAddr, Node)> = Vec::new();
    let mut i: usize = 0;
    while i < v.len()
        invariant
            i <= v@.len(),
            out@ == v@.subrange(0, i as int),
        decreases v@.len() - i,
    {
        out.push((v[i].0.clone(), v[i].1, v[i].2));
        i = i + 1;
        assert(out@ =~= v@.subrange(0, i as int));
    }
    assert(v@.subrange(0, i as int) =~= v@);
    out
}

impl Clone for ChipSave {
    fn clone(&self) -> (r: ChipSave)
        ensures
            r@ == self@,
    {
        let scene = match &self.scene {
            Some(s) => Some(s.clone()),
            None => None,
        };
        let inner = scene::clone_plain(&self.inner_nodes);
        ChipSave {
            builtin: self.builtin,
            region_size: self.region_size,
            attrs: self.attrs.clone(),
            scene,
            l_nodes: clone_named_nodes(&self.l_nodes),
            r_nodes: clone_named_nodes(&self.r_nodes),
            inner_nodes: inner,
        }
    }
}

/// The node with state 0 whose source reads output `out` of table `id` from
/// the inputs starting at address 0.
pub open spec fn table_output_node(id: u8, out: u8) -> Node {
    Node((2u64 << 48u64) | ((id as u64) << 40u64) | ((out as u64) << 32u64))
}

/// The contents of the chip `create_basic_chip` builds: a builtin,
/// combinational chip in the category "Basic" whose left nodes are the inputs,
/// at addresses from 0, and whose right nodes, after them, read the outputs of
/// table `table_id` in order.
pub open spec fn basic_chip_view(
    table_id: u8,
    name: Seq<char>,
    inputs: Seq<Seq<char>>,
    outputs: Seq<Seq<char>>,
) -> ChipSaveView {
    ChipSaveView {
        builtin: true,
        region_size: (inputs.len() + outputs.len()) as u32,
        attrs: ChipAttrsView { name: name, category: "Basic"@, logic: Logic::Combinational },
        scene: None,
        l_nodes: Seq::new(inputs.len(), |i: int| (inputs[i], NodeAddr(i as u32), Node(0))),
        r_nodes: Seq::new(
            outputs.len(),
            |i: int| (outputs[i], NodeAddr((i + inputs.len()) as u32), table_output_node(table_id, i as u8)),
        ),
        inner_nodes: Seq::empty(),
    }
}

/// The contents of the table `create_basic_chip` builds.
pub open spec fn basic_table_view(name: Seq<char>, inputs: Seq<Seq<char>>, outputs: Seq<Seq<char>>, map: Seq<u64>) -> TruthTableView {
    TruthTableView {
        num_inputs: #[verifier::truncate] (inputs.len() as u8),
        num_outputs: #[verifier::truncate] (outputs.len() as u8),
        name: name,
        map: map,
    }
}

/// The characters of each string slice.
pub open spec fn strs_view(v: Seq<&str>) -> Seq<Seq<char>> {
    v.map_values(|s: &str| s@)
}

/// Builds a truth table with the given inputs, outputs and map, and a builtin
/// chip whose output nodes read it as table `table_id`.
pub fn create_basic_chip(
    table_id: TruthTableId,
    name: &str,
    inputs: &[&str],
    outputs: &[&str],
    map: Vec<u64>,
) -> (r: (TruthTable, ChipSave))
    requires
        inputs@.len() + outputs@.len() <= u32::MAX,
    ensures
        table_view(r.0) == basic_table_view(name@, strs_view(inputs@), strs_view(outputs@), map@),
        r.1@ == basic_chip_view(table_id.0, name@, strs_view(inputs@), strs_view(outputs@)),
{
    let table = TruthTable {
        num_inputs: #[verifier::truncate] (inputs.len() as u8),
        num_outputs: #[verifier::truncate] (outputs.len() as u8),
        name: String::from_str(name),
        map,
    };
    let mut l_nodes: Vec<(String, NodeAddr, Node)> = Vec::new();
    let mut idx: usize = 0;
    while idx < inputs.len()
        invariant
            idx <= inputs@.len(),
            inputs@.len() + outputs@.len() <= u32::MAX,
            named_nodes_view(l_nodes@) == basic_chip_view(table_id.0, name@, strs_view(inputs@), strs_view(outputs@)).l_nodes.subrange(0, idx as int),
        decreases inputs@.len() - idx,
    {
        let nm = String::from_str(inputs[idx]);
        let z = Node::zero();
        assert(z == Node(0));
        assert(strs_view(inputs@)[idx as int] == inputs@[idx as int]@);
        let ghost prev = l_nodes@;
        assert(named_nodes_view(prev).len() == idx);
        l_nodes.push((nm, NodeAddr(idx as u32), z));
        proof {
            let b = basic_chip_view(table_id.0, name@, strs_view(inputs@), strs_view(outputs@)).l_nodes;
            assert(l_nodes@.len() == idx + 1);
            assert(l_nodes@[idx as int].0@ == inputs@[idx as int]@);
            assert(named_nodes_view(l_nodes@)[idx as int].0 == inputs@[idx as int]@);
            assert(b[idx as int].0 == inputs@[idx as int]@);
            assert(named_nodes_view(l_nodes@)[idx as int] == b[idx as int]);
        }
        idx = idx + 1;
        assert(named_nodes_view(l_nodes@) =~= basic_chip_view(table_id.0, name@, strs_view(inputs@), strs_view(outputs@)).l_nodes.subrange(0, idx as int));
    }
    let mut r_nodes: Vec<(String, NodeAddr, Node)> = Vec::new();
    let mut idx: usize = 0;
    while idx < outputs.len()
        invariant
            idx <= outputs@.len(),
            inputs@.len() + outputs@.len() <= u32::MAX,
            named_nodes_view(r_nodes@) == basic_chip_view(table_id.0, name@, strs_view(inputs@), strs_view(outputs@)).r_nodes.subrange(0, idx as int),
        decreases outputs@.len() - idx,
    {
        let src = Source::new_table(sim::TruthTableSource::new(table_id, #[verifier::truncate] (idx as u8), NodeAddr(0)));
        let node = Node::new(0, src);
        proof {
            let w = node.0;
            let i: u8 = table_id.0;
            let o: u8 = #[verifier::truncate] (idx as u8);
            let v = src.0;
            assert((w >> 56u64) as u8 == 0 && (w & 0x00FF_FFFF_FFFF_FFFFu64) == v & 0x00FF_FFFF_FFFF_FFFFu64
                ==> w == v & 0x00FF_FFFF_FFFF_FFFFu64) by (bit_vector);
            assert(((v & 0x00FF_0000_0000_0000u64) >> 48u64) as u8 == 2 && (((v >> 40u64) & 0xFFu64)
                as u8) == i && (((v >> 32u64) & 0xFFu64) as u8) == o && (v as u32) == 0u32 && v >> 56u64
                == 0 ==> v & 0x00FF_FFFF_FFFF_FFFFu64 == (2u64 << 48u64) | ((i as u64) << 40u64) | ((o
                as u64) << 32u64)) by (bit_vector);
            assert(node == table_output_node(table_id.0, idx as u8));
        }
        let nm = String::from_str(outputs[idx]);
        assert(strs_view(outputs@)[idx as int] == outputs@[idx as int]@);
        let ghost prev = r_nodes@;
        assert(named_nodes_view(prev).len() == idx);
        let addr = NodeAddr(idx as u32 + inputs.len() as u32);
        r_nodes.push((nm, addr, node));
        proof {
            let b = basic_chip_view(table_id.0, name@, strs_view(inputs@), strs_view(outputs@)).r_nodes;
            assert(r_nodes@.len() == idx + 1);
            assert(r_nodes@[idx as int].0@ == outputs@[idx as int]@);
            assert(r_nodes@[idx as int].1 == addr);
            assert(r_nodes@[idx as int].2 == node);
            assert(named_nodes_view(r_nodes@)[idx as int].0 == outputs@[idx as int]@);
            assert(b[idx as int].0 == outputs@[idx as int]@);
            assert(b[idx as int].1 == NodeAddr((idx + inputs@.len()) as u32));
            assert(b[idx as int].2 == table_output_node(table_id.0, idx as u8));
            assert(named_nodes_view(r_nodes@)[idx as int] == b[idx as int]);
        }
        idx = idx + 1;
        assert(named_nodes_view(r_nodes@) =~= basic_chip_view(table_id.0, name@, strs_view(inputs@), strs_view(outputs@)).r_nodes.subrange(0, idx as int));
    }
    let chip = ChipSave {
        attrs: ChipAttrs {
            name: String::from_str(name),
            category: String::from_str("Basic"),
            logic: Logic::Combinational,
        },
        region_size: (inputs.len() + outputs.len()) as u32,
        builtin: true,
        scene: None,
        l_nodes,
        r_nodes,
        inner_nodes: Vec::new(),
    };
    assert(named_nodes_view(chip.l_nodes@) =~= basic_chip_view(table_id.0, name@, strs_view(inputs@), strs_view(outputs@)).l_nodes);
    assert(named_nodes_view(chip.r_nodes@) =~= basic_chip_view(table_id.0, name@, strs_view(inputs@), strs_view(outputs@)).r_nodes);
    assert(chip@.inner_nodes =~= Seq::<(NodeAddr, Node)>::empty());
    (table, chip)
}

/// A chip a new project can start with in its library.
#[derive(Clone, Copy, PartialEq, Eq, Debug, Structural)]
pub enum StartingChip {
    And,
    Not,
    Nand,
    Or,
    Nor,
    Xor,
    HalfAdder,
    Adder,
}

impl StartingChip {
    /// The number of starting chips.
    pub const COUNT: u8 = 8;

    /// The position of the chip in the list of starting chips.
    pub open spec fn ordinal(self) -> u8 {
        match self {
            StartingChip::And => 0,
            StartingChip::Not => 1,
            StartingChip::Nand => 2,
            StartingChip::Or => 3,
            StartingChip::Nor => 4,
            StartingChip::Xor => 5,
            StartingChip::HalfAdder => 6,
            StartingChip::Adder => 7,
        }
    }

    /// The starting chip at position `v`, if there is one.
    pub fn from_u8(v: u8) -> (r: Option<StartingChip>)
        ensures
            r is Some <==> v < StartingChip::COUNT,
            r matches Some(c) ==> c.ordinal() == v,
    {
        match v {
            0 => Some(StartingChip::And),
            1 => Some(StartingChip::Not),
            2 => Some(StartingChip::Nand),
            3 => Some(StartingChip::Or),
            4 => Some(StartingChip::Nor),
            5 => Some(StartingChip::Xor),
            6 => Some(StartingChip::HalfAdder),
            7 => Some(StartingChip::Adder),
            _ => None,
        }
    }

    /// The name of the chip.
    pub open spec fn spec_name(self) -> Seq<char> {
        match self {
            StartingChip::And => "And"@,
            StartingChip::Not => "Not"@,
            StartingChip::Nand => "Nand"@,
            StartingChip::Or => "Or"@,
            StartingChip::Nor => "Nor"@,
            StartingChip::Xor => "Xor"@,
            StartingChip::HalfAdder => "HalfAdder"@,
            StartingChip::Adder => "Adder"@,
        }
    }

    /// The names of the chip's inputs.
    pub open spec fn spec_inputs(self) -> Seq<Seq<char>> {
        match self {
            StartingChip::Not => seq!["in"@],
            StartingChip::Adder => seq!["a"@, "b"@, "cin"@],
            _ => seq!["a"@, "b"@],
        }
    }

    /// The names of the chip's outputs.
    pub open spec fn spec_outputs(self) -> Seq<Seq<char>> {
        match self {
            StartingChip::HalfAdder => seq!["sum"@, "cout"@],
            StartingChip::Adder => seq!["sum"@, "cout"@],
            _ => seq!["out"@],
        }
    }

    /// The map of the chip's truth table: the output word for each input word.
    pub open spec fn spec_map(self) -> Seq<u64> {
        match self {
            StartingChip::And => seq![0, 0, 0, 1],
            StartingChip::Not => seq![1, 0],
            StartingChip::Nand => seq![1, 1, 1, 0],
            StartingChip::Or => seq![0, 1, 1, 1],
            StartingChip::Nor => seq![1, 0, 0, 0],
            StartingChip::Xor => seq![0, 1, 1, 0],
            StartingChip::HalfAdder => seq![0b00, 0b01, 0b01, 0b10],
            StartingChip::Adder => seq![0b00, 0b01, 0b01, 0b10, 0b01, 0b10, 0b10, 0b11],
        }
    }
}

/// The contents of a library: its truth tables and its chips.
pub ghost struct LibraryView {
    pub tables: Seq<TruthTableView>,
    pub chips: Seq<ChipSaveView>,
}

/// The truth tables and the chips of a project.
#[derive(Debug)]
pub struct Library {
    pub tables: Vec<TruthTable>,
    pub chips: Vec<ChipSave>,
}

impl View for Library {
    type V = LibraryView;

    open spec fn view(&self) -> LibraryView {
        LibraryView {
            tables: self.tables@.map_values(|t: TruthTable| table_view(t)),
            chips: self.chips@.map_values(|c: ChipSave| c@),
        }
    }
}

impl Default for Library {
    /// An empty library.
    fn default() -> (r: Library)
        ensures
            r@.tables.len() == 0,
            r@.chips.len() == 0,
    {
        Library { tables: Vec::new(), chips: Vec::new() }
    }
}

/// A copy of a list of truth tables.
fn clone_tables(v: &Vec<TruthTable>) -> (r: Vec<TruthTable>)
    ensures
        r@.map_values(|t: TruthTable| table_view(t)) == v@.map_values(|t: TruthTable| table_view(t)),
{
    let mut out: Vec<TruthTable> = Vec::new();
    let mut i: usize = 0;
    while i < v.len()
        invariant
            i <= v@.len(),
            out@.len() == i,
            forall|j: int| 0 <= j < i ==> table_view(#[trigger] out@[j]) == table_view(v@[j]),
        decreases v@.len() - i,
    {
        out.push(v[i].clone());
        i = i + 1;
    }
    assert(out@.map_values(|t: TruthTable| table_view(t)) =~= v@.map_values(|t: TruthTable| table_view(t)));
    out
}

/// A copy of a list of saved chips.
fn clone_chips(v: &Vec<ChipSave>) -> (r: Vec<ChipSave>)
    ensures
        r@.map_values(|c: ChipSave| c@) == v@.map_values(|c: ChipSave| c@),
{
    let mut out: Vec<ChipSave> = Vec::new();
    let mut i: usize = 0;
    while i < v.len()
        invariant
            i <= v@.len(),
            out@.len() == i,
            forall|j: int| 0 <= j < i ==> (#[trigger] out@[j])@ == v@[j]@,
        decreases v@.len() - i,
    {
        out.push(v[i].clone());
        i = i + 1;
    }
    assert(out@.map_values(|c: ChipSave| c@) =~= v@.map_values(|c: ChipSave| c@));
    out
}

impl Clone for Library {
    fn clone(&self) -> (r: Library)
        ensures
            r@ == self@,
    {
        Library { tables: clone_tables(&self.tables), chips: clone_chips(&self.chips) }
    }
}

/// The library after a starting chip was added to `lib`: a table slot is
/// allocated at the end, the chip is appended, and the chip's table is written
/// at the slot the table id names (the id is the slot's index cut to 8 bits).
pub open spec fn with_starting_chip(lib: LibraryView, c: StartingChip) -> LibraryView {
    let id = #[verifier::truncate] (lib.tables.len() as u8);
    LibraryView {
        tables: lib.tables.push(empty_table_view()).update(
            id as int,
            basic_table_view(c.spec_name(), c.spec_inputs(), c.spec_outputs(), c.spec_map()),
        ),
        chips: lib.chips.push(basic_chip_view(id, c.spec_name(), c.spec_inputs(), c.spec_outputs())),
    }
}

impl Library {
    /// Appends `chip`.
    pub fn add_chip(&mut self, chip: ChipSave)
        ensures
            final(self)@.chips == old(self)@.chips.push(chip@),
            final(self)@.tables == old(self)@.tables,
    {
        self.chips.push(chip);
        assert(self@.chips =~= old(self)@.chips.push(chip@));
    }

    /// Appends an empty truth table and returns its id: its index, cut to 8 bits.
    pub fn allocate_table_empty(&mut self) -> (r: TruthTableId)
        ensures
            r.0 == #[verifier::truncate] (old(self)@.tables.len() as u8),
            final(self)@.tables == old(self)@.tables.push(empty_table_view()),
            final(self)@.chips == old(self)@.chips,
    {
        let id = TruthTableId(#[verifier::truncate] (self.tables.len() as u8));
        self.tables.push(TruthTable::default());
        assert(self@.tables =~= old(self)@.tables.push(empty_table_view()));
        id
    }
}

impl StartingChip {
    /// Adds the chip and its truth table to `library`.
    pub fn create(self, library: &mut Library)
        ensures
            final(library)@ == with_starting_chip(old(library)@, self),
    {
        let n0 = library.tables.len();
        let table_id = library.allocate_table_empty();
        let (table, chip) = match self {
            StartingChip::And => {
                let ins = ["a", "b"];
                let outs = ["out"];
                let map: Vec<u64> = vec![0, 0, 0, 1];
                assert(strs_view(ins@) =~= seq!["a"@, "b"@]);
                assert(strs_view(outs@) =~= seq!["out"@]);
                assert(map@ =~= seq![0, 0, 0, 1]);
                create_basic_chip(table_id, "And", &ins, &outs, map)
            },
            StartingChip::Not => {
                let ins = ["in"];
                let outs = ["out"];
                let map: Vec<u64> = vec![1, 0];
                assert(strs_view(ins@) =~= seq!["in"@]);
                assert(strs_view(outs@) =~= seq!["out"@]);
                assert(map@ =~= seq![1, 0]);
                create_basic_chip(table_id, "Not", &ins, &outs, map)
            },
            StartingChip::Nand => {
                let ins = ["a", "b"];
                let outs = ["out"];
                let map: Vec<u64> = vec![1, 1, 1, 0];
                assert(strs_view(ins@) =~= seq!["a"@, "b"@]);
                assert(strs_view(outs@) =~= seq!["out"@]);
                assert(map@ =~= seq![1, 1, 1, 0]);
                create_basic_chip(table_id, "Nand", &ins, &outs, map)
            },
            StartingChip::Or => {
                let ins = ["a", "b"];
                let outs = ["out"];
                let map: Vec<u64> = vec![0, 1, 1, 1];
                assert(strs_view(ins@) =~= seq!["a"@, "b"@]);
                assert(strs_view(outs@) =~= seq!["out"@]);
                assert(map@ =~= seq![0, 1, 1, 1]);
                create_basic_chip(table_id, "Or", &ins, &outs, map)
            },
            StartingChip::Nor => {
                let ins = ["a", "b"];
                let outs = ["out"];
                let map: Vec<u64> = vec![1, 0, 0, 0];
                assert(strs_view(ins@) =~= seq!["a"@, "b"@]);
                assert(strs_view(outs@) =~= seq!["out"@]);
                assert(map@ =~= seq![1, 0, 0, 0]);
                create_basic_chip(table_id, "Nor", &ins, &outs, map)
            },
            StartingChip::Xor => {
                let ins = ["a", "b"];
                let outs = ["out"];
                let map: Vec<u64> = vec![0, 1, 1, 0];
                assert(strs_view(ins@) =~= seq!["a"@, "b"@]);
                assert(strs_view(outs@) =~= seq!["out"@]);
                assert(map@ =~= seq![0, 1, 1, 0]);
                create_basic_chip(table_id, "Xor", &ins, &outs, map)
            },
            StartingChip::HalfAdder => {
                let ins = ["a", "b"];
                let outs = ["sum", "cout"];
                let map: Vec<u64> = vec![0b00, 0b01, 0b01, 0b10];
                assert(strs_view(ins@) =~= seq!["a"@, "b"@]);
                assert(strs_view(outs@) =~= seq!["sum"@, "cout"@]);
                assert(map@ =~= seq![0b00, 0b01, 0b01, 0b10]);
                create_basic_chip(table_id, "HalfAdder", &ins, &outs, map)
            },
            StartingChip::Adder => {
                let ins = ["a", "b", "cin"];
                let outs = ["sum", "cout"];
                let map: Vec<u64> = vec![0b00, 0b01, 0b01, 0b10, 0b01, 0b10, 0b10, 0b11];
                assert(strs_view(ins@) =~= seq!["a"@, "b"@, "cin"@]);
                assert(strs_view(outs@) =~= seq!["sum"@, "cout"@]);
                assert(map@ =~= seq![0b00, 0b01, 0b01, 0b10, 0b01, 0b10, 0b10, 0b11]);
                create_basic_chip(table_id, "Adder", &ins, &outs, map)
            },
        };
        library.add_chip(chip);
        let ghost before = library@;
        let idx = table_id.0 as usize;
        assert((n0 as u8) as usize <= n0) by (bit_vector);
        assert(old(library)@.tables.len() == n0);
        assert(library.tables@.len() == library@.tables.len());
        assert(library@.tables.len() == n0 + 1);
        library.tables.set(idx, table);
        assert(library@.tables =~= before.tables.update(idx as int, table_view(table)));
    }
}

/// The value a starting chip computes from input word `w`, in which bit `i` is
/// the state of input `i`; bit `k` of the value is the state of output `k`.
pub open spec fn gate_value(c: StartingChip, w: int) -> int {
    let a = w % 2;
    let b = (w / 2) % 2;
    let cin = (w / 4) % 2;
    match c {
        StartingChip::And => a * b,
        StartingChip::Not => 1 - a,
        StartingChip::Nand => 1 - a * b,
        StartingChip::Or => if a + b > 0 { 1 } else { 0 },
        StartingChip::Nor => if a + b > 0 { 0 } else { 1 },
        StartingChip::Xor => (a + b) % 2,
        StartingChip::HalfAdder => a + b,
        StartingChip::Adder => a + b + cin,
    }
}

/// Each starting chip's truth table has one entry for each of the `2^n` input
/// words of its `n` inputs, and the entry for input word `w` is the value of the
/// chip's gate on the bits of `w`: And, Not, Nand, Or, Nor and Xor of the inputs,
/// and the two-bit sums of a half adder and a full adder.
pub proof fn lemma_starting_chip_truth_tables(c: StartingChip)
    ensures
        c.spec_map().len() == vstd::arithmetic::power2::pow2(c.spec_inputs().len()),
        forall|w: int| 0 <= w < c.spec_map().len() ==> c.spec_map()[w] == gate_value(c, w),
{
    vstd::arithmetic::power2::lemma2_to64();
    match c {
        StartingChip::Adder => {
            assert(c.spec_map().len() == 8);
            assert forall|w: int| 0 <= w < c.spec_map().len() implies c.spec_map()[w] == gate_value(c, w) by {
                assert(w == 0 || w == 1 || w == 2 || w == 3 || w == 4 || w == 5 || w == 6 || w == 7);
            }
        },
        StartingChip::Not => {
            assert forall|w: int| 0 <= w < c.spec_map().len() implies c.spec_map()[w] == gate_value(c, w) by {
                assert(w == 0 || w == 1);
            }
        },
        _ => {
            assert forall|w: int| 0 <= w < c.spec_map().len() implies c.spec_map()[w] == gate_value(c, w) by {
                assert(w == 0 || w == 1 || w == 2 || w == 3);
            }
        },
    }
}

/// A library that holds, in order, the given starting chips, built up from an
/// empty one.
pub open spec fn library_with(chips: Seq<StartingChip>) -> LibraryView
    decreases chips.len(),
{
    if chips.len() == 0 {
        LibraryView { tables: Seq::empty(), chips: Seq::empty() }
    } else {
        with_starting_chip(library_with(chips.drop_last()), chips.last())
    }
}

/// A project: its name, its open scenes and its library.
#[derive(Debug)]
pub struct Project {
    pub name: String,
    pub scenes: Vec<Scene>,
    pub library: Library,
}

/// The contents of a project.
pub ghost struct ProjectView {
    pub name: Seq<char>,
    pub scenes: Seq<scene::SceneView>,
    pub library: LibraryView,
}

impl View for Project {
    type V = ProjectView;

    open spec fn view(&self) -> ProjectView {
        ProjectView {
            name: self.name@,
            scenes: self.scenes@.map_values(|s: Scene| s@),
            library: self.library@,
        }
    }
}

/// A copy of a list of scenes.
fn clone_scenes(v: &Vec<Scene>) -> (r: Vec<Scene>)
    ensures
        r@.map_values(|s: Scene| s@) == v@.map_values(|s: Scene| s@),
{
    let mut out: Vec<Scene> = Vec::new();
    let mut i: usize = 0;
    while i < v.len()
        invariant
            i <= v@.len(),
            out@.len() == i,
            forall|j: int| 0 <= j < i ==> (#[trigger] out@[j])@ == v@[j]@,
        decreases v@.len() - i,
    {
        out.push(v[i].clone());
        i = i + 1;
    }
    assert(out@.map_values(|s: Scene| s@) =~= v@.map_values(|s: Scene| s@));
    out
}

impl Clone for Project {
    fn clone(&self) -> (r: Project)
        ensures
            r@ == self@,
    {
        Project { name: self.name.clone(), scenes: clone_scenes(&self.scenes), library: self.library.clone() }
    }
}

impl Default for Project {
    /// A project with no name, no scenes and an empty library.
    fn default() -> (r: Project)
        ensures
            r@.name.len() == 0,
            r@.scenes.len() == 0,
            r@.library.tables.len() == 0,
            r@.library.chips.len() == 0,
    {
        Project { name: String::new(), scenes: Vec::new(), library: Library::default() }
    }
}

impl Project {
    /// A new project named `name` with no scenes, whose library holds the given
    /// starting chips in order.
    pub fn new(name: String, starting_chips: Vec<StartingChip>) -> (r: Project)
        ensures
            r.name == name,
            r@.scenes.len() == 0,
            r@.library == library_with(starting_chips@),
    {
        let mut library = Library::default();
        assert(library@.tables =~= Seq::<TruthTableView>::empty());
        assert(library@.chips =~= Seq::<ChipSaveView>::empty());
        assert(library@ == library_with(starting_chips@.subrange(0, 0)));
        let mut i: usize = 0;
        while i < starting_chips.len()
            invariant
                i <= starting_chips@.len(),
                library@ == library_with(starting_chips@.subrange(0, i as int)),
            decreases starting_chips@.len() - i,
        {
            starting_chips[i].create(&mut library);
            assert(starting_chips@.subrange(0, i + 1).drop_last() =~= starting_chips@.subrange(0, i as int));
            i = i + 1;
        }
        assert(starting_chips@.subrange(0, i as int) =~= starting_chips@);
        let r = Project { name, scenes: Vec::new(), library };
        assert(r@.scenes =~= Seq::<scene::SceneView>::empty());
        r
    }
}

/// The distinct strings of `s`, each where it first occurs, in order.
pub open spec fn first_occurrences(s: Seq<Seq<char>>) -> Seq<Seq<char>>
    decreases s.len(),
{
    if s.len() == 0 {
        Seq::empty()
    } else {
        let prev = first_occurrences(s.drop_last());
        if prev.contains(s.last()) {
            prev
        } else {
            prev.push(s.last())
        }
    }
}

/// The categories of the chips, in order.
pub open spec fn chip_categories(chips: Seq<ChipSaveView>) -> Seq<Seq<char>> {
    chips.map_values(|c: ChipSaveView| c.attrs.category)
}

/// The indices of the chips whose category is `category`, in increasing order.
pub open spec fn category_indices(chips: Seq<ChipSaveView>, category: Seq<char>) -> Seq<int>
    decreases chips.len(),
{
    if chips.len() == 0 {
        Seq::empty()
    } else {
        let prev = category_indices(chips.drop_last(), category);
        if chips.last().attrs.category == category {
            prev.push(chips.len() - 1)
        } else {
            prev
        }
    }
}

/// Whether the `i`-th chip is named `name`.
pub open spec fn chip_named(chips: Seq<ChipSaveView>, i: int, name: Seq<char>) -> bool {
    chips[i].attrs.name == name
}

/// The categories of the library: each category of a chip once, in the order
/// in which they first occur among the chips.
pub proof fn lemma_first_occurrences(s: Seq<Seq<char>>)
    ensures
        first_occurrences(s).no_duplicates(),
        forall|x: Seq<char>| first_occurrences(s).contains(x) <==> s.contains(x),
    decreases s.len(),
{
    if s.len() > 0 {
        lemma_first_occurrences(s.drop_last());
        let prev = first_occurrences(s.drop_last());
        assert forall|x: Seq<char>| first_occurrences(s).contains(x) <==> s.contains(x) by {
            if s.contains(x) && x != s.last() {
                let i = choose|i: int| 0 <= i < s.len() && s[i] == x;
                assert(s.drop_last()[i] == x);
            }
            if s.drop_last().contains(x) {
                let i = choose|i: int| 0 <= i < s.drop_last().len() && s.drop_last()[i] == x;
                assert(s[i] == x);
            }
            if !prev.contains(s.last()) {
                let pp = prev.push(s.last());
                if pp.contains(x) {
                    let i = choose|i: int| 0 <= i < pp.len() && pp[i] == x;
                    if i < prev.len() {
                        assert(prev[i] == x);
                    }
                }
                if x == s.last() {
                    assert(prev.push(s.last())[prev.len() as int] == x);
                }
                if prev.contains(x) {
                    let i = choose|i: int| 0 <= i < prev.len() && prev[i] == x;
                    assert(prev.push(s.last())[i] == x);
                }
            }
            assert(s[s.len() - 1] == s.last());
        }
    }
}

/// The indices that `chips_in_category` lists are exactly those of the chips
/// in the category, in increasing order.
pub proof fn lemma_category_indices(chips: Seq<ChipSaveView>, category: Seq<char>)
    ensures
        forall|i: int| category_indices(chips, category).contains(i) <==> 0 <= i < chips.len() && chips[i].attrs.category == category,
        forall|j: int, k: int| 0 <= j < k < category_indices(chips, category).len() ==> category_indices(chips, category)[j] < category_indices(chips, category)[k],
    decreases chips.len(),
{
    if chips.len() > 0 {
        let prev = category_indices(chips.drop_last(), category);
        lemma_category_indices(chips.drop_last(), category);
        assert forall|i: int| category_indices(chips, category).contains(i) <==> 0 <= i < chips.len() && chips[i].attrs.category == category by {
            if chips.last().attrs.category == category {
                let pp = prev.push(chips.len() - 1);
                if pp.contains(i) {
                    let j = choose|j: int| 0 <= j < pp.len() && pp[j] == i;
                    if j < prev.len() {
                        assert(prev[j] == i);
                        assert(prev.contains(i));
                        assert(chips.drop_last()[i] == chips[i]);
                    }
                }
                if 0 <= i < chips.len() && chips[i].attrs.category == category {
                    if i == chips.len() - 1 {
                        assert(prev.push(chips.len() - 1)[prev.len() as int] == i);
                    } else {
                        assert(chips.drop_last()[i] == chips[i]);
                        assert(chips.drop_last()[i].attrs.category == category);
                        assert(prev.contains(i));
                        let j = choose|j: int| 0 <= j < prev.len() && prev[j] == i;
                        assert(prev.push(chips.len() - 1)[j] == i);
                    }
                }
            } else {
                if 0 <= i < chips.len() - 1 {
                    assert(chips.drop_last()[i] == chips[i]);
                }
            }
        }
        assert forall|j: int, k: int| 0 <= j < k < category_indices(chips, category).len() implies category_indices(chips, category)[j] < category_indices(chips, category)[k] by {
            if chips.last().attrs.category == category && k == prev.len() {
                assert(prev.contains(prev[j]));
            }
        }
    }
}

/// Whether `new` is `old` with `chip` saved: the tables stay; the chip replaces
/// the first chip with its name, or is appended when no chip has its name.
pub open spec fn library_saved(old: LibraryView, chip: ChipSaveView, new: LibraryView) -> bool {
    &&& new.tables == old.tables
    &&& (forall|i: int| 0 <= i < old.chips.len() ==> !chip_named(old.chips, i, chip.attrs.name))
        ==> new.chips == old.chips.push(chip)
    &&& (exists|i: int| 0 <= i < old.chips.len() && chip_named(old.chips, i, chip.attrs.name))
        ==> exists|i: int| 0 <= i < old.chips.len() && chip_named(old.chips, i, chip.attrs.name)
            && (forall|j: int| 0 <= j < i ==> !chip_named(old.chips, j, chip.attrs.name))
            && new.chips == old.chips.update(i, chip)
}

impl Library {
    /// The categories of the chips, each once, in the order in which they
    /// first occur.
    pub fn categories(&self) -> (r: Vec<&str>)
        ensures
            strs_view(r@) == first_occurrences(chip_categories(self@.chips)),
    {
        let mut results: Vec<&str> = Vec::new();
        let mut i: usize = 0;
        while i < self.chips.len()
            invariant
                i <= self.chips@.len(),
                strs_view(results@) == first_occurrences(chip_categories(self@.chips).subrange(0, i as int)),
            decreases self.chips@.len() - i,
        {
            let cat: &str = self.chips[i].attrs.category.as_str();
            let mut found = false;
            let mut j: usize = 0;
            while j < results.len()
                invariant
                    j <= results@.len(),
                    found <==> exists|k: int| 0 <= k < j && results@[k]@ == cat@,
                decreases results@.len() - j,
            {
                if str_eq(results[j], cat) {
                    found = true;
                }
                j = j + 1;
            }
            let ghost cats = chip_categories(self@.chips);
            proof {
                assert(cats.subrange(0, i + 1).drop_last() =~= cats.subrange(0, i as int));
                assert(cats.subrange(0, i + 1).last() == cat@);
                let sv = strs_view(results@);
                if found {
                    let k = choose|k: int| 0 <= k < j && results@[k]@ == cat@;
                    assert(sv[k] == cat@);
                } else {
                    assert forall|k: int| 0 <= k < sv.len() implies sv[k] != cat@ by {
                        assert(sv[k] == results@[k]@);
                    }
                }
            }
            if !found {
                results.push(cat);
                assert(strs_view(results@) =~= strs_view(results@).drop_last().push(cat@));
            }
            i = i + 1;
        }
        assert(chip_categories(self@.chips).subrange(0, i as int) =~= chip_categories(self@.chips));
        results
    }

    /// The chips in `category`, each with its index, in order.
    pub fn chips_in_category<'a>(&'a self, category: &str) -> (r: Vec<(usize, &'a ChipSave)>)
        ensures
            r@.len() == category_indices(self@.chips, category@).len(),
            forall|k: int| #![trigger r@[k]] 0 <= k < r@.len() ==> r@[k].0 == category_indices(self@.chips, category@)[k]
                && *r@[k].1 == self.chips@[r@[k].0 as int],
    {
        let mut out: Vec<(usize, &'a ChipSave)> = Vec::new();
        let mut i: usize = 0;
        while i < self.chips.len()
            invariant
                i <= self.chips@.len(),
                out@.len() == category_indices(self@.chips.subrange(0, i as int), category@).len(),
                forall|k: int| 0 <= k < out@.len() ==> out@[k].0 == category_indices(self@.chips.subrange(0, i as int), category@)[k]
                    && out@[k].0 < i && *out@[k].1 == self.chips@[out@[k].0 as int],
            decreases self.chips@.len() - i,
        {
            let ghost chips = self@.chips;
            assert(chips.subrange(0, i + 1).drop_last() =~= chips.subrange(0, i as int));
            assert(chips.subrange(0, i + 1).last() == chips[i as int]);
            assert(chips[i as int] == self.chips@[i as int]@);
            let ghost prev_idx = category_indices(chips.subrange(0, i as int), category@);
            let ghost next_idx = category_indices(chips.subrange(0, i + 1), category@);
            assert(next_idx == (if chips[i as int].attrs.category == category@ { prev_idx.push(i as int) } else { prev_idx }));
            let ghost before = out@;
            if str_eq(self.chips[i].attrs.category.as_str(), category) {
                out.push((i, &self.chips[i]));
            }
            assert forall|k: int| 0 <= k < out@.len() implies out@[k].0 == next_idx[k] && out@[k].0 < i + 1
                && *out@[k].1 == self.chips@[out@[k].0 as int] by {
                if k < before.len() {
                    assert(out@[k] == before[k]);
                }
            }
            assert(out@.len() == next_idx.len());
            i = i + 1;
            assert(next_idx == category_indices(self@.chips.subrange(0, i as int), category@));
        }
        assert(self@.chips.subrange(0, i as int) =~= self@.chips);
        let ghost full = category_indices(self@.chips, category@);
        assert(category_indices(self@.chips.subrange(0, i as int), category@) == full);
        assert forall|k: int| #![trigger out@[k]] 0 <= k < out@.len() implies out@[k].0 == full[k] && *out@[k].1 == self.chips@[out@[k].0 as int] by {
            assert(out@[k].0 == category_indices(self@.chips.subrange(0, i as int), category@)[k]);
        }
        assert(forall|k: int| #![trigger out@[k]] 0 <= k < out@.len() ==> out@[k].0 == category_indices(self@.chips, category@)[k]
                && *out@[k].1 == self.chips@[out@[k].0 as int]);
        out
    }

    /// Saves `chip`: it replaces the first chip with the same name, or, when no
    /// chip has that name, it is appended.
    pub fn save_chip(&mut self, chip: ChipSave)
        ensures
            library_saved(old(self)@, chip@, final(self)@),
            exists|i: int| 0 <= i < final(self)@.chips.len() && final(self)@.chips[i] == chip@
                && forall|j: int| 0 <= j < i ==> !chip_named(final(self)@.chips, j, chip@.attrs.name),
    {
        let mut i: usize = 0;
        while i < self.chips.len()
            invariant
                *self == *old(self),
                i <= self.chips@.len(),
                forall|j: int| 0 <= j < i ==> !chip_named(self@.chips, j, chip@.attrs.name),
            decreases self.chips@.len() - i,
        {
            if str_eq(self.chips[i].attrs.name.as_str(), chip.attrs.name.as_str()) {
                let ghost cv = chip@;
                assert(chip_named(self@.chips, i as int, cv.attrs.name));
                self.chips.set(i, chip);
                assert(self@.chips =~= old(self)@.chips.update(i as int, cv));
                assert(self@.chips[i as int] == cv);
                assert forall|j: int| 0 <= j < i implies !chip_named(self@.chips, j, cv.attrs.name) by {
                    assert(!chip_named(old(self)@.chips, j, cv.attrs.name));
                    assert(self@.chips[j] == old(self)@.chips[j]);
                }
                return;
            }
            i = i + 1;
        }
        let ghost cv = chip@;
        self.chips.push(chip);
        assert(self@.chips =~= old(self)@.chips.push(cv));
        assert(self@.chips[old(self)@.chips.len() as int] == cv);
        assert forall|j: int| 0 <= j < old(self)@.chips.len() implies !chip_named(self@.chips, j, cv.attrs.name) by {
            assert(!chip_named(old(self)@.chips, j, cv.attrs.name));
            assert(self@.chips[j] == old(self)@.chips[j]);
        }
    }
}

/// The node at `addr`, or a zero node when there is none (what `Sim::get_node` gives).
pub open spec fn node_at(nodes: Seq<Node>, addr: NodeAddr) -> Node {
    if addr.0 < nodes.len() {
        nodes[addr.0 as int]
    } else {
        Node(0)
    }
}

/// External nodes as a chip saves them: name, address and the node there.
pub open spec fn saved_named_nodes(states: Seq<(NodeAddr, String)>, nodes: Seq<Node>) -> Seq<(Seq<char>, NodeAddr, Node)> {
    states.map_values(|e: (NodeAddr, String)| (e.1@, e.0, node_at(nodes, e.0)))
}

/// The nodes of the given devices, in order, each with the node at its address.
pub open spec fn saved_inner_nodes(devices: Seq<scene::Device>, nodes: Seq<Node>) -> Seq<(NodeAddr, Node)>
    decreases devices.len(),
{
    if devices.len() == 0 {
        Seq::empty()
    } else {
        saved_inner_nodes(devices.drop_last(), nodes) + devices.last().spec_sim_nodes().map_values(
            |a: NodeAddr| (a, node_at(nodes, a)),
        )
    }
}

/// Saves external nodes with the nodes at their addresses.
fn save_named_nodes(states: &Vec<(NodeAddr, String)>, sim: &sim::Sim) -> (r: Vec<(String, NodeAddr, Node)>)
    ensures
        named_nodes_view(r@) == saved_named_nodes(states@, sim.nodes@),
{
    let mut out: Vec<(String, NodeAddr, Node)> = Vec::new();
    let mut i: usize = 0;
    while i < states.len()
        invariant
            i <= states@.len(),
            named_nodes_view(out@) == saved_named_nodes(states@, sim.nodes@).subrange(0, i as int),
        decreases states@.len() - i,
    {
        let addr = states[i].0;
        let ghost prev = out@;
        assert(named_nodes_view(prev).len() == i);
        out.push((states[i].1.clone(), addr, sim.get_node(addr)));
        proof {
            assert(named_nodes_view(out@)[i as int] == saved_named_nodes(states@, sim.nodes@)[i as int]);
            assert forall|k: int| 0 <= k < i implies named_nodes_view(out@)[k] == named_nodes_view(prev)[k] by {
                assert(out@[k] == prev[k]);
            }
        }
        i = i + 1;
        assert(named_nodes_view(out@) =~= saved_named_nodes(states@, sim.nodes@).subrange(0, i as int));
    }
    assert(saved_named_nodes(states@, sim.nodes@).subrange(0, i as int) =~= saved_named_nodes(states@, sim.nodes@));
    out
}

/// The devices of a scene in the order in which its device map yields them.
pub open spec fn device_order(scene: Scene) -> Seq<scene::Device> {
    vstd::std_specs::hash::into_iter_values(vstd::std_specs::hash::spec_values_iter(&scene.devices))
}

/// Whether `c` is the chip `scene` packs into: not builtin, its region the size
/// of the scene's simulation, the scene's attributes, a copy of the scene, the
/// external nodes with the nodes at their addresses, and the nodes of all
/// devices, in the order in which the device map yields them (one entry per
/// key, every device of the map among them), each with the node at its address.
pub open spec fn packs_scene(c: ChipSaveView, scene: Scene) -> bool {
    &&& c.builtin == false
    &&& c.region_size == scene.sim.next_region
    &&& c.attrs == scene.save_attrs@
    &&& c.scene == Some(scene@)
    &&& c.l_nodes == saved_named_nodes(scene.l_nodes.states@, scene.sim.nodes@)
    &&& c.r_nodes == saved_named_nodes(scene.r_nodes.states@, scene.sim.nodes@)
    &&& device_order(scene).len() == scene.devices@.dom().len()
    &&& device_order(scene).to_set() == scene.devices@.values()
    &&& c.inner_nodes == saved_inner_nodes(device_order(scene), scene.sim.nodes@)
}

/// Packs a scene into a saved chip: its attributes, the size of its simulation,
/// a copy of the scene, its external nodes and the nodes of all its devices,
/// each with the node at its address. The devices are taken in the order in
/// which the device map yields them.
pub fn create_chip_from_scene(scene: &Scene) -> (r: ChipSave)
    ensures
        packs_scene(r@, *scene),
{
    let region_size = scene.sim.next_region;
    let l_nodes = save_named_nodes(&scene.l_nodes.states, &scene.sim);
    let r_nodes = save_named_nodes(&scene.r_nodes.states, &scene.sim);
    let mut inner_nodes: Vec<(NodeAddr, Node)> = Vec::new();
    let values = scene.devices.values();
    proof {
        broadcast use vstd::std_specs::hash::group_hash_axioms;
    }
    let ghost devices: Seq<scene::Device> = vstd::std_specs::hash::into_iter_values(values);
    for device in it: values
        invariant
            it.seq().unref() == devices,
            inner_nodes@ == saved_inner_nodes(it.seq().unref().subrange(0, it.index()), scene.sim.nodes@),
    {
        let addrs = device.sim_nodes();
        let ghost before = inner_nodes@;
        let mut j: usize = 0;
        while j < addrs.len()
            invariant
                j <= addrs@.len(),
                inner_nodes@ == before + addrs@.subrange(0, j as int).map_values(|a: NodeAddr| (a, node_at(scene.sim.nodes@, a))),
            decreases addrs@.len() - j,
        {
            let a = addrs[j];
            inner_nodes.push((a, scene.sim.get_node(a)));
            j = j + 1;
            assert(addrs@.subrange(0, j as int).map_values(|a: NodeAddr| (a, node_at(scene.sim.nodes@, a))) =~= addrs@.subrange(0, (j - 1) as int).map_values(|a: NodeAddr| (a, node_at(scene.sim.nodes@, a))).push((a, node_at(scene.sim.nodes@, a))));
        }
        assert(addrs@.subrange(0, j as int) =~= addrs@);
        proof {
            let seen = it.seq().unref().subrange(0, it.index() + 1);
            assert(seen.drop_last() =~= it.seq().unref().subrange(0, it.index()));
            assert(seen.last() == *device);
        }
    }
    proof {
        broadcast use vstd::std_specs::hash::group_hash_axioms;
        assert(devices.subrange(0, devices.len() as int) =~= devices);
    }
    ChipSave {
        attrs: scene.save_attrs.clone(),
        region_size,
        builtin: false,
        scene: Some(scene.clone()),
        l_nodes,
        r_nodes,
        inner_nodes,
    }
}

/// Whether a node is an input (its source is of no kind) or an output.
pub open spec fn io_ty_of(node: Node) -> IoType {
    if Source(node.0).spec_ty() == 0 {
        IoType::Input
    } else {
        IoType::Output
    }
}

/// Whether a node is an input (its source is of no kind) or an output.
pub fn io_ty(node: &Node) -> (r: IoType)
    ensures
        r == io_ty_of(*node),
{
    if node.source().ty().0 == 0 {
        IoType::Input
    } else {
        IoType::Output
    }
}

/// The contents of a list of placed nodes.
pub open spec fn io_view(v: Seq<(NodeAddr, String, IoType)>) -> Seq<(NodeAddr, Seq<char>, IoType)> {
    v.map_values(|e: (NodeAddr, String, IoType)| (e.0, e.1@, e.2))
}

impl ChipSave {
    /// A chip as it looks before it is placed: the saved attributes and node
    /// names, every node at address 0 and typed by its source, no region, no
    /// inner nodes, at `pos` turned by `rotation`.
    pub fn preview(&self, pos: Vec2Bits, rotation: Rotation) -> (r: scene::Chip)
        ensures
            r.attrs@ == self@.attrs,
            r.region.min.0 == 0 && r.region.max.0 == 0,
            r.pos == pos,
            r.rotation == rotation,
            r.save is None,
            io_view(r.l_nodes@) == self@.l_nodes.map_values(|e: (Seq<char>, NodeAddr, Node)| (NodeAddr(0), e.0, io_ty_of(e.2))),
            io_view(r.r_nodes@) == self@.r_nodes.map_values(|e: (Seq<char>, NodeAddr, Node)| (NodeAddr(0), e.0, io_ty_of(e.2))),
            r.inner_nodes@.len() == 0,
    {
        let l_nodes = preview_nodes(&self.l_nodes);
        let r_nodes = preview_nodes(&self.r_nodes);
        scene::Chip {
            attrs: self.attrs.clone(),
            region: NodeRegion::default(),
            pos,
            rotation,
            save: None,
            l_nodes,
            r_nodes,
            inner_nodes: Vec::new(),
        }
    }
}

/// Saved nodes as a preview shows them: address 0, name, and input or output.
fn preview_nodes(v: &Vec<(String, NodeAddr, Node)>) -> (r: Vec<(NodeAddr, String, IoType)>)
    ensures
        io_view(r@) == named_nodes_view(v@).map_values(|e: (Seq<char>, NodeAddr, Node)| (NodeAddr(0), e.0, io_ty_of(e.2))),
{
    let ghost target = named_nodes_view(v@).map_values(|e: (Seq<char>, NodeAddr, Node)| (NodeAddr(0), e.0, io_ty_of(e.2)));
    assert(target.len() == v@.len());
    let mut out: Vec<(NodeAddr, String, IoType)> = Vec::new();
    let mut i: usize = 0;
    while i < v.len()
        invariant
            i <= v@.len(),
            target.len() == v@.len(),
            target == named_nodes_view(v@).map_values(|e: (Seq<char>, NodeAddr, Node)| (NodeAddr(0), e.0, io_ty_of(e.2))),
            io_view(out@) == target.subrange(0, i as int),
        decreases v@.len() - i,
    {
        let ghost prev = out@;
        assert(io_view(prev).len() == i);
        out.push((NodeAddr(0), v[i].0.clone(), io_ty(&v[i].2)));
        proof {
            assert(io_view(out@)[i as int] == target[i as int]);
            assert forall|k: int| 0 <= k < i implies io_view(out@)[k] == io_view(prev)[k] by {
                assert(out@[k] == prev[k]);
            }
        }
        i = i + 1;
        assert(io_view(out@) =~= target.subrange(0, i as int));
    }
    assert(target.subrange(0, i as int) =~= target);
    out
}

/// The nodes `nodes` after writing each `(address, node)` of `writes`, in order.
pub open spec fn apply_writes(nodes: Seq<Node>, writes: Seq<(int, Node)>) -> Seq<Node>
    decreases writes.len(),
{
    if writes.len() == 0 {
        nodes
    } else {
        apply_writes(nodes, writes.drop_last()).update(writes.last().0, writes.last().1)
    }
}

/// Writing two lists of nodes one after the other is writing their concatenation.
pub proof fn lemma_apply_writes_concat(nodes: Seq<Node>, a: Seq<(int, Node)>, b: Seq<(int, Node)>)
    ensures
        apply_writes(apply_writes(nodes, a), b) == apply_writes(nodes, a + b),
    decreases b.len(),
{
    if b.len() == 0 {
        assert(a + b =~= a);
    } else {
        lemma_apply_writes_concat(nodes, a, b.drop_last());
        assert((a + b).drop_last() =~= a + b.drop_last());
        assert((a + b).last() == b.last());
    }
}

/// Writing nodes at distinct addresses inside the list: each written address
/// reads back the node written there, every other address keeps its node, and
/// the length stays.
pub proof fn lemma_apply_writes_distinct(nodes: Seq<Node>, writes: Seq<(int, Node)>)
    requires
        forall|i: int| 0 <= i < writes.len() ==> 0 <= #[trigger] writes[i].0 < nodes.len(),
        forall|i: int, j: int| 0 <= i < j < writes.len() ==> writes[i].0 != writes[j].0,
    ensures
        apply_writes(nodes, writes).len() == nodes.len(),
        forall|i: int| 0 <= i < writes.len() ==> apply_writes(nodes, writes)[#[trigger] writes[i].0] == writes[i].1,
        forall|a: int| 0 <= a < nodes.len() && (forall|i: int| 0 <= i < writes.len() ==> writes[i].0 != a)
            ==> #[trigger] apply_writes(nodes, writes)[a] == nodes[a],
    decreases writes.len(),
{
    if writes.len() > 0 {
        let prev = writes.drop_last();
        assert forall|i: int| 0 <= i < prev.len() implies 0 <= #[trigger] prev[i].0 < nodes.len() by {
            assert(prev[i] == writes[i]);
        }
        assert forall|i: int, j: int| 0 <= i < j < prev.len() implies prev[i].0 != prev[j].0 by {
            assert(prev[i] == writes[i] && prev[j] == writes[j]);
        }
        lemma_apply_writes_distinct(nodes, prev);
        let last = writes.last();
        assert(last == writes[writes.len() - 1]);
        assert forall|i: int| 0 <= i < writes.len() implies apply_writes(nodes, writes)[#[trigger] writes[i].0] == writes[i].1 by {
            if i < writes.len() - 1 {
                assert(prev[i] == writes[i]);
                assert(writes[i].0 != last.0);
            }
        }
        assert forall|a: int| 0 <= a < nodes.len() && (forall|i: int| 0 <= i < writes.len() ==> writes[i].0 != a)
            implies #[trigger] apply_writes(nodes, writes)[a] == nodes[a] by {
            assert(last.0 != a);
            assert forall|i: int| 0 <= i < prev.len() implies prev[i].0 != a by {
                assert(prev[i] == writes[i]);
            }
        }
    }
}

/// The writes that place saved named nodes into `region`: each node, with its
/// source mapped into the region, at its address offset by the region's start.
pub open spec fn named_writes(entries: Seq<(Seq<char>, NodeAddr, Node)>, region: NodeRegion) -> Seq<(int, Node)> {
    entries.map_values(|e: (Seq<char>, NodeAddr, Node)| (e.1.0 + region.min.0, region.map_node_spec(e.2)))
}

/// The writes that place saved inner nodes into `region`.
pub open spec fn inner_writes(entries: Seq<(NodeAddr, Node)>, region: NodeRegion) -> Seq<(int, Node)> {
    entries.map_values(|e: (NodeAddr, Node)| (e.0.0 + region.min.0, region.map_node_spec(e.1)))
}

/// Whether saved named nodes fit in `region`: each address lies inside it and
/// each source can be mapped into it.
pub open spec fn named_fit(entries: Seq<(Seq<char>, NodeAddr, Node)>, region: NodeRegion) -> bool {
    forall|i: int| 0 <= i < entries.len() ==> #[trigger] entries[i].1.0 + region.min.0 < region.max.0
        && region.can_map_src(Source(entries[i].2.0))
}

/// Whether saved inner nodes fit in `region`.
pub open spec fn inner_fit(entries: Seq<(NodeAddr, Node)>, region: NodeRegion) -> bool {
    forall|i: int| 0 <= i < entries.len() ==> #[trigger] entries[i].0.0 + region.min.0 < region.max.0
        && region.can_map_src(Source(entries[i].1.0))
}

/// Placed nodes: the address offset into `region`, the name, input or output.
pub open spec fn placed_io(entries: Seq<(Seq<char>, NodeAddr, Node)>, region: NodeRegion) -> Seq<(NodeAddr, Seq<char>, IoType)> {
    entries.map_values(|e: (Seq<char>, NodeAddr, Node)| (NodeAddr((e.1.0 + region.min.0) as u32), e.0, io_ty_of(e.2)))
}

/// The region a chip saved as `save` takes when placed from address `min`.
pub open spec fn chip_region(save: ChipSaveView, min: u32) -> NodeRegion {
    NodeRegion { min: NodeAddr(min), max: NodeAddr((min + save.region_size) as u32) }
}

/// Whether a chip saved as `save` can be placed from address `min`: its region
/// fits below `u32::MAX` and all its nodes fit in the region.
pub open spec fn chip_fits(save: ChipSaveView, min: u32) -> bool {
    &&& min + save.region_size <= u32::MAX
    &&& named_fit(save.l_nodes, chip_region(save, min))
    &&& named_fit(save.r_nodes, chip_region(save, min))
    &&& inner_fit(save.inner_nodes, chip_region(save, min))
}

/// The nodes of a simulation after a region up to `max` was allocated.
pub open spec fn allocated(nodes: Seq<Node>, max: int) -> Seq<Node> {
    Seq::new(max as nat, |i: int| if i < nodes.len() { nodes[i] } else { Node(0) })
}

/// The writes that place a chip saved as `save` into `region`: left, right,
/// then inner nodes.
pub open spec fn chip_writes(save: ChipSaveView, region: NodeRegion) -> Seq<(int, Node)> {
    named_writes(save.l_nodes, region) + named_writes(save.r_nodes, region) + inner_writes(save.inner_nodes, region)
}

/// Whether `c` is the chip saved as `save` placed into `region` at `pos`,
/// turned by `rotation`, remembering `save_id`.
pub open spec fn is_placed_chip(
    c: scene::Chip,
    save: ChipSaveView,
    region: NodeRegion,
    pos: Vec2Bits,
    rotation: Rotation,
    save_id: Option<usize>,
) -> bool {
    &&& c.attrs@ == save.attrs
    &&& c.region == region
    &&& c.pos == pos
    &&& c.rotation == rotation
    &&& c.save == save_id
    &&& io_view(c.l_nodes@) == placed_io(save.l_nodes, region)
    &&& io_view(c.r_nodes@) == placed_io(save.r_nodes, region)
    &&& c.inner_nodes@ == save.inner_nodes.map_values(|e: (NodeAddr, Node)| NodeAddr((e.0.0 + region.min.0) as u32))
}

/// Writes saved named nodes into `region` and lists them as placed.
fn place_named(sim: &mut sim::Sim, region: &NodeRegion, entries: &Vec<(String, NodeAddr, Node)>) -> (r: Vec<(NodeAddr, String, IoType)>)
    requires
        old(sim).nodes@.len() == region.max.0,
        named_fit(named_nodes_view(entries@), *region),
    ensures
        final(sim).nodes@ == apply_writes(old(sim).nodes@, named_writes(named_nodes_view(entries@), *region)),
        final(sim).nodes@.len() == old(sim).nodes@.len(),
        final(sim).next_region == old(sim).next_region,
        io_view(r@) == placed_io(named_nodes_view(entries@), *region),
{
    let ghost es = named_nodes_view(entries@);
    let ghost writes = named_writes(es, *region);
    let ghost target = placed_io(es, *region);
    let mut out: Vec<(NodeAddr, String, IoType)> = Vec::new();
    let mut i: usize = 0;
    while i < entries.len()
        invariant
            i <= entries@.len(),
            es == named_nodes_view(entries@),
            writes == named_writes(es, *region),
            target == placed_io(es, *region),
            named_fit(es, *region),
            sim.nodes@.len() == region.max.0,
            sim.next_region == old(sim).next_region,
            sim.nodes@ == apply_writes(old(sim).nodes@, writes.subrange(0, i as int)),
            io_view(out@) == target.subrange(0, i as int),
        decreases entries@.len() - i,
    {
        assert(es[i as int] == (entries@[i as int].0@, entries@[i as int].1, entries@[i as int].2));
        assert(es[i as int].1.0 + region.min.0 < region.max.0);
        let addr = region.map(entries[i].1);
        let node = region.map_node(entries[i].2);
        sim.set_node(addr, node);
        let ghost prev = out@;
        assert(io_view(prev).len() == i);
        out.push((addr, entries[i].0.clone(), io_ty(&entries[i].2)));
        proof {
            assert(writes.subrange(0, i + 1).drop_last() =~= writes.subrange(0, i as int));
            assert(writes.subrange(0, i + 1).last() == writes[i as int]);
            assert(io_view(out@)[i as int] == target[i as int]);
            assert forall|k: int| 0 <= k < i implies io_view(out@)[k] == io_view(prev)[k] by {
                assert(out@[k] == prev[k]);
            }
        }
        i = i + 1;
        assert(io_view(out@) =~= target.subrange(0, i as int));
    }
    assert(writes.subrange(0, i as int) =~= writes);
    assert(target.subrange(0, i as int) =~= target);
    out
}

/// Writes saved inner nodes into `region` and lists their addresses.
fn place_inner(sim: &mut sim::Sim, region: &NodeRegion, entries: &Vec<(NodeAddr, Node)>) -> (r: Vec<NodeAddr>)
    requires
        old(sim).nodes@.len() == region.max.0,
        inner_fit(entries@, *region),
    ensures
        final(sim).nodes@ == apply_writes(old(sim).nodes@, inner_writes(entries@, *region)),
        final(sim).nodes@.len() == old(sim).nodes@.len(),
        final(sim).next_region == old(sim).next_region,
        r@ == entries@.map_values(|e: (NodeAddr, Node)| NodeAddr((e.0.0 + region.min.0) as u32)),
{
    let ghost writes = inner_writes(entries@, *region);
    let ghost target = entries@.map_values(|e: (NodeAddr, Node)| NodeAddr((e.0.0 + region.min.0) as u32));
    let mut out: Vec<NodeAddr> = Vec::new();
    let mut i: usize = 0;
    while i < entries.len()
        invariant
            i <= entries@.len(),
            writes == inner_writes(entries@, *region),
            target == entries@.map_values(|e: (NodeAddr, Node)| NodeAddr((e.0.0 + region.min.0) as u32)),
            inner_fit(entries@, *region),
            sim.nodes@.len() == region.max.0,
            sim.next_region == old(sim).next_region,
            sim.nodes@ == apply_writes(old(sim).nodes@, writes.subrange(0, i as int)),
            out@ == target.subrange(0, i as int),
        decreases entries@.len() - i,
    {
        assert(entries@[i as int].0.0 + region.min.0 < region.max.0);
        let addr = region.map(entries[i].0);
        let node = region.map_node(entries[i].1);
        sim.set_node(addr, node);
        out.push(addr);
        proof {
            assert(writes.subrange(0, i + 1).drop_last() =~= writes.subrange(0, i as int));
            assert(writes.subrange(0, i + 1).last() == writes[i as int]);
        }
        i = i + 1;
        assert(out@ =~= target.subrange(0, i as int));
    }
    assert(writes.subrange(0, i as int) =~= writes);
    assert(target.subrange(0, i as int) =~= target);
    out
}

/// Whether `after` is `before` with the chip saved as `save` placed at `pos`,
/// turned by `rotation`, remembering `save_id`: its region is allocated, its
/// nodes are written there with their sources mapped into it, and it is added
/// under the id of some number; nothing else changes.
pub open spec fn places_chip(
    before: Scene,
    after: Scene,
    save: ChipSaveView,
    save_id: Option<usize>,
    pos: Vec2Bits,
    rotation: Rotation,
) -> bool {
    let region = chip_region(save, before.sim.next_region);
    &&& after.sim.next_region == before.sim.next_region + save.region_size
    &&& after.sim.nodes@ == apply_writes(
        allocated(before.sim.nodes@, before.sim.next_region + save.region_size),
        chip_writes(save, region),
    )
    &&& exists|k: u32, c: scene::Chip|
        #![trigger Id::spec_new(k), is_placed_chip(c, save, region, pos, rotation, save_id)]
        after.devices@ == before.devices@.insert(Id::spec_new(k), scene::Device::Chip(c))
            && is_placed_chip(c, save, region, pos, rotation, save_id)
    &&& after.wires == before.wires
    &&& after.wire_bundles == before.wire_bundles
    &&& after.l_nodes == before.l_nodes
    &&& after.r_nodes == before.r_nodes
    &&& after.save_attrs == before.save_attrs
    &&& after.transform == before.transform
}

/// Places a chip saved as `save` into `scene` at `pos`, turned by `rotation`:
/// allocates its region, writes its nodes there with their sources mapped into
/// the region, and adds the chip as a device under a random id.
pub fn place_chip(scene: &mut Scene, save_id: Option<usize>, save: &ChipSave, pos: Vec2Bits, rotation: Rotation)
    requires
        chip_fits(save@, old(scene).sim.next_region),
    ensures
        places_chip(*old(scene), *final(scene), save@, save_id, pos, rotation),
{
    let ghost min = scene.sim.next_region;
    let ghost base = allocated(scene.sim.nodes@, scene.sim.next_region + save@.region_size);
    let region = scene.sim.alloc_region(save.region_size);
    assert(region == chip_region(save@, min));
    assert(scene.sim.nodes@ =~= base);
    let l_nodes = place_named(&mut scene.sim, &region, &save.l_nodes);
    let r_nodes = place_named(&mut scene.sim, &region, &save.r_nodes);
    let inner_nodes = place_inner(&mut scene.sim, &region, &save.inner_nodes);
    proof {
        let wl = named_writes(save@.l_nodes, region);
        let wr = named_writes(save@.r_nodes, region);
        let wi = inner_writes(save@.inner_nodes, region);
        lemma_apply_writes_concat(base, wl, wr);
        lemma_apply_writes_concat(base, wl + wr, wi);
    }
    let chip = scene::Chip {
        attrs: save.attrs.clone(),
        region,
        pos,
        rotation,
        save: save_id,
        l_nodes,
        r_nodes,
        inner_nodes,
    };
    let ghost c = chip;
    assert(is_placed_chip(c, save@, chip_region(save@, min), pos, rotation, save_id));
    scene.add_device(scene::Device::Chip(chip));
}

impl Project {
    /// Packs the scene at `idx` into a chip: the scene is removed and the chip
    /// is saved in the library, replacing the first chip of the same name.
    pub fn pack_scene(&mut self, idx: usize)
        requires
            idx < old(self).scenes@.len(),
        ensures
            final(self)@.name == old(self)@.name,
            final(self)@.scenes == old(self)@.scenes.remove(idx as int),
            exists|c: ChipSaveView| #[trigger] packs_scene(c, old(self).scenes@[idx as int])
                && library_saved(old(self)@.library, c, final(self)@.library),
    {
        let save = create_chip_from_scene(&self.scenes[idx]);
        let ghost c = save@;
        self.scenes.remove(idx);
        self.library.save_chip(save);
        assert(self@.scenes =~= old(self)@.scenes.remove(idx as int));
        assert(packs_scene(c, old(self).scenes@[idx as int]));
    }
}

/// The colour of a library item.
#[derive(Clone, Copy, PartialEq, Eq, Debug, Structural)]
pub enum ItemColor {
    White,
    Gray,
    Black,
    Red,
    Orange,
    Yellow,
    Green,
    Cyan,
    Blue,
    Purple,
    Magenta,
    Pink,
}

impl ItemColor {
    /// The number of item colours.
    pub const COUNT: u8 = 12;

    /// The position of the colour in the list of item colours.
    pub open spec fn ordinal(self) -> u8 {
        match self {
            ItemColor::White => 0,
            ItemColor::Gray => 1,
            ItemColor::Black => 2,
            ItemColor::Red => 3,
            ItemColor::Orange => 4,
            ItemColor::Yellow => 5,
            ItemColor::Green => 6,
            ItemColor::Cyan => 7,
            ItemColor::Blue => 8,
            ItemColor::Purple => 9,
            ItemColor::Magenta => 10,
            ItemColor::Pink => 11,
        }
    }

    /// The item colour at position `v`, if there is one.
    pub fn from_u8(v: u8) -> (r: Option<ItemColor>)
        ensures
            r is Some <==> v < ItemColor::COUNT,
            r matches Some(c) ==> c.ordinal() == v,
    {
        match v {
            0 => Some(ItemColor::White),
            1 => Some(ItemColor::Gray),
            2 => Some(ItemColor::Black),
            3 => Some(ItemColor::Red),
            4 => Some(ItemColor::Orange),
            5 => Some(ItemColor::Yellow),
            6 => Some(ItemColor::Green),
            7 => Some(ItemColor::Cyan),
            8 => Some(ItemColor::Blue),
            9 => Some(ItemColor::Purple),
            10 => Some(ItemColor::Magenta),
            11 => Some(ItemColor::Pink),
            _ => None,
        }
    }

    /// The opaque red, green and blue of the colour.
    pub open spec fn spec_rgb(self) -> (u8, u8, u8) {
        match self {
            ItemColor::White => (255, 255, 255),
            ItemColor::Gray => (100, 100, 100),
            ItemColor::Black => (0, 0, 0),
            ItemColor::Red => (255, 0, 0),
            ItemColor::Orange => (0xFF, 0x5F, 0),
            ItemColor::Yellow => (255, 255, 0),
            ItemColor::Green => (0, 255, 0),
            ItemColor::Cyan => (0, 255, 255),
            ItemColor::Blue => (0, 0, 255),
            ItemColor::Purple => (100, 0, 190),
            ItemColor::Magenta => (255, 0, 255),
            ItemColor::Pink => (0xFC, 0x88, 0xA3),
        }
    }

    /// The colour as an opaque RGBA colour.
    pub fn as_color(self) -> (c: Color)
        ensures
            c.0 == rgba_word(self.spec_rgb().0, self.spec_rgb().1, self.spec_rgb().2, 255),
    {
        match self {
            ItemColor::White => Color::rgb(255, 255, 255),
            ItemColor::Gray => Color::shade(100),
            ItemColor::Black => Color::rgb(0, 0, 0),
            ItemColor::Red => Color::rgb(255, 0, 0),
            ItemColor::Orange => Color::rgb(0xFF, 0x5F, 0),
            ItemColor::Yellow => Color::rgb(255, 255, 0),
            ItemColor::Green => Color::rgb(0, 255, 0),
            ItemColor::Cyan => Color::rgb(0, 255, 255),
            ItemColor::Blue => Color::rgb(0, 0, 255),
            ItemColor::Purple => Color::rgb(100, 0, 190),
            ItemColor::Magenta => Color::rgb(255, 0, 255),
            ItemColor::Pink => Color::rgb(0xFC, 0x88, 0xA3),
        }
    }
}

/// A node that reads an output of a starting chip's truth table, with input
/// nodes each 0 or 1, can take a step, and its next state is that output of
/// the chip's gate on those inputs.
pub proof fn lemma_starting_chip_step(c: StartingChip, nodes: Seq<Node>, tables: Seq<TruthTable>, node: Node)
    requires
        Source(node.0).spec_ty() == 2,
        Source(node.0).as_table_spec().spec_id() < tables.len(),
        table_view(tables[Source(node.0).as_table_spec().spec_id() as int]) == basic_table_view(
            c.spec_name(),
            c.spec_inputs(),
            c.spec_outputs(),
            c.spec_map(),
        ),
        Source(node.0).as_table_spec().spec_output() < c.spec_outputs().len(),
        Source(node.0).as_table_spec().spec_inputs() + c.spec_inputs().len() <= nodes.len(),
        forall|i: int|
            Source(node.0).as_table_spec().spec_inputs() <= i < Source(node.0).as_table_spec().spec_inputs() + c.spec_inputs().len()
                ==> #[trigger] nodes[i].spec_state() <= 1,
    ensures
        sim::can_step_node(nodes, tables, node),
        sim::next_state(nodes, tables, node) == (if sim::output_bit(
            gate_value(
                c,
                sim::binary_value(nodes, Source(node.0).as_table_spec().spec_inputs() as int, c.spec_inputs().len()) as int,
            ) as u64,
            Source(node.0).as_table_spec().spec_output() as u64,
        ) {
            1u8
        } else {
            0u8
        }),
{
    let t = Source(node.0).as_table_spec();
    let table = tables[t.spec_id() as int];
    let n = c.spec_inputs().len();
    assert(table.num_inputs as nat == n);
    assert(table.map@ == c.spec_map());
    sim::lemma_input_word_is_binary(nodes, t.spec_inputs() as int, n);
    lemma_starting_chip_truth_tables(c);
}

impl ChipSave {
    /// Whether the chip can be placed from address `min` (see `chip_fits`).
    pub fn fits_at(&self, min: u32) -> (r: bool)
        ensures
            r == chip_fits(self@, min),
    {
        if min as u64 + self.region_size as u64 > u32::MAX as u64 {
            return false;
        }
        let region = NodeRegion { min: NodeAddr(min), max: NodeAddr(min + self.region_size) };
        assert(region == chip_region(self@, min));
        named_fit_exec(&self.l_nodes, &region) && named_fit_exec(&self.r_nodes, &region) && inner_fit_exec(&self.inner_nodes, &region)
    }
}

/// Whether a node's source can be mapped into `region`.
fn can_map_src_exec(region: &NodeRegion, src: Source) -> (r: bool)
    ensures
        r == region.can_map_src(src),
{
    let ty = src.ty();
    if ty.0 == 1 {
        src.as_copy().addr().0 as u64 + region.min.0 as u64 <= u32::MAX as u64
    } else if ty.0 == 2 {
        src.as_table().inputs().0 as u64 + region.min.0 as u64 <= u32::MAX as u64
    } else {
        true
    }
}

/// Whether saved named nodes fit in `region` (see `named_fit`).
fn named_fit_exec(entries: &Vec<(String, NodeAddr, Node)>, region: &NodeRegion) -> (r: bool)
    ensures
        r == named_fit(named_nodes_view(entries@), *region),
{
    let ghost es = named_nodes_view(entries@);
    let mut i: usize = 0;
    while i < entries.len()
        invariant
            i <= entries@.len(),
            es == named_nodes_view(entries@),
            forall|j: int| 0 <= j < i ==> #[trigger] es[j].1.0 + region.min.0 < region.max.0
                && region.can_map_src(Source(es[j].2.0)),
        decreases entries@.len() - i,
    {
        assert(es[i as int] == (entries@[i as int].0@, entries@[i as int].1, entries@[i as int].2));
        if !((entries[i].1.0 as u64 + region.min.0 as u64) < region.max.0 as u64) {
            assert(!named_fit(es, *region)) by {
                assert(!(es[i as int].1.0 + region.min.0 < region.max.0));
            }
            return false;
        }
        if !can_map_src_exec(region, entries[i].2.source()) {
            assert(!named_fit(es, *region)) by {
                assert(!region.can_map_src(Source(es[i as int].2.0)));
            }
            return false;
        }
        i = i + 1;
    }
    true
}

/// Whether saved inner nodes fit in `region` (see `inner_fit`).
fn inner_fit_exec(entries: &Vec<(NodeAddr, Node)>, region: &NodeRegion) -> (r: bool)
    ensures
        r == inner_fit(entries@, *region),
{
    let mut i: usize = 0;
    while i < entries.len()
        invariant
            i <= entries@.len(),
            forall|j: int| 0 <= j < i ==> #[trigger] entries@[j].0.0 + region.min.0 < region.max.0
                && region.can_map_src(Source(entries@[j].1.0)),
        decreases entries@.len() - i,
    {
        if !((entries[i].0.0 as u64 + region.min.0 as u64) < region.max.0 as u64) {
            return false;
        }
        if !can_map_src_exec(region, entries[i].1.source()) {
            return false;
        }
        i = i + 1;
    }
    true
}

/// Packs a scene into a saved chip, as `create_chip_from_scene` does.
pub fn create_chip_save(scene: &Scene) -> (r: ChipSave)
    ensures
        packs_scene(r@, *scene),
{
    create_chip_from_scene(scene)
}


/// The saved inner nodes of a list of devices hold, for each device of the
/// list and each of its simulation nodes, that address with the node at it.
proof fn lemma_saved_inner_nodes_hold(devices: Seq<scene::Device>, nodes: Seq<Node>, k: int, m: int)
    requires
        0 <= k < devices.len(),
        0 <= m < devices[k].spec_sim_nodes().len(),
    ensures
        exists|j: int| 0 <= j < saved_inner_nodes(devices, nodes).len()
            && #[trigger] saved_inner_nodes(devices, nodes)[j] == (devices[k].spec_sim_nodes()[m], node_at(nodes, devices[k].spec_sim_nodes()[m])),
    decreases devices.len(),
{
    let s = saved_inner_nodes(devices, nodes);
    let prefix = saved_inner_nodes(devices.drop_last(), nodes);
    let tail = devices.last().spec_sim_nodes().map_values(|a: NodeAddr| (a, node_at(nodes, a)));
    assert(s == prefix + tail);
    if k == devices.len() - 1 {
        assert(s[prefix.len() + m] == tail[m]);
    } else {
        assert(devices.drop_last()[k] == devices[k]);
        lemma_saved_inner_nodes_hold(devices.drop_last(), nodes, k, m);
        let j = choose|j: int| 0 <= j < prefix.len()
            && #[trigger] prefix[j] == (devices[k].spec_sim_nodes()[m], node_at(nodes, devices[k].spec_sim_nodes()[m]));
        assert(s[j] == prefix[j]);
    }
}

/// Packing a scene saves every node of every one of its devices: for each
/// device of the scene and each address of one of its nodes (left, right, or a
/// chip's inner node), the packed chip's inner nodes hold that address with
/// the node the simulation has there.
pub proof fn lemma_packed_chip_keeps_device_nodes(c: ChipSaveView, scene: Scene, key: u64, a: NodeAddr)
    requires
        packs_scene(c, scene),
        scene.devices@.contains_key(key),
        scene::device_has_node(scene.devices@[key], a),
    ensures
        exists|j: int| 0 <= j < c.inner_nodes.len() && #[trigger] c.inner_nodes[j] == (a, node_at(scene.sim.nodes@, a)),
{
    let d = scene.devices@[key];
    let devs = device_order(scene);
    assert(scene.devices@.values().contains(d));
    assert(devs.to_set().contains(d));
    let k = choose|k: int| 0 <= k < devs.len() && devs[k] == d;
    scene::lemma_sim_nodes_cover(d);
    assert(d.spec_sim_nodes().contains(a));
    let m = choose|m: int| 0 <= m < d.spec_sim_nodes().len() && d.spec_sim_nodes()[m] == a;
    lemma_saved_inner_nodes_hold(devs, scene.sim.nodes@, k, m);
}


/// The output node of a basic chip reads its table from the chip's first node,
/// so its source maps into any region.
proof fn lemma_table_output_node_maps(id: u8, out: u8, region: NodeRegion)
    ensures
        region.can_map_src(Source(table_output_node(id, out).0)),
{
    let w = table_output_node(id, out).0;
    assert(((((2u64 << 48u64) | ((id as u64) << 40u64) | ((out as u64) << 32u64)) & 0x00FF_0000_0000_0000u64) >> 48u64) as u8 == 2u8
        && (((2u64 << 48u64) | ((id as u64) << 40u64) | ((out as u64) << 32u64)) as u32) == 0u32) by (bit_vector);
    assert(Source(w).spec_ty() == 2);
    assert(Source(w).as_table_spec().spec_inputs() == 0);
}

/// A basic chip (as `create_basic_chip` builds it) can be placed from any
/// address at which its region still ends at or below `u32::MAX`: every node,
/// the last output included, lies in the region, and every source maps into it.
/// In particular every such chip fits at address 1, the first free address of
/// an empty scene, whenever it has fewer than `u32::MAX` nodes.
pub proof fn lemma_basic_chip_fits(table_id: u8, name: Seq<char>, inputs: Seq<Seq<char>>, outputs: Seq<Seq<char>>, min: u32)
    requires
        min + inputs.len() + outputs.len() <= u32::MAX,
    ensures
        chip_fits(basic_chip_view(table_id, name, inputs, outputs), min),
{
    let c = basic_chip_view(table_id, name, inputs, outputs);
    let region = chip_region(c, min);
    assert(region.max.0 == min + inputs.len() + outputs.len());
    assert forall|i: int| 0 <= i < c.l_nodes.len() implies #[trigger] c.l_nodes[i].1.0 + region.min.0 < region.max.0
        && region.can_map_src(Source(c.l_nodes[i].2.0)) by {
        assert(Source(0u64).spec_ty() == 0) by {
            assert(((0u64 & 0x00FF_0000_0000_0000u64) >> 48u64) as u8 == 0u8) by (bit_vector);
        }
    }
    assert forall|i: int| 0 <= i < c.r_nodes.len() implies #[trigger] c.r_nodes[i].1.0 + region.min.0 < region.max.0
        && region.can_map_src(Source(c.r_nodes[i].2.0)) by {
        lemma_table_output_node_maps(table_id, i as u8, region);
    }
}

} // verus!
