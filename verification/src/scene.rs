use std::collections::HashMap;
use vstd::prelude::*;

use crate::geom::{TransformBits, Vec2Bits};
use crate::save::{ChipAttrs, IoType};
use crate::sim::{NodeAddr, NodeRegion, Sim, Source};
use crate::Id;

verus! {

broadcast use vstd::std_specs::hash::group_hash_axioms;

/// A random `u32` from `fastrand`'s thread-local generator.
///
/// Trusted: nothing is stated of the value, which comes from a random generator.
#[verifier::external_body]
fn random_u32() -> u32 {
    fastrand::u32(..)
}

/// The rotation of a device, in steps of a quarter turn.
#[derive(Clone, Copy, PartialEq, Eq, Debug, Structural)]
pub enum Rotation {
    A0,
    A90,
    A180,
    A270,
}

impl Default for Rotation {
    fn default() -> (r: Rotation)
        ensures
            r == Rotation::A0,
    {
        Rotation::A0
    }
}

impl Rotation {
    /// The rotation a quarter turn further (A0 -> A270 -> A180 -> A90 -> A0).
    pub open spec fn spec_next(self) -> Rotation {
        match self {
            Rotation::A0 => Rotation::A270,
            Rotation::A90 => Rotation::A0,
            Rotation::A180 => Rotation::A90,
            Rotation::A270 => Rotation::A180,
        }
    }

    /// The rotation a quarter turn further (A0 -> A270 -> A180 -> A90 -> A0).
    pub fn next(self) -> (r: Rotation)
        ensures
            r == self.spec_next(),
    {
        match self {
            Rotation::A0 => Rotation::A270,
            Rotation::A90 => Rotation::A0,
            Rotation::A180 => Rotation::A90,
            Rotation::A270 => Rotation::A180,
        }
    }
}

/// Four quarter turns bring a rotation back to itself.
pub proof fn lemma_rotation_full_turn(r: Rotation)
    ensures
        r.spec_next().spec_next().spec_next().spec_next() == r,
{
}

/// Names a node of a scene: an external node on the left or right, or a left
/// or right node of a device.
#[derive(Clone, Copy, PartialEq, Eq, Debug, Structural)]
pub enum NodeIdent {
    LExternal(u32),
    RExternal(u32),
    DeviceL(Id, u32),
    DeviceR(Id, u32),
}

/// A side of a device.
#[derive(Clone, Copy, PartialEq, Eq, Debug, Structural)]
pub enum Side {
    Left,
    Right,
}

/// A wire from an input node to an output node, through anchor points.
#[derive(Debug)]
pub struct Wire {
    pub input: NodeIdent,
    pub output: NodeIdent,
    pub anchors: Vec<Vec2Bits>,
}

/// A bundle of wires.
#[derive(Debug)]
pub struct WireBundle {
    pub inputs: Vec<NodeIdent>,
    pub outputs: Vec<NodeIdent>,
    pub anchors: Vec<Vec2Bits>,
}

/// The external input or output nodes of a scene: their position and, for
/// each node, its address and name.
#[derive(Debug)]
pub struct ExternalNodes {
    pub pos: Vec2Bits,
    pub states: Vec<(NodeAddr, String)>,
}

impl Default for ExternalNodes {
    fn default() -> (r: ExternalNodes)
        ensures
            r.pos.x == 0 && r.pos.y == 0,
            r.states@.len() == 0,
    {
        ExternalNodes { pos: Vec2Bits { x: 0, y: 0 }, states: Vec::new() }
    }
}

/// The address of the `idx`-th entry of a node list, if there is one.
pub open spec fn entry_addr<T>(nodes: Seq<(NodeAddr, T)>, idx: u32) -> Option<NodeAddr> {
    if idx < nodes.len() {
        Some(nodes[idx as int].0)
    } else {
        None
    }
}

/// The address of the `idx`-th entry of a device's node list, if there is one.
pub open spec fn io_entry_addr(nodes: Seq<(NodeAddr, String, IoType)>, idx: u32) -> Option<NodeAddr> {
    if idx < nodes.len() {
        Some(nodes[idx as int].0)
    } else {
        None
    }
}

impl ExternalNodes {
    /// The address of the `idx`-th node, if there is one.
    pub fn node_addr(&self, idx: u32) -> (r: Option<NodeAddr>)
        ensures
            r == entry_addr(self.states@, idx),
    {
        if (idx as usize) < self.states.len() {
            Some(self.states[idx as usize].0)
        } else {
            None
        }
    }

    /// Allocates a node in `sim` and adds it, named "unnamed".
    pub fn add_node(&mut self, sim: &mut Sim)
        requires
            old(sim).next_region < u32::MAX,
        ensures
            final(self).pos == old(self).pos,
            final(self).states@.len() == old(self).states@.len() + 1,
            final(self).states@.subrange(0, old(self).states@.len() as int) == old(self).states@,
            final(self).states@.last().0.0 == old(sim).next_region,
            final(self).states@.last().1@ == "unnamed"@,
            final(sim).next_region == old(sim).next_region + 1,
            final(sim).nodes@.len() == old(sim).next_region + 1,
            forall|i: int| 0 <= i < final(sim).nodes@.len() ==> #[trigger] final(sim).nodes@[i] == (if i < old(sim).nodes@.len() { old(sim).nodes@[i] } else { crate::sim::Node(0) }),
    {
        let addr = sim.alloc_node();
        self.states.push((addr, String::from_str("unnamed")));
        assert(self.states@.subrange(0, old(self).states@.len() as int) =~= old(self).states@);
    }

    /// Removes the last node, if there is one (its simulation node stays).
    pub fn remove_node(&mut self) -> (r: Option<(NodeAddr, String)>)
        ensures
            final(self).pos == old(self).pos,
            old(self).states@.len() == 0 ==> r is None && final(self).states@ == old(self).states@,
            old(self).states@.len() > 0 ==> r == Some(old(self).states@.last())
                && final(self).states@ == old(self).states@.drop_last(),
    {
        self.states.pop()
    }
}

/// Events a scene reports to the page around it.
#[derive(Debug)]
pub struct SceneOutput {
    pub item_hovered: bool,
    pub clicked_node: Option<(NodeIdent, NodeAddr)>,
    pub toggle_node_state: Option<NodeAddr>,
    pub clicked_chip: Option<Id>,
    pub rclicked_chip: Option<Id>,
}

impl Default for SceneOutput {
    fn default() -> (r: SceneOutput)
        ensures
            !r.item_hovered,
            r.clicked_node is None,
            r.toggle_node_state is None,
            r.clicked_chip is None,
            r.rclicked_chip is None,
    {
        SceneOutput {
            item_hovered: false,
            clicked_node: None,
            toggle_node_state: None,
            clicked_chip: None,
            rclicked_chip: None,
        }
    }
}

/// The kinds of builtin devices.
#[derive(Clone, Copy, PartialEq, Eq, Debug, Structural)]
pub enum BuiltinDeviceTy {
    Button,
    Switch,
    Light,
}

impl BuiltinDeviceTy {
    /// The number of kinds of builtin devices.
    pub const COUNT: u8 = 3;

    /// The name of the kind.
    pub fn name(self) -> (r: &'static str)
        ensures
            r@ == (match self {
                BuiltinDeviceTy::Button => "Button"@,
                BuiltinDeviceTy::Switch => "Switch"@,
                BuiltinDeviceTy::Light => "Light"@,
            }),
    {
        match self {
            BuiltinDeviceTy::Button => "Button",
            BuiltinDeviceTy::Switch => "Switch",
            BuiltinDeviceTy::Light => "Light",
        }
    }

    /// The kind numbered `v` (Button 0, Switch 1, Light 2), if `v` is below `COUNT`.
    pub fn from_u8(v: u8) -> (r: Option<BuiltinDeviceTy>)
        ensures
            v == 0 ==> r == Some(BuiltinDeviceTy::Button),
            v == 1 ==> r == Some(BuiltinDeviceTy::Switch),
            v == 2 ==> r == Some(BuiltinDeviceTy::Light),
            v >= 3 ==> r is None,
    {
        if v == 0 {
            Some(BuiltinDeviceTy::Button)
        } else if v == 1 {
            Some(BuiltinDeviceTy::Switch)
        } else if v == 2 {
            Some(BuiltinDeviceTy::Light)
        } else {
            None
        }
    }

    /// The number of (inputs, outputs) of the kind.
    pub open spec fn spec_io(self) -> (u8, u8) {
        match self {
            BuiltinDeviceTy::Button => (0, 1),
            BuiltinDeviceTy::Switch => (0, 1),
            BuiltinDeviceTy::Light => (1, 0),
        }
    }

    /// The number of (inputs, outputs) of the kind.
    pub fn io(self) -> (r: (u8, u8))
        ensures
            r == self.spec_io(),
    {
        match self {
            BuiltinDeviceTy::Button => (0, 1),
            BuiltinDeviceTy::Switch => (0, 1),
            BuiltinDeviceTy::Light => (1, 0),
        }
    }
}

/// A builtin device placed in a scene.
#[derive(Debug)]
pub struct BuiltinDevice {
    pub ty: BuiltinDeviceTy,
    pub region: NodeRegion,
    pub pos: Vec2Bits,
    pub rotation: Rotation,
    pub l_nodes: Vec<(NodeAddr, String, IoType)>,
    pub r_nodes: Vec<(NodeAddr, String, IoType)>,
}

/// A chip placed in a scene.
#[derive(Debug)]
pub struct Chip {
    pub attrs: ChipAttrs,
    pub region: NodeRegion,
    pub pos: Vec2Bits,
    pub rotation: Rotation,
    pub save: Option<usize>,
    pub l_nodes: Vec<(NodeAddr, String, IoType)>,
    pub r_nodes: Vec<(NodeAddr, String, IoType)>,
    pub inner_nodes: Vec<NodeAddr>,
}

/// The addresses of a node list, in order.
pub open spec fn io_addrs(nodes: Seq<(NodeAddr, String, IoType)>) -> Seq<NodeAddr> {
    nodes.map_values(|e: (NodeAddr, String, IoType)| e.0)
}

/// Appends the addresses of `nodes` to `out`.
fn push_addrs(out: &mut Vec<NodeAddr>, nodes: &Vec<(NodeAddr, String, IoType)>)
    ensures
        final(out)@ == old(out)@ + io_addrs(nodes@),
{
    let ghost start = out@;
    let mut i: usize = 0;
    while i < nodes.len()
        invariant
            i <= nodes@.len(),
            out@ == start + io_addrs(nodes@).subrange(0, i as int),
        decreases nodes@.len() - i,
    {
        out.push(nodes[i].0);
        i = i + 1;
        assert(io_addrs(nodes@).subrange(0, i as int) =~= io_addrs(nodes@).subrange(0, (i - 1) as int).push(nodes@[i - 1].0));
    }
    assert(io_addrs(nodes@).subrange(0, i as int) =~= io_addrs(nodes@));
}

/// A device of a scene: a chip or a builtin device.
#[derive(Debug)]
pub enum Device {
    Chip(Chip),
    Builtin(BuiltinDevice),
}

impl Device {
    /// The left node list of the device.
    pub open spec fn spec_l_nodes(self) -> Seq<(NodeAddr, String, IoType)> {
        match self {
            Device::Chip(x) => x.l_nodes@,
            Device::Builtin(x) => x.l_nodes@,
        }
    }

    /// The right node list of the device.
    pub open spec fn spec_r_nodes(self) -> Seq<(NodeAddr, String, IoType)> {
        match self {
            Device::Chip(x) => x.r_nodes@,
            Device::Builtin(x) => x.r_nodes@,
        }
    }

    /// The addresses of all nodes of the device: left, right, then (for a chip) inner.
    pub open spec fn spec_sim_nodes(self) -> Seq<NodeAddr> {
        match self {
            Device::Chip(x) => io_addrs(x.l_nodes@) + io_addrs(x.r_nodes@) + x.inner_nodes@,
            Device::Builtin(x) => io_addrs(x.l_nodes@) + io_addrs(x.r_nodes@),
        }
    }

    /// The address of the `idx`-th node on `side`, if there is one.
    pub open spec fn spec_node_addr(self, side: Side, idx: u32) -> Option<NodeAddr> {
        match side {
            Side::Left => io_entry_addr(self.spec_l_nodes(), idx),
            Side::Right => io_entry_addr(self.spec_r_nodes(), idx),
        }
    }

    /// The name of the device: a chip's name, or the name of a builtin kind.
    pub fn name(&self) -> (r: &str)
        ensures
            r@ == (match self {
                Device::Chip(x) => x.attrs.name@,
                Device::Builtin(x) => (match x.ty {
                    BuiltinDeviceTy::Button => "Button"@,
                    BuiltinDeviceTy::Switch => "Switch"@,
                    BuiltinDeviceTy::Light => "Light"@,
                }),
            }),
    {
        match self {
            Device::Chip(chip) => chip.attrs.name.as_str(),
            Device::Builtin(builtin) => builtin.ty.name(),
        }
    }

    /// The left node list of the device.
    pub fn l_nodes(&self) -> (r: &[(NodeAddr, String, IoType)])
        ensures
            r@ == self.spec_l_nodes(),
    {
        match self {
            Device::Chip(x) => x.l_nodes.as_slice(),
            Device::Builtin(x) => x.l_nodes.as_slice(),
        }
    }

    /// The right node list of the device.
    pub fn r_nodes(&self) -> (r: &[(NodeAddr, String, IoType)])
        ensures
            r@ == self.spec_r_nodes(),
    {
        match self {
            Device::Chip(x) => x.r_nodes.as_slice(),
            Device::Builtin(x) => x.r_nodes.as_slice(),
        }
    }

    /// The position of the device.
    pub fn pos(&self) -> (r: Vec2Bits)
        ensures
            r == (match self {
                Device::Chip(x) => x.pos,
                Device::Builtin(x) => x.pos,
            }),
    {
        match self {
            Device::Chip(x) => x.pos,
            Device::Builtin(x) => x.pos,
        }
    }

    /// The addresses of all nodes of the device: left, right, then (for a chip) inner.
    pub fn sim_nodes(&self) -> (r: Vec<NodeAddr>)
        ensures
            r@ == self.spec_sim_nodes(),
    {
        let mut out: Vec<NodeAddr> = Vec::new();
        match self {
            Device::Chip(x) => {
                push_addrs(&mut out, &x.l_nodes);
                push_addrs(&mut out, &x.r_nodes);
                let ghost mid = out@;
                let mut i: usize = 0;
                while i < x.inner_nodes.len()
                    invariant
                        i <= x.inner_nodes@.len(),
                        out@ == mid + x.inner_nodes@.subrange(0, i as int),
                    decreases x.inner_nodes@.len() - i,
                {
                    out.push(x.inner_nodes[i]);
                    i = i + 1;
                    assert(x.inner_nodes@.subrange(0, i as int) =~= x.inner_nodes@.subrange(0, (i - 1) as int).push(x.inner_nodes@[i - 1]));
                }
                assert(x.inner_nodes@.subrange(0, i as int) =~= x.inner_nodes@);
                assert(out@ =~= self.spec_sim_nodes());
            },
            Device::Builtin(x) => {
                push_addrs(&mut out, &x.l_nodes);
                push_addrs(&mut out, &x.r_nodes);
                assert(out@ =~= self.spec_sim_nodes());
            },
        }
        out
    }

    /// The address of the `idx`-th node on `side`, if there is one.
    pub fn node_addr(&self, side: Side, idx: u32) -> (r: Option<NodeAddr>)
        ensures
            r == self.spec_node_addr(side, idx),
    {
        let nodes = match side {
            Side::Left => self.l_nodes(),
            Side::Right => self.r_nodes(),
        };
        if (idx as usize) < nodes.len() {
            Some(nodes[idx as usize].0)
        } else {
            None
        }
    }
}

/// A scene: a simulation, the attributes of the chip it packs into, a view
/// transform, external nodes on both sides, devices by id, and wires.
#[derive(Debug)]
pub struct Scene {
    pub sim: Sim,
    pub save_attrs: ChipAttrs,
    pub transform: TransformBits,
    pub l_nodes: ExternalNodes,
    pub r_nodes: ExternalNodes,
    pub devices: HashMap<u64, Device>,
    pub wires: Vec<Wire>,
    pub wire_bundles: Vec<WireBundle>,
}

impl Scene {
    /// The address of the node an identifier names, if there is one.
    pub open spec fn spec_node_addr(self, ident: NodeIdent) -> Option<NodeAddr> {
        match ident {
            NodeIdent::LExternal(idx) => entry_addr(self.l_nodes.states@, idx),
            NodeIdent::RExternal(idx) => entry_addr(self.r_nodes.states@, idx),
            NodeIdent::DeviceL(id, idx) => if self.devices@.contains_key(id.0) {
                self.devices@[id.0].spec_node_addr(Side::Left, idx)
            } else {
                None
            },
            NodeIdent::DeviceR(id, idx) => if self.devices@.contains_key(id.0) {
                self.devices@[id.0].spec_node_addr(Side::Right, idx)
            } else {
                None
            },
        }
    }

    /// The address of the node an identifier names, if there is one.
    pub fn node_addr(&self, ident: NodeIdent) -> (r: Option<NodeAddr>)
        ensures
            r == self.spec_node_addr(ident),
    {
        match ident {
            NodeIdent::LExternal(idx) => self.l_nodes.node_addr(idx),
            NodeIdent::RExternal(idx) => self.r_nodes.node_addr(idx),
            NodeIdent::DeviceL(id, idx) => match self.devices.get(&id.0) {
                Some(d) => d.node_addr(Side::Left, idx),
                None => None,
            },
            NodeIdent::DeviceR(id, idx) => match self.devices.get(&id.0) {
                Some(d) => d.node_addr(Side::Right, idx),
                None => None,
            },
        }
    }
}

/// A copy of a list of addressed names.
fn clone_named(v: &Vec<(NodeAddr, String)>) -> (r: Vec<(NodeAddr, String)>)
    ensures
        r@ == v@,
{
    let mut out: Vec<(NodeAddr, String)> = Vec::new();
    let mut i: usize = 0;
    while i < v.len()
        invariant
            i <= v@.len(),
            out@ == v@.subrange(0, i as int),
        decreases v@.len() - i,
    {
        out.push((v[i].0, v[i].1.clone()));
        i = i + 1;
        assert(out@ =~= v@.subrange(0, i as int));
    }
    assert(v@.subrange(0, i as int) =~= v@);
    out
}

/// A copy of a device's node list.
fn clone_io(v: &Vec<(NodeAddr, String, IoType)>) -> (r: Vec<(NodeAddr, String, IoType)>)
    ensures
        r@ == v@,
{
    let mut out: Vec<(NodeAddr, String, IoType)> = Vec::new();
    let mut i: usize = 0;
    while i < v.len()
        invariant
            i <= v@.len(),
            out@ == v@.subrange(0, i as int),
        decreases v@.len() - i,
    {
        out.push((v[i].0, v[i].1.clone(), v[i].2));
        i = i + 1;
        assert(out@ =~= v@.subrange(0, i as int));
    }
    assert(v@.subrange(0, i as int) =~= v@);
    out
}

/// A copy of a list of values that are copied by `clone`.
pub(crate) fn clone_plain<T: Copy>(v: &Vec<T>) -> (r: Vec<T>)
    ensures
        r@ == v@,
{
    let mut out: Vec<T> = Vec::new();
    let mut i: usize = 0;
    while i < v.len()
        invariant
            i <= v@.len(),
            out@ == v@.subrange(0, i as int),
        decreases v@.len() - i,
    {
        out.push(v[i]);
        i = i + 1;
        assert(out@ =~= v@.subrange(0, i as int));
    }
    assert(v@.subrange(0, i as int) =~= v@);
    out
}

/// The contents of a wire.
pub ghost struct WireView {
    pub input: NodeIdent,
    pub output: NodeIdent,
    pub anchors: Seq<Vec2Bits>,
}

impl View for Wire {
    type V = WireView;

    open spec fn view(&self) -> WireView {
        WireView { input: self.input, output: self.output, anchors: self.anchors@ }
    }
}

impl Clone for Wire {
    fn clone(&self) -> (r: Wire)
        ensures
            r@ == self@,
    {
        Wire { input: self.input, output: self.output, anchors: clone_plain(&self.anchors) }
    }
}

/// The contents of a wire bundle.
pub ghost struct WireBundleView {
    pub inputs: Seq<NodeIdent>,
    pub outputs: Seq<NodeIdent>,
    pub anchors: Seq<Vec2Bits>,
}

impl View for WireBundle {
    type V = WireBundleView;

    open spec fn view(&self) -> WireBundleView {
        WireBundleView { inputs: self.inputs@, outputs: self.outputs@, anchors: self.anchors@ }
    }
}

impl Clone for WireBundle {
    fn clone(&self) -> (r: WireBundle)
        ensures
            r@ == self@,
    {
        WireBundle {
            inputs: clone_plain(&self.inputs),
            outputs: clone_plain(&self.outputs),
            anchors: clone_plain(&self.anchors),
        }
    }
}

/// The contents of a list of external nodes.
pub ghost struct ExternalNodesView {
    pub pos: Vec2Bits,
    pub states: Seq<(NodeAddr, String)>,
}

impl View for ExternalNodes {
    type V = ExternalNodesView;

    open spec fn view(&self) -> ExternalNodesView {
        ExternalNodesView { pos: self.pos, states: self.states@ }
    }
}

impl Clone for ExternalNodes {
    fn clone(&self) -> (r: ExternalNodes)
        ensures
            r@ == self@,
    {
        ExternalNodes { pos: self.pos, states: clone_named(&self.states) }
    }
}

/// The contents of a builtin device.
pub ghost struct BuiltinDeviceView {
    pub ty: BuiltinDeviceTy,
    pub region: NodeRegion,
    pub pos: Vec2Bits,
    pub rotation: Rotation,
    pub l_nodes: Seq<(NodeAddr, String, IoType)>,
    pub r_nodes: Seq<(NodeAddr, String, IoType)>,
}

impl View for BuiltinDevice {
    type V = BuiltinDeviceView;

    open spec fn view(&self) -> BuiltinDeviceView {
        BuiltinDeviceView {
            ty: self.ty,
            region: self.region,
            pos: self.pos,
            rotation: self.rotation,
            l_nodes: self.l_nodes@,
            r_nodes: self.r_nodes@,
        }
    }
}

impl Clone for BuiltinDevice {
    fn clone(&self) -> (r: BuiltinDevice)
        ensures
            r@ == self@,
    {
        BuiltinDevice {
            ty: self.ty,
            region: self.region.clone(),
            pos: self.pos,
            rotation: self.rotation,
            l_nodes: clone_io(&self.l_nodes),
            r_nodes: clone_io(&self.r_nodes),
        }
    }
}

/// The contents of a chip placed in a scene.
pub ghost struct ChipView {
    pub attrs: ChipAttrs,
    pub region: NodeRegion,
    pub pos: Vec2Bits,
    pub rotation: Rotation,
    pub save: Option<usize>,
    pub l_nodes: Seq<(NodeAddr, String, IoType)>,
    pub r_nodes: Seq<(NodeAddr, String, IoType)>,
    pub inner_nodes: Seq<NodeAddr>,
}

impl View for Chip {
    type V = ChipView;

    open spec fn view(&self) -> ChipView {
        ChipView {
            attrs: self.attrs,
            region: self.region,
            pos: self.pos,
            rotation: self.rotation,
            save: self.save,
            l_nodes: self.l_nodes@,
            r_nodes: self.r_nodes@,
            inner_nodes: self.inner_nodes@,
        }
    }
}

impl Clone for Chip {
    fn clone(&self) -> (r: Chip)
        ensures
            r@ == self@,
    {
        Chip {
            attrs: self.attrs.clone(),
            region: self.region.clone(),
            pos: self.pos,
            rotation: self.rotation,
            save: self.save,
            l_nodes: clone_io(&self.l_nodes),
            r_nodes: clone_io(&self.r_nodes),
            inner_nodes: clone_plain(&self.inner_nodes),
        }
    }
}

/// The contents of a device.
pub ghost enum DeviceView {
    Chip(ChipView),
    Builtin(BuiltinDeviceView),
}

impl View for Device {
    type V = DeviceView;

    open spec fn view(&self) -> DeviceView {
        match self {
            Device::Chip(x) => DeviceView::Chip(x@),
            Device::Builtin(x) => DeviceView::Builtin(x@),
        }
    }
}

impl Clone for Device {
    fn clone(&self) -> (r: Device)
        ensures
            r@ == self@,
    {
        match self {
            Device::Chip(x) => Device::Chip(x.clone()),
            Device::Builtin(x) => Device::Builtin(x.clone()),
        }
    }
}

/// A copy of a list of wires.
fn clone_wires(v: &Vec<Wire>) -> (r: Vec<Wire>)
    ensures
        r@.len() == v@.len(),
        forall|i: int| 0 <= i < v@.len() ==> #[trigger] r@[i]@ == v@[i]@,
{
    let mut out: Vec<Wire> = Vec::new();
    let mut i: usize = 0;
    while i < v.len()
        invariant
            i <= v@.len(),
            out@.len() == i,
            forall|j: int| 0 <= j < i ==> #[trigger] out@[j]@ == v@[j]@,
        decreases v@.len() - i,
    {
        out.push(v[i].clone());
        i = i + 1;
    }
    out
}

/// A copy of a list of wire bundles.
fn clone_bundles(v: &Vec<WireBundle>) -> (r: Vec<WireBundle>)
    ensures
        r@.len() == v@.len(),
        forall|i: int| 0 <= i < v@.len() ==> #[trigger] r@[i]@ == v@[i]@,
{
    let mut out: Vec<WireBundle> = Vec::new();
    let mut i: usize = 0;
    while i < v.len()
        invariant
            i <= v@.len(),
            out@.len() == i,
            forall|j: int| 0 <= j < i ==> #[trigger] out@[j]@ == v@[j]@,
        decreases v@.len() - i,
    {
        out.push(v[i].clone());
        i = i + 1;
    }
    out
}

/// The contents of a scene.
pub ghost struct SceneView {
    pub nodes: Seq<crate::sim::Node>,
    pub next_region: u32,
    pub save_attrs: ChipAttrs,
    pub transform: TransformBits,
    pub l_nodes: ExternalNodesView,
    pub r_nodes: ExternalNodesView,
    pub devices: Map<u64, Device>,
    pub wires: Seq<WireView>,
    pub wire_bundles: Seq<WireBundleView>,
}

impl View for Scene {
    type V = SceneView;

    open spec fn view(&self) -> SceneView {
        SceneView {
            nodes: self.sim.nodes@,
            next_region: self.sim.next_region,
            save_attrs: self.save_attrs,
            transform: self.transform,
            l_nodes: self.l_nodes@,
            r_nodes: self.r_nodes@,
            devices: self.devices@,
            wires: self.wires@.map_values(|w: Wire| w@),
            wire_bundles: self.wire_bundles@.map_values(|b: WireBundle| b@),
        }
    }
}

impl Clone for Scene {
    fn clone(&self) -> (r: Scene)
        ensures
            r@ == self@,
    {
        let wires = clone_wires(&self.wires);
        let wire_bundles = clone_bundles(&self.wire_bundles);
        let r = Scene {
            sim: self.sim.clone(),
            save_attrs: self.save_attrs.clone(),
            transform: self.transform,
            l_nodes: self.l_nodes.clone(),
            r_nodes: self.r_nodes.clone(),
            devices: self.devices.clone(),
            wires,
            wire_bundles,
        };
        assert(r.wires@.map_values(|w: Wire| w@) =~= self.wires@.map_values(|w: Wire| w@));
        assert(r.wire_bundles@.map_values(|b: WireBundle| b@) =~= self.wire_bundles@.map_values(
            |b: WireBundle| b@,
        ));
        r
    }
}

/// Whether `s` is an empty scene as a new scene starts: one zero node and the
/// next region at 1, the default attributes ("New Chip", "Basic",
/// combinational), no offset and scale 1, no external nodes on either side at
/// the origin, and no devices, wires or bundles.
pub open spec fn is_default_scene(s: Scene) -> bool {
    &&& s.sim.nodes@.len() == 1
    &&& s.sim.nodes@[0].0 == 0
    &&& s.sim.next_region == 1
    &&& s.save_attrs.name@ == "New Chip"@
    &&& s.save_attrs.category@ == "Basic"@
    &&& s.save_attrs.logic == crate::save::Logic::Combinational
    &&& s.transform.offset.x == 0 && s.transform.offset.y == 0
    &&& s.transform.scale == crate::geom::ONE_F32_BITS
    &&& s.l_nodes.pos.x == 0 && s.l_nodes.pos.y == 0 && s.l_nodes.states@.len() == 0
    &&& s.r_nodes.pos.x == 0 && s.r_nodes.pos.y == 0 && s.r_nodes.states@.len() == 0
    &&& s.devices@ == Map::<u64, Device>::empty()
    &&& s.wires@.len() == 0
    &&& s.wire_bundles@.len() == 0
}

impl Default for Scene {
    /// An empty scene: a default simulation and attributes, no nodes, devices or wires.
    fn default() -> (r: Scene)
        ensures
            is_default_scene(r),
    {
        Scene {
            sim: Sim::default(),
            save_attrs: ChipAttrs::default(),
            transform: TransformBits::default(),
            l_nodes: ExternalNodes::default(),
            r_nodes: ExternalNodes::default(),
            devices: HashMap::new(),
            wires: Vec::new(),
            wire_bundles: Vec::new(),
        }
    }
}


/// Whether `after` is `before` with `src` wired to `dst` through `anchors`: the
/// first wire that led to the node at `dst.1`, if any, is gone; that node keeps
/// its state and copies the node at `src.1`; the new wire is last; nothing
/// else changes.
pub open spec fn connects_wire(
    before: Scene,
    after: Scene,
    src: (NodeIdent, NodeAddr),
    dst: (NodeIdent, NodeAddr),
    anchors: Seq<Vec2Bits>,
) -> bool {
    &&& after.sim.next_region == before.sim.next_region
    &&& after.sim.nodes@.len() == before.sim.nodes@.len()
    &&& after.sim.nodes@[dst.1.0 as int].spec_state() == before.sim.nodes@[dst.1.0 as int].spec_state()
    &&& after.sim.nodes@[dst.1.0 as int].spec_source_bits() == (1u64 << 48u64) | (src.1.0 as u64)
    &&& crate::sim::Source(after.sim.nodes@[dst.1.0 as int].0).spec_ty() == 1
    &&& crate::sim::Source(after.sim.nodes@[dst.1.0 as int].0).as_copy_spec().spec_addr() == src.1.0
    &&& forall|i: int| 0 <= i < before.sim.nodes@.len() && i != dst.1.0 ==> #[trigger] after.sim.nodes@[i] == before.sim.nodes@[i]
    &&& after.wires@.len() >= 1
    &&& after.wires@.last()@ == (WireView { input: src.0, output: dst.0, anchors: anchors })
    &&& (forall|i: int| 0 <= i < before.wires@.len() ==> !before.wire_targets(i, dst.1)) ==> after.wires@.drop_last() == before.wires@
    &&& (exists|i: int| 0 <= i < before.wires@.len() && before.wire_targets(i, dst.1)) ==> exists|i: int|
        0 <= i < before.wires@.len() && before.wire_targets(i, dst.1) && (forall|j: int| 0 <= j < i ==> !before.wire_targets(j, dst.1))
            && after.wires@.drop_last() == before.wires@.remove(i)
    &&& after.devices == before.devices
    &&& after.l_nodes == before.l_nodes
    &&& after.r_nodes == before.r_nodes
    &&& after.save_attrs == before.save_attrs
    &&& after.transform == before.transform
    &&& after.wire_bundles == before.wire_bundles
}

impl Scene {
    /// Whether the output of the `i`-th wire is the node at `addr`.
    pub open spec fn wire_targets(self, i: int, addr: NodeAddr) -> bool {
        self.spec_node_addr(self.wires@[i].output) == Some(addr)
    }

    /// Empties the scene: no external nodes, devices or wires, a cleared
    /// simulation; the attributes, transform and external node positions stay.
    pub fn clear(&mut self)
        ensures
            final(self).l_nodes.states@.len() == 0,
            final(self).r_nodes.states@.len() == 0,
            final(self).l_nodes.pos == old(self).l_nodes.pos,
            final(self).r_nodes.pos == old(self).r_nodes.pos,
            final(self).devices@ == Map::<u64, Device>::empty(),
            final(self).wires@.len() == 0,
            final(self).wire_bundles@.len() == 0,
            final(self).sim.nodes@.len() == 1,
            final(self).sim.nodes@[0].0 == 0,
            final(self).sim.next_region == 1,
            final(self).save_attrs == old(self).save_attrs,
            final(self).transform == old(self).transform,
    {
        self.l_nodes.states.clear();
        self.r_nodes.states.clear();
        self.devices.clear();
        self.wires.clear();
        self.wire_bundles.clear();
        self.sim.clear();
    }

    /// Removes and returns the first wire whose output is the node at `output`,
    /// if there is one.
    pub fn rm_wire_by_target(&mut self, output: NodeAddr) -> (r: Option<Wire>)
        ensures
            final(self).sim == old(self).sim,
            final(self).devices == old(self).devices,
            final(self).l_nodes == old(self).l_nodes,
            final(self).r_nodes == old(self).r_nodes,
            final(self).save_attrs == old(self).save_attrs,
            final(self).transform == old(self).transform,
            final(self).wire_bundles == old(self).wire_bundles,
            match r {
                Some(w) => exists|i: int|
                    0 <= i < old(self).wires@.len() && old(self).wire_targets(i, output) && (forall|j: int| 0 <= j < i ==> !old(self).wire_targets(j, output))
                        && w == old(self).wires@[i] && final(self).wires@ == old(self).wires@.remove(i),
                None => (forall|i: int| 0 <= i < old(self).wires@.len() ==> !old(self).wire_targets(i, output))
                    && final(self).wires@ == old(self).wires@,
            },
    {
        let mut idx: usize = 0;
        while idx < self.wires.len()
            invariant
                *self == *old(self),
                idx <= self.wires@.len(),
                forall|j: int| 0 <= j < idx ==> !self.wire_targets(j, output),
            decreases self.wires@.len() - idx,
        {
            let found = self.node_addr(self.wires[idx].output);
            if let Some(a) = found {
                if a.0 == output.0 {
                    assert(a == output);
                    assert(old(self).wire_targets(idx as int, output));
                    let w = self.wires.remove(idx);
                    return Some(w);
                }
            }
            idx = idx + 1;
        }
        None
    }

    /// Adds `device` under the id of a random number, replacing a device with that id.
    pub fn add_device(&mut self, device: Device)
        ensures
            exists|k: u32| final(self).devices@ == old(self).devices@.insert(#[trigger] Id::spec_new(k), device),
            final(self).sim == old(self).sim,
            final(self).wires == old(self).wires,
            final(self).l_nodes == old(self).l_nodes,
            final(self).r_nodes == old(self).r_nodes,
            final(self).save_attrs == old(self).save_attrs,
            final(self).transform == old(self).transform,
            final(self).wire_bundles == old(self).wire_bundles,
    {
        let k = random_u32();
        let id = Id::new(k);
        self.devices.insert(id.0, device);
    }

    /// Connects the node `src` to the node `dst` by a wire through `anchors`:
    /// removes the wire that led to the node at `dst.1` (the first one, if any),
    /// makes that node copy the node at `src.1`, and adds the wire.
    pub fn connect_wire(&mut self, src: (NodeIdent, NodeAddr), dst: (NodeIdent, NodeAddr), anchors: Vec<Vec2Bits>)
        requires
            dst.1.0 < old(self).sim.nodes@.len(),
        ensures
            connects_wire(*old(self), *final(self), src, dst, anchors@),
    {
        let _ = self.rm_wire_by_target(dst.1);
        let new_src = Source::new_addr(src.1);
        let ghost before = self.sim.nodes@;
        self.sim.set_node_src(dst.1, new_src);
        proof {
            let n = self.sim.nodes@[dst.1.0 as int];
            let w = n.0;
            let v = new_src.0;
            assert((w & 0x00FF_FFFF_FFFF_FFFFu64) == (v & 0x00FF_FFFF_FFFF_FFFFu64) ==> ((w
                & 0x00FF_0000_0000_0000u64) >> 48u64) as u8 == ((v & 0x00FF_0000_0000_0000u64)
                >> 48u64) as u8 && ((w & 0xFFFF_FFFFu64) as u32) == ((v & 0xFFFF_FFFFu64) as u32))
                by (bit_vector);
        }
        let a: u32 = src.1.0;
        assert(((1u64 << 48u64) | (a as u64)) & 0x00FF_FFFF_FFFF_FFFFu64 == (1u64 << 48u64) | (a as u64)) by (bit_vector);
        let ghost mid = self.wires@;
        self.wires.push(Wire { input: src.0, output: dst.0, anchors });
        assert(self.wires@.drop_last() =~= mid);
    }

    /// Removes the `idx`-th wire; the node its output names, if any, loses its source.
    pub fn remove_wire(&mut self, idx: usize) -> (r: Wire)
        requires
            idx < old(self).wires@.len(),
            old(self).spec_node_addr(old(self).wires@[idx as int].output) matches Some(a) ==> a.0 < old(self).sim.nodes@.len(),
        ensures
            r == old(self).wires@[idx as int],
            final(self).wires@ == old(self).wires@.remove(idx as int),
            final(self).sim.next_region == old(self).sim.next_region,
            final(self).sim.nodes@.len() == old(self).sim.nodes@.len(),
            match old(self).spec_node_addr(r.output) {
                Some(a) => final(self).sim.nodes@[a.0 as int].spec_state() == old(self).sim.nodes@[a.0 as int].spec_state()
                    && final(self).sim.nodes@[a.0 as int].spec_source_bits() == 0
                    && forall|i: int| 0 <= i < old(self).sim.nodes@.len() && i != a.0 ==> #[trigger] final(self).sim.nodes@[i] == old(self).sim.nodes@[i],
                None => final(self).sim.nodes@ == old(self).sim.nodes@,
            },
            final(self).devices == old(self).devices,
            final(self).l_nodes == old(self).l_nodes,
            final(self).r_nodes == old(self).r_nodes,
            final(self).save_attrs == old(self).save_attrs,
            final(self).transform == old(self).transform,
            final(self).wire_bundles == old(self).wire_bundles,
    {
        let wire = self.wires.remove(idx);
        let dst = self.node_addr(wire.output);
        if let Some(a) = dst {
            let none = Source::new_none();
            self.sim.set_node_src(a, none);
            assert(0u64 & 0x00FF_FFFF_FFFF_FFFFu64 == 0) by (bit_vector);
        }
        wire
    }
}

/// The decimal digit `d` as a character.
pub open spec fn digit_char(d: nat) -> char {
    (48 + d) as char
}

/// The decimal representation of `n`, without leading zeros.
pub open spec fn decimal(n: nat) -> Seq<char>
    decreases n,
{
    if n < 10 {
        seq![digit_char(n)]
    } else {
        decimal(n / 10).push(digit_char(n % 10))
    }
}

/// The decimal digit `d` as a one-character string.
fn digit_str(d: u8) -> (r: &'static str)
    requires
        d < 10,
    ensures
        r@ == seq![digit_char(d as nat)],
{
    proof {
        reveal_strlit("0");
        reveal_strlit("1");
        reveal_strlit("2");
        reveal_strlit("3");
        reveal_strlit("4");
        reveal_strlit("5");
        reveal_strlit("6");
        reveal_strlit("7");
        reveal_strlit("8");
        reveal_strlit("9");
    }
    let r = match d {
        0 => "0",
        1 => "1",
        2 => "2",
        3 => "3",
        4 => "4",
        5 => "5",
        6 => "6",
        7 => "7",
        8 => "8",
        _ => "9",
    };
    assert(r@ =~= seq![digit_char(d as nat)]);
    r
}

/// `prefix` followed by `i` written in decimal.
fn numbered_name(prefix: &str, i: u8) -> (r: String)
    ensures
        r@ == prefix@ + decimal(i as nat),
{
    let mut r = String::from_str(prefix);
    if i >= 100 {
        r.append(digit_str(i / 100));
        r.append(digit_str((i / 10) % 10));
        r.append(digit_str(i % 10));
        proof {
            reveal_with_fuel(decimal, 3);
            assert(decimal(i as nat) =~= seq![digit_char((i / 100) as nat), digit_char(((i / 10) % 10) as nat), digit_char((i % 10) as nat)]);
        }
    } else if i >= 10 {
        r.append(digit_str(i / 10));
        r.append(digit_str(i % 10));
        proof {
            reveal_with_fuel(decimal, 2);
            assert(decimal(i as nat) =~= seq![digit_char((i / 10) as nat), digit_char((i % 10) as nat)]);
        }
    } else {
        r.append(digit_str(i));
    }
    assert(r@ =~= prefix@ + decimal(i as nat));
    r
}

/// The nodes `prefix0`, `prefix1`, ... of a builtin device: `n` nodes of kind
/// `ty`, at consecutive addresses from `start`.
pub open spec fn builtin_io(prefix: Seq<char>, n: u8, start: int, ty: IoType) -> Seq<(NodeAddr, Seq<char>, IoType)> {
    Seq::new(n as nat, |i: int| (NodeAddr((start + i) as u32), prefix + decimal(i as nat), ty))
}

/// Lists `n` nodes named `prefix0`, `prefix1`, ... at the region's addresses
/// from `offset`, and zeroes them in `sim`.
fn place_builtin_nodes(sim: &mut Sim, region: &NodeRegion, prefix: &str, n: u8, offset: u8, ty: IoType) -> (r: Vec<(NodeAddr, String, IoType)>)
    requires
        region.min.0 + offset + n <= region.max.0,
        old(sim).nodes@.len() == region.max.0,
    ensures
        final(sim).nodes@.len() == old(sim).nodes@.len(),
        final(sim).next_region == old(sim).next_region,
        forall|i: int| 0 <= i < final(sim).nodes@.len() ==> #[trigger] final(sim).nodes@[i] == (if region.min.0 + offset <= i < region.min.0 + offset + n { crate::sim::Node(0) } else { old(sim).nodes@[i] }),
        crate::save::io_view(r@) == builtin_io(prefix@, n, region.min.0 + offset, ty),
{
    let ghost target = builtin_io(prefix@, n, region.min.0 + offset, ty);
    let mut out: Vec<(NodeAddr, String, IoType)> = Vec::new();
    let mut i: u8 = 0;
    while i < n
        invariant
            i <= n,
            region.min.0 + offset + n <= region.max.0,
            target == builtin_io(prefix@, n, region.min.0 + offset, ty),
            sim.nodes@.len() == region.max.0,
            sim.next_region == old(sim).next_region,
            forall|j: int| 0 <= j < sim.nodes@.len() ==> #[trigger] sim.nodes@[j] == (if region.min.0 + offset <= j < region.min.0 + offset + i { crate::sim::Node(0) } else { old(sim).nodes@[j] }),
            crate::save::io_view(out@) == target.subrange(0, i as int),
        decreases n - i,
    {
        let addr = region.map(NodeAddr(i as u32 + offset as u32));
        sim.set_node(addr, crate::sim::Node::default());
        let ghost prev = out@;
        assert(crate::save::io_view(prev).len() == i);
        out.push((addr, numbered_name(prefix, i), ty));
        proof {
            assert(crate::save::io_view(out@)[i as int] == target[i as int]);
            assert forall|k: int| 0 <= k < i implies crate::save::io_view(out@)[k] == crate::save::io_view(prev)[k] by {
                assert(out@[k] == prev[k]);
            }
        }
        i = i + 1;
        assert(crate::save::io_view(out@) =~= target.subrange(0, i as int));
    }
    assert(target.subrange(0, i as int) =~= target);
    out
}

/// Whether `after` is `before` with a builtin device of kind `ty` placed at
/// `pos`: a region for its inputs then outputs is allocated and zeroed, its
/// nodes are named `in0`, `in1`, ... and `out0`, `out1`, ..., and it is added
/// unrotated under the id of some number; nothing else changes.
pub open spec fn places_builtin(before: Scene, after: Scene, ty: BuiltinDeviceTy, pos: Vec2Bits) -> bool {
    let min = before.sim.next_region;
    let (ni, no) = ty.spec_io();
    let max = min + ni + no;
    &&& after.sim.next_region == max
    &&& after.sim.nodes@.len() == max
    &&& forall|i: int| 0 <= i < max ==> #[trigger] after.sim.nodes@[i] == (if i < min && i < before.sim.nodes@.len() { before.sim.nodes@[i] } else { crate::sim::Node(0) })
    &&& exists|k: u32, d: BuiltinDevice|
        #![trigger Id::spec_new(k), d.pos]
        after.devices@ == before.devices@.insert(Id::spec_new(k), Device::Builtin(d))
        && d.ty == ty && d.region.min.0 == min && d.region.max.0 == max && d.pos == pos
        && d.rotation == Rotation::A0
        && crate::save::io_view(d.l_nodes@) == builtin_io("in"@, ni, min as int, IoType::Input)
        && crate::save::io_view(d.r_nodes@) == builtin_io("out"@, no, min + ni, IoType::Output)
    &&& after.wires == before.wires
    &&& after.wire_bundles == before.wire_bundles
    &&& after.l_nodes == before.l_nodes
    &&& after.r_nodes == before.r_nodes
    &&& after.save_attrs == before.save_attrs
    &&& after.transform == before.transform
}

impl Scene {
    /// Places a builtin device of kind `ty` at `pos`: allocates a region for its
    /// inputs then outputs, zeroes their nodes, names them `in0`, `in1`, ... and
    /// `out0`, `out1`, ..., and adds the device under a random id.
    pub fn place_builtin(&mut self, ty: BuiltinDeviceTy, pos: Vec2Bits)
        requires
            old(self).sim.next_region + ty.spec_io().0 + ty.spec_io().1 <= u32::MAX,
        ensures
            places_builtin(*old(self), *final(self), ty, pos),
    {
        let (input_count, output_count) = ty.io();
        let region = self.sim.alloc_region(input_count as u32 + output_count as u32);
        let l_nodes = place_builtin_nodes(&mut self.sim, &region, "in", input_count, 0, IoType::Input);
        let r_nodes = place_builtin_nodes(&mut self.sim, &region, "out", output_count, input_count, IoType::Output);
        let device = BuiltinDevice { ty, region, pos, rotation: Rotation::A0, l_nodes, r_nodes };
        let ghost d = device;
        self.add_device(Device::Builtin(device));
        assert(d.pos == pos);
    }
}

impl Scene {
    /// Whether the `i`-th wire is to be removed: one of its ends names no node,
    /// or it was right-clicked.
    pub open spec fn wire_goes(self, i: int, rclicked: Seq<bool>) -> bool {
        ||| self.spec_node_addr(self.wires@[i].input) is None
        ||| self.spec_node_addr(self.wires@[i].output) is None
        ||| (i < rclicked.len() && rclicked[i])
    }

    /// The last wire to be removed, if any: one whose end names no node, or
    /// that was right-clicked (`rclicked[i]` for the `i`-th wire).
    pub fn wire_to_remove(&self, rclicked: &[bool]) -> (r: Option<usize>)
        ensures
            match r {
                Some(i) => i < self.wires@.len() && self.wire_goes(i as int, rclicked@)
                    && forall|j: int| i < j < self.wires@.len() ==> !self.wire_goes(j, rclicked@),
                None => forall|j: int| 0 <= j < self.wires@.len() ==> !self.wire_goes(j, rclicked@),
            },
            forall|j: int| 0 <= j < self.wires@.len() && (self.spec_node_addr(#[trigger] self.wires@[j].input) is None
                || self.spec_node_addr(self.wires@[j].output) is None || (j < rclicked@.len() && rclicked@[j]))
                ==> (r matches Some(i) && j <= i),
    {
        let mut found: Option<usize> = None;
        let mut idx: usize = 0;
        while idx < self.wires.len()
            invariant
                idx <= self.wires@.len(),
                match found {
                    Some(i) => i < idx && self.wire_goes(i as int, rclicked@)
                        && forall|j: int| i < j < idx ==> !self.wire_goes(j, rclicked@),
                    None => forall|j: int| 0 <= j < idx ==> !self.wire_goes(j, rclicked@),
                },
            decreases self.wires@.len() - idx,
        {
            let src = self.node_addr(self.wires[idx].input);
            let dst = self.node_addr(self.wires[idx].output);
            let clicked = idx < rclicked.len() && rclicked[idx];
            if src.is_none() || dst.is_none() || clicked {
                found = Some(idx);
            }
            idx = idx + 1;
        }
        proof {
            assert forall|j: int| 0 <= j < self.wires@.len() && (self.spec_node_addr(#[trigger] self.wires@[j].input) is None
                || self.spec_node_addr(self.wires@[j].output) is None || (j < rclicked@.len() && rclicked@[j]))
                implies (found matches Some(i) && j <= i) by {
                assert(self.wire_goes(j, rclicked@));
            }
        }
        found
    }

    /// Removes the device `id`, if there is one.
    pub fn remove_device(&mut self, id: Id)
        ensures
            final(self).devices@ == old(self).devices@.remove(id.0),
            final(self).sim == old(self).sim,
            final(self).wires == old(self).wires,
            final(self).l_nodes == old(self).l_nodes,
            final(self).r_nodes == old(self).r_nodes,
            final(self).save_attrs == old(self).save_attrs,
            final(self).transform == old(self).transform,
            final(self).wire_bundles == old(self).wire_bundles,
    {
        self.devices.remove(&id.0);
    }
}


/// An identifier names the node its list holds at its index: an external node
/// by its place in the left or right external nodes, a device node by its place
/// in the device's left or right node list. A missing device, or an index past
/// the end of its list, names no node.
pub proof fn lemma_node_addr_names(scene: Scene, ident: NodeIdent)
    ensures
        (match ident {
            NodeIdent::LExternal(idx) => scene.spec_node_addr(ident) == (if idx < scene.l_nodes.states@.len() {
                Some(scene.l_nodes.states@[idx as int].0)
            } else {
                None
            }),
            NodeIdent::RExternal(idx) => scene.spec_node_addr(ident) == (if idx < scene.r_nodes.states@.len() {
                Some(scene.r_nodes.states@[idx as int].0)
            } else {
                None
            }),
            NodeIdent::DeviceL(id, idx) => scene.spec_node_addr(ident) == (if scene.devices@.contains_key(id.0)
                && idx < scene.devices@[id.0].spec_l_nodes().len() {
                Some(scene.devices@[id.0].spec_l_nodes()[idx as int].0)
            } else {
                None
            }),
            NodeIdent::DeviceR(id, idx) => scene.spec_node_addr(ident) == (if scene.devices@.contains_key(id.0)
                && idx < scene.devices@[id.0].spec_r_nodes().len() {
                Some(scene.devices@[id.0].spec_r_nodes()[idx as int].0)
            } else {
                None
            }),
        }),
{
}

/// A wire goes when its input or its output names no node, or when it was
/// right-clicked; a wire whose both ends name nodes and that was not
/// right-clicked stays.
pub proof fn lemma_wire_goes(scene: Scene, i: int, rclicked: Seq<bool>)
    requires
        0 <= i < scene.wires@.len(),
    ensures
        scene.spec_node_addr(scene.wires@[i].input) is None ==> scene.wire_goes(i, rclicked),
        scene.spec_node_addr(scene.wires@[i].output) is None ==> scene.wire_goes(i, rclicked),
        i < rclicked.len() && rclicked[i] ==> scene.wire_goes(i, rclicked),
        scene.spec_node_addr(scene.wires@[i].input) is Some && scene.spec_node_addr(scene.wires@[i].output) is Some
            && !(i < rclicked.len() && rclicked[i]) ==> !scene.wire_goes(i, rclicked),
{
}


/// Whether `a` is the address of one of the nodes of device `d`: a node of its
/// left or right list, or an inner node of a chip.
pub open spec fn device_has_node(d: Device, a: NodeAddr) -> bool {
    ||| exists|i: int| 0 <= i < d.spec_l_nodes().len() && d.spec_l_nodes()[i].0 == a
    ||| exists|i: int| 0 <= i < d.spec_r_nodes().len() && d.spec_r_nodes()[i].0 == a
    ||| (d matches Device::Chip(c) && c.inner_nodes@.contains(a))
}

/// The simulation nodes of a device are all its nodes, each in its place:
/// first the addresses of its left nodes, then those of its right nodes, then,
/// for a chip, its inner nodes; nothing else.
pub proof fn lemma_sim_nodes_cover(d: Device)
    ensures
        ({
            let l = d.spec_l_nodes();
            let r = d.spec_r_nodes();
            let s = d.spec_sim_nodes();
            &&& d matches Device::Chip(c) ==> s.len() == l.len() + r.len() + c.inner_nodes@.len()
            &&& d matches Device::Builtin(_) ==> s.len() == l.len() + r.len()
            &&& forall|i: int| 0 <= i < l.len() ==> s[i] == #[trigger] l[i].0
            &&& forall|i: int| 0 <= i < r.len() ==> s[l.len() + i] == #[trigger] r[i].0
            &&& d matches Device::Chip(c) ==> forall|i: int|
                0 <= i < c.inner_nodes@.len() ==> s[l.len() + r.len() + i] == #[trigger] c.inner_nodes@[i]
            &&& forall|a: NodeAddr| #[trigger] s.contains(a) <==> device_has_node(d, a)
        }),
{
    let l = d.spec_l_nodes();
    let r = d.spec_r_nodes();
    let s = d.spec_sim_nodes();
    assert forall|a: NodeAddr| #[trigger] s.contains(a) <==> device_has_node(d, a) by {
        if s.contains(a) {
            let k = choose|k: int| 0 <= k < s.len() && s[k] == a;
            if k < l.len() {
                assert(l[k].0 == a);
            } else if k < l.len() + r.len() {
                assert(r[k - l.len()].0 == a);
            } else {
                match d {
                    Device::Chip(c) => {
                        assert(c.inner_nodes@[k - l.len() - r.len()] == a);
                    },
                    Device::Builtin(_) => {},
                }
            }
        }
        if device_has_node(d, a) {
            if exists|i: int| 0 <= i < l.len() && l[i].0 == a {
                let i = choose|i: int| 0 <= i < l.len() && l[i].0 == a;
                assert(s[i] == a);
            } else if exists|i: int| 0 <= i < r.len() && r[i].0 == a {
                let i = choose|i: int| 0 <= i < r.len() && r[i].0 == a;
                assert(s[l.len() + i] == a);
            } else {
                match d {
                    Device::Chip(c) => {
                        let i = choose|i: int| 0 <= i < c.inner_nodes@.len() && c.inner_nodes@[i] == a;
                        assert(s[l.len() + r.len() + i] == a);
                    },
                    Device::Builtin(_) => {},
                }
            }
        }
    }
}


/// Connecting a wire into a node leaves exactly one wire leading into it: if
/// before no two wires led into the node at `dst.1`, and `dst.0` names that
/// node, then afterwards the new wire, the last one, leads into it and no other
/// wire does.
pub proof fn lemma_connect_single_wire(
    before: Scene,
    after: Scene,
    src: (NodeIdent, NodeAddr),
    dst: (NodeIdent, NodeAddr),
    anchors: Seq<Vec2Bits>,
)
    requires
        connects_wire(before, after, src, dst, anchors),
        before.spec_node_addr(dst.0) == Some(dst.1),
        forall|i: int, j: int| 0 <= i < j < before.wires@.len() ==> !(#[trigger] before.wire_targets(i, dst.1) && #[trigger] before.wire_targets(j, dst.1)),
    ensures
        after.wire_targets(after.wires@.len() - 1, dst.1),
        forall|i: int| 0 <= i < after.wires@.len() - 1 ==> !#[trigger] after.wire_targets(i, dst.1),
{
    let n = after.wires@.len();
    assert(after.wires@[n - 1]@.output == dst.0);
    assert(after.spec_node_addr(dst.0) == before.spec_node_addr(dst.0));
    assert forall|i: int| 0 <= i < n - 1 implies !#[trigger] after.wire_targets(i, dst.1) by {
        assert(after.wires@[i] == after.wires@.drop_last()[i]);
        if exists|k: int| 0 <= k < before.wires@.len() && before.wire_targets(k, dst.1) {
            let k = choose|k: int| 0 <= k < before.wires@.len() && before.wire_targets(k, dst.1)
                && (forall|j: int| 0 <= j < k ==> !before.wire_targets(j, dst.1))
                && after.wires@.drop_last() == before.wires@.remove(k);
            let rest = before.wires@.remove(k);
            assert(rest.len() == before.wires@.len() - 1);
            if i < k {
                assert(rest[i] == before.wires@[i]);
                assert(!before.wire_targets(i, dst.1));
            } else {
                assert(rest[i] == before.wires@[i + 1]);
                assert(before.wire_targets(k, dst.1));
                assert(!before.wire_targets(i + 1, dst.1));
            }
        } else {
            assert(after.wires@[i] == before.wires@[i]);
            assert(!before.wire_targets(i, dst.1));
        }
        assert(after.spec_node_addr(after.wires@[i].output) == before.spec_node_addr(after.wires@[i].output));
    }
}


/// Whether identifier `ident` names a node of the device `id`.
pub open spec fn names_device(ident: NodeIdent, id: Id) -> bool {
    ||| ident matches NodeIdent::DeviceL(d, _) && d == id
    ||| ident matches NodeIdent::DeviceR(d, _) && d == id
}

/// Once a device is removed, every wire into or out of one of its nodes names
/// no node at that end, so it is among the wires to be removed.
pub proof fn lemma_removed_device_wires_go(scene: Scene, id: Id, i: int, rclicked: Seq<bool>)
    requires
        !scene.devices@.contains_key(id.0),
        0 <= i < scene.wires@.len(),
        names_device(scene.wires@[i].input, id) || names_device(scene.wires@[i].output, id),
    ensures
        scene.wire_goes(i, rclicked),
{
}

} // verus!
