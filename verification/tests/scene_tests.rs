use mlsim_common::geom::Vec2Bits;
use mlsim_common::save::IoType;
use mlsim_common::scene::{
    BuiltinDevice, BuiltinDeviceTy, Device, ExternalNodes, NodeIdent, Rotation, Scene, SceneOutput, Side, Wire,
};
use mlsim_common::sim::{NodeAddr, NodeRegion, Source};
use mlsim_common::Id;

fn pos(x: u32, y: u32) -> Vec2Bits {
    Vec2Bits { x, y }
}

/// A scene with one left external node at address 1 and one right at address 2.
fn scene_with_io() -> Scene {
    let mut scene = Scene::default();
    scene.l_nodes.add_node(&mut scene.sim);
    scene.r_nodes.add_node(&mut scene.sim);
    scene
}

#[test]
fn rotation_cycles_in_four_steps() {
    let r = Rotation::A0;
    assert_eq!(r.next(), Rotation::A270);
    assert_eq!(r.next().next(), Rotation::A180);
    assert_eq!(r.next().next().next(), Rotation::A90);
    assert_eq!(r.next().next().next().next(), Rotation::A0);
    assert_eq!(Rotation::default(), Rotation::A0);
}

#[test]
fn builtin_kinds() {
    assert_eq!(BuiltinDeviceTy::COUNT, 3);
    assert_eq!(BuiltinDeviceTy::from_u8(0), Some(BuiltinDeviceTy::Button));
    assert_eq!(BuiltinDeviceTy::from_u8(1), Some(BuiltinDeviceTy::Switch));
    assert_eq!(BuiltinDeviceTy::from_u8(2), Some(BuiltinDeviceTy::Light));
    assert_eq!(BuiltinDeviceTy::from_u8(3), None);
    assert_eq!(BuiltinDeviceTy::Button.name(), "Button");
    assert_eq!(BuiltinDeviceTy::Light.io(), (1, 0));
    assert_eq!(BuiltinDeviceTy::Switch.io(), (0, 1));
}

#[test]
fn external_nodes_add_and_remove() {
    let mut scene = Scene::default();
    let mut en = ExternalNodes::default();
    en.add_node(&mut scene.sim);
    en.add_node(&mut scene.sim);
    assert_eq!(en.states.len(), 2);
    assert_eq!(en.states[0].0 .0, 1);
    assert_eq!(en.states[1].0 .0, 2);
    assert_eq!(en.states[1].1, "unnamed");
    assert_eq!(en.node_addr(1), Some(NodeAddr(2)));
    assert_eq!(en.node_addr(2), None);
    assert_eq!(scene.sim.next_region, 3);
    let last = en.remove_node();
    assert_eq!(last.map(|e| e.0 .0), Some(2));
    en.remove_node();
    assert!(en.remove_node().is_none());
}

#[test]
fn scene_default_and_clear() {
    let mut scene = scene_with_io();
    scene.add_device(Device::Builtin(BuiltinDevice {
        ty: BuiltinDeviceTy::Light,
        region: NodeRegion::default(),
        pos: pos(0, 0),
        rotation: Rotation::A0,
        l_nodes: vec![],
        r_nodes: vec![],
    }));
    scene.clear();
    assert!(scene.l_nodes.states.is_empty() && scene.r_nodes.states.is_empty());
    assert!(scene.devices.is_empty() && scene.wires.is_empty());
    assert_eq!(scene.sim.nodes.len(), 1);
    assert_eq!(scene.sim.next_region, 1);
    assert_eq!(scene.save_attrs.name, "New Chip");
}

#[test]
fn place_builtin_names_and_zeroes_its_nodes() {
    let mut scene = scene_with_io();
    scene.sim.set_node(NodeAddr(1), mlsim_common::sim::Node::new(1, Source::new_none()));
    scene.place_builtin(BuiltinDeviceTy::Light, pos(5, 6));
    assert_eq!(scene.sim.next_region, 4);
    assert_eq!(scene.sim.nodes.len(), 4);
    assert_eq!(scene.sim.nodes[3].0, 0);
    assert_eq!(scene.sim.nodes[1].state(), 1);
    assert_eq!(scene.devices.len(), 1);
    let device = scene.devices.values().next().unwrap();
    match device {
        Device::Builtin(b) => {
            assert_eq!(b.ty, BuiltinDeviceTy::Light);
            assert_eq!((b.region.min.0, b.region.max.0), (3, 4));
            assert_eq!(b.pos, pos(5, 6));
            assert_eq!(b.l_nodes.len(), 1);
            assert_eq!(b.l_nodes[0].0 .0, 3);
            assert_eq!(b.l_nodes[0].1, "in0");
            assert_eq!(b.l_nodes[0].2, IoType::Input);
            assert!(b.r_nodes.is_empty());
        },
        Device::Chip(_) => panic!("expected a builtin device"),
    }
    assert_eq!(device.name(), "Light");
    assert_eq!(device.sim_nodes(), vec![NodeAddr(3)]);
    assert_eq!(device.node_addr(Side::Left, 0), Some(NodeAddr(3)));
    assert_eq!(device.node_addr(Side::Right, 0), None);
}

#[test]
fn place_builtin_output_names_count_up() {
    let mut scene = Scene::default();
    scene.place_builtin(BuiltinDeviceTy::Switch, pos(0, 0));
    let device = scene.devices.values().next().unwrap();
    assert_eq!(device.r_nodes()[0].1, "out0");
    assert_eq!(device.r_nodes()[0].2, IoType::Output);
    assert_eq!(device.r_nodes()[0].0 .0, 1);
}

#[test]
fn add_device_uses_a_hashed_id() {
    let mut scene = Scene::default();
    scene.place_builtin(BuiltinDeviceTy::Button, pos(0, 0));
    let id = *scene.devices.keys().next().unwrap();
    let ident = NodeIdent::DeviceR(Id(id), 0);
    assert_eq!(scene.node_addr(ident), Some(NodeAddr(1)));
    assert_eq!(scene.node_addr(NodeIdent::DeviceR(Id(id), 1)), None);
    assert_eq!(scene.node_addr(NodeIdent::DeviceL(Id(id.wrapping_add(1)), 0)), None);
    scene.remove_device(Id(id));
    assert!(scene.devices.is_empty());
}

#[test]
fn connect_wire_sets_copy_source_and_replaces_old_wire() {
    let mut scene = scene_with_io();
    let src = (NodeIdent::LExternal(0), NodeAddr(1));
    let dst = (NodeIdent::RExternal(0), NodeAddr(2));
    scene.connect_wire(src, dst, vec![pos(1, 1)]);
    assert_eq!(scene.wires.len(), 1);
    assert_eq!(scene.sim.get_node(NodeAddr(2)).source().ty().0, 1);
    assert_eq!(scene.sim.get_node(NodeAddr(2)).source().as_copy().addr().0, 1);
    scene.connect_wire(src, dst, vec![]);
    assert_eq!(scene.wires.len(), 1);
    assert!(scene.wires[0].anchors.is_empty());
    assert_eq!(scene.wires[0].input, NodeIdent::LExternal(0));
    assert_eq!(scene.wires[0].output, NodeIdent::RExternal(0));
}

#[test]
fn rm_wire_by_target_removes_first_match() {
    let mut scene = scene_with_io();
    scene.wires.push(Wire { input: NodeIdent::LExternal(0), output: NodeIdent::LExternal(5), anchors: vec![] });
    scene.wires.push(Wire { input: NodeIdent::LExternal(0), output: NodeIdent::RExternal(0), anchors: vec![] });
    scene.wires.push(Wire { input: NodeIdent::RExternal(0), output: NodeIdent::RExternal(0), anchors: vec![] });
    let w = scene.rm_wire_by_target(NodeAddr(2)).unwrap();
    assert_eq!(w.input, NodeIdent::LExternal(0));
    assert_eq!(scene.wires.len(), 2);
    assert!(scene.rm_wire_by_target(NodeAddr(77)).is_none());
    assert_eq!(scene.wires.len(), 2);
}

#[test]
fn remove_wire_clears_the_target_source() {
    let mut scene = scene_with_io();
    scene.connect_wire((NodeIdent::LExternal(0), NodeAddr(1)), (NodeIdent::RExternal(0), NodeAddr(2)), vec![]);
    let w = scene.remove_wire(0);
    assert_eq!(w.output, NodeIdent::RExternal(0));
    assert!(scene.wires.is_empty());
    assert_eq!(scene.sim.get_node(NodeAddr(2)).source().ty().0, 0);
}

#[test]
fn wire_to_remove_picks_last_dangling_or_clicked() {
    let mut scene = scene_with_io();
    scene.wires.push(Wire { input: NodeIdent::LExternal(0), output: NodeIdent::RExternal(0), anchors: vec![] });
    scene.wires.push(Wire { input: NodeIdent::LExternal(3), output: NodeIdent::RExternal(0), anchors: vec![] });
    scene.wires.push(Wire { input: NodeIdent::LExternal(0), output: NodeIdent::RExternal(0), anchors: vec![] });
    assert_eq!(scene.wire_to_remove(&[]), Some(1));
    assert_eq!(scene.wire_to_remove(&[false, false, true]), Some(2));
    scene.wires.remove(1);
    assert_eq!(scene.wire_to_remove(&[false, false]), None);
    assert_eq!(scene.wire_to_remove(&[true]), Some(0));
}

#[test]
fn scene_output_default_is_empty() {
    let out = SceneOutput::default();
    assert!(!out.item_hovered);
    assert!(out.clicked_node.is_none() && out.toggle_node_state.is_none());
    assert!(out.clicked_chip.is_none() && out.rclicked_chip.is_none());
}

#[test]
fn scene_clone_keeps_contents() {
    let mut scene = scene_with_io();
    scene.place_builtin(BuiltinDeviceTy::Light, pos(1, 2));
    scene.connect_wire((NodeIdent::LExternal(0), NodeAddr(1)), (NodeIdent::RExternal(0), NodeAddr(2)), vec![pos(3, 4)]);
    let copy = scene.clone();
    assert_eq!(copy.sim.nodes.len(), scene.sim.nodes.len());
    assert_eq!(copy.devices.len(), 1);
    assert_eq!(copy.wires[0].anchors, vec![pos(3, 4)]);
    assert_eq!(copy.l_nodes.states, scene.l_nodes.states);
}
