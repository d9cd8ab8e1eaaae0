use mlsim_common::geom::Vec2Bits;
use mlsim_common::save::{
    create_basic_chip, create_chip_from_scene, create_chip_save, io_ty, place_chip, ChipAttrs, ChipSave, IoType, ItemColor, Library,
    Logic, Project, StartingChip,
};
use mlsim_common::scene::{BuiltinDeviceTy, Device, Rotation, Scene};
use mlsim_common::sim::{Node, NodeAddr, Sim, Source, TruthTable, TruthTableId, TruthTableSource};

fn chip(name: &str, category: &str) -> ChipSave {
    ChipSave {
        builtin: false,
        region_size: 0,
        attrs: ChipAttrs { name: String::from(name), category: String::from(category), logic: Logic::Combinational },
        scene: None,
        l_nodes: vec![],
        r_nodes: vec![],
        inner_nodes: vec![],
    }
}

fn all_starting_chips() -> Vec<StartingChip> {
    (0..StartingChip::COUNT).map(|i| StartingChip::from_u8(i).unwrap()).collect()
}

/// Runs a one-step simulation of a starting chip's table on the given input bits.
fn gate_outputs(chip: StartingChip, inputs: &[u8]) -> Vec<u8> {
    let mut library = Library::default();
    chip.create(&mut library);
    let save = &library.chips[0];
    let mut scene = Scene::default();
    place_chip(&mut scene, Some(0), save, Vec2Bits { x: 0, y: 0 }, Rotation::A0);
    let region_min = 1u32;
    for (i, bit) in inputs.iter().enumerate() {
        let addr = NodeAddr(region_min + i as u32);
        scene.sim.set_node(addr, Node::new(*bit, Source::new_none()));
    }
    assert!(scene.sim.can_update(&library.tables));
    scene.sim.update(&library.tables);
    save.r_nodes
        .iter()
        .map(|(_, addr, _)| scene.sim.get_node(NodeAddr(addr.0 + region_min)).state())
        .collect()
}

#[test]
fn logic_cycles_back() {
    assert_eq!(Logic::Sequential.cycle(), Logic::Combinational);
    assert_eq!(Logic::Combinational.cycle().cycle(), Logic::Combinational);
    let mut l = Logic::Sequential;
    l.cycle_in_place();
    assert_eq!(l, Logic::Combinational);
}

#[test]
fn chip_attrs_default() {
    let a = ChipAttrs::default();
    assert_eq!(a.name, "New Chip");
    assert_eq!(a.category, "Basic");
    assert_eq!(a.logic, Logic::Combinational);
}

#[test]
fn starting_chip_from_u8() {
    assert_eq!(StartingChip::from_u8(0), Some(StartingChip::And));
    assert_eq!(StartingChip::from_u8(7), Some(StartingChip::Adder));
    assert_eq!(StartingChip::from_u8(8), None);
    assert_eq!(all_starting_chips().len(), 8);
}

#[test]
fn item_color_from_u8_and_rgba() {
    assert_eq!(ItemColor::from_u8(11), Some(ItemColor::Pink));
    assert_eq!(ItemColor::from_u8(12), None);
    assert_eq!(ItemColor::Pink.as_color().0, 0xFC88A3FF);
    assert_eq!(ItemColor::Gray.as_color().0, 0x646464FF);
    assert_eq!(ItemColor::Orange.as_color().0, 0xFF5F00FF);
    assert_eq!(ItemColor::Black.as_color().0, 0x000000FF);
}

#[test]
fn create_basic_chip_builds_table_and_chip() {
    let (table, chip) = create_basic_chip(TruthTableId(3), "Xor", &["a", "b"], &["out"], vec![0, 1, 1, 0]);
    assert_eq!((table.num_inputs, table.num_outputs), (2, 1));
    assert_eq!(table.name, "Xor");
    assert_eq!(table.map, vec![0, 1, 1, 0]);
    assert!(chip.builtin);
    assert_eq!(chip.region_size, 3);
    assert_eq!(chip.attrs.name, "Xor");
    assert_eq!(chip.attrs.category, "Basic");
    assert_eq!(chip.l_nodes.len(), 2);
    assert_eq!(chip.l_nodes[1].0, "b");
    assert_eq!(chip.l_nodes[1].1 .0, 1);
    assert_eq!(chip.l_nodes[1].2 .0, 0);
    assert_eq!(chip.r_nodes[0].0, "out");
    assert_eq!(chip.r_nodes[0].1 .0, 2);
    let src = chip.r_nodes[0].2.source().as_table();
    assert_eq!((src.id().0, src.output(), src.inputs().0), (3, 0, 0));
    assert!(chip.inner_nodes.is_empty() && chip.scene.is_none());
}

#[test]
fn starting_chip_create_adds_table_and_chip() {
    let mut library = Library::default();
    StartingChip::And.create(&mut library);
    StartingChip::Adder.create(&mut library);
    assert_eq!(library.tables.len(), 2);
    assert_eq!(library.chips.len(), 2);
    assert_eq!(library.tables[1].name, "Adder");
    assert_eq!(library.tables[1].map, vec![0b00, 0b01, 0b01, 0b10, 0b01, 0b10, 0b10, 0b11]);
    assert_eq!(library.chips[1].r_nodes[1].2.source().as_table().id().0, 1);
    assert_eq!(library.chips[1].l_nodes[2].0, "cin");
}

#[test]
fn starting_chips_compute_their_gates() {
    for a in 0..2u8 {
        assert_eq!(gate_outputs(StartingChip::Not, &[a]), vec![1 - a]);
        for b in 0..2u8 {
            assert_eq!(gate_outputs(StartingChip::And, &[a, b]), vec![a & b]);
            assert_eq!(gate_outputs(StartingChip::Nand, &[a, b]), vec![1 - (a & b)]);
            assert_eq!(gate_outputs(StartingChip::Or, &[a, b]), vec![a | b]);
            assert_eq!(gate_outputs(StartingChip::Nor, &[a, b]), vec![1 - (a | b)]);
            assert_eq!(gate_outputs(StartingChip::Xor, &[a, b]), vec![a ^ b]);
            assert_eq!(gate_outputs(StartingChip::HalfAdder, &[a, b]), vec![(a + b) & 1, (a + b) >> 1]);
            for c in 0..2u8 {
                assert_eq!(gate_outputs(StartingChip::Adder, &[a, b, c]), vec![(a + b + c) & 1, (a + b + c) >> 1]);
            }
        }
    }
}

#[test]
fn project_new_holds_starting_chips_in_order() {
    let p = Project::new(String::from("p"), vec![StartingChip::Not, StartingChip::And]);
    assert_eq!(p.name, "p");
    assert!(p.scenes.is_empty());
    let names: Vec<&str> = p.library.chips.iter().map(|c| c.attrs.name.as_str()).collect();
    assert_eq!(names, vec!["Not", "And"]);
    assert_eq!(p.library.tables[0].name, "Not");
    let empty = Project::new(String::new(), vec![]);
    assert!(empty.library.chips.is_empty() && empty.library.tables.is_empty());
    let d = Project::default();
    assert!(d.name.is_empty() && d.scenes.is_empty());
}

#[test]
fn library_categories_are_distinct_in_first_order() {
    let mut library = Library::default();
    for (n, c) in [("a", "Basic"), ("b", "Mem"), ("c", "Basic"), ("d", "Io"), ("e", "Mem")] {
        library.add_chip(chip(n, c));
    }
    assert_eq!(library.categories(), vec!["Basic", "Mem", "Io"]);
    let in_mem: Vec<(usize, String)> =
        library.chips_in_category("Mem").iter().map(|(i, c)| (*i, c.attrs.name.clone())).collect();
    assert_eq!(in_mem, vec![(1, String::from("b")), (4, String::from("e"))]);
    assert!(library.chips_in_category("None").is_empty());
    assert!(Library::default().categories().is_empty());
}

#[test]
fn library_allocate_table_empty_counts_up() {
    let mut library = Library::default();
    assert_eq!(library.allocate_table_empty().0, 0);
    assert_eq!(library.allocate_table_empty().0, 1);
    assert_eq!(library.tables.len(), 2);
    assert_eq!(library.tables[1].map.len(), 0);
}

#[test]
fn library_save_chip_replaces_by_name_or_appends() {
    let mut library = Library::default();
    library.add_chip(chip("x", "A"));
    library.add_chip(chip("y", "A"));
    library.save_chip(chip("y", "B"));
    assert_eq!(library.chips.len(), 2);
    assert_eq!(library.chips[1].attrs.category, "B");
    library.save_chip(chip("z", "C"));
    assert_eq!(library.chips.len(), 3);
    assert_eq!(library.chips[2].attrs.name, "z");
}

#[test]
fn library_clone_keeps_contents() {
    let mut library = Library::default();
    StartingChip::Xor.create(&mut library);
    let copy = library.clone();
    assert_eq!(copy.tables[0].map, library.tables[0].map);
    assert_eq!(copy.chips[0].attrs.name, "Xor");
    assert_eq!(copy.chips[0].r_nodes[0].2 .0, library.chips[0].r_nodes[0].2 .0);
}

#[test]
fn io_ty_reads_the_source_kind() {
    assert_eq!(io_ty(&Node::new(1, Source::new_none())), IoType::Input);
    assert_eq!(io_ty(&Node::new(0, Source::new_addr(NodeAddr(3)))), IoType::Output);
    let t = Source::new_table(TruthTableSource::new(TruthTableId(0), 0, NodeAddr(0)));
    assert_eq!(io_ty(&Node::new(0, t)), IoType::Output);
}

#[test]
fn chip_preview_types_nodes_without_addresses() {
    let mut library = Library::default();
    StartingChip::HalfAdder.create(&mut library);
    let c = library.chips[0].preview(Vec2Bits { x: 1, y: 2 }, Rotation::A90);
    assert_eq!(c.attrs.name, "HalfAdder");
    assert_eq!(c.l_nodes.len(), 2);
    assert!(c.l_nodes.iter().all(|n| n.0 .0 == 0 && n.2 == IoType::Input));
    assert_eq!(c.r_nodes[1].1, "cout");
    assert_eq!(c.r_nodes[1].2, IoType::Output);
    assert_eq!((c.region.min.0, c.region.max.0), (0, 0));
    assert_eq!(c.rotation, Rotation::A90);
    assert!(c.save.is_none() && c.inner_nodes.is_empty());
}

#[test]
fn place_chip_writes_mapped_nodes_and_adds_device() {
    let mut library = Library::default();
    StartingChip::And.create(&mut library);
    let mut scene = Scene::default();
    scene.place_builtin(BuiltinDeviceTy::Button, Vec2Bits { x: 0, y: 0 });
    place_chip(&mut scene, Some(0), &library.chips[0], Vec2Bits { x: 9, y: 9 }, Rotation::A180);
    assert_eq!(scene.sim.next_region, 5);
    let out = scene.sim.get_node(NodeAddr(4)).source().as_table();
    assert_eq!(out.inputs().0, 2);
    assert_eq!(scene.devices.len(), 2);
    let placed = scene
        .devices
        .values()
        .find_map(|d| match d {
            Device::Chip(c) => Some(c),
            Device::Builtin(_) => None,
        })
        .unwrap();
    assert_eq!(placed.save, Some(0));
    assert_eq!((placed.region.min.0, placed.region.max.0), (2, 5));
    assert_eq!(placed.l_nodes[0].0 .0, 2);
    assert_eq!(placed.l_nodes[1].1, "b");
    assert_eq!(placed.r_nodes[0].0 .0, 4);
    assert_eq!(placed.r_nodes[0].2, IoType::Output);
    assert_eq!(placed.rotation, Rotation::A180);
}

#[test]
fn create_chip_from_scene_saves_nodes() {
    let mut scene = Scene::default();
    scene.l_nodes.add_node(&mut scene.sim);
    scene.r_nodes.add_node(&mut scene.sim);
    scene.sim.set_node(NodeAddr(1), Node::new(1, Source::new_none()));
    scene.place_builtin(BuiltinDeviceTy::Light, Vec2Bits { x: 0, y: 0 });
    scene.save_attrs.name = String::from("Mine");
    let save = create_chip_from_scene(&scene);
    assert!(!save.builtin);
    assert_eq!(save.region_size, 4);
    assert_eq!(save.attrs.name, "Mine");
    assert_eq!(save.l_nodes.len(), 1);
    assert_eq!(save.l_nodes[0].0, "unnamed");
    assert_eq!(save.l_nodes[0].1 .0, 1);
    assert_eq!(save.l_nodes[0].2.state(), 1);
    assert_eq!(save.r_nodes[0].1 .0, 2);
    assert_eq!(save.inner_nodes.len(), 1);
    assert_eq!(save.inner_nodes[0].0 .0, 3);
    assert!(save.scene.is_some());
    let again = create_chip_save(&scene);
    assert_eq!(again.region_size, save.region_size);
    assert_eq!(again.l_nodes[0].2 .0, save.l_nodes[0].2 .0);
}

#[test]
fn pack_scene_moves_scene_into_library() {
    let mut p = Project::new(String::from("p"), vec![StartingChip::And]);
    let mut scene = Scene::default();
    scene.save_attrs.name = String::from("And");
    p.scenes.push(scene);
    p.scenes.push(Scene::default());
    p.pack_scene(0);
    assert_eq!(p.scenes.len(), 1);
    assert_eq!(p.library.chips.len(), 1);
    assert!(!p.library.chips[0].builtin);
    p.pack_scene(0);
    assert_eq!(p.library.chips.len(), 2);
    assert_eq!(p.library.chips[1].attrs.name, "New Chip");
}

#[test]
fn sim_of_placed_chip_can_update() {
    let mut library = Library::default();
    StartingChip::Not.create(&mut library);
    let mut scene = Scene::default();
    place_chip(&mut scene, None, &library.chips[0], Vec2Bits { x: 0, y: 0 }, Rotation::A0);
    let tables: &[TruthTable] = &library.tables;
    assert!(scene.sim.can_update(tables));
    scene.sim.update(tables);
    assert_eq!(scene.sim.get_node(NodeAddr(2)).state(), 1);
    let _ = Sim::default();
}

#[test]
fn create_chip_from_scene_takes_devices_in_map_order() {
    let mut scene = Scene::default();
    scene.place_builtin(BuiltinDeviceTy::Light, Vec2Bits { x: 0, y: 0 });
    scene.place_builtin(BuiltinDeviceTy::Light, Vec2Bits { x: 0, y: 0 });
    scene.place_builtin(BuiltinDeviceTy::Light, Vec2Bits { x: 0, y: 0 });
    let mut expected: Vec<u32> = Vec::new();
    for device in scene.devices.values() {
        for addr in device.sim_nodes() {
            expected.push(addr.0);
        }
    }
    let save = create_chip_from_scene(&scene);
    let got: Vec<u32> = save.inner_nodes.iter().map(|(a, _)| a.0).collect();
    assert_eq!(got, expected);
    assert_eq!(got.len(), 3);
}

#[test]
fn library_finds_categories_by_exact_text() {
    let mut lib = Library::default();
    lib.add_chip(chip("A", "Gates"));
    lib.add_chip(chip("B", "Gate"));
    lib.add_chip(chip("C", "Gates"));
    assert_eq!(lib.categories(), vec!["Gates", "Gate"]);
    assert_eq!(lib.chips_in_category("Gate").len(), 1);
    assert_eq!(lib.chips_in_category("Gates").len(), 2);
    assert!(lib.chips_in_category("gates").is_empty());
}
