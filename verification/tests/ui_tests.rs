use mlsim_common::geom::Vec2Bits;
use mlsim_common::pages::{
    Corner, DeviceCursor, HomePage, InfoPage, PlaceDevice, ProjectCreatePage, ProjectSelectPage, WorkspaceMenu,
    WorkspacePage,
};
use mlsim_common::save::{ChipAttrs, ChipSave, IoType, Logic, Project, StartingChip};
use mlsim_common::scene::{BuiltinDeviceTy, NodeIdent, Scene};
use mlsim_common::sim::NodeAddr;

fn workspace() -> WorkspacePage {
    let mut page = WorkspacePage::new(Project::new(String::from("w"), vec![StartingChip::And, StartingChip::Not]));
    page.ensure_scene();
    page
}

#[test]
fn unit_pages_exist() {
    let _ = HomePage;
    let _ = InfoPage;
    let c = DeviceCursor::default();
    assert_eq!(c.corner, Corner::Tl);
    assert_eq!(c.pos, Vec2Bits { x: 0, y: 0 });
}

#[test]
fn project_select_page_lists_or_reports() {
    let page = ProjectSelectPage::new(Ok(vec![String::from("a"), String::from("b")]));
    assert_eq!(page.projects.len(), 2);
    assert!(page.load_err.is_none() && page.selected.is_none());
    let mut page = ProjectSelectPage::new(Err(String::from("no dir")));
    assert!(page.projects.is_empty());
    assert_eq!(page.load_err.as_deref(), Some("no dir"));
    page.reload(Ok(vec![String::from("c")]));
    assert!(page.load_err.is_none());
    page.selected = Some(0);
    assert_eq!(page.selected_project().map(|s| s.as_str()), Some("c"));
    page.selected = Some(4);
    assert!(page.selected_project().is_none());
}

#[test]
fn project_create_page_defaults_to_and_not() {
    let page = ProjectCreatePage::default();
    assert_eq!(page.name, "Unnamed Project");
    assert_eq!(page.starting_chips(), vec![StartingChip::And, StartingChip::Not]);
    let mut page = page;
    page.include_chips = [false, false, false, false, false, true, false, true];
    assert_eq!(page.starting_chips(), vec![StartingChip::Xor, StartingChip::Adder]);
    let project = page.create();
    assert_eq!(project.name, "Unnamed Project");
    assert_eq!(project.library.chips.len(), 2);
    assert_eq!(project.library.chips[0].attrs.name, "Xor");
}

#[test]
fn workspace_new_and_scenes() {
    let mut page = WorkspacePage::new(Project::default());
    assert!(page.snap_to_grid && page.show_grid);
    assert_eq!(page.open_scene, 0);
    page.ensure_scene();
    assert_eq!(page.project.scenes.len(), 1);
    page.add_scene();
    assert_eq!(page.open_scene, 1);
    assert_eq!(page.project.scenes.len(), 2);
    page.remove_scene(1);
    page.fix_open_scene();
    assert_eq!(page.open_scene, 0);
    page.fix_open_scene();
    assert_eq!(page.open_scene, 0);
}

#[test]
fn workspace_item_list_groups_by_category() {
    let mut page = workspace();
    page.project.library.add_chip(ChipSave {
        builtin: false,
        region_size: 0,
        attrs: ChipAttrs { name: String::from("Mem"), category: String::from("Memory"), logic: Logic::Sequential },
        scene: None,
        l_nodes: vec![],
        r_nodes: vec![],
        inner_nodes: vec![],
    });
    page.create_item_list();
    assert_eq!(page.device_count, 3);
    assert_eq!(page.items.len(), 3);
    assert_eq!(page.items[0].0, "Builtin");
    assert_eq!(
        page.items[0].1,
        vec![
            PlaceDevice::Builtin(BuiltinDeviceTy::Button),
            PlaceDevice::Builtin(BuiltinDeviceTy::Switch),
            PlaceDevice::Builtin(BuiltinDeviceTy::Light)
        ]
    );
    assert_eq!(page.items[1].0, "Basic");
    assert_eq!(page.items[1].1, vec![PlaceDevice::Chip(0), PlaceDevice::Chip(1)]);
    assert_eq!(page.items[2].0, "Memory");
    assert_eq!(page.items[2].1, vec![PlaceDevice::Chip(2)]);
    assert!(page.items.iter().all(|i| !i.2));
}

#[test]
fn workspace_toggle_menu() {
    let mut page = workspace();
    assert!(page.toggle_menu(WorkspaceMenu::Options));
    assert_eq!(page.open_menu, Some(WorkspaceMenu::Options));
    assert!(page.toggle_menu(WorkspaceMenu::CreateChip));
    assert!(!page.toggle_menu(WorkspaceMenu::CreateChip));
    assert!(page.open_menu.is_none());
}

#[test]
fn workspace_places_devices_and_wires() {
    let mut page = workspace();
    page.place_device(PlaceDevice::Builtin(BuiltinDeviceTy::Switch), Vec2Bits { x: 0, y: 0 });
    page.place_device(PlaceDevice::Chip(1), Vec2Bits { x: 1, y: 0 });
    let scene = &page.project.scenes[0];
    assert_eq!(scene.devices.len(), 2);
    assert_eq!(scene.sim.next_region, 4);
    // right-click the switch output, then the Not input: a wire connects them
    let switch_out = NodeIdent::LExternal(9);
    page.on_node_rclicked(switch_out, NodeAddr(1));
    assert!(page.wire_placement.is_some());
    page.add_wire_anchor(Vec2Bits { x: 5, y: 5 });
    page.on_node_rclicked(switch_out, NodeAddr(1));
    assert!(page.wire_placement.is_some());
    page.on_node_rclicked(NodeIdent::RExternal(9), NodeAddr(2));
    assert!(page.wire_placement.is_none());
    let scene = &page.project.scenes[0];
    assert_eq!(scene.wires.len(), 1);
    assert_eq!(scene.wires[0].anchors, vec![Vec2Bits { x: 5, y: 5 }]);
    assert_eq!(scene.sim.get_node(NodeAddr(2)).source().as_copy().addr().0, 1);
}

#[test]
fn workspace_click_toggles_only_inputs() {
    let mut page = workspace();
    page.place_device(PlaceDevice::Builtin(BuiltinDeviceTy::Switch), Vec2Bits { x: 0, y: 0 });
    page.on_node_clicked(NodeAddr(1), IoType::Input);
    assert_eq!(page.project.scenes[0].sim.get_node(NodeAddr(1)).state(), 1);
    page.on_node_clicked(NodeAddr(1), IoType::Output);
    assert_eq!(page.project.scenes[0].sim.get_node(NodeAddr(1)).state(), 1);
    page.on_node_clicked(NodeAddr(1), IoType::Input);
    assert_eq!(page.project.scenes[0].sim.get_node(NodeAddr(1)).state(), 0);
}

#[test]
fn workspace_create_chip_packs_open_scene() {
    let mut page = workspace();
    page.project.scenes[0].save_attrs.name = String::from("Mine");
    page.open_menu = Some(WorkspaceMenu::CreateChip);
    page.create_chip();
    assert!(page.project.scenes.is_empty());
    assert!(page.open_menu.is_none());
    assert_eq!(page.project.library.chips.len(), 3);
    assert_eq!(page.project.library.chips[2].attrs.name, "Mine");
    let _ = Scene::default();
}

#[test]
fn workspace_new_scenes_are_empty_defaults() {
    let mut page = WorkspacePage::new(Project::default());
    page.ensure_scene();
    page.add_scene();
    for scene in &page.project.scenes {
        assert_eq!(scene.sim.nodes.len(), 1);
        assert_eq!(scene.sim.nodes[0].0, 0);
        assert_eq!(scene.sim.next_region, 1);
        assert_eq!(scene.save_attrs.name, "New Chip");
        assert_eq!(scene.save_attrs.category, "Basic");
        assert!(scene.devices.is_empty() && scene.wires.is_empty() && scene.wire_bundles.is_empty());
        assert!(scene.l_nodes.states.is_empty() && scene.r_nodes.states.is_empty());
    }
}
