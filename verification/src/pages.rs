use vstd::prelude::*;

use crate::geom::Vec2Bits;
use crate::save::{
    self, category_indices, chip_categories, chip_fits, first_occurrences, library_saved, packs_scene, IoType,
    Project, StartingChip,
};
use crate::scene::{is_default_scene, BuiltinDeviceTy, NodeIdent, Rotation, Scene};
use crate::sim::NodeAddr;

verus! {

/// The first page: it leads to the project list and the settings.
#[derive(Clone, Copy, Debug)]
pub struct HomePage;

/// The page that says what the program is.
#[derive(Clone, Copy, Debug)]
pub struct InfoPage;

/// The list of saved projects, with the one selected and its new name while
/// it is being renamed.
#[derive(Debug)]
pub struct ProjectSelectPage {
    pub projects: Vec<String>,
    pub load_err: Option<String>,
    pub selected: Option<usize>,
    pub rename: Option<String>,
}

impl ProjectSelectPage {
    /// A page listing the projects that were found, or none and the error that
    /// listing them gave.
    pub fn new(listed: Result<Vec<String>, String>) -> (r: ProjectSelectPage)
        ensures
            r.selected is None,
            r.rename is None,
            match listed {
                Ok(v) => r.projects@ == v@ && r.load_err is None,
                Err(e) => r.projects@.len() == 0 && r.load_err == Some(e),
            },
    {
        match listed {
            Ok(projects) => ProjectSelectPage { projects, load_err: None, selected: None, rename: None },
            Err(e) => ProjectSelectPage { projects: Vec::new(), load_err: Some(e), selected: None, rename: None },
        }
    }

    /// Lists the projects again: as `new` does, with no selection and no rename.
    pub fn reload(&mut self, listed: Result<Vec<String>, String>)
        ensures
            final(self).selected is None,
            final(self).rename is None,
            match listed {
                Ok(v) => final(self).projects@ == v@ && final(self).load_err is None,
                Err(e) => final(self).projects@.len() == 0 && final(self).load_err == Some(e),
            },
    {
        *self = ProjectSelectPage::new(listed);
    }

    /// The selected project's name, if the selection names one.
    pub fn selected_project(&self) -> (r: Option<&String>)
        ensures
            match self.selected {
                Some(i) => if i < self.projects@.len() { r == Some(&self.projects@[i as int]) } else { r is None },
                None => r is None,
            },
    {
        match self.selected {
            Some(i) => {
                if i < self.projects.len() {
                    Some(&self.projects[i])
                } else {
                    None
                }
            },
            None => None,
        }
    }
}

/// The page that creates a project: its name and which starting chips it has.
#[derive(Debug)]
pub struct ProjectCreatePage {
    pub name: String,
    pub include_chips: [bool; 8],
}

impl Default for ProjectCreatePage {
    /// "Unnamed Project", with the And and Not chips.
    fn default() -> (r: ProjectCreatePage)
        ensures
            r.name@ == "Unnamed Project"@,
            r.include_chips@ == seq![true, true, false, false, false, false, false, false],
    {
        let mut include_chips = [false; 8];
        include_chips[0] = true;
        include_chips[1] = true;
        let r = ProjectCreatePage { name: String::from_str("Unnamed Project"), include_chips };
        assert(r.include_chips@ =~= seq![true, true, false, false, false, false, false, false]);
        r
    }
}

/// The starting chips whose flags are set, in order.
pub open spec fn chosen_chips(flags: Seq<bool>) -> Seq<StartingChip>
    decreases flags.len(),
{
    if flags.len() == 0 {
        Seq::empty()
    } else {
        let prev = chosen_chips(flags.drop_last());
        if flags.last() {
            prev.push(starting_chip_at((flags.len() - 1) as u8))
        } else {
            prev
        }
    }
}

/// The starting chip at position `v` (below `StartingChip::COUNT`).
pub open spec fn starting_chip_at(v: u8) -> StartingChip {
    choose|c: StartingChip| c.ordinal() == v
}

impl ProjectCreatePage {
    /// The starting chips chosen on the page, in order.
    pub fn starting_chips(&self) -> (r: Vec<StartingChip>)
        ensures
            r@ == chosen_chips(self.include_chips@),
    {
        let mut out: Vec<StartingChip> = Vec::new();
        let mut idx: usize = 0;
        while idx < 8
            invariant
                idx <= 8,
                self.include_chips@.len() == 8,
                out@ == chosen_chips(self.include_chips@.subrange(0, idx as int)),
            decreases 8 - idx,
        {
            let ghost flags = self.include_chips@;
            assert(flags.subrange(0, idx + 1).drop_last() =~= flags.subrange(0, idx as int));
            if self.include_chips[idx] {
                match StartingChip::from_u8(idx as u8) {
                    Some(c) => {
                        assert(c.ordinal() == idx as u8);
                        assert(starting_chip_at(idx as u8).ordinal() == idx as u8);
                        out.push(c);
                    },
                    None => {},
                }
            }
            idx = idx + 1;
        }
        assert(self.include_chips@.subrange(0, 8) =~= self.include_chips@);
        out
    }

    /// The project the page creates: named as on the page, with the chosen
    /// starting chips in its library.
    pub fn create(&self) -> (r: Project)
        ensures
            r.name == self.name,
            r@.scenes.len() == 0,
            r@.library == save::library_with(chosen_chips(self.include_chips@)),
    {
        Project::new(self.name.clone(), self.starting_chips())
    }
}

/// A device that can be placed: a builtin kind, or a chip of the library by index.
#[derive(Clone, Copy, PartialEq, Eq, Debug, Structural)]
pub enum PlaceDevice {
    Builtin(BuiltinDeviceTy),
    Chip(usize),
}

/// The menus of the workspace.
#[derive(Clone, Copy, PartialEq, Eq, Debug, Structural)]
pub enum WorkspaceMenu {
    Options,
    CreateChip,
    Library,
}

/// A corner of a device.
#[derive(Clone, Copy, PartialEq, Eq, Debug, Structural)]
pub enum Corner {
    Tl,
    Bl,
    Br,
    Tr,
}

/// Where the next device is placed, and which of its corners goes there.
#[derive(Clone, Copy, PartialEq, Eq, Debug, Structural)]
pub struct DeviceCursor {
    pub pos: Vec2Bits,
    pub corner: Corner,
}

impl Default for DeviceCursor {
    /// At the origin, by the top-left corner.
    fn default() -> (r: DeviceCursor)
        ensures
            r.pos.x == 0 && r.pos.y == 0,
            r.corner == Corner::Tl,
    {
        DeviceCursor { pos: Vec2Bits { x: 0, y: 0 }, corner: Corner::Tl }
    }
}

/// A wire being placed: the node it starts from and its anchors so far.
#[derive(Debug)]
pub struct WirePlacement {
    pub src: (NodeIdent, NodeAddr),
    pub anchors: Vec<Vec2Bits>,
}

/// The workspace: a project, its open scene and menu, the list of devices to
/// place, the placing cursor and the wire being placed.
#[derive(Debug)]
pub struct WorkspacePage {
    pub project: Project,
    pub snap_to_grid: bool,
    pub show_grid: bool,
    pub open_scene: usize,
    pub open_menu: Option<WorkspaceMenu>,
    pub items: Vec<(String, Vec<PlaceDevice>, bool)>,
    pub device_count: usize,
    pub cursor: DeviceCursor,
    pub wire_placement: Option<WirePlacement>,
}

/// The contents of a list of device groups.
pub open spec fn items_view(v: Seq<(String, Vec<PlaceDevice>, bool)>) -> Seq<(Seq<char>, Seq<PlaceDevice>, bool)> {
    v.map_values(|e: (String, Vec<PlaceDevice>, bool)| (e.0@, e.1@, e.2))
}

/// The device groups of the placing panel: the builtin kinds, then one group
/// per category of the library's chips, in order, listing its chips; all closed.
pub open spec fn item_list(chips: Seq<save::ChipSaveView>) -> Seq<(Seq<char>, Seq<PlaceDevice>, bool)> {
    seq![(
        "Builtin"@,
        seq![
            PlaceDevice::Builtin(BuiltinDeviceTy::Button),
            PlaceDevice::Builtin(BuiltinDeviceTy::Switch),
            PlaceDevice::Builtin(BuiltinDeviceTy::Light),
        ],
        false,
    )] + first_occurrences(chip_categories(chips)).map_values(
        |c: Seq<char>| (c, category_indices(chips, c).map_values(|i: int| PlaceDevice::Chip(i as usize)), false),
    )
}

impl WorkspacePage {
    /// A workspace on `project`: grid shown and snapping, first scene open, no
    /// menu, no device list yet, cursor at the origin, no wire being placed.
    pub fn new(project: Project) -> (r: WorkspacePage)
        ensures
            r.project == project,
            r.snap_to_grid && r.show_grid,
            r.open_scene == 0,
            r.open_menu is None,
            r.items@.len() == 0,
            r.device_count == 0,
            r.cursor.pos.x == 0 && r.cursor.pos.y == 0 && r.cursor.corner == Corner::Tl,
            r.wire_placement is None,
    {
        WorkspacePage {
            project,
            show_grid: true,
            snap_to_grid: true,
            open_scene: 0,
            open_menu: None,
            items: Vec::new(),
            device_count: 0,
            cursor: DeviceCursor::default(),
            wire_placement: None,
        }
    }

    /// Rebuilds the device groups from the library and records how many chips
    /// it has.
    pub fn create_item_list(&mut self)
        ensures
            items_view(final(self).items@) == item_list(old(self).project@.library.chips),
            final(self).device_count == old(self).project.library.chips@.len(),
            final(self).project == old(self).project,
            final(self).open_scene == old(self).open_scene,
            final(self).open_menu == old(self).open_menu,
    {
        let ghost chips = self.project@.library.chips;
        let mut builtin: Vec<PlaceDevice> = Vec::new();
        let mut idx: u8 = 0;
        while idx < BuiltinDeviceTy::COUNT
            invariant
                idx <= 3,
                builtin@ == seq![
                    PlaceDevice::Builtin(BuiltinDeviceTy::Button),
                    PlaceDevice::Builtin(BuiltinDeviceTy::Switch),
                    PlaceDevice::Builtin(BuiltinDeviceTy::Light),
                ].subrange(0, idx as int),
            decreases 3 - idx,
        {
            match BuiltinDeviceTy::from_u8(idx) {
                Some(d) => builtin.push(PlaceDevice::Builtin(d)),
                None => {},
            }
            idx = idx + 1;
            assert(builtin@ =~= seq![
                PlaceDevice::Builtin(BuiltinDeviceTy::Button),
                PlaceDevice::Builtin(BuiltinDeviceTy::Switch),
                PlaceDevice::Builtin(BuiltinDeviceTy::Light),
            ].subrange(0, idx as int));
        }
        let mut cats: Vec<(String, Vec<PlaceDevice>, bool)> = Vec::new();
        cats.push((String::from_str("Builtin"), builtin, false));
        let categories = self.project.library.categories();
        let ghost target = item_list(chips);
        assert(target.len() == 1 + categories@.len()) by {
            assert(crate::save::strs_view(categories@).len() == categories@.len());
        }
        assert(builtin@ =~= seq![
            PlaceDevice::Builtin(BuiltinDeviceTy::Button),
            PlaceDevice::Builtin(BuiltinDeviceTy::Switch),
            PlaceDevice::Builtin(BuiltinDeviceTy::Light),
        ]);
        assert(items_view(cats@)[0] == target[0]);
        assert(items_view(cats@) =~= target.subrange(0, 1));
        let mut k: usize = 0;
        while k < categories.len()
            invariant
                k <= categories@.len(),
                chips == self.project@.library.chips,
                target == item_list(chips),
                crate::save::strs_view(categories@) == first_occurrences(chip_categories(chips)),
                target.len() == 1 + categories@.len(),
                items_view(cats@) == target.subrange(0, k + 1),
            decreases categories@.len() - k,
        {
            let category = categories[k];
            let in_cat = self.project.library.chips_in_category(category);
            let mut devices: Vec<PlaceDevice> = Vec::new();
            let mut j: usize = 0;
            let ghost idxs = category_indices(chips, category@);
            while j < in_cat.len()
                invariant
                    j <= in_cat@.len(),
                    in_cat@.len() == idxs.len(),
                    forall|m: int| #![trigger in_cat@[m]] 0 <= m < in_cat@.len() ==> in_cat@[m].0 == idxs[m],
                    devices@ == idxs.map_values(|i: int| PlaceDevice::Chip(i as usize)).subrange(0, j as int),
                decreases in_cat@.len() - j,
            {
                devices.push(PlaceDevice::Chip(in_cat[j].0));
                j = j + 1;
                assert(devices@ =~= idxs.map_values(|i: int| PlaceDevice::Chip(i as usize)).subrange(0, j as int));
            }
            assert(idxs.map_values(|i: int| PlaceDevice::Chip(i as usize)).subrange(0, j as int) =~= idxs.map_values(|i: int| PlaceDevice::Chip(i as usize)));
            let ghost prev = cats@;
            assert(items_view(prev).len() == k + 1);
            cats.push((String::from_str(category), devices, false));
            proof {
                assert(crate::save::strs_view(categories@)[k as int] == category@);
                assert(target[k + 1] == (category@, idxs.map_values(|i: int| PlaceDevice::Chip(i as usize)), false));
                assert(items_view(cats@)[k + 1] == target[k + 1]);
                assert forall|m: int| 0 <= m <= k implies items_view(cats@)[m] == items_view(prev)[m] by {
                    assert(cats@[m] == prev[m]);
                }
            }
            k = k + 1;
            assert(items_view(cats@) =~= target.subrange(0, k + 1));
        }
        assert(target.subrange(0, k + 1) =~= target);
        self.items = cats;
        self.device_count = self.project.library.chips.len();
    }

    /// Opens `menu`, or closes it if it is open; says whether it is now open.
    pub fn toggle_menu(&mut self, menu: WorkspaceMenu) -> (r: bool)
        ensures
            old(self).open_menu == Some(menu) ==> !r && final(self).open_menu is None,
            old(self).open_menu != Some(menu) ==> r && final(self).open_menu == Some(menu),
            final(self).project == old(self).project,
            final(self).open_scene == old(self).open_scene,
    {
        if self.open_menu == Some(menu) {
            self.open_menu = None;
            false
        } else {
            self.open_menu = Some(menu);
            true
        }
    }
}

impl WorkspacePage {
    /// Makes sure there is a scene: with none, one default scene is opened.
    pub fn ensure_scene(&mut self)
        ensures
            final(self).project.scenes@.len() >= 1,
            old(self).project.scenes@.len() == 0 ==> final(self).project.scenes@.len() == 1 && final(self).open_scene == 0
                && is_default_scene(final(self).project.scenes@[0]),
            old(self).project.scenes@.len() > 0 ==> final(self).project.scenes == old(self).project.scenes
                && final(self).open_scene == old(self).open_scene,
            final(self).project.library == old(self).project.library,
            final(self).project.name == old(self).project.name,
    {
        if self.project.scenes.len() == 0 {
            self.project.scenes = vec![Scene::default()];
            self.open_scene = 0;
        }
    }

    /// Steps the open scene back by one when it names no scene.
    pub fn fix_open_scene(&mut self)
        ensures
            old(self).open_scene >= old(self).project.scenes@.len() && old(self).open_scene > 0
                ==> final(self).open_scene == old(self).open_scene - 1,
            !(old(self).open_scene >= old(self).project.scenes@.len() && old(self).open_scene > 0)
                ==> final(self).open_scene == old(self).open_scene,
            final(self).project == old(self).project,
    {
        if self.open_scene >= self.project.scenes.len() && self.open_scene > 0 {
            self.open_scene = self.open_scene - 1;
        }
    }

    /// Opens a new default scene at the end.
    pub fn add_scene(&mut self)
        ensures
            final(self).open_scene == old(self).project.scenes@.len(),
            final(self).project.scenes@.len() == old(self).project.scenes@.len() + 1,
            forall|i: int| 0 <= i < old(self).project.scenes@.len() ==> #[trigger] final(self).project.scenes@[i] == old(self).project.scenes@[i],
            is_default_scene(final(self).project.scenes@.last()),
            final(self).project.library == old(self).project.library,
    {
        self.open_scene = self.project.scenes.len();
        self.project.scenes.push(Scene::default());
    }

    /// Removes the scene at `idx`.
    pub fn remove_scene(&mut self, idx: usize)
        requires
            idx < old(self).project.scenes@.len(),
        ensures
            final(self).project.scenes@ == old(self).project.scenes@.remove(idx as int),
            final(self).open_scene == old(self).open_scene,
            final(self).project.library == old(self).project.library,
    {
        self.project.scenes.remove(idx);
    }

    /// Packs the open scene into a chip saved in the library, removes the
    /// scene and closes the menu.
    pub fn create_chip(&mut self)
        requires
            old(self).open_scene < old(self).project.scenes@.len(),
        ensures
            final(self).project@.scenes == old(self).project@.scenes.remove(old(self).open_scene as int),
            exists|c: save::ChipSaveView| #[trigger] packs_scene(c, old(self).project.scenes@[old(self).open_scene as int])
                && library_saved(old(self).project@.library, c, final(self).project@.library),
            final(self).open_menu is None,
            final(self).open_scene == old(self).open_scene,
    {
        self.project.pack_scene(self.open_scene);
        self.open_menu = None;
    }

    /// A node was clicked: an input node's state is toggled.
    pub fn on_node_clicked(&mut self, addr: NodeAddr, ty: IoType)
        requires
            old(self).open_scene < old(self).project.scenes@.len(),
            ty == IoType::Input ==> addr.0 < old(self).project.scenes@[old(self).open_scene as int].sim.nodes@.len(),
        ensures
            ty == IoType::Output ==> final(self).project.scenes@ == old(self).project.scenes@,
            ty == IoType::Input ==> ({
                let before = old(self).project.scenes@[old(self).open_scene as int];
                let after = final(self).project.scenes@[old(self).open_scene as int];
                &&& final(self).project.scenes@.len() == old(self).project.scenes@.len()
                &&& forall|i: int| 0 <= i < old(self).project.scenes@.len() && i != old(self).open_scene ==> #[trigger] final(self).project.scenes@[i] == old(self).project.scenes@[i]
                &&& after.sim.nodes@ == before.sim.nodes@.update(addr.0 as int, after.sim.nodes@[addr.0 as int])
                &&& after.sim.nodes@[addr.0 as int].spec_state() == (257 - before.sim.nodes@[addr.0 as int].spec_state()) % 256
                &&& after.sim.nodes@[addr.0 as int].spec_source_bits() == before.sim.nodes@[addr.0 as int].spec_source_bits()
                &&& after.sim.next_region == before.sim.next_region
                &&& after.devices == before.devices && after.wires == before.wires
                &&& after.l_nodes == before.l_nodes && after.r_nodes == before.r_nodes
            }),
            final(self).project.library == old(self).project.library,
            final(self).project.name == old(self).project.name,
            final(self).open_scene == old(self).open_scene,
    {
        if ty == IoType::Input {
            let scene = &mut self.project.scenes[self.open_scene];
            let mut node = scene.sim.get_node(addr);
            node.toggle_state();
            scene.sim.set_node(addr, node);
        }
    }

    /// A node was right-clicked: with no wire being placed, a wire starts from
    /// it; with a wire from another node being placed, the wire is connected to
    /// it (see `Scene::connect_wire`); a right-click on the wire's own start
    /// node changes nothing.
    pub fn on_node_rclicked(&mut self, ident: NodeIdent, addr: NodeAddr)
        requires
            old(self).open_scene < old(self).project.scenes@.len(),
            old(self).wire_placement matches Some(p) && p.src.0 != ident ==> addr.0 < old(self).project.scenes@[old(self).open_scene as int].sim.nodes@.len(),
        ensures
            final(self).project.library == old(self).project.library,
            final(self).open_scene == old(self).open_scene,
            final(self).project.scenes@.len() == old(self).project.scenes@.len(),
            forall|i: int| 0 <= i < old(self).project.scenes@.len() && i != old(self).open_scene ==> #[trigger] final(self).project.scenes@[i] == old(self).project.scenes@[i],
            match old(self).wire_placement {
                None => final(self).wire_placement matches Some(p) && p.src == (ident, addr) && p.anchors@.len() == 0
                    && final(self).project.scenes@ == old(self).project.scenes@,
                Some(p) => if p.src.0 == ident {
                    final(self).wire_placement == old(self).wire_placement && final(self).project.scenes@ == old(self).project.scenes@
                } else {
                    final(self).wire_placement is None && crate::scene::connects_wire(
                        old(self).project.scenes@[old(self).open_scene as int],
                        final(self).project.scenes@[old(self).open_scene as int],
                        p.src,
                        (ident, addr),
                        p.anchors@,
                    )
                },
            },
    {
        let placement = self.wire_placement.take();
        match placement {
            Some(p) => {
                if p.src.0 != ident {
                    let scene = &mut self.project.scenes[self.open_scene];
                    scene.connect_wire(p.src, (ident, addr), p.anchors);
                } else {
                    self.wire_placement = Some(p);
                }
            },
            None => {
                self.wire_placement = Some(WirePlacement { src: (ident, addr), anchors: Vec::new() });
            },
        }
    }

    /// Adds an anchor at `pos` to the wire being placed, if there is one.
    pub fn add_wire_anchor(&mut self, pos: Vec2Bits)
        ensures
            match old(self).wire_placement {
                Some(p) => final(self).wire_placement matches Some(q) && q.src == p.src && q.anchors@ == p.anchors@.push(pos),
                None => final(self).wire_placement is None,
            },
            final(self).project == old(self).project,
    {
        match &mut self.wire_placement {
            Some(p) => p.anchors.push(pos),
            None => {},
        }
    }

    /// Places `device` in the open scene at `pos`: a builtin kind (see
    /// `Scene::place_builtin`) or the library's chip at its index (see
    /// `place_chip`), not rotated.
    pub fn place_device(&mut self, device: PlaceDevice, pos: Vec2Bits)
        requires
            old(self).open_scene < old(self).project.scenes@.len(),
            match device {
                PlaceDevice::Builtin(ty) => old(self).project.scenes@[old(self).open_scene as int].sim.next_region
                    + ty.spec_io().0 + ty.spec_io().1 <= u32::MAX,
                PlaceDevice::Chip(id) => id < old(self).project.library.chips@.len() && chip_fits(
                    old(self).project.library.chips@[id as int]@,
                    old(self).project.scenes@[old(self).open_scene as int].sim.next_region,
                ),
            },
        ensures
            final(self).project.library == old(self).project.library,
            final(self).project.scenes@.len() == old(self).project.scenes@.len(),
            forall|i: int| 0 <= i < old(self).project.scenes@.len() && i != old(self).open_scene ==> #[trigger] final(self).project.scenes@[i] == old(self).project.scenes@[i],
            final(self).open_scene == old(self).open_scene,
            ({
                let before = old(self).project.scenes@[old(self).open_scene as int];
                let after = final(self).project.scenes@[old(self).open_scene as int];
                match device {
                    PlaceDevice::Builtin(ty) => crate::scene::places_builtin(before, after, ty, pos),
                    PlaceDevice::Chip(id) => save::places_chip(
                        before,
                        after,
                        old(self).project.library.chips@[id as int]@,
                        Some(id),
                        pos,
                        Rotation::A0,
                    ),
                }
            }),
    {
        let scene = &mut self.project.scenes[self.open_scene];
        match device {
            PlaceDevice::Builtin(ty) => {
                scene.place_builtin(ty, pos);
            },
            PlaceDevice::Chip(id) => {
                save::place_chip(scene, Some(id), &self.project.library.chips[id], pos, Rotation::A0);
            },
        }
    }
}

impl WorkspacePage {
    /// Whether `device` can be placed in the open scene (what `place_device` requires).
    pub fn can_place(&self, device: PlaceDevice) -> (r: bool)
        ensures
            r == (self.open_scene < self.project.scenes@.len() && match device {
                PlaceDevice::Builtin(ty) => self.project.scenes@[self.open_scene as int].sim.next_region
                    + ty.spec_io().0 + ty.spec_io().1 <= u32::MAX,
                PlaceDevice::Chip(id) => id < self.project.library.chips@.len() && chip_fits(
                    self.project.library.chips@[id as int]@,
                    self.project.scenes@[self.open_scene as int].sim.next_region,
                ),
            }),
    {
        if self.open_scene >= self.project.scenes.len() {
            return false;
        }
        let next = self.project.scenes[self.open_scene].sim.next_region;
        match device {
            PlaceDevice::Builtin(ty) => {
                let (i, o) = ty.io();
                next as u64 + i as u64 + o as u64 <= u32::MAX as u64
            },
            PlaceDevice::Chip(id) => id < self.project.library.chips.len() && self.project.library.chips[id].fits_at(next),
        }
    }
}

} // verus!
