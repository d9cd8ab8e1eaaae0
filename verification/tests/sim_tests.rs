use mlsim_common::sim::{
    CopySource, Node, NodeAddr, NodeRange, NodeRegion, Sim, Source, SourceTy, TruthTable, TruthTableId,
    TruthTableSource,
};

fn and_table() -> TruthTable {
    TruthTable { num_inputs: 2, num_outputs: 1, name: String::from("And"), map: vec![0, 0, 0, 1] }
}

#[test]
fn node_range_count_and_addrs() {
    let r = NodeRange(NodeAddr(3), NodeAddr(6));
    assert_eq!(r.count(), 4);
    let addrs: Vec<u32> = r.addrs().iter().map(|a| a.0).collect();
    assert_eq!(addrs, vec![3, 4, 5, 6]);
    assert!(NodeRange(NodeAddr(5), NodeAddr(4)).addrs().is_empty());
    assert_eq!(NodeRange(NodeAddr(7), NodeAddr(7)).count(), 1);
}

#[test]
fn node_packs_state_and_source() {
    let n = Node::new(1, Source::new_addr(NodeAddr(42)));
    assert_eq!(n.state(), 1);
    assert_eq!(n.source().ty().0, 1);
    assert_eq!(n.source().as_copy().addr().0, 42);
    assert_eq!(n.0, (1u64 << 56) | (1u64 << 48) | 42);
}

#[test]
fn node_set_state_keeps_source() {
    let mut n = Node::new(0, Source::new_addr(NodeAddr(9)));
    n.set_state(200);
    assert_eq!(n.state(), 200);
    assert_eq!(n.source().as_copy().addr().0, 9);
    n.set_source(Source::new_none());
    assert_eq!(n.state(), 200);
    assert_eq!(n.source().ty().0, 0);
}

#[test]
fn node_toggle_state_twice() {
    let mut n = Node::new(0, Source::new_addr(NodeAddr(5)));
    n.toggle_state();
    assert_eq!(n.state(), 1);
    n.toggle_state();
    assert_eq!(n.state(), 0);
    assert_eq!(n.source().as_copy().addr().0, 5);
    let mut m = Node::new(3, Source::new_none());
    m.toggle_state();
    assert_eq!(m.state(), 254);
    m.toggle_state();
    assert_eq!(m.state(), 3);
}

#[test]
fn node_zero_and_default() {
    assert_eq!(Node::zero().0, 0);
    assert_eq!(Node::default().0, 0);
    assert_eq!(NodeAddr::default().0, 0);
}

#[test]
fn source_kinds() {
    assert_eq!(SourceTy::none().0, 0);
    assert_eq!(SourceTy::copy().0, 1);
    assert_eq!(SourceTy::table().0, 2);
    assert_eq!(SourceTy::op().0, 3);
    assert_eq!(Source::new_none().0, 0);
    assert_eq!(Source::new_addr(NodeAddr(7)).0, (1u64 << 48) | 7);
    let t = TruthTableSource::new(TruthTableId(4), 2, NodeAddr(100));
    let s = Source::new_table(t);
    assert_eq!(s.ty().0, 2);
    assert_eq!(s.as_table().id().0, 4);
    assert_eq!(s.as_table().output(), 2);
    assert_eq!(s.as_table().inputs().0, 100);
    assert_eq!(s.0, (2u64 << 48) | (4u64 << 40) | (2u64 << 32) | 100);
}

#[test]
fn copy_source_set_addr() {
    let mut c = CopySource::new(NodeAddr(1));
    assert_eq!(c.addr().0, 1);
    c.set_addr(NodeAddr(0xFFFF_FFFF));
    assert_eq!(c.addr().0, 0xFFFF_FFFF);
}

#[test]
fn truth_table_source_setters_keep_other_fields() {
    let mut t = TruthTableSource::new(TruthTableId(1), 2, NodeAddr(3));
    t.set_id(TruthTableId(9));
    assert_eq!((t.id().0, t.output(), t.inputs().0), (9, 2, 3));
    t.set_output(7);
    assert_eq!((t.id().0, t.output(), t.inputs().0), (9, 7, 3));
    t.set_inputs(NodeAddr(77));
    assert_eq!((t.id().0, t.output(), t.inputs().0), (9, 7, 77));
}

#[test]
fn region_maps_addresses_and_sources() {
    let region = NodeRegion { min: NodeAddr(10), max: NodeAddr(20) };
    assert_eq!(region.map(NodeAddr(3)).0, 13);
    let src = region.map_src(Source::new_addr(NodeAddr(2)));
    assert_eq!(src.as_copy().addr().0, 12);
    let tsrc = region.map_src(Source::new_table(TruthTableSource::new(TruthTableId(5), 1, NodeAddr(4))));
    assert_eq!(tsrc.as_table().inputs().0, 14);
    assert_eq!(tsrc.as_table().id().0, 5);
    assert_eq!(tsrc.as_table().output(), 1);
    assert_eq!(region.map_src(Source::new_none()).0, 0);
    let node = region.map_node(Node::new(1, Source::new_addr(NodeAddr(0))));
    assert_eq!(node.state(), 1);
    assert_eq!(node.source().as_copy().addr().0, 10);
}

#[test]
fn sim_default_and_clear() {
    let mut sim = Sim::default();
    assert_eq!(sim.nodes.len(), 1);
    assert_eq!(sim.next_region, 1);
    sim.alloc_region(5);
    sim.clear();
    assert_eq!(sim.nodes.len(), 1);
    assert_eq!(sim.nodes[0].0, 0);
    assert_eq!(sim.next_region, 1);
}

#[test]
fn sim_alloc_regions_are_disjoint_and_zeroed() {
    let mut sim = Sim::default();
    let a = sim.alloc_region(3);
    let b = sim.alloc_region(2);
    assert_eq!((a.min.0, a.max.0), (1, 4));
    assert_eq!((b.min.0, b.max.0), (4, 6));
    assert_eq!(sim.nodes.len(), 6);
    assert!(sim.nodes.iter().all(|n| n.0 == 0));
    let c = sim.alloc_node();
    assert_eq!(c.0, 6);
    assert_eq!(sim.next_region, 7);
}

#[test]
fn sim_alloc_region_cuts_longer_node_list() {
    let mut sim = Sim { nodes: vec![Node::new(1, Source::new_none()); 8], next_region: 2 };
    let r = sim.alloc_region(2);
    assert_eq!((r.min.0, r.max.0), (2, 4));
    assert_eq!(sim.nodes.len(), 4);
    assert_eq!(sim.nodes[3].state(), 1);
}

#[test]
fn sim_get_after_set() {
    let mut sim = Sim::default();
    sim.alloc_region(4);
    let n = Node::new(1, Source::new_addr(NodeAddr(2)));
    sim.set_node(NodeAddr(3), n);
    assert_eq!(sim.get_node(NodeAddr(3)).0, n.0);
    assert_eq!(sim.get_node(NodeAddr(2)).0, 0);
    assert_eq!(sim.get_node(NodeAddr(99)).0, 0);
    sim.set_node_src(NodeAddr(3), Source::new_none());
    assert_eq!(sim.get_node(NodeAddr(3)).state(), 1);
    assert_eq!(sim.get_node(NodeAddr(3)).source().ty().0, 0);
    sim.mut_node(NodeAddr(1)).set_state(1);
    assert_eq!(sim.get_node(NodeAddr(1)).state(), 1);
}

#[test]
fn sim_update_copies_synchronously() {
    // node 1 copies node 2, node 2 copies node 1: a swap each step
    let mut sim = Sim::default();
    sim.alloc_region(2);
    sim.set_node(NodeAddr(1), Node::new(1, Source::new_addr(NodeAddr(2))));
    sim.set_node(NodeAddr(2), Node::new(0, Source::new_addr(NodeAddr(1))));
    let tables: Vec<TruthTable> = vec![];
    assert!(sim.can_update(&tables));
    sim.update(&tables);
    assert_eq!(sim.get_node(NodeAddr(1)).state(), 0);
    assert_eq!(sim.get_node(NodeAddr(2)).state(), 1);
    assert_eq!(sim.get_node(NodeAddr(1)).source().as_copy().addr().0, 2);
}

#[test]
fn sim_update_and_gate() {
    let tables = vec![and_table()];
    for (a, b, expect) in [(0u8, 0u8, 0u8), (1, 0, 0), (0, 1, 0), (1, 1, 1)] {
        let mut sim = Sim::default();
        sim.alloc_region(3);
        sim.set_node(NodeAddr(1), Node::new(a, Source::new_none()));
        sim.set_node(NodeAddr(2), Node::new(b, Source::new_none()));
        let out = Source::new_table(TruthTableSource::new(TruthTableId(0), 0, NodeAddr(1)));
        sim.set_node(NodeAddr(3), Node::new(0, out));
        assert!(sim.can_update(&tables));
        sim.update(&tables);
        assert_eq!(sim.get_node(NodeAddr(3)).state(), expect);
        assert_eq!(sim.get_node(NodeAddr(1)).state(), a);
    }
}

#[test]
fn sim_cannot_update_with_missing_table_or_node() {
    let mut sim = Sim::default();
    sim.alloc_region(1);
    let out = Source::new_table(TruthTableSource::new(TruthTableId(3), 0, NodeAddr(1)));
    sim.set_node(NodeAddr(1), Node::new(0, out));
    assert!(!sim.can_update(&[and_table()]));
    let mut sim2 = Sim::default();
    sim2.set_node(NodeAddr(0), Node::new(0, Source::new_addr(NodeAddr(5))));
    assert!(!sim2.can_update(&[]));
    let mut sim3 = Sim::default();
    sim3.set_node(NodeAddr(0), Node(3u64 << 48));
    assert!(!sim3.can_update(&[]));
}

#[test]
fn truth_table_default_is_empty() {
    let t = TruthTable::default();
    assert_eq!((t.num_inputs, t.num_outputs), (0, 0));
    assert!(t.name.is_empty() && t.map.is_empty());
}
