//! Tests of the weighted graph store: adjacency encoding, growth, the
//! monotone maximum cache, nearest-node lookup and dragging.

use graph_layout::fx::{FX_MAX, SCALE};
use graph_layout::graph::{Graph, Vec2};

#[test]
fn empty_graph() {
    let g: Graph<u32> = Graph::new();
    assert_eq!(g.num_nodes(), 0);
    assert_eq!(g.max_adjacency(), 0);
}

#[test]
fn add_node_assigns_contiguous_ids() {
    let mut g: Graph<u32> = Graph::new();
    assert_eq!(g.add_node(7, 0, 0), 0);
    assert_eq!(g.add_node(8, 1000, 0), 1);
    assert_eq!(g.add_node(9, 0, 1000), 2);
    assert_eq!(g.num_nodes(), 3);
    assert_eq!(*g.node_value(0), 7);
    assert_eq!(*g.node_value(2), 9);
    assert_eq!(g.node_mass(1), SCALE);
    assert_eq!(g.node_position(1), Vec2 { x: 1000, y: 0 });
    assert_eq!(g.node_velocity(1), Vec2 { x: 0, y: 0 });
    assert_eq!(g.node_force(1), Vec2 { x: 0, y: 0 });
}

#[test]
fn add_node_saturates_position() {
    let mut g: Graph<u32> = Graph::new();
    g.add_node(0, i64::MAX, i64::MIN + 1);
    assert_eq!(g.node_position(0), Vec2 { x: FX_MAX, y: -FX_MAX });
}

#[test]
fn adjacency_symmetric() {
    let mut g: Graph<u32> = Graph::new();
    for i in 0..4 {
        g.add_node(i, 0, 0);
    }
    g.set_adjacency(1, 3, 2500);
    assert_eq!(g.get_adjacency(1, 3), 2500);
    assert_eq!(g.get_adjacency(3, 1), 2500);
    g.set_adjacency(2, 0, 700);
    assert_eq!(g.get_adjacency(0, 2), 700);
    assert_eq!(g.get_adjacency(2, 0), 700);
}

#[test]
fn adjacency_self_loop_is_zero() {
    let mut g: Graph<u32> = Graph::new();
    for i in 0..3 {
        g.add_node(i, 0, 0);
    }
    g.set_adjacency(1, 1, 5000);
    assert_eq!(g.get_adjacency(1, 1), 0);
    assert_eq!(g.max_adjacency(), 0);
}

#[test]
fn adjacency_out_of_range_is_noop() {
    let mut g: Graph<u32> = Graph::new();
    g.add_node(0, 0, 0);
    g.add_node(1, 0, 0);
    g.set_adjacency(0, 2, 5000);
    assert_eq!(g.get_adjacency(0, 2), 0);
    assert_eq!(g.get_adjacency(2, 0), 0);
    assert_eq!(g.max_adjacency(), 0);
}

#[test]
fn growth_preserves_weights() {
    let mut g: Graph<u32> = Graph::new();
    for i in 0..3 {
        g.add_node(i, 0, 0);
    }
    g.set_adjacency(0, 1, 1100);
    g.set_adjacency(1, 2, 2200);
    g.set_adjacency(0, 2, 3300);
    let before = g.num_nodes();
    g.add_node(99, 500, 500);
    assert_eq!(g.num_nodes(), before + 1);
    assert_eq!(g.get_adjacency(0, 1), 1100);
    assert_eq!(g.get_adjacency(1, 2), 2200);
    assert_eq!(g.get_adjacency(0, 2), 3300);
    for i in 0..4 {
        assert_eq!(g.get_adjacency(i, 3), 0);
    }
    assert_eq!(g.max_adjacency(), 3300);
}

#[test]
fn stale_max_after_lowering() {
    let mut g: Graph<u32> = Graph::new();
    g.add_node(0, 0, 0);
    g.add_node(1, 0, 0);
    g.set_adjacency(0, 1, 5000);
    g.set_adjacency(0, 1, 2000);
    assert_eq!(g.get_adjacency(0, 1), 2000);
    assert_eq!(g.max_adjacency(), 5000);
}

#[test]
fn weight_saturates() {
    let mut g: Graph<u32> = Graph::new();
    g.add_node(0, 0, 0);
    g.add_node(1, 0, 0);
    g.set_adjacency(0, 1, i64::MAX);
    assert_eq!(g.get_adjacency(0, 1), FX_MAX);
    assert_eq!(g.max_adjacency(), FX_MAX);
}

#[test]
fn nearest_node_basic() {
    let mut g: Graph<u32> = Graph::new();
    g.add_node(0, 0, 0);
    g.add_node(1, 10000, 0);
    g.add_node(2, 0, 3000);
    assert_eq!(g.nearest_node(Vec2 { x: 9000, y: 100 }), 1);
    assert_eq!(g.nearest_node(Vec2 { x: 100, y: 2500 }), 2);
}

#[test]
fn nearest_node_tie_breaks_to_lowest_id() {
    let mut g: Graph<u32> = Graph::new();
    g.add_node(0, 0, 0);
    g.add_node(1, 2000, 0);
    assert_eq!(g.nearest_node(Vec2 { x: 1000, y: 0 }), 0);
}

#[test]
fn drag_node_sets_position_and_zeroes_velocity() {
    let mut g: Graph<u32> = Graph::new();
    g.add_node(0, 0, 0);
    g.add_node(1, 5000, 0);
    g.drag_node(0, Vec2 { x: 123, y: -456 }, 2000);
    assert_eq!(g.node_position(0), Vec2 { x: 123, y: -456 });
    assert_eq!(g.node_velocity(0), Vec2 { x: 0, y: 0 });
    assert_eq!(g.node_position(1), Vec2 { x: 5000, y: 0 });
}
