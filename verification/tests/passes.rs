//! Tests of the force passes, the integrator and the relaxation pass,
//! with exact fixed-point expected values.

use graph_layout::forces::PassConfig;
use graph_layout::graph::{Graph, Vec2};

fn two_node_edge() -> Graph<u32> {
    // Two nodes one edge apart: positions 0.0 and 5.0 units on the x
    // axis, single edge of weight 10.0, so the cached maximum is 10.0
    // and the normalized weight is exactly 1.
    let mut g: Graph<u32> = Graph::new();
    g.add_node(0, 0, 0);
    g.add_node(1, 5000, 0);
    g.set_adjacency(0, 1, 10000);
    g
}

#[test]
fn spring_two_nodes_exact() {
    // Target rest length 18 - 14*1 = 4 units; distance 5; displacement
    // 1 unit; stiffness w = 1. Force (1.0, 0) on node 0 and the exact
    // opposite on node 1.
    let mut g = two_node_edge();
    let cfg = PassConfig::standard();
    g.spring_update(&cfg);
    assert_eq!(g.node_force(0), Vec2 { x: 1000, y: 0 });
    assert_eq!(g.node_force(1), Vec2 { x: -1000, y: 0 });
    // positions and velocities untouched by a force pass
    assert_eq!(g.node_position(0), Vec2 { x: 0, y: 0 });
    assert_eq!(g.node_position(1), Vec2 { x: 5000, y: 0 });
    assert_eq!(g.node_velocity(0), Vec2 { x: 0, y: 0 });
}

#[test]
fn spring_skips_edgeless_graph() {
    let mut g: Graph<u32> = Graph::new();
    g.add_node(0, 0, 0);
    g.add_node(1, 5000, 0);
    let cfg = PassConfig::standard();
    g.spring_update(&cfg);
    assert_eq!(g.node_force(0), Vec2 { x: 0, y: 0 });
    assert_eq!(g.node_force(1), Vec2 { x: 0, y: 0 });
}

#[test]
fn spring_all_weights_zero_is_noop_even_with_stale_max() {
    // Lowering the only weight to 0 leaves the cached maximum at 5.0;
    // the pass still adds nothing because stiffness is the weight.
    let mut g: Graph<u32> = Graph::new();
    g.add_node(0, 0, 0);
    g.add_node(1, 5000, 0);
    g.set_adjacency(0, 1, 5000);
    g.set_adjacency(0, 1, 0);
    assert_eq!(g.max_adjacency(), 5000);
    let cfg = PassConfig::standard();
    g.spring_update(&cfg);
    assert_eq!(g.node_force(0), Vec2 { x: 0, y: 0 });
    assert_eq!(g.node_force(1), Vec2 { x: 0, y: 0 });
}

#[test]
fn spring_conservation_many_nodes() {
    let mut g: Graph<u32> = Graph::new();
    g.add_node(0, 0, 0);
    g.add_node(1, 7000, 1000);
    g.add_node(2, -3000, 4000);
    g.add_node(3, 2500, -6000);
    g.set_adjacency(0, 1, 4000);
    g.set_adjacency(1, 2, 9000);
    g.set_adjacency(2, 3, 1000);
    g.set_adjacency(0, 3, 6000);
    let cfg = PassConfig::standard();
    g.spring_update(&cfg);
    let mut sx: i64 = 0;
    let mut sy: i64 = 0;
    for i in 0..g.num_nodes() {
        sx += g.node_force(i).x;
        sy += g.node_force(i).y;
    }
    assert_eq!(sx, 0);
    assert_eq!(sy, 0);
}

#[test]
fn repulsion_two_nodes_exact() {
    // One unit apart, padding one unit: magnitude 20 / (1+1)^2 = 5.
    let mut g: Graph<u32> = Graph::new();
    g.add_node(0, 0, 0);
    g.add_node(1, 1000, 0);
    let cfg = PassConfig::standard();
    g.separate_nodes_update(20000, &cfg);
    assert_eq!(g.node_force(0), Vec2 { x: -5000, y: 0 });
    assert_eq!(g.node_force(1), Vec2 { x: 5000, y: 0 });
}

#[test]
fn repulsion_conservation() {
    let mut g: Graph<u32> = Graph::new();
    g.add_node(0, 0, 0);
    g.add_node(1, 7000, 1000);
    g.add_node(2, -3000, 4000);
    g.add_node(3, 2500, -6000);
    let cfg = PassConfig::standard();
    g.separate_nodes_update(20000, &cfg);
    let mut sx: i64 = 0;
    let mut sy: i64 = 0;
    for i in 0..g.num_nodes() {
        sx += g.node_force(i).x;
        sy += g.node_force(i).y;
    }
    assert_eq!(sx, 0);
    assert_eq!(sy, 0);
}

#[test]
fn repulsion_coincident_nodes_contribute_nothing() {
    let mut g: Graph<u32> = Graph::new();
    g.add_node(0, 700, 700);
    g.add_node(1, 700, 700);
    let cfg = PassConfig::standard();
    g.separate_nodes_update(20000, &cfg);
    assert_eq!(g.node_force(0), Vec2 { x: 0, y: 0 });
    assert_eq!(g.node_force(1), Vec2 { x: 0, y: 0 });
}

#[test]
fn straighten_right_angle_exact() {
    // A right-angle fold at node 0 with both arms of weight 1: node 0
    // is pulled toward the midpoint of its neighbors, which each take
    // half the force back.
    let mut g: Graph<u32> = Graph::new();
    g.add_node(0, 0, 0);
    g.add_node(1, 2000, 0);
    g.add_node(2, 0, 2000);
    g.set_adjacency(0, 1, 1000);
    g.set_adjacency(0, 2, 1000);
    let cfg = PassConfig::standard();
    g.straighten_connections_update(&cfg);
    assert_eq!(g.node_force(0), Vec2 { x: 4, y: 4 });
    assert_eq!(g.node_force(1), Vec2 { x: -2, y: -2 });
    assert_eq!(g.node_force(2), Vec2 { x: -2, y: -2 });
}

#[test]
fn straighten_conservation() {
    let mut g: Graph<u32> = Graph::new();
    g.add_node(0, 0, 0);
    g.add_node(1, 2000, 300);
    g.add_node(2, -500, 2000);
    g.add_node(3, 4000, 4000);
    g.set_adjacency(0, 1, 1000);
    g.set_adjacency(0, 2, 2000);
    g.set_adjacency(1, 3, 1500);
    let cfg = PassConfig::standard();
    g.straighten_connections_update(&cfg);
    let mut sx: i64 = 0;
    let mut sy: i64 = 0;
    for i in 0..g.num_nodes() {
        sx += g.node_force(i).x;
        sy += g.node_force(i).y;
    }
    assert_eq!(sx, 0);
    assert_eq!(sy, 0);
}

#[test]
fn straighten_edgeless_is_noop() {
    let mut g: Graph<u32> = Graph::new();
    g.add_node(0, 0, 0);
    g.add_node(1, 2000, 0);
    g.add_node(2, 0, 2000);
    let cfg = PassConfig::standard();
    g.straighten_connections_update(&cfg);
    for i in 0..g.num_nodes() {
        assert_eq!(g.node_force(i), Vec2 { x: 0, y: 0 });
    }
}

#[test]
fn integrator_advances_and_clears_forces() {
    // After the spring pass of the two-node scenario, step dt = 0.2:
    // velocity 1.0 * 0.2 / 1.0 = 0.2 units, position 0.2 * 0.2 = 0.04
    // units, and every force accumulator is reset to zero.
    let mut g = two_node_edge();
    let cfg = PassConfig::standard();
    g.spring_update(&cfg);
    g.kinematic_update(200);
    assert_eq!(g.node_velocity(0), Vec2 { x: 200, y: 0 });
    assert_eq!(g.node_velocity(1), Vec2 { x: -200, y: 0 });
    assert_eq!(g.node_position(0), Vec2 { x: 40, y: 0 });
    assert_eq!(g.node_position(1), Vec2 { x: 4960, y: 0 });
    assert_eq!(g.node_force(0), Vec2 { x: 0, y: 0 });
    assert_eq!(g.node_force(1), Vec2 { x: 0, y: 0 });
}

#[test]
fn integrator_reset_regardless_of_prior_forces() {
    let mut g: Graph<u32> = Graph::new();
    g.add_node(0, 0, 0);
    g.add_node(1, 1000, 0);
    let cfg = PassConfig::standard();
    // pile up several passes before a single integration
    g.separate_nodes_update(20000, &cfg);
    g.separate_nodes_update(20000, &cfg);
    g.kinematic_update(100);
    assert_eq!(g.node_force(0), Vec2 { x: 0, y: 0 });
    assert_eq!(g.node_force(1), Vec2 { x: 0, y: 0 });
}

#[test]
fn friction_damps_velocity_exact() {
    let mut g = two_node_edge();
    let cfg = PassConfig::standard();
    g.spring_update(&cfg);
    g.kinematic_update(200);
    // velocity is now (0.2, 0); friction 0.3 adds force (-0.06, 0)
    g.friction_update(300);
    assert_eq!(g.node_force(0), Vec2 { x: -60, y: 0 });
    assert_eq!(g.node_force(1), Vec2 { x: 60, y: 0 });
}

#[test]
fn lerp_moves_positions_only() {
    // Same scenario as the spring test: displacement 1 unit; factor
    // t * (0.5 + 0.5 * w) = 0.3 * 1 = 0.3, so each endpoint moves 0.3
    // units toward the other.
    let mut g = two_node_edge();
    let cfg = PassConfig::standard();
    g.lerp_update(&cfg);
    assert_eq!(g.node_position(0), Vec2 { x: 300, y: 0 });
    assert_eq!(g.node_position(1), Vec2 { x: 4700, y: 0 });
    assert_eq!(g.node_velocity(0), Vec2 { x: 0, y: 0 });
    assert_eq!(g.node_force(0), Vec2 { x: 0, y: 0 });
}

#[test]
fn lerp_skips_edgeless_graph() {
    let mut g: Graph<u32> = Graph::new();
    g.add_node(0, 0, 0);
    g.add_node(1, 5000, 0);
    let cfg = PassConfig::standard();
    g.lerp_update(&cfg);
    assert_eq!(g.node_position(0), Vec2 { x: 0, y: 0 });
    assert_eq!(g.node_position(1), Vec2 { x: 5000, y: 0 });
}

#[test]
fn spring_coincident_nodes_contribute_nothing() {
    let mut g: Graph<u32> = Graph::new();
    g.add_node(0, 1000, 1000);
    g.add_node(1, 1000, 1000);
    g.set_adjacency(0, 1, 1000);
    let cfg = PassConfig::standard();
    g.spring_update(&cfg);
    assert_eq!(g.node_force(0), Vec2 { x: 0, y: 0 });
    assert_eq!(g.node_force(1), Vec2 { x: 0, y: 0 });
}
