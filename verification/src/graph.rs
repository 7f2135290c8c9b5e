//! The weighted graph store: node attributes plus a packed symmetric
//! adjacency matrix.
//!
//! Node ids are 0-based, contiguous, assigned at insertion and never
//! reused; no node-removal operation exists. For an unordered pair
//! `(i, j)` with `i != j`, the edge weight lives at flat index
//! `a*(a-1)/2 + b` where `a = max(i, j)`, `b = min(i, j)`: exactly the
//! strictly-lower triangle of the matrix. Self pairs and out-of-range
//! indices are not stored: reading them yields 0 and writing them is a
//! no-op, by design.

use vstd::prelude::*;
use vstd::pervasive::VecAdditionalExecFns;
use crate::fx::{FX_MAX, SCALE, fx_in_range, spec_clamp, fx_clamp};

verus! {

/// Upper bound on the node count, so that the packed adjacency index
/// arithmetic always fits in `usize`, on 32-bit machines too.
pub const MAX_NODES: usize = 46340;

/// A 2D vector of fixed-point scalars.
#[derive(Clone, Copy, PartialEq, Eq, Structural, Debug)]
pub struct Vec2 {
    pub x: i64,
    pub y: i64,
}

pub open spec fn v2_in_range(v: Vec2) -> bool {
    fx_in_range(v.x as int) && fx_in_range(v.y as int)
}

/// One point mass of the layout: an opaque payload, a mass, a position,
/// a velocity and a transient force accumulator.
struct Node<T> {
    value: T,
    mass: i64,
    pos: Vec2,
    v: Vec2,
    f: Vec2,
}

/// A weighted undirected graph of point masses.
pub struct Graph<T> {
    nodes: Vec<Node<T>>,
    adjacencies: Vec<i64>,
    max_adjacency: i64,
}

/// Number of entries of the strictly-lower triangle of an `a` x `a`
/// matrix; also the flat index where row `a` of that triangle starts.
pub open spec fn tri(a: int) -> int
    decreases a,
{
    if a <= 0 {
        0
    } else {
        tri(a - 1) + (a - 1)
    }
}

pub proof fn lemma_tri_nonneg(a: int)
    ensures
        0 <= tri(a),
    decreases a,
{
    if a > 0 {
        lemma_tri_nonneg(a - 1);
    }
}

pub proof fn lemma_tri_mono(x: int, y: int)
    requires
        x <= y,
    ensures
        tri(x) <= tri(y),
    decreases y - x,
{
    lemma_tri_nonneg(x);
    lemma_tri_nonneg(y);
    if x < y {
        lemma_tri_mono(x, y - 1);
        if y - 1 >= 0 {
        } else {
        }
    }
}

pub proof fn lemma_tri_closed(a: int)
    requires
        0 <= a,
    ensures
        tri(a) == a * (a - 1) / 2,
    decreases a,
{
    if a == 0 {
    } else {
        lemma_tri_closed(a - 1);
        assert(a * (a - 1) == (a - 1) * (a - 2) + (a - 1) * 2) by (nonlinear_arith);
        vstd::arithmetic::div_mod::lemma_hoist_over_denominator((a - 1) * (a - 2), a - 1, 2);
    }
}

/// The packed index is injective on valid (row, column) pairs.
pub proof fn lemma_tri_index_inj(a1: int, b1: int, a2: int, b2: int)
    requires
        0 <= b1 < a1,
        0 <= b2 < a2,
        tri(a1) + b1 == tri(a2) + b2,
    ensures
        a1 == a2,
        b1 == b2,
{
    if a1 < a2 {
        lemma_tri_mono(a1 + 1, a2);
        assert(false);
    } else if a2 < a1 {
        lemma_tri_mono(a2 + 1, a1);
        assert(false);
    }
}

impl<T> Graph<T> {
    pub closed spec fn num_nodes_spec(self) -> int {
        self.nodes@.len() as int
    }

    pub closed spec fn pos_spec(self, i: int) -> (int, int) {
        (self.nodes@[i].pos.x as int, self.nodes@[i].pos.y as int)
    }

    pub closed spec fn vel_spec(self, i: int) -> (int, int) {
        (self.nodes@[i].v.x as int, self.nodes@[i].v.y as int)
    }

    pub closed spec fn force_spec(self, i: int) -> (int, int) {
        (self.nodes@[i].f.x as int, self.nodes@[i].f.y as int)
    }

    pub closed spec fn mass_spec(self, i: int) -> int {
        self.nodes@[i].mass as int
    }

    pub closed spec fn value_spec(self, i: int) -> T {
        self.nodes@[i].value
    }

    /// The maximum weight ever written, cached monotonically and never
    /// recomputed: lowering the largest weight leaves it overstated.
    pub closed spec fn max_adj_spec(self) -> int {
        self.max_adjacency as int
    }

    /// The edge weight of the unordered pair `(i, j)`: 0 for self pairs
    /// and out-of-range indices, the stored triangle entry otherwise.
    pub closed spec fn adj_spec(self, i: int, j: int) -> int {
        if i == j || i < 0 || j < 0 || i >= self.num_nodes_spec() || j >= self.num_nodes_spec() {
            0
        } else {
            let a = if i > j { i } else { j };
            let b = if i > j { j } else { i };
            self.adjacencies@[tri(a) + b] as int
        }
    }

    /// Well-formedness: the node count is bounded, the adjacency storage
    /// covers the triangle with room to spare, every stored scalar is in
    /// the fixed-point range, entries beyond the in-use triangle are 0,
    /// and the cached maximum is non-negative.
    pub closed spec fn wf(self) -> bool {
        &&& self.nodes@.len() <= MAX_NODES
        &&& tri(self.nodes@.len() as int + 1) <= self.adjacencies@.len()
        &&& forall|k: int| 0 <= k < self.adjacencies@.len()
                ==> fx_in_range(#[trigger] self.adjacencies@[k] as int)
        &&& forall|k: int| tri(self.nodes@.len() as int) <= k < self.adjacencies@.len()
                ==> self.adjacencies@[k] == 0i64
        &&& 0 <= self.max_adjacency <= FX_MAX
        &&& forall|i: int| 0 <= i < self.nodes@.len() ==> {
                let n = #[trigger] self.nodes@[i];
                &&& 0 < n.mass <= FX_MAX
                &&& fx_in_range(n.pos.x as int) && fx_in_range(n.pos.y as int)
                &&& fx_in_range(n.v.x as int) && fx_in_range(n.v.y as int)
                &&& fx_in_range(n.f.x as int) && fx_in_range(n.f.y as int)
            }
    }

    /// Squared Euclidean distance between node `i` and point `p`.
    pub open spec fn dist2_spec(self, i: int, p: (int, int)) -> int {
        let q = self.pos_spec(i);
        (q.0 - p.0) * (q.0 - p.0) + (q.1 - p.1) * (q.1 - p.1)
    }
}

/// Node attributes of `a` and `b` agree at every index (the node count,
/// payloads, masses, positions, velocities and forces).
pub open spec fn same_nodes<T>(a: Graph<T>, b: Graph<T>) -> bool {
    &&& same_placement(a, b)
    &&& forall|i: int|
        #![trigger a.vel_spec(i)]
        #![trigger b.vel_spec(i)]
        0 <= i < a.num_nodes_spec() ==> a.vel_spec(i) == b.vel_spec(i)
    &&& forall|i: int|
        #![trigger a.force_spec(i)]
        #![trigger b.force_spec(i)]
        0 <= i < a.num_nodes_spec() ==> a.force_spec(i) == b.force_spec(i)
}

/// Like `same_nodes` but without velocities and forces.
pub open spec fn same_placement<T>(a: Graph<T>, b: Graph<T>) -> bool {
    &&& a.num_nodes_spec() == b.num_nodes_spec()
    &&& forall|i: int|
        #![trigger a.pos_spec(i)]
        #![trigger b.pos_spec(i)]
        0 <= i < a.num_nodes_spec() ==> a.pos_spec(i) == b.pos_spec(i)
    &&& forall|i: int|
        #![trigger a.mass_spec(i)]
        #![trigger b.mass_spec(i)]
        0 <= i < a.num_nodes_spec() ==> a.mass_spec(i) == b.mass_spec(i)
    &&& forall|i: int|
        #![trigger a.value_spec(i)]
        #![trigger b.value_spec(i)]
        0 <= i < a.num_nodes_spec() ==> a.value_spec(i) == b.value_spec(i)
}

/// The adjacency relation and its cached maximum agree.
pub open spec fn same_adjacency<T>(a: Graph<T>, b: Graph<T>) -> bool {
    &&& a.max_adj_spec() == b.max_adj_spec()
    &&& forall|i: int, j: int|
        #![trigger a.adj_spec(i, j)]
        #![trigger b.adj_spec(i, j)]
        a.adj_spec(i, j) == b.adj_spec(i, j)
}

/// The packed encoding is symmetric in its two indices.
pub proof fn lemma_adjacency_symmetric<T>(g: Graph<T>, i: int, j: int)
    ensures
        g.adj_spec(i, j) == g.adj_spec(j, i),
{
}

/// Self pairs are never stored: the weight of `(i, i)` is 0.
pub proof fn lemma_adjacency_self_loop<T>(g: Graph<T>, i: int)
    ensures
        g.adj_spec(i, i) == 0,
{
}

/// A well-formed graph holds every node scalar in the fixed-point range
/// and a positive mass.
pub proof fn lemma_wf_node_ranges<T>(g: Graph<T>, i: int)
    requires
        g.wf(),
        0 <= i < g.num_nodes_spec(),
    ensures
        fx_in_range(g.pos_spec(i).0),
        fx_in_range(g.pos_spec(i).1),
        fx_in_range(g.vel_spec(i).0),
        fx_in_range(g.vel_spec(i).1),
        fx_in_range(g.force_spec(i).0),
        fx_in_range(g.force_spec(i).1),
        0 < g.mass_spec(i) <= FX_MAX as int,
{
}

/// A well-formed graph holds every weight, and the cached maximum, in
/// the fixed-point range.
pub proof fn lemma_wf_adj_ranges<T>(g: Graph<T>, i: int, j: int)
    requires
        g.wf(),
    ensures
        fx_in_range(g.adj_spec(i, j)),
        0 <= g.max_adj_spec() <= FX_MAX as int,
{
    let n = g.num_nodes_spec();
    if !(i == j || i < 0 || j < 0 || i >= n || j >= n) {
        let a = if i > j { i } else { j };
        let b = if i > j { j } else { i };
        lemma_tri_nonneg(a);
        lemma_tri_mono(a + 1, n);
        lemma_tri_mono(n, n + 1);
    }
}

impl<T> Graph<T> {
    /// An empty graph: no nodes, no weights, cached maximum 0.
    pub fn new() -> (g: Graph<T>)
        ensures
            g.wf(),
            g.num_nodes_spec() == 0,
            g.max_adj_spec() == 0,
            forall|i: int, j: int| #[trigger] g.adj_spec(i, j) == 0,
    {
        let g = Graph { nodes: Vec::new(), adjacencies: Vec::new(), max_adjacency: 0 };
        proof {
            assert(tri(0) == 0);
            assert(tri(1) == 0);
        }
        g
    }

    pub fn num_nodes(&self) -> (r: usize)
        ensures
            r as int == self.num_nodes_spec(),
    {
        self.nodes.len()
    }

    pub fn node_position(&self, i: usize) -> (r: Vec2)
        requires
            (i as int) < self.num_nodes_spec(),
        ensures
            (r.x as int, r.y as int) == self.pos_spec(i as int),
            self.wf() ==> v2_in_range(r),
    {
        self.nodes[i].pos
    }

    pub fn node_velocity(&self, i: usize) -> (r: Vec2)
        requires
            (i as int) < self.num_nodes_spec(),
        ensures
            (r.x as int, r.y as int) == self.vel_spec(i as int),
            self.wf() ==> v2_in_range(r),
    {
        self.nodes[i].v
    }

    pub fn node_force(&self, i: usize) -> (r: Vec2)
        requires
            (i as int) < self.num_nodes_spec(),
        ensures
            (r.x as int, r.y as int) == self.force_spec(i as int),
            self.wf() ==> v2_in_range(r),
    {
        self.nodes[i].f
    }

    pub fn node_mass(&self, i: usize) -> (r: i64)
        requires
            (i as int) < self.num_nodes_spec(),
        ensures
            r as int == self.mass_spec(i as int),
            self.wf() ==> 0 < r <= FX_MAX,
    {
        self.nodes[i].mass
    }

    pub fn node_value(&self, i: usize) -> (r: &T)
        requires
            (i as int) < self.num_nodes_spec(),
        ensures
            *r == self.value_spec(i as int),
    {
        &self.nodes[i].value
    }

    /// The cached maximum weight (see `max_adj_spec`: monotone, possibly
    /// overstating the current maximum).
    pub fn max_adjacency(&self) -> (r: i64)
        ensures
            r as int == self.max_adj_spec(),
    {
        self.max_adjacency
    }

    /// Appends a node with the given payload at position `(x, y)`
    /// (saturated to the scalar range), unit mass, zero velocity and
    /// zero force, and returns its id. Every previously stored weight,
    /// and the weight of every pair involving the new node, is
    /// unchanged (the latter 0).
    pub fn add_node(&mut self, value: T, x: i64, y: i64) -> (id: usize)
        requires
            old(self).wf(),
            old(self).num_nodes_spec() < MAX_NODES,
        ensures
            final(self).wf(),
            id as int == old(self).num_nodes_spec(),
            final(self).num_nodes_spec() == old(self).num_nodes_spec() + 1,
            final(self).pos_spec(id as int) == (spec_clamp(x as int), spec_clamp(y as int)),
            final(self).vel_spec(id as int) == (0int, 0int),
            final(self).force_spec(id as int) == (0int, 0int),
            final(self).mass_spec(id as int) == SCALE as int,
            final(self).value_spec(id as int) == value,
            forall|i: int| 0 <= i < old(self).num_nodes_spec()
                ==> #[trigger] final(self).pos_spec(i) == old(self).pos_spec(i),
            forall|i: int| 0 <= i < old(self).num_nodes_spec()
                ==> #[trigger] final(self).vel_spec(i) == old(self).vel_spec(i),
            forall|i: int| 0 <= i < old(self).num_nodes_spec()
                ==> #[trigger] final(self).force_spec(i) == old(self).force_spec(i),
            forall|i: int| 0 <= i < old(self).num_nodes_spec()
                ==> #[trigger] final(self).mass_spec(i) == old(self).mass_spec(i),
            forall|i: int| 0 <= i < old(self).num_nodes_spec()
                ==> #[trigger] final(self).value_spec(i) == old(self).value_spec(i),
            same_adjacency(*old(self), *final(self)),
    {
        let id = self.nodes.len();
        self.nodes.push(Node {
            value,
            mass: SCALE,
            pos: Vec2 { x: fx_clamp(x), y: fx_clamp(y) },
            v: Vec2 { x: 0, y: 0 },
            f: Vec2 { x: 0, y: 0 },
        });
        let n = self.nodes.len();
        proof {
            lemma_tri_closed(n as int + 1);
            assert((n + 1) * n == (n as int + 1) * ((n as int + 1) - 1)) by (nonlinear_arith);
            assert((n + 1) * (n as int) < 0x1_0000_0000int) by (nonlinear_arith)
                requires
                    n <= 46340,
            ;
        }
        let target: usize = (n + 1) * n / 2;
        assert(target as int == tri(n as int + 1));
        let ghost nodes_snap = self.nodes@;
        let ghost adj_snap = self.adjacencies@;
        while self.adjacencies.len() < target
            invariant
                self.nodes@ == nodes_snap,
                self.max_adjacency == old(self).max_adjacency,
                adj_snap.len() <= self.adjacencies@.len(),
                self.adjacencies@.len() <= adj_snap.len() || self.adjacencies@.len() <= target,
                forall|k: int| 0 <= k < adj_snap.len()
                    ==> #[trigger] self.adjacencies@[k] == adj_snap[k],
                forall|k: int| adj_snap.len() <= k < self.adjacencies@.len()
                    ==> #[trigger] self.adjacencies@[k] == 0i64,
            decreases target - self.adjacencies@.len(),
        {
            self.adjacencies.push(0);
        }
        proof {
            let oldg = *old(self);
            let newg = *self;
            let on = oldg.num_nodes_spec();
            assert(adj_snap == oldg.adjacencies@);
            lemma_tri_nonneg(on);
            lemma_tri_mono(on, on + 1);
            lemma_tri_mono(on + 1, on + 2);
            assert(newg.wf()) by {
                assert forall|k: int| tri(newg.nodes@.len() as int) <= k < newg.adjacencies@.len()
                    implies newg.adjacencies@[k] == 0i64 by {
                    if k < adj_snap.len() {
                        assert(oldg.adjacencies@[k] == 0i64);
                    } else {
                        assert(newg.adjacencies@[k] == 0i64);
                    }
                }
            }
            assert forall|i: int, j: int| #[trigger] oldg.adj_spec(i, j) == newg.adj_spec(i, j) by {
                if !(i == j || i < 0 || j < 0 || i >= newg.num_nodes_spec() || j
                    >= newg.num_nodes_spec()) {
                    let a = if i > j { i } else { j };
                    let b = if i > j { j } else { i };
                    lemma_tri_nonneg(a);
                    lemma_tri_mono(a + 1, newg.num_nodes_spec());
                    if a < on {
                        // previously stored pair: its entry was preserved
                        lemma_tri_mono(a + 1, on);
                    } else {
                        // pair involving the new node: reads a padding or
                        // freshly pushed entry, which is 0
                        assert(a == on);
                        assert(tri(on) <= tri(a) + b);
                        if tri(a) + b < adj_snap.len() {
                            assert(oldg.adjacencies@[tri(a) + b] == 0i64);
                        }
                    }
                }
            }
        }
        id
    }

    /// Stores `weight` (saturated to the scalar range) for the unordered
    /// pair `(i, j)` and raises the cached maximum to it if it is larger.
    /// A self pair or an out-of-range index makes the call a no-op, by
    /// design. Every other pair keeps its weight.
    pub fn set_adjacency(&mut self, i: usize, j: usize, weight: i64)
        requires
            old(self).wf(),
        ensures
            final(self).wf(),
            same_nodes(*old(self), *final(self)),
            (i == j || i as int >= old(self).num_nodes_spec() || j as int >= old(
                self,
            ).num_nodes_spec()) ==> *final(self) == *old(self),
            (i != j && (i as int) < old(self).num_nodes_spec() && (j as int) < old(
                self,
            ).num_nodes_spec()) ==> {
                &&& forall|p: int, q: int|
                    #[trigger] final(self).adj_spec(p, q) == if (p == i as int && q == j as int)
                        || (p == j as int && q == i as int) {
                        spec_clamp(weight as int)
                    } else {
                        old(self).adj_spec(p, q)
                    }
                &&& final(self).max_adj_spec() == if spec_clamp(weight as int) > old(
                    self,
                ).max_adj_spec() {
                    spec_clamp(weight as int)
                } else {
                    old(self).max_adj_spec()
                }
            },
    {
        let n = self.nodes.len();
        let a = if i > j { i } else { j };
        let b = if i > j { j } else { i };
        if a >= n || i == j {
            return ;
        }
        proof {
            lemma_tri_nonneg(a as int);
            lemma_tri_closed(a as int);
            lemma_tri_mono(a as int + 1, n as int);
            lemma_tri_mono(n as int, n as int + 1);
            assert(a * (a - 1) < 0x1_0000_0000int) by (nonlinear_arith)
                requires
                    a < 46340,
            ;
        }
        let index: usize = a * (a - 1) / 2 + b;
        assert(index as int == tri(a as int) + b as int);
        let c = fx_clamp(weight);
        if c > self.max_adjacency {
            self.max_adjacency = c;
        }
        self.adjacencies.set(index, c);
        proof {
            let oldg = *old(self);
            let newg = *self;
            let n = oldg.num_nodes_spec();
            assert forall|p: int, q: int|
                #[trigger] newg.adj_spec(p, q) == if (p == i as int && q == j as int) || (p
                    == j as int && q == i as int) {
                    spec_clamp(weight as int)
                } else {
                    oldg.adj_spec(p, q)
                } by {
                if !(p == q || p < 0 || q < 0 || p >= n || q >= n) {
                    let pa = if p > q { p } else { q };
                    let pb = if p > q { q } else { p };
                    lemma_tri_nonneg(pa);
                    lemma_tri_mono(pa + 1, n);
                    lemma_tri_mono(n, n + 1);
                    if tri(pa) + pb == tri(a as int) + b as int {
                        lemma_tri_index_inj(pa, pb, a as int, b as int);
                    }
                }
            }
        }
    }

    /// Reads the weight of the unordered pair `(i, j)`: 0 for a self
    /// pair or an out-of-range index.
    pub fn get_adjacency(&self, i: usize, j: usize) -> (r: i64)
        requires
            self.wf(),
        ensures
            r as int == self.adj_spec(i as int, j as int),
            fx_in_range(r as int),
    {
        let n = self.nodes.len();
        let a = if i > j { i } else { j };
        let b = if i > j { j } else { i };
        if a >= n || i == j {
            return 0;
        }
        proof {
            lemma_tri_nonneg(a as int);
            lemma_tri_closed(a as int);
            lemma_tri_mono(a as int + 1, n as int);
            lemma_tri_mono(n as int, n as int + 1);
            assert(a * (a - 1) < 0x1_0000_0000int) by (nonlinear_arith)
                requires
                    a < 46340,
            ;
        }
        let index: usize = a * (a - 1) / 2 + b;
        assert(index as int == tri(a as int) + b as int);
        self.adjacencies[index]
    }

    /// Overwrites the node's position (saturated to the scalar range)
    /// and zeroes its velocity, temporarily overriding integration;
    /// its force accumulator keeps accumulating normally. The strength
    /// parameter is kept for callers of the spring-pull drag variant and
    /// is unused by this hard-set implementation.
    pub fn drag_node(&mut self, node: usize, pos: Vec2, _strength: i64)
        requires
            old(self).wf(),
            (node as int) < old(self).num_nodes_spec(),
        ensures
            final(self).wf(),
            final(self).num_nodes_spec() == old(self).num_nodes_spec(),
            final(self).pos_spec(node as int) == (
                spec_clamp(pos.x as int),
                spec_clamp(pos.y as int),
            ),
            final(self).vel_spec(node as int) == (0int, 0int),
            final(self).force_spec(node as int) == old(self).force_spec(node as int),
            final(self).mass_spec(node as int) == old(self).mass_spec(node as int),
            final(self).value_spec(node as int) == old(self).value_spec(node as int),
            forall|i: int| 0 <= i < old(self).num_nodes_spec() && i != node as int
                ==> #[trigger] final(self).pos_spec(i) == old(self).pos_spec(i)
                    && #[trigger] final(self).vel_spec(i) == old(self).vel_spec(i)
                    && final(self).force_spec(i) == old(self).force_spec(i)
                    && final(self).mass_spec(i) == old(self).mass_spec(i)
                    && final(self).value_spec(i) == old(self).value_spec(i),
            same_adjacency(*old(self), *final(self)),
    {
        let px = fx_clamp(pos.x);
        let py = fx_clamp(pos.y);
        let node_ref = &mut self.nodes[node];
        node_ref.pos = Vec2 { x: px, y: py };
        node_ref.v = Vec2 { x: 0, y: 0 };
    }

    /// The id of a node nearest to `p` in squared Euclidean distance,
    /// ties broken in favor of the lowest id.
    pub fn nearest_node(&self, p: Vec2) -> (r: usize)
        requires
            self.wf(),
            0 < self.num_nodes_spec(),
            v2_in_range(p),
        ensures
            (r as int) < self.num_nodes_spec(),
            forall|j: int| 0 <= j < self.num_nodes_spec()
                ==> #[trigger] self.dist2_spec(j, (p.x as int, p.y as int)) >= self.dist2_spec(
                    r as int, (p.x as int, p.y as int)),
            forall|j: int| 0 <= j < r as int
                ==> #[trigger] self.dist2_spec(j, (p.x as int, p.y as int)) > self.dist2_spec(
                    r as int, (p.x as int, p.y as int)),
    {
        let n = self.nodes.len();
        let mut nearest: usize = 0;
        let mut nearest_dist: u64 = self.dist2_exec(0, p);
        let mut i: usize = 1;
        while i < n
            invariant
                self.wf(),
                v2_in_range(p),
                0 < n == self.num_nodes_spec(),
                1 <= i <= n,
                (nearest as int) < i,
                nearest_dist as int == self.dist2_spec(nearest as int, (p.x as int, p.y as int)),
                forall|j: int| 0 <= j < i
                    ==> #[trigger] self.dist2_spec(j, (p.x as int, p.y as int))
                        >= nearest_dist as int,
                forall|j: int| 0 <= j < nearest as int
                    ==> #[trigger] self.dist2_spec(j, (p.x as int, p.y as int))
                        > nearest_dist as int,
            decreases n - i,
        {
            let d = self.dist2_exec(i, p);
            if d < nearest_dist {
                nearest_dist = d;
                nearest = i;
            }
            i = i + 1;
        }
        nearest
    }

    /// Squared distance from node `i` to `p`, exact in `u64`.
    fn dist2_exec(&self, i: usize, p: Vec2) -> (r: u64)
        requires
            self.wf(),
            (i as int) < self.num_nodes_spec(),
            v2_in_range(p),
        ensures
            r as int == self.dist2_spec(i as int, (p.x as int, p.y as int)),
    {
        let q = self.node_position(i);
        let dx: i64 = q.x - p.x;
        let dy: i64 = q.y - p.y;
        proof {
            assert(0 <= (dx as int) * (dx as int) <= 0x4000_0000_0000_0000int && 0 <= (dy as int)
                * (dy as int) <= 0x4000_0000_0000_0000int) by (nonlinear_arith)
                requires
                    -0x8000_0000 <= dx as int <= 0x8000_0000,
                    -0x8000_0000 <= dy as int <= 0x8000_0000,
            ;
        }
        let dx2: u64 = (dx * dx) as u64;
        let dy2: u64 = (dy * dy) as u64;
        dx2 + dy2
    }

    /// Replaces the force accumulator of node `i`; every other attribute
    /// of the graph is unchanged.
    pub(crate) fn set_force_at(&mut self, i: usize, new_f: Vec2)
        requires
            old(self).wf(),
            (i as int) < old(self).num_nodes_spec(),
            v2_in_range(new_f),
        ensures
            final(self).wf(),
            final(self).num_nodes_spec() == old(self).num_nodes_spec(),
            final(self).force_spec(i as int) == (new_f.x as int, new_f.y as int),
            forall|k: int| 0 <= k < old(self).num_nodes_spec() && k != i as int
                ==> #[trigger] final(self).force_spec(k) == old(self).force_spec(k),
            same_placement(*old(self), *final(self)),
            forall|k: int| 0 <= k < old(self).num_nodes_spec()
                ==> #[trigger] final(self).vel_spec(k) == old(self).vel_spec(k),
            same_adjacency(*old(self), *final(self)),
    {
        let node_ref = &mut self.nodes[i];
        node_ref.f = new_f;
    }

    /// Replaces the velocity of node `i`; every other attribute of the
    /// graph is unchanged.
    pub(crate) fn set_vel_at(&mut self, i: usize, new_v: Vec2)
        requires
            old(self).wf(),
            (i as int) < old(self).num_nodes_spec(),
            v2_in_range(new_v),
        ensures
            final(self).wf(),
            final(self).num_nodes_spec() == old(self).num_nodes_spec(),
            final(self).vel_spec(i as int) == (new_v.x as int, new_v.y as int),
            forall|k: int| 0 <= k < old(self).num_nodes_spec() && k != i as int
                ==> #[trigger] final(self).vel_spec(k) == old(self).vel_spec(k),
            same_placement(*old(self), *final(self)),
            forall|k: int| 0 <= k < old(self).num_nodes_spec()
                ==> #[trigger] final(self).force_spec(k) == old(self).force_spec(k),
            same_adjacency(*old(self), *final(self)),
    {
        let node_ref = &mut self.nodes[i];
        node_ref.v = new_v;
    }

    /// Replaces the position of node `i`; every other attribute of the
    /// graph is unchanged.
    pub(crate) fn set_pos_at(&mut self, i: usize, new_p: Vec2)
        requires
            old(self).wf(),
            (i as int) < old(self).num_nodes_spec(),
            v2_in_range(new_p),
        ensures
            final(self).wf(),
            final(self).num_nodes_spec() == old(self).num_nodes_spec(),
            final(self).pos_spec(i as int) == (new_p.x as int, new_p.y as int),
            forall|k: int| 0 <= k < old(self).num_nodes_spec() && k != i as int
                ==> #[trigger] final(self).pos_spec(k) == old(self).pos_spec(k),
            forall|k: int| 0 <= k < old(self).num_nodes_spec()
                ==> #[trigger] final(self).vel_spec(k) == old(self).vel_spec(k),
            forall|k: int| 0 <= k < old(self).num_nodes_spec()
                ==> #[trigger] final(self).force_spec(k) == old(self).force_spec(k),
            forall|k: int| 0 <= k < old(self).num_nodes_spec()
                ==> #[trigger] final(self).mass_spec(k) == old(self).mass_spec(k),
            forall|k: int| 0 <= k < old(self).num_nodes_spec()
                ==> #[trigger] final(self).value_spec(k) == old(self).value_spec(k),
            same_adjacency(*old(self), *final(self)),
    {
        let node_ref = &mut self.nodes[i];
        node_ref.pos = new_p;
    }
}

} // verus!
