//! Force passes and the integrator.
//!
//! Each force pass is stateless: it reads positions, weights and the
//! cached maximum weight, and adds into each node's force accumulator.
//! The integrator consumes the accumulated force and clears it. Per
//! simulation tick a caller runs any number of force passes in any
//! order (or the relaxation pass alone, which moves positions
//! directly), then the integrator exactly once; the engine does not
//! enforce that sequencing, it is a usage contract.

use vstd::prelude::*;
use crate::fx::{
    FX_MAX, SCALE, fx_in_range, spec_clamp, spec_fx_mul, spec_fx_div, spec_isqrt, fx_clamp,
    fx_add, fx_sub, fx_mul, fx_div, isqrt_u64,
};
use crate::graph::{Graph, Vec2, v2_in_range, same_adjacency, same_placement, lemma_wf_adj_ranges};

verus! {

/// Half of one whole unit, in fixed-point sub-units.
pub const HALF: i64 = 500;

/// The tunable physical constants of the passes.
///
/// All values are fixed-point scalars. `rest_max` and `rest_spread` give
/// the spring target rest length `rest_max - rest_spread * w` for a pair
/// of normalized weight `w`; `padding` softens the repulsion singularity
/// at distance zero; `straighten_k` scales the fold-straightening force;
/// `lerp_t` is the correction fraction of the relaxation pass.
pub struct PassConfig {
    pub rest_max: i64,
    pub rest_spread: i64,
    pub padding: i64,
    pub straighten_k: i64,
    pub lerp_t: i64,
}

pub open spec fn cfg_wf(c: PassConfig) -> bool {
    &&& fx_in_range(c.rest_max as int)
    &&& fx_in_range(c.rest_spread as int)
    &&& 0 < c.padding <= FX_MAX
    &&& fx_in_range(c.straighten_k as int)
    &&& fx_in_range(c.lerp_t as int)
}

impl PassConfig {
    /// The canonical constants: rest length 18 - 14*w, repulsion padding
    /// 1, straightening coefficient 0.01, relaxation fraction 0.3.
    pub fn standard() -> (c: PassConfig)
        ensures
            cfg_wf(c),
            c.rest_max == 18 * SCALE,
            c.rest_spread == 14 * SCALE,
            c.padding == SCALE,
            c.straighten_k as int == SCALE as int / 100,
            c.lerp_t as int == 3 * SCALE as int / 10,
    {
        PassConfig {
            rest_max: 18000,
            rest_spread: 14000,
            padding: 1000,
            straighten_k: 10,
            lerp_t: 300,
        }
    }
}

/// Componentwise saturated vector sum.
pub open spec fn v2_add_clamp(a: (int, int), b: (int, int)) -> (int, int) {
    (spec_clamp(a.0 + b.0), spec_clamp(a.1 + b.1))
}

/// Saturated displacement components from point `pi` to point `pj`.
pub open spec fn delta_val(pi: (int, int), pj: (int, int)) -> (int, int) {
    (spec_clamp(pj.0 - pi.0), spec_clamp(pj.1 - pi.1))
}

/// Saturated Euclidean distance from `pi` to `pj`, computed on the
/// saturated displacement.
pub open spec fn dist_val(pi: (int, int), pj: (int, int)) -> int {
    let d = delta_val(pi, pj);
    spec_clamp(spec_isqrt(d.0 * d.0 + d.1 * d.1))
}

/// Unit vector from `pi` to `pj` (a fixed-point vector of magnitude
/// about one unit), or the zero vector for coincident points: a
/// degenerate direction contributes nothing rather than a division by
/// zero.
pub open spec fn unit_val(pi: (int, int), pj: (int, int)) -> (int, int) {
    let d = delta_val(pi, pj);
    if d.0 == 0 && d.1 == 0 {
        (0int, 0int)
    } else {
        (spec_fx_div(d.0, dist_val(pi, pj)), spec_fx_div(d.1, dist_val(pi, pj)))
    }
}

/// The new force accumulator left on a node by the friction pass:
/// velocity-proportional damping.
pub open spec fn friction_force_val(f: (int, int), v: (int, int), friction: int) -> (int, int) {
    (spec_clamp(f.0 - spec_fx_mul(v.0, friction)), spec_clamp(f.1 - spec_fx_mul(v.1, friction)))
}

/// The new velocity left by the integrator: `v + f * dt / mass`.
pub open spec fn kin_vel_val(v: (int, int), f: (int, int), mass: int, dt: int) -> (int, int) {
    (
        spec_clamp(v.0 + spec_fx_div(spec_fx_mul(f.0, dt), mass)),
        spec_clamp(v.1 + spec_fx_div(spec_fx_mul(f.1, dt), mass)),
    )
}

/// The new position left by the integrator: `p + v_new * dt`.
pub open spec fn kin_pos_val(p: (int, int), nv: (int, int), dt: int) -> (int, int) {
    (spec_clamp(p.0 + spec_fx_mul(nv.0, dt)), spec_clamp(p.1 + spec_fx_mul(nv.1, dt)))
}

/// Exec counterpart of `dist_val` and `unit_val`: returns
/// `(ux, uy, d)`.
fn unit_and_dist(pi: Vec2, pj: Vec2) -> (r: (i64, i64, i64))
    requires
        v2_in_range(pi),
        v2_in_range(pj),
    ensures
        (r.0 as int, r.1 as int) == unit_val(
            (pi.x as int, pi.y as int),
            (pj.x as int, pj.y as int),
        ),
        r.2 as int == dist_val((pi.x as int, pi.y as int), (pj.x as int, pj.y as int)),
        fx_in_range(r.0 as int),
        fx_in_range(r.1 as int),
        0 <= r.2 <= FX_MAX,
{
    let dx: i64 = fx_clamp(pj.x - pi.x);
    let dy: i64 = fx_clamp(pj.y - pi.y);
    proof {
        assert(0 <= (dx as int) * (dx as int) <= 0x1000_0000_0000_0000int && 0 <= (dy as int) * (
        dy as int) <= 0x1000_0000_0000_0000int) by (nonlinear_arith)
            requires
                fx_in_range(dx as int),
                fx_in_range(dy as int),
        ;
    }
    let d2u: u64 = ((dx * dx) as u64) + ((dy * dy) as u64);
    let ds: u64 = isqrt_u64(d2u);
    let d: i64 = fx_clamp(ds as i64);
    if dx == 0 && dy == 0 {
        (0, 0, d)
    } else {
        proof {
            assert(d2u >= 1) by {
                if dx != 0 {
                    assert((dx as int) * (dx as int) >= 1) by (nonlinear_arith)
                        requires
                            dx as int != 0,
                    ;
                } else {
                    assert((dy as int) * (dy as int) >= 1) by (nonlinear_arith)
                        requires
                            dy as int != 0,
                    ;
                }
            }
            assert(ds >= 1);
        }
        (fx_div(dx, d), fx_div(dy, d), d)
    }
}

impl<T> Graph<T> {
    /// Subtracts `velocity * friction` from every node's force
    /// accumulator: velocity-proportional damping, applied once per
    /// tick after the other force passes and before integration.
    pub fn friction_update(&mut self, friction: i64)
        requires
            old(self).wf(),
            fx_in_range(friction as int),
        ensures
            final(self).wf(),
            same_placement(*old(self), *final(self)),
            same_adjacency(*old(self), *final(self)),
            forall|i: int| 0 <= i < old(self).num_nodes_spec()
                ==> #[trigger] final(self).vel_spec(i) == old(self).vel_spec(i),
            forall|i: int| 0 <= i < old(self).num_nodes_spec()
                ==> #[trigger] final(self).force_spec(i) == friction_force_val(
                    old(self).force_spec(i),
                    old(self).vel_spec(i),
                    friction as int,
                ),
    {
        let n = self.num_nodes();
        let mut i: usize = 0;
        while i < n
            invariant
                self.wf(),
                fx_in_range(friction as int),
                n == self.num_nodes_spec(),
                i <= n,
                same_placement(*old(self), *self),
                same_adjacency(*old(self), *self),
                forall|k: int| 0 <= k < n
                    ==> #[trigger] self.vel_spec(k) == old(self).vel_spec(k),
                forall|k: int| 0 <= k < i
                    ==> #[trigger] self.force_spec(k) == friction_force_val(
                        old(self).force_spec(k),
                        old(self).vel_spec(k),
                        friction as int,
                    ),
                forall|k: int| i <= k < n
                    ==> #[trigger] self.force_spec(k) == old(self).force_spec(k),
            decreases n - i,
        {
            let f = self.node_force(i);
            let v = self.node_velocity(i);
            let nfx = fx_sub(f.x, fx_mul(v.x, friction));
            let nfy = fx_sub(f.y, fx_mul(v.y, friction));
            self.set_force_at(i, Vec2 { x: nfx, y: nfy });
            i = i + 1;
        }
    }

    /// Semi-implicit Euler step: `v += f * dt / mass`, `p += v * dt`,
    /// then the force accumulator is reset to zero — this is the only
    /// operation that clears it. Run exactly once per tick, after all
    /// force passes.
    pub fn kinematic_update(&mut self, dt: i64)
        requires
            old(self).wf(),
            fx_in_range(dt as int),
        ensures
            final(self).wf(),
            final(self).num_nodes_spec() == old(self).num_nodes_spec(),
            same_adjacency(*old(self), *final(self)),
            forall|i: int| 0 <= i < old(self).num_nodes_spec()
                ==> #[trigger] final(self).mass_spec(i) == old(self).mass_spec(i),
            forall|i: int| 0 <= i < old(self).num_nodes_spec()
                ==> #[trigger] final(self).value_spec(i) == old(self).value_spec(i),
            forall|i: int| 0 <= i < old(self).num_nodes_spec()
                ==> #[trigger] final(self).vel_spec(i) == kin_vel_val(
                    old(self).vel_spec(i),
                    old(self).force_spec(i),
                    old(self).mass_spec(i),
                    dt as int,
                ),
            forall|i: int| 0 <= i < old(self).num_nodes_spec()
                ==> #[trigger] final(self).pos_spec(i) == kin_pos_val(
                    old(self).pos_spec(i),
                    kin_vel_val(
                        old(self).vel_spec(i),
                        old(self).force_spec(i),
                        old(self).mass_spec(i),
                        dt as int,
                    ),
                    dt as int,
                ),
            forall|i: int| 0 <= i < old(self).num_nodes_spec()
                ==> #[trigger] final(self).force_spec(i) == (0int, 0int),
    {
        let n = self.num_nodes();
        let mut i: usize = 0;
        while i < n
            invariant
                self.wf(),
                fx_in_range(dt as int),
                n == self.num_nodes_spec(),
                i <= n,
                same_adjacency(*old(self), *self),
                forall|k: int| 0 <= k < n
                    ==> #[trigger] self.mass_spec(k) == old(self).mass_spec(k),
                forall|k: int| 0 <= k < n
                    ==> #[trigger] self.value_spec(k) == old(self).value_spec(k),
                forall|k: int| 0 <= k < i
                    ==> #[trigger] self.vel_spec(k) == kin_vel_val(
                        old(self).vel_spec(k),
                        old(self).force_spec(k),
                        old(self).mass_spec(k),
                        dt as int,
                    ),
                forall|k: int| 0 <= k < i
                    ==> #[trigger] self.pos_spec(k) == kin_pos_val(
                        old(self).pos_spec(k),
                        kin_vel_val(
                            old(self).vel_spec(k),
                            old(self).force_spec(k),
                            old(self).mass_spec(k),
                            dt as int,
                        ),
                        dt as int,
                    ),
                forall|k: int| 0 <= k < i
                    ==> #[trigger] self.force_spec(k) == (0int, 0int),
                forall|k: int| i <= k < n
                    ==> #[trigger] self.vel_spec(k) == old(self).vel_spec(k),
                forall|k: int| i <= k < n
                    ==> #[trigger] self.pos_spec(k) == old(self).pos_spec(k),
                forall|k: int| i <= k < n
                    ==> #[trigger] self.force_spec(k) == old(self).force_spec(k),
            decreases n - i,
        {
            let v = self.node_velocity(i);
            let f = self.node_force(i);
            let p = self.node_position(i);
            let mass = self.node_mass(i);
            let nvx = fx_add(v.x, fx_div(fx_mul(f.x, dt), mass));
            let nvy = fx_add(v.y, fx_div(fx_mul(f.y, dt), mass));
            let npx = fx_add(p.x, fx_mul(nvx, dt));
            let npy = fx_add(p.y, fx_mul(nvy, dt));
            self.set_vel_at(i, Vec2 { x: nvx, y: nvy });
            self.set_pos_at(i, Vec2 { x: npx, y: npy });
            self.set_force_at(i, Vec2 { x: 0, y: 0 });
            i = i + 1;
        }
    }
}


/// Force applied to a node at `pi` by the spring of its pair with the
/// node at `pj`, for raw weight `adj` and cached maximum `maxa`:
/// stiffness is exactly the normalized weight `w = adj / maxa` (no
/// added bias, so zero-weight pairs feel no spring at all), the target
/// rest length is `rest_max - rest_spread * w`, and the force is
/// `w * (dist - target)` along the unit vector toward `pj`. Coincident
/// endpoints contribute nothing.
pub open spec fn spring_pair_val(
    pi: (int, int),
    pj: (int, int),
    adj: int,
    maxa: int,
    cfg: PassConfig,
) -> (int, int) {
    let u = unit_val(pi, pj);
    let w = spec_fx_div(adj, maxa);
    let target = spec_clamp(cfg.rest_max as int - spec_fx_mul(cfg.rest_spread as int, w));
    let x = spec_clamp(dist_val(pi, pj) - target);
    let m = spec_fx_mul(w, x);
    (spec_fx_mul(m, u.0), spec_fx_mul(m, u.1))
}

/// The spring force applied to node `i` by the pair `{i, j}` of `g`.
pub open spec fn spring_pair_spec<T>(g: Graph<T>, cfg: PassConfig, i: int, j: int) -> (int, int) {
    spring_pair_val(g.pos_spec(i), g.pos_spec(j), g.adj_spec(i, j), g.max_adj_spec(), cfg)
}

/// Force accumulator of node `i` after folding in, in ascending order,
/// the spring contributions of partners `0..j` (skipping `i` itself).
pub open spec fn spring_acc_spec<T>(g: Graph<T>, cfg: PassConfig, i: int, j: int) -> (int, int)
    decreases j,
{
    if j <= 0 {
        g.force_spec(i)
    } else if j - 1 == i {
        spring_acc_spec(g, cfg, i, j - 1)
    } else {
        v2_add_clamp(spring_acc_spec(g, cfg, i, j - 1), spring_pair_spec(g, cfg, i, j - 1))
    }
}

/// Repulsion applied to a node at `pi` away from the node at `pj`:
/// magnitude `force / (dist + padding)^2`, independent of weights.
/// Coincident endpoints contribute nothing.
pub open spec fn repulse_pair_val(
    pi: (int, int),
    pj: (int, int),
    force: int,
    padding: int,
) -> (int, int) {
    let dl = delta_val(pi, pj);
    if dl.0 == 0 && dl.1 == 0 {
        (0int, 0int)
    } else {
        let u = unit_val(pi, pj);
        let s = spec_clamp(dist_val(pi, pj) + padding);
        let inv = spec_fx_div(SCALE as int, s);
        let amount = spec_fx_mul(inv, inv);
        let m = spec_fx_mul(force, amount);
        (-spec_fx_mul(m, u.0), -spec_fx_mul(m, u.1))
    }
}

/// The repulsion applied to node `i` by the pair `{i, j}` of `g`.
pub open spec fn repulse_pair_spec<T>(g: Graph<T>, force: int, padding: int, i: int, j: int) -> (
    int,
    int,
) {
    repulse_pair_val(g.pos_spec(i), g.pos_spec(j), force, padding)
}

/// Force accumulator of node `i` after folding in, in ascending order,
/// the repulsion contributions of partners `0..j` (skipping `i`).
pub open spec fn repulse_acc_spec<T>(
    g: Graph<T>,
    force: int,
    padding: int,
    i: int,
    j: int,
) -> (int, int)
    decreases j,
{
    if j <= 0 {
        g.force_spec(i)
    } else if j - 1 == i {
        repulse_acc_spec(g, force, padding, i, j - 1)
    } else {
        v2_add_clamp(
            repulse_acc_spec(g, force, padding, i, j - 1),
            repulse_pair_spec(g, force, padding, i, j - 1),
        )
    }
}

/// Position shift applied to node `i` by the relaxation pass for the
/// pair `{i, j}`: a fraction `lerp_t * (0.5 + 0.5 * w)` of the
/// displacement from the spring target rest length, along the unit
/// vector toward the partner.
pub open spec fn lerp_pair_val(
    pi: (int, int),
    pj: (int, int),
    adj: int,
    maxa: int,
    cfg: PassConfig,
) -> (int, int) {
    let u = unit_val(pi, pj);
    let w = spec_fx_div(adj, maxa);
    let target = spec_clamp(cfg.rest_max as int - spec_fx_mul(cfg.rest_spread as int, w));
    let x = spec_clamp(dist_val(pi, pj) - target);
    let t2 = spec_fx_mul(cfg.lerp_t as int, spec_clamp(HALF as int + spec_fx_mul(HALF as int, w)));
    let m = spec_fx_mul(t2, x);
    (spec_fx_mul(m, u.0), spec_fx_mul(m, u.1))
}

pub open spec fn lerp_pair_spec<T>(g: Graph<T>, cfg: PassConfig, i: int, j: int) -> (int, int) {
    lerp_pair_val(g.pos_spec(i), g.pos_spec(j), g.adj_spec(i, j), g.max_adj_spec(), cfg)
}

/// Position of node `i` after folding in, in ascending order, the
/// relaxation shifts of partners `0..j` (skipping `i`).
pub open spec fn lerp_acc_spec<T>(g: Graph<T>, cfg: PassConfig, i: int, j: int) -> (int, int)
    decreases j,
{
    if j <= 0 {
        g.pos_spec(i)
    } else if j - 1 == i {
        lerp_acc_spec(g, cfg, i, j - 1)
    } else {
        v2_add_clamp(lerp_acc_spec(g, cfg, i, j - 1), lerp_pair_spec(g, cfg, i, j - 1))
    }
}

/// Exec counterpart of `spring_pair_val`.
fn spring_pair_force(pi: Vec2, pj: Vec2, adj: i64, maxa: i64, cfg: &PassConfig) -> (r: (i64, i64))
    requires
        v2_in_range(pi),
        v2_in_range(pj),
        fx_in_range(adj as int),
        0 < maxa <= FX_MAX,
        cfg_wf(*cfg),
    ensures
        (r.0 as int, r.1 as int) == spring_pair_val(
            (pi.x as int, pi.y as int),
            (pj.x as int, pj.y as int),
            adj as int,
            maxa as int,
            *cfg,
        ),
        fx_in_range(r.0 as int),
        fx_in_range(r.1 as int),
{
    let u = unit_and_dist(pi, pj);
    let w = fx_div(adj, maxa);
    let target = fx_sub(cfg.rest_max, fx_mul(cfg.rest_spread, w));
    let x = fx_sub(u.2, target);
    let m = fx_mul(w, x);
    (fx_mul(m, u.0), fx_mul(m, u.1))
}

/// Exec counterpart of `repulse_pair_val`.
fn repulse_pair_force(pi: Vec2, pj: Vec2, force: i64, padding: i64) -> (r: (i64, i64))
    requires
        v2_in_range(pi),
        v2_in_range(pj),
        fx_in_range(force as int),
        0 < padding <= FX_MAX,
    ensures
        (r.0 as int, r.1 as int) == repulse_pair_val(
            (pi.x as int, pi.y as int),
            (pj.x as int, pj.y as int),
            force as int,
            padding as int,
        ),
        fx_in_range(r.0 as int),
        fx_in_range(r.1 as int),
{
    let dxc = fx_clamp(pj.x - pi.x);
    let dyc = fx_clamp(pj.y - pi.y);
    if dxc == 0 && dyc == 0 {
        (0, 0)
    } else {
        let u = unit_and_dist(pi, pj);
        let s = fx_add(u.2, padding);
        let inv = fx_div(SCALE, s);
        let amount = fx_mul(inv, inv);
        let m = fx_mul(force, amount);
        (-fx_mul(m, u.0), -fx_mul(m, u.1))
    }
}

/// Exec counterpart of `lerp_pair_val`.
fn lerp_pair_shift(pi: Vec2, pj: Vec2, adj: i64, maxa: i64, cfg: &PassConfig) -> (r: (i64, i64))
    requires
        v2_in_range(pi),
        v2_in_range(pj),
        fx_in_range(adj as int),
        0 < maxa <= FX_MAX,
        cfg_wf(*cfg),
    ensures
        (r.0 as int, r.1 as int) == lerp_pair_val(
            (pi.x as int, pi.y as int),
            (pj.x as int, pj.y as int),
            adj as int,
            maxa as int,
            *cfg,
        ),
        fx_in_range(r.0 as int),
        fx_in_range(r.1 as int),
{
    let u = unit_and_dist(pi, pj);
    let w = fx_div(adj, maxa);
    let target = fx_sub(cfg.rest_max, fx_mul(cfg.rest_spread, w));
    let x = fx_sub(u.2, target);
    let t2 = fx_mul(cfg.lerp_t, fx_add(HALF, fx_mul(HALF, w)));
    let m = fx_mul(t2, x);
    (fx_mul(m, u.0), fx_mul(m, u.1))
}

impl<T> Graph<T> {
    /// The spring pass: for every unordered pair of distinct nodes,
    /// applies equal and opposite forces of `w * (dist - target)` along
    /// the pair direction, where `w` is the weight normalized by the
    /// cached maximum. An edgeless graph (cached maximum 0) is left
    /// entirely unchanged. Each node's accumulator receives its pair
    /// contributions in ascending partner order (see
    /// `spring_acc_spec`).
    pub fn spring_update(&mut self, cfg: &PassConfig)
        requires
            old(self).wf(),
            cfg_wf(*cfg),
        ensures
            final(self).wf(),
            same_placement(*old(self), *final(self)),
            same_adjacency(*old(self), *final(self)),
            forall|i: int| 0 <= i < old(self).num_nodes_spec()
                ==> #[trigger] final(self).vel_spec(i) == old(self).vel_spec(i),
            old(self).max_adj_spec() == 0 ==> *final(self) == *old(self),
            old(self).max_adj_spec() != 0 ==> forall|i: int|
                0 <= i < old(self).num_nodes_spec()
                    ==> #[trigger] final(self).force_spec(i) == spring_acc_spec(
                        *old(self),
                        *cfg,
                        i,
                        old(self).num_nodes_spec(),
                    ),
    {
        let maxa = self.max_adjacency();
        if maxa == 0 {
            return ;
        }
        proof {
            lemma_wf_adj_ranges(*self, 0, 0);
        }
        let n = self.num_nodes();
        let ghost g0 = *self;
        let mut i: usize = 0;
        while i < n
            invariant
                self.wf(),
                cfg_wf(*cfg),
                g0 == *old(self),
                g0.wf(),
                0 < maxa as int == g0.max_adj_spec() <= FX_MAX,
                n == self.num_nodes_spec(),
                i <= n,
                same_placement(g0, *self),
                same_adjacency(g0, *self),
                forall|k: int| 0 <= k < n
                    ==> #[trigger] self.vel_spec(k) == g0.vel_spec(k),
                forall|k: int| 0 <= k < i
                    ==> #[trigger] self.force_spec(k) == spring_acc_spec(g0, *cfg, k, n as int),
                forall|k: int| i <= k < n
                    ==> #[trigger] self.force_spec(k) == g0.force_spec(k),
            decreases n - i,
        {
            let fi = self.node_force(i);
            let mut ax = fi.x;
            let mut ay = fi.y;
            let mut j: usize = 0;
            while j < n
                invariant
                    self.wf(),
                    cfg_wf(*cfg),
                    g0 == *old(self),
                    g0.wf(),
                    0 < maxa as int == g0.max_adj_spec() <= FX_MAX,
                    n == self.num_nodes_spec(),
                    i < n,
                    j <= n,
                    same_placement(g0, *self),
                    same_adjacency(g0, *self),
                    forall|k: int| 0 <= k < n
                        ==> #[trigger] self.vel_spec(k) == g0.vel_spec(k),
                    forall|k: int| 0 <= k < i
                        ==> #[trigger] self.force_spec(k) == spring_acc_spec(g0, *cfg, k, n as int),
                    forall|k: int| i <= k < n
                        ==> #[trigger] self.force_spec(k) == g0.force_spec(k),
                    fx_in_range(ax as int),
                    fx_in_range(ay as int),
                    (ax as int, ay as int) == spring_acc_spec(g0, *cfg, i as int, j as int),
                decreases n - j,
            {
                if j != i {
                    let pi_v = self.node_position(i);
                    let pj_v = self.node_position(j);
                    let adj = self.get_adjacency(i, j);
                    let pf = spring_pair_force(pi_v, pj_v, adj, maxa, cfg);
                    proof {
                        assert((pf.0 as int, pf.1 as int) == spring_pair_spec(
                            g0,
                            *cfg,
                            i as int,
                            j as int,
                        ));
                    }
                    ax = fx_add(ax, pf.0);
                    ay = fx_add(ay, pf.1);
                }
                j = j + 1;
            }
            self.set_force_at(i, Vec2 { x: ax, y: ay });
            i = i + 1;
        }
    }

    /// The repulsion pass: every unordered pair of distinct nodes is
    /// pushed apart with magnitude `force / (dist + padding)^2`,
    /// independent of weights, so it runs on an edgeless graph too.
    /// Each node's accumulator receives its pair contributions in
    /// ascending partner order (see `repulse_acc_spec`).
    pub fn separate_nodes_update(&mut self, force: i64, cfg: &PassConfig)
        requires
            old(self).wf(),
            fx_in_range(force as int),
            cfg_wf(*cfg),
        ensures
            final(self).wf(),
            same_placement(*old(self), *final(self)),
            same_adjacency(*old(self), *final(self)),
            forall|i: int| 0 <= i < old(self).num_nodes_spec()
                ==> #[trigger] final(self).vel_spec(i) == old(self).vel_spec(i),
            forall|i: int| 0 <= i < old(self).num_nodes_spec()
                ==> #[trigger] final(self).force_spec(i) == repulse_acc_spec(
                    *old(self),
                    force as int,
                    cfg.padding as int,
                    i,
                    old(self).num_nodes_spec(),
                ),
    {
        let n = self.num_nodes();
        let ghost g0 = *self;
        let mut i: usize = 0;
        while i < n
            invariant
                self.wf(),
                cfg_wf(*cfg),
                fx_in_range(force as int),
                g0 == *old(self),
                g0.wf(),
                n == self.num_nodes_spec(),
                i <= n,
                same_placement(g0, *self),
                same_adjacency(g0, *self),
                forall|k: int| 0 <= k < n
                    ==> #[trigger] self.vel_spec(k) == g0.vel_spec(k),
                forall|k: int| 0 <= k < i
                    ==> #[trigger] self.force_spec(k) == repulse_acc_spec(
                        g0,
                        force as int,
                        cfg.padding as int,
                        k,
                        n as int,
                    ),
                forall|k: int| i <= k < n
                    ==> #[trigger] self.force_spec(k) == g0.force_spec(k),
            decreases n - i,
        {
            let fi = self.node_force(i);
            let mut ax = fi.x;
            let mut ay = fi.y;
            let mut j: usize = 0;
            while j < n
                invariant
                    self.wf(),
                    cfg_wf(*cfg),
                    fx_in_range(force as int),
                    g0 == *old(self),
                    g0.wf(),
                    n == self.num_nodes_spec(),
                    i < n,
                    j <= n,
                    same_placement(g0, *self),
                    same_adjacency(g0, *self),
                    forall|k: int| 0 <= k < n
                        ==> #[trigger] self.vel_spec(k) == g0.vel_spec(k),
                    forall|k: int| 0 <= k < i
                        ==> #[trigger] self.force_spec(k) == repulse_acc_spec(
                            g0,
                            force as int,
                            cfg.padding as int,
                            k,
                            n as int,
                        ),
                    forall|k: int| i <= k < n
                        ==> #[trigger] self.force_spec(k) == g0.force_spec(k),
                    fx_in_range(ax as int),
                    fx_in_range(ay as int),
                    (ax as int, ay as int) == repulse_acc_spec(
                        g0,
                        force as int,
                        cfg.padding as int,
                        i as int,
                        j as int,
                    ),
                decreases n - j,
            {
                if j != i {
                    let pi_v = self.node_position(i);
                    let pj_v = self.node_position(j);
                    let pf = repulse_pair_force(pi_v, pj_v, force, cfg.padding);
                    proof {
                        assert((pf.0 as int, pf.1 as int) == repulse_pair_spec(
                            g0,
                            force as int,
                            cfg.padding as int,
                            i as int,
                            j as int,
                        ));
                    }
                    ax = fx_add(ax, pf.0);
                    ay = fx_add(ay, pf.1);
                }
                j = j + 1;
            }
            self.set_force_at(i, Vec2 { x: ax, y: ay });
            i = i + 1;
        }
    }

    /// The relaxation pass, a non-physical alternative to the force
    /// passes plus integrator: it moves positions directly toward the
    /// spring target rest length, bypassing velocity, force and mass.
    /// All shifts are computed from the positions as they were when the
    /// pass began. An edgeless graph (cached maximum 0) is left
    /// entirely unchanged. Running it and the integrator in one tick is
    /// a caller error, not rejected by the engine.
    pub fn lerp_update(&mut self, cfg: &PassConfig)
        requires
            old(self).wf(),
            cfg_wf(*cfg),
        ensures
            final(self).wf(),
            final(self).num_nodes_spec() == old(self).num_nodes_spec(),
            same_adjacency(*old(self), *final(self)),
            forall|i: int| 0 <= i < old(self).num_nodes_spec()
                ==> #[trigger] final(self).vel_spec(i) == old(self).vel_spec(i),
            forall|i: int| 0 <= i < old(self).num_nodes_spec()
                ==> #[trigger] final(self).force_spec(i) == old(self).force_spec(i),
            forall|i: int| 0 <= i < old(self).num_nodes_spec()
                ==> #[trigger] final(self).mass_spec(i) == old(self).mass_spec(i),
            forall|i: int| 0 <= i < old(self).num_nodes_spec()
                ==> #[trigger] final(self).value_spec(i) == old(self).value_spec(i),
            old(self).max_adj_spec() == 0 ==> *final(self) == *old(self),
            old(self).max_adj_spec() != 0 ==> forall|i: int|
                0 <= i < old(self).num_nodes_spec()
                    ==> #[trigger] final(self).pos_spec(i) == lerp_acc_spec(
                        *old(self),
                        *cfg,
                        i,
                        old(self).num_nodes_spec(),
                    ),
    {
        let maxa = self.max_adjacency();
        if maxa == 0 {
            return ;
        }
        proof {
            lemma_wf_adj_ranges(*self, 0, 0);
        }
        let n = self.num_nodes();
        let ghost g0 = *self;
        let mut newpos: Vec<Vec2> = Vec::new();
        let mut i: usize = 0;
        while i < n
            invariant
                self.wf(),
                cfg_wf(*cfg),
                g0 == *self,
                g0 == *old(self),
                g0.wf(),
                0 < maxa as int == g0.max_adj_spec() <= FX_MAX,
                n == self.num_nodes_spec(),
                i <= n,
                newpos@.len() == i,
                forall|k: int| 0 <= k < i
                    ==> (#[trigger] newpos@[k].x as int, newpos@[k].y as int) == lerp_acc_spec(
                        g0,
                        *cfg,
                        k,
                        n as int,
                    ),
                forall|k: int| 0 <= k < i ==> v2_in_range(#[trigger] newpos@[k]),
            decreases n - i,
        {
            let pi0 = self.node_position(i);
            let mut ax = pi0.x;
            let mut ay = pi0.y;
            let mut j: usize = 0;
            while j < n
                invariant
                    self.wf(),
                    cfg_wf(*cfg),
                    g0 == *self,
                    g0 == *old(self),
                    g0.wf(),
                    0 < maxa as int == g0.max_adj_spec() <= FX_MAX,
                    n == self.num_nodes_spec(),
                    i < n,
                    j <= n,
                    fx_in_range(ax as int),
                    fx_in_range(ay as int),
                    (ax as int, ay as int) == lerp_acc_spec(g0, *cfg, i as int, j as int),
                decreases n - j,
            {
                if j != i {
                    let pi_v = self.node_position(i);
                    let pj_v = self.node_position(j);
                    let adj = self.get_adjacency(i, j);
                    let pf = lerp_pair_shift(pi_v, pj_v, adj, maxa, cfg);
                    proof {
                        assert((pf.0 as int, pf.1 as int) == lerp_pair_spec(
                            g0,
                            *cfg,
                            i as int,
                            j as int,
                        ));
                    }
                    ax = fx_add(ax, pf.0);
                    ay = fx_add(ay, pf.1);
                }
                j = j + 1;
            }
            newpos.push(Vec2 { x: ax, y: ay });
            i = i + 1;
        }
        let mut k: usize = 0;
        while k < n
            invariant
                self.wf(),
                g0 == *old(self),
                g0.wf(),
                cfg_wf(*cfg),
                0 < g0.max_adj_spec(),
                n == self.num_nodes_spec(),
                k <= n,
                newpos@.len() == n,
                forall|m: int| 0 <= m < n
                    ==> (#[trigger] newpos@[m].x as int, newpos@[m].y as int) == lerp_acc_spec(
                        g0,
                        *cfg,
                        m,
                        n as int,
                    ),
                forall|m: int| 0 <= m < n ==> v2_in_range(#[trigger] newpos@[m]),
                same_adjacency(g0, *self),
                forall|m: int| 0 <= m < n
                    ==> #[trigger] self.vel_spec(m) == g0.vel_spec(m),
                forall|m: int| 0 <= m < n
                    ==> #[trigger] self.force_spec(m) == g0.force_spec(m),
                forall|m: int| 0 <= m < n
                    ==> #[trigger] self.mass_spec(m) == g0.mass_spec(m),
                forall|m: int| 0 <= m < n
                    ==> #[trigger] self.value_spec(m) == g0.value_spec(m),
                forall|m: int| 0 <= m < k
                    ==> #[trigger] self.pos_spec(m) == lerp_acc_spec(g0, *cfg, m, n as int),
                forall|m: int| k <= m < n
                    ==> #[trigger] self.pos_spec(m) == g0.pos_spec(m),
            decreases n - k,
        {
            let np = newpos[k];
            self.set_pos_at(k, np);
            k = k + 1;
        }
    }
}


/// The half-share vector of the ordered triple `(a, b, c)`: half of the
/// fold-straightening force on `a`, along the unit vector from `a`
/// toward the midpoint of `b` and `c`, with magnitude
/// `k * w(a,b) * w(a,c) * p` where `p` remaps the cosine of the angle
/// at `a` to `[0, 1]` (1 for a complete fold, 0 for a straight path).
/// Zero unless both weights are positive. Node `a` gains twice this
/// vector; `b` and `c` each lose it once, so a triple's contributions
/// cancel exactly.
pub open spec fn str_half_val(
    pa: (int, int),
    pb: (int, int),
    pc: (int, int),
    wab: int,
    wac: int,
    k: int,
) -> (int, int) {
    if wab <= 0 || wac <= 0 {
        (0int, 0int)
    } else {
        let u1 = unit_val(pa, pb);
        let u2 = unit_val(pa, pc);
        let dot = spec_clamp(spec_fx_mul(u1.0, u2.0) + spec_fx_mul(u1.1, u2.1));
        let p = spec_clamp(spec_fx_mul(dot, HALF as int) + HALF as int);
        let f = spec_fx_mul(spec_fx_mul(spec_fx_mul(k, wab), wac), p);
        let hf = spec_fx_mul(f, HALF as int);
        let mid = (
            spec_fx_mul(spec_clamp(pb.0 + pc.0), HALF as int),
            spec_fx_mul(spec_clamp(pb.1 + pc.1), HALF as int),
        );
        let dir = unit_val(pa, mid);
        (spec_fx_mul(hf, dir.0), spec_fx_mul(hf, dir.1))
    }
}

pub open spec fn str_half_spec<T>(g: Graph<T>, cfg: PassConfig, a: int, b: int, c: int) -> (
    int,
    int,
) {
    str_half_val(
        g.pos_spec(a),
        g.pos_spec(b),
        g.pos_spec(c),
        g.adj_spec(a, b),
        g.adj_spec(a, c),
        cfg.straighten_k as int,
    )
}

/// Force accumulator of node `i` after folding in its gains as the
/// middle vertex of the first `t` ordered pairs `(b, c)` (in row-major
/// order, `b = t / n`, `c = t % n`, skipping degenerate triples): for
/// each, twice the triple's half-share.
pub open spec fn str_gain_acc<T>(g: Graph<T>, cfg: PassConfig, i: int, t: int) -> (int, int)
    decreases t,
{
    let n = g.num_nodes_spec();
    if t <= 0 {
        g.force_spec(i)
    } else {
        let prev = str_gain_acc(g, cfg, i, t - 1);
        let b = (t - 1) / n;
        let c = (t - 1) % n;
        if b == i || c == i || c == b {
            prev
        } else {
            let h = str_half_spec(g, cfg, i, b, c);
            v2_add_clamp(prev, (spec_clamp(h.0 + h.0), spec_clamp(h.1 + h.1)))
        }
    }
}

/// Force accumulator of node `i` after all its gains and then its
/// losses from the first `s` ordered pairs `(a, y)` (row-major,
/// `a = s / n`, `y = s % n`): for each, it loses the half-share of
/// triple `(a, i, y)` (where it is `b`) and of triple `(a, y, i)`
/// (where it is `c`).
pub open spec fn str_loss_acc<T>(g: Graph<T>, cfg: PassConfig, i: int, s: int) -> (int, int)
    decreases s,
{
    let n = g.num_nodes_spec();
    if s <= 0 {
        str_gain_acc(g, cfg, i, n * n)
    } else {
        let prev = str_loss_acc(g, cfg, i, s - 1);
        let a = (s - 1) / n;
        let y = (s - 1) % n;
        if a == i || y == i || y == a {
            prev
        } else {
            let h1 = str_half_spec(g, cfg, a, i, y);
            let h2 = str_half_spec(g, cfg, a, y, i);
            v2_add_clamp(v2_add_clamp(prev, (-h1.0, -h1.1)), (-h2.0, -h2.1))
        }
    }
}

/// Exec counterpart of `str_half_val`.
fn str_half_force(pa: Vec2, pb: Vec2, pc: Vec2, wab: i64, wac: i64, k: i64) -> (r: (i64, i64))
    requires
        v2_in_range(pa),
        v2_in_range(pb),
        v2_in_range(pc),
        fx_in_range(wab as int),
        fx_in_range(wac as int),
        fx_in_range(k as int),
    ensures
        (r.0 as int, r.1 as int) == str_half_val(
            (pa.x as int, pa.y as int),
            (pb.x as int, pb.y as int),
            (pc.x as int, pc.y as int),
            wab as int,
            wac as int,
            k as int,
        ),
        fx_in_range(r.0 as int),
        fx_in_range(r.1 as int),
{
    if wab <= 0 || wac <= 0 {
        return (0, 0);
    }
    let u1 = unit_and_dist(pa, pb);
    let u2 = unit_and_dist(pa, pc);
    let dot = fx_add(fx_mul(u1.0, u2.0), fx_mul(u1.1, u2.1));
    let p = fx_add(fx_mul(dot, HALF), HALF);
    let f = fx_mul(fx_mul(fx_mul(k, wab), wac), p);
    let hf = fx_mul(f, HALF);
    let mid = Vec2 { x: fx_mul(fx_add(pb.x, pc.x), HALF), y: fx_mul(fx_add(pb.y, pc.y), HALF) };
    let dir = unit_and_dist(pa, mid);
    (fx_mul(hf, dir.0), fx_mul(hf, dir.1))
}

impl<T> Graph<T> {
    /// The fold-straightening pass: for every ordered triple of
    /// distinct nodes `(a, b, c)` whose pairs `(a, b)` and `(a, c)`
    /// both carry positive weight, `a` is nudged toward the midpoint of
    /// `b` and `c` (the more so the sharper the fold at `a`), and `b`
    /// and `c` each take half that force in the opposite direction, so
    /// the triple's net contribution is exactly zero. Each node's
    /// accumulator takes first its gains as the middle vertex, then its
    /// losses (see `str_loss_acc`). Cubic in the node count.
    pub fn straighten_connections_update(&mut self, cfg: &PassConfig)
        requires
            old(self).wf(),
            cfg_wf(*cfg),
        ensures
            final(self).wf(),
            same_placement(*old(self), *final(self)),
            same_adjacency(*old(self), *final(self)),
            forall|i: int| 0 <= i < old(self).num_nodes_spec()
                ==> #[trigger] final(self).vel_spec(i) == old(self).vel_spec(i),
            forall|i: int| 0 <= i < old(self).num_nodes_spec()
                ==> #[trigger] final(self).force_spec(i) == str_loss_acc(
                    *old(self),
                    *cfg,
                    i,
                    old(self).num_nodes_spec() * old(self).num_nodes_spec(),
                ),
    {
        let n = self.num_nodes();
        let ghost g0 = *self;
        let mut i: usize = 0;
        while i < n
            invariant
                self.wf(),
                cfg_wf(*cfg),
                g0 == *old(self),
                g0.wf(),
                n == self.num_nodes_spec(),
                i <= n,
                same_placement(g0, *self),
                same_adjacency(g0, *self),
                forall|k: int| 0 <= k < n
                    ==> #[trigger] self.vel_spec(k) == g0.vel_spec(k),
                forall|k: int| 0 <= k < i
                    ==> #[trigger] self.force_spec(k) == str_loss_acc(
                        g0,
                        *cfg,
                        k,
                        n as int * n as int,
                    ),
                forall|k: int| i <= k < n
                    ==> #[trigger] self.force_spec(k) == g0.force_spec(k),
            decreases n - i,
        {
            let fi = self.node_force(i);
            let mut ax = fi.x;
            let mut ay = fi.y;
            let mut b: usize = 0;
            while b < n
                invariant
                    self.wf(),
                    cfg_wf(*cfg),
                    g0 == *old(self),
                    g0.wf(),
                    n == self.num_nodes_spec(),
                    i < n,
                    b <= n,
                    same_placement(g0, *self),
                    same_adjacency(g0, *self),
                    forall|k: int| 0 <= k < n
                        ==> #[trigger] self.vel_spec(k) == g0.vel_spec(k),
                    forall|k: int| 0 <= k < i
                        ==> #[trigger] self.force_spec(k) == str_loss_acc(
                            g0,
                            *cfg,
                            k,
                            n as int * n as int,
                        ),
                    forall|k: int| i <= k < n
                        ==> #[trigger] self.force_spec(k) == g0.force_spec(k),
                    fx_in_range(ax as int),
                    fx_in_range(ay as int),
                    (ax as int, ay as int) == str_gain_acc(g0, *cfg, i as int, b as int * n as int),
                decreases n - b,
            {
                let mut c: usize = 0;
                while c < n
                    invariant
                        self.wf(),
                        cfg_wf(*cfg),
                        g0 == *old(self),
                        g0.wf(),
                        n == self.num_nodes_spec(),
                        i < n,
                        b < n,
                        c <= n,
                        same_placement(g0, *self),
                        same_adjacency(g0, *self),
                        forall|k: int| 0 <= k < n
                            ==> #[trigger] self.vel_spec(k) == g0.vel_spec(k),
                        forall|k: int| 0 <= k < i
                            ==> #[trigger] self.force_spec(k) == str_loss_acc(
                                g0,
                                *cfg,
                                k,
                                n as int * n as int,
                            ),
                        forall|k: int| i <= k < n
                            ==> #[trigger] self.force_spec(k) == g0.force_spec(k),
                        fx_in_range(ax as int),
                        fx_in_range(ay as int),
                        (ax as int, ay as int) == str_gain_acc(
                            g0,
                            *cfg,
                            i as int,
                            b as int * n as int + c as int,
                        ),
                    decreases n - c,
                {
                    let ghost t = b as int * n as int + c as int;
                    proof {
                        vstd::arithmetic::div_mod::lemma_fundamental_div_mod_converse(
                            t,
                            n as int,
                            b as int,
                            c as int,
                        );
                        assert(b as int * n as int + (n as int - 1) < n as int * n as int)
                            by (nonlinear_arith)
                            requires
                                (b as int) < (n as int),
                        ;
                    }
                    if b != i && c != i && c != b {
                        let pa_v = self.node_position(i);
                        let pb_v = self.node_position(b);
                        let pc_v = self.node_position(c);
                        let wab = self.get_adjacency(i, b);
                        let wac = self.get_adjacency(i, c);
                        let h = str_half_force(pa_v, pb_v, pc_v, wab, wac, cfg.straighten_k);
                        proof {
                            assert((h.0 as int, h.1 as int) == str_half_spec(
                                g0,
                                *cfg,
                                i as int,
                                b as int,
                                c as int,
                            ));
                        }
                        let gx = fx_add(h.0, h.0);
                        let gy = fx_add(h.1, h.1);
                        ax = fx_add(ax, gx);
                        ay = fx_add(ay, gy);
                    }
                    c = c + 1;
                }
                proof {
                    assert((b as int + 1) * (n as int) == b as int * n as int + n as int)
                        by (nonlinear_arith);
                }
                b = b + 1;
            }
            proof {
                assert(b as int * n as int == n as int * n as int) by (nonlinear_arith)
                    requires
                        b as int == n as int,
                ;
            }
            let mut a: usize = 0;
            while a < n
                invariant
                    self.wf(),
                    cfg_wf(*cfg),
                    g0 == *old(self),
                    g0.wf(),
                    n == self.num_nodes_spec(),
                    i < n,
                    a <= n,
                    same_placement(g0, *self),
                    same_adjacency(g0, *self),
                    forall|k: int| 0 <= k < n
                        ==> #[trigger] self.vel_spec(k) == g0.vel_spec(k),
                    forall|k: int| 0 <= k < i
                        ==> #[trigger] self.force_spec(k) == str_loss_acc(
                            g0,
                            *cfg,
                            k,
                            n as int * n as int,
                        ),
                    forall|k: int| i <= k < n
                        ==> #[trigger] self.force_spec(k) == g0.force_spec(k),
                    fx_in_range(ax as int),
                    fx_in_range(ay as int),
                    (ax as int, ay as int) == str_loss_acc(g0, *cfg, i as int, a as int * n as int),
                decreases n - a,
            {
                let mut y: usize = 0;
                while y < n
                    invariant
                        self.wf(),
                        cfg_wf(*cfg),
                        g0 == *old(self),
                        g0.wf(),
                        n == self.num_nodes_spec(),
                        i < n,
                        a < n,
                        y <= n,
                        same_placement(g0, *self),
                        same_adjacency(g0, *self),
                        forall|k: int| 0 <= k < n
                            ==> #[trigger] self.vel_spec(k) == g0.vel_spec(k),
                        forall|k: int| 0 <= k < i
                            ==> #[trigger] self.force_spec(k) == str_loss_acc(
                                g0,
                                *cfg,
                                k,
                                n as int * n as int,
                            ),
                        forall|k: int| i <= k < n
                            ==> #[trigger] self.force_spec(k) == g0.force_spec(k),
                        fx_in_range(ax as int),
                        fx_in_range(ay as int),
                        (ax as int, ay as int) == str_loss_acc(
                            g0,
                            *cfg,
                            i as int,
                            a as int * n as int + y as int,
                        ),
                    decreases n - y,
                {
                    let ghost s = a as int * n as int + y as int;
                    proof {
                        vstd::arithmetic::div_mod::lemma_fundamental_div_mod_converse(
                            s,
                            n as int,
                            a as int,
                            y as int,
                        );
                    }
                    if a != i && y != i && y != a {
                        let pa_v = self.node_position(a);
                        let pi_v = self.node_position(i);
                        let py_v = self.node_position(y);
                        let wai = self.get_adjacency(a, i);
                        let way = self.get_adjacency(a, y);
                        let h1 = str_half_force(pa_v, pi_v, py_v, wai, way, cfg.straighten_k);
                        let h2 = str_half_force(pa_v, py_v, pi_v, way, wai, cfg.straighten_k);
                        proof {
                            assert((h1.0 as int, h1.1 as int) == str_half_spec(
                                g0,
                                *cfg,
                                a as int,
                                i as int,
                                y as int,
                            ));
                            assert((h2.0 as int, h2.1 as int) == str_half_spec(
                                g0,
                                *cfg,
                                a as int,
                                y as int,
                                i as int,
                            ));
                        }
                        ax = fx_add(ax, -h1.0);
                        ay = fx_add(ay, -h1.1);
                        ax = fx_add(ax, -h2.0);
                        ay = fx_add(ay, -h2.1);
                    }
                    y = y + 1;
                }
                proof {
                    assert((a as int + 1) * (n as int) == a as int * n as int + n as int)
                        by (nonlinear_arith);
                }
                a = a + 1;
            }
            proof {
                assert(a as int * n as int == n as int * n as int) by (nonlinear_arith)
                    requires
                        a as int == n as int,
                ;
            }
            self.set_force_at(i, Vec2 { x: ax, y: ay });
            i = i + 1;
        }
    }
}

} // verus!
