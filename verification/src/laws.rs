//! Conservation and no-op laws of the force passes, stated over any
//! graph and any pass configuration.

use vstd::prelude::*;
use crate::fx::{
    SCALE, spec_clamp, spec_fx_mul, spec_fx_div, spec_tdiv, spec_isqrt, is_isqrt,
    lemma_clamp_neg, lemma_fx_mul_neg, lemma_fx_div_neg, lemma_isqrt_exists, lemma_tdiv_mag_le,
    lemma_fx_mul_mag_le, fx_in_range,
};
use crate::graph::{Graph, lemma_adjacency_symmetric, lemma_wf_node_ranges};
use crate::forces::{
    PassConfig, cfg_wf, delta_val, dist_val, unit_val, spring_pair_val, spring_pair_spec,
    spring_acc_spec, repulse_pair_val, repulse_pair_spec, str_half_spec, str_gain_acc,
    str_loss_acc, HALF,
};

verus! {

/// A unit vector's components never exceed one whole unit in magnitude.
pub proof fn lemma_unit_mag(pi: (int, int), pj: (int, int))
    ensures
        -(SCALE as int) <= unit_val(pi, pj).0 <= SCALE as int,
        -(SCALE as int) <= unit_val(pi, pj).1 <= SCALE as int,
{
    let d = delta_val(pi, pj);
    if !(d.0 == 0 && d.1 == 0) {
        let d2 = d.0 * d.0 + d.1 * d.1;
        assert(0 <= d.0 * d.0 && 0 <= d.1 * d.1) by (nonlinear_arith);
        lemma_isqrt_exists(d2);
        let r = spec_isqrt(d2);
        assert(-r <= d.0 <= r && -r <= d.1 <= r) by (nonlinear_arith)
            requires
                is_isqrt(r, d2),
                d2 == d.0 * d.0 + d.1 * d.1,
        ;
        let dist = spec_clamp(r);
        assert(1 <= dist);
        assert(-dist <= d.0 <= dist && -dist <= d.1 <= dist);
        assert(-(SCALE as int * dist) <= d.0 * SCALE as int <= SCALE as int * dist
            && -(SCALE as int * dist) <= d.1 * SCALE as int <= SCALE as int * dist)
            by (nonlinear_arith)
            requires
                -dist <= d.0 <= dist,
                -dist <= d.1 <= dist,
                0 < dist,
        ;
        lemma_tdiv_mag_le(d.0 * SCALE as int, dist, SCALE as int);
        lemma_tdiv_mag_le(d.1 * SCALE as int, dist, SCALE as int);
    }
}

/// Newton's third law for one spring: swapping the two endpoints
/// negates the force, so each pair's two contributions are exactly
/// equal and opposite.
pub proof fn lemma_spring_pair_val_antisym(
    pi: (int, int),
    pj: (int, int),
    adj: int,
    maxa: int,
    cfg: PassConfig,
)
    ensures
        spring_pair_val(pj, pi, adj, maxa, cfg).0 == -spring_pair_val(pi, pj, adj, maxa, cfg).0,
        spring_pair_val(pj, pi, adj, maxa, cfg).1 == -spring_pair_val(pi, pj, adj, maxa, cfg).1,
{
    let d = delta_val(pi, pj);
    let e = delta_val(pj, pi);
    lemma_clamp_neg(pj.0 - pi.0);
    lemma_clamp_neg(pj.1 - pi.1);
    assert(e.0 == -d.0 && e.1 == -d.1);
    assert((-d.0) * (-d.0) == d.0 * d.0 && (-d.1) * (-d.1) == d.1 * d.1) by (nonlinear_arith);
    assert(dist_val(pj, pi) == dist_val(pi, pj));
    let w = spec_fx_div(adj, maxa);
    let target = spec_clamp(cfg.rest_max as int - spec_fx_mul(cfg.rest_spread as int, w));
    let x = spec_clamp(dist_val(pi, pj) - target);
    let m = spec_fx_mul(w, x);
    if d.0 == 0 && d.1 == 0 {
        assert(m * 0 == 0) by (nonlinear_arith);
        assert(spec_tdiv(0, SCALE as int) == 0);
        assert(spec_fx_mul(m, 0) == 0);
    } else {
        let d2 = d.0 * d.0 + d.1 * d.1;
        assert(1 <= d.0 * d.0 + d.1 * d.1) by (nonlinear_arith)
            requires
                !(d.0 == 0 && d.1 == 0),
        ;
        lemma_isqrt_exists(d2);
        let r = spec_isqrt(d2);
        assert(1 <= r) by (nonlinear_arith)
            requires
                is_isqrt(r, d2),
                1 <= d2,
        ;
        let dist = dist_val(pi, pj);
        assert(1 <= dist);
        lemma_fx_div_neg(d.0, dist);
        lemma_fx_div_neg(d.1, dist);
        let u = unit_val(pi, pj);
        assert(unit_val(pj, pi) == (-u.0, -u.1));
        lemma_fx_mul_neg(m, u.0);
        lemma_fx_mul_neg(m, u.1);
    }
}

/// `lemma_spring_pair_val_antisym` read off a graph: the spring force
/// the pair `{i, j}` applies to `j` is exactly the opposite of the one
/// it applies to `i`.
pub proof fn lemma_spring_pair_antisymmetric<T>(g: Graph<T>, cfg: PassConfig, i: int, j: int)
    ensures
        spring_pair_spec(g, cfg, j, i).0 == -spring_pair_spec(g, cfg, i, j).0,
        spring_pair_spec(g, cfg, j, i).1 == -spring_pair_spec(g, cfg, i, j).1,
{
    lemma_adjacency_symmetric(g, i, j);
    lemma_spring_pair_val_antisym(g.pos_spec(i), g.pos_spec(j), g.adj_spec(i, j), g.max_adj_spec(), cfg);
}

/// Newton's third law for the repulsion pass: swapping the two
/// endpoints negates the force, so each pair's two contributions are
/// exactly equal and opposite.
pub proof fn lemma_repulse_pair_val_antisym(
    pi: (int, int),
    pj: (int, int),
    force: int,
    padding: int,
)
    ensures
        repulse_pair_val(pj, pi, force, padding).0 == -repulse_pair_val(pi, pj, force, padding).0,
        repulse_pair_val(pj, pi, force, padding).1 == -repulse_pair_val(pi, pj, force, padding).1,
{
    let d = delta_val(pi, pj);
    let e = delta_val(pj, pi);
    lemma_clamp_neg(pj.0 - pi.0);
    lemma_clamp_neg(pj.1 - pi.1);
    assert(e.0 == -d.0 && e.1 == -d.1);
    assert((-d.0) * (-d.0) == d.0 * d.0 && (-d.1) * (-d.1) == d.1 * d.1) by (nonlinear_arith);
    assert(dist_val(pj, pi) == dist_val(pi, pj));
    if !(d.0 == 0 && d.1 == 0) {
        let d2 = d.0 * d.0 + d.1 * d.1;
        assert(1 <= d.0 * d.0 + d.1 * d.1) by (nonlinear_arith)
            requires
                !(d.0 == 0 && d.1 == 0),
        ;
        lemma_isqrt_exists(d2);
        let r = spec_isqrt(d2);
        assert(1 <= r) by (nonlinear_arith)
            requires
                is_isqrt(r, d2),
                1 <= d2,
        ;
        let dist = dist_val(pi, pj);
        assert(1 <= dist);
        lemma_fx_div_neg(d.0, dist);
        lemma_fx_div_neg(d.1, dist);
        let u = unit_val(pi, pj);
        assert(unit_val(pj, pi) == (-u.0, -u.1));
        let s = spec_clamp(dist + padding);
        let m = spec_fx_mul(force, spec_fx_mul(spec_fx_div(SCALE as int, s), spec_fx_div(SCALE as int, s)));
        lemma_fx_mul_neg(m, u.0);
        lemma_fx_mul_neg(m, u.1);
    }
}

/// `lemma_repulse_pair_val_antisym` read off a graph.
pub proof fn lemma_repulse_pair_antisymmetric<T>(
    g: Graph<T>,
    force: int,
    padding: int,
    i: int,
    j: int,
)
    ensures
        repulse_pair_spec(g, force, padding, j, i).0 == -repulse_pair_spec(
            g,
            force,
            padding,
            i,
            j,
        ).0,
        repulse_pair_spec(g, force, padding, j, i).1 == -repulse_pair_spec(
            g,
            force,
            padding,
            i,
            j,
        ).1,
{
    lemma_repulse_pair_val_antisym(g.pos_spec(i), g.pos_spec(j), force, padding);
}

/// Exact (unclamped) sum of the spring forces node `i` receives from
/// partners `0..jm` other than itself.
pub open spec fn spring_row_sum<T>(g: Graph<T>, cfg: PassConfig, i: int, jm: int) -> (int, int)
    decreases jm,
{
    if jm <= 0 {
        (0int, 0int)
    } else {
        let prev = spring_row_sum(g, cfg, i, jm - 1);
        if jm - 1 == i {
            prev
        } else {
            let pf = spring_pair_spec(g, cfg, i, jm - 1);
            (prev.0 + pf.0, prev.1 + pf.1)
        }
    }
}

/// Exact sum of the spring forces that nodes `0..im` other than `j0`
/// receive from their pair with `j0`.
pub open spec fn spring_col_sum<T>(g: Graph<T>, cfg: PassConfig, j0: int, im: int) -> (int, int)
    decreases im,
{
    if im <= 0 {
        (0int, 0int)
    } else {
        let prev = spring_col_sum(g, cfg, j0, im - 1);
        if im - 1 == j0 {
            prev
        } else {
            let pf = spring_pair_spec(g, cfg, im - 1, j0);
            (prev.0 + pf.0, prev.1 + pf.1)
        }
    }
}

/// Exact sum, over nodes `i < rows`, of the spring forces each
/// receives from partners `0..jm`.
pub open spec fn spring_total_sum<T>(g: Graph<T>, cfg: PassConfig, rows: int, jm: int) -> (
    int,
    int,
)
    decreases rows,
{
    if rows <= 0 {
        (0int, 0int)
    } else {
        let prev = spring_total_sum(g, cfg, rows - 1, jm);
        let row = spring_row_sum(g, cfg, rows - 1, jm);
        (prev.0 + row.0, prev.1 + row.1)
    }
}

proof fn lemma_row_neg_col<T>(g: Graph<T>, cfg: PassConfig, i0: int, b: int)
    ensures
        spring_row_sum(g, cfg, i0, b).0 == -spring_col_sum(g, cfg, i0, b).0,
        spring_row_sum(g, cfg, i0, b).1 == -spring_col_sum(g, cfg, i0, b).1,
    decreases b,
{
    if b > 0 {
        lemma_row_neg_col(g, cfg, i0, b - 1);
        if b - 1 != i0 {
            lemma_spring_pair_antisymmetric(g, cfg, i0, b - 1);
        }
    }
}

proof fn lemma_total_peel<T>(g: Graph<T>, cfg: PassConfig, rows: int, jm: int)
    requires
        0 <= jm,
    ensures
        spring_total_sum(g, cfg, rows, jm + 1).0 == spring_total_sum(g, cfg, rows, jm).0
            + spring_col_sum(g, cfg, jm, rows).0,
        spring_total_sum(g, cfg, rows, jm + 1).1 == spring_total_sum(g, cfg, rows, jm).1
            + spring_col_sum(g, cfg, jm, rows).1,
    decreases rows,
{
    if rows > 0 {
        lemma_total_peel(g, cfg, rows - 1, jm);
    }
}

proof fn lemma_spring_conservation_upto<T>(g: Graph<T>, cfg: PassConfig, m: int)
    ensures
        spring_total_sum(g, cfg, m, m) == (0int, 0int),
    decreases m,
{
    if m <= 0 {
    } else {
        lemma_spring_conservation_upto(g, cfg, m - 1);
        lemma_total_peel(g, cfg, m - 1, m - 1);
        lemma_row_neg_col(g, cfg, m - 1, m - 1);
    }
}

/// Conservation: over all nodes, the spring pass's contributions sum
/// to the zero vector exactly, for any configuration of positions and
/// weights.
pub proof fn lemma_spring_conservation<T>(g: Graph<T>, cfg: PassConfig)
    ensures
        spring_total_sum(g, cfg, g.num_nodes_spec(), g.num_nodes_spec()) == (0int, 0int),
{
    lemma_spring_conservation_upto(g, cfg, g.num_nodes_spec());
}

/// Edgeless no-op: on a well-formed graph whose every weight is 0
/// (the cached maximum may still be positive after weights were
/// lowered), the spring pass leaves every force accumulator unchanged,
/// because a zero weight gives zero stiffness.
pub proof fn lemma_spring_edgeless<T>(g: Graph<T>, cfg: PassConfig, i: int, j: int)
    requires
        g.wf(),
        cfg_wf(cfg),
        0 <= i < g.num_nodes_spec(),
        0 < g.max_adj_spec(),
        forall|p: int, q: int| #[trigger] g.adj_spec(p, q) == 0,
    ensures
        spring_acc_spec(g, cfg, i, j) == g.force_spec(i),
    decreases j,
{
    if j > 0 {
        lemma_spring_edgeless(g, cfg, i, j - 1);
        if j - 1 != i {
            assert(g.adj_spec(i, j - 1) == 0);
            let maxa = g.max_adj_spec();
            assert(0int * SCALE as int == 0) by (nonlinear_arith);
            vstd::arithmetic::div_mod::lemma_div_basics(maxa);
            assert(spec_fx_div(0, maxa) == 0);
            let x = spec_clamp(
                dist_val(g.pos_spec(i), g.pos_spec(j - 1)) - spec_clamp(
                    cfg.rest_max as int - spec_fx_mul(cfg.rest_spread as int, 0),
                ),
            );
            assert(0int * x == 0) by (nonlinear_arith);
            assert(spec_fx_mul(0, x) == 0);
            let u = unit_val(g.pos_spec(i), g.pos_spec(j - 1));
            assert(0int * u.0 == 0 && 0int * u.1 == 0) by (nonlinear_arith);
            assert(spec_fx_mul(0, u.0) == 0 && spec_fx_mul(0, u.1) == 0);
            assert(spring_pair_spec(g, cfg, i, j - 1) == (0int, 0int));
            lemma_wf_node_ranges(g, i);
        }
    }
}

/// Exact cancellation within one straightening triple: the doubled
/// half-share the middle vertex gains never saturates, so it is
/// precisely the sum of the two half-shares the outer vertices lose,
/// and the triple's net contribution is the zero vector.
pub proof fn lemma_straighten_triple_conserved<T>(
    g: Graph<T>,
    cfg: PassConfig,
    a: int,
    b: int,
    c: int,
)
    ensures
        ({
            let h = str_half_spec(g, cfg, a, b, c);
            spec_clamp(h.0 + h.0) == h.0 + h.0 && spec_clamp(h.1 + h.1) == h.1 + h.1
        }),
{
    let pa = g.pos_spec(a);
    let pb = g.pos_spec(b);
    let pc = g.pos_spec(c);
    let wab = g.adj_spec(a, b);
    let wac = g.adj_spec(a, c);
    let k = cfg.straighten_k as int;
    if wab <= 0 || wac <= 0 {
    } else {
        let u1 = unit_val(pa, pb);
        let u2 = unit_val(pa, pc);
        let dot = spec_clamp(spec_fx_mul(u1.0, u2.0) + spec_fx_mul(u1.1, u2.1));
        let p = spec_clamp(spec_fx_mul(dot, HALF as int) + HALF as int);
        let f = spec_fx_mul(spec_fx_mul(spec_fx_mul(k, wab), wac), p);
        let hf = spec_fx_mul(f, HALF as int);
        assert(fx_in_range(f));
        assert(-(0x2000_0000int * SCALE as int) <= f * HALF as int <= 0x2000_0000int
            * SCALE as int) by (nonlinear_arith)
            requires
                -0x4000_0000 <= f <= 0x4000_0000,
        ;
        lemma_tdiv_mag_le(f * HALF as int, SCALE as int, 0x2000_0000int);
        assert(-0x2000_0000 <= hf <= 0x2000_0000);
        let mid = (
            spec_fx_mul(spec_clamp(pb.0 + pc.0), HALF as int),
            spec_fx_mul(spec_clamp(pb.1 + pc.1), HALF as int),
        );
        lemma_unit_mag(pa, mid);
        let dir = unit_val(pa, mid);
        lemma_fx_mul_mag_le(hf, dir.0, 0x2000_0000int);
        lemma_fx_mul_mag_le(hf, dir.1, 0x2000_0000int);
    }
}

/// Edgeless no-op for the straightening pass: with every weight 0 no
/// triple qualifies, so every force accumulator is unchanged.
pub proof fn lemma_straighten_gain_edgeless<T>(g: Graph<T>, cfg: PassConfig, i: int, t: int)
    requires
        g.wf(),
        0 <= i < g.num_nodes_spec(),
        forall|p: int, q: int| #[trigger] g.adj_spec(p, q) == 0,
    ensures
        str_gain_acc(g, cfg, i, t) == g.force_spec(i),
    decreases t,
{
    if t > 0 {
        lemma_straighten_gain_edgeless(g, cfg, i, t - 1);
        let n = g.num_nodes_spec();
        let bb = (t - 1) / n;
        let cc = (t - 1) % n;
        if !(bb == i || cc == i || cc == bb) {
            assert(g.adj_spec(i, bb) == 0);
            assert(str_half_spec(g, cfg, i, bb, cc) == (0int, 0int));
            lemma_wf_node_ranges(g, i);
        }
    }
}

/// See `lemma_straighten_gain_edgeless`: the full straightening fold
/// leaves the accumulator of every node unchanged on an edgeless
/// graph.
pub proof fn lemma_straighten_edgeless<T>(g: Graph<T>, cfg: PassConfig, i: int, s: int)
    requires
        g.wf(),
        0 <= i < g.num_nodes_spec(),
        forall|p: int, q: int| #[trigger] g.adj_spec(p, q) == 0,
    ensures
        str_loss_acc(g, cfg, i, s) == g.force_spec(i),
    decreases s,
{
    let n = g.num_nodes_spec();
    if s <= 0 {
        lemma_straighten_gain_edgeless(g, cfg, i, n * n);
    } else {
        lemma_straighten_edgeless(g, cfg, i, s - 1);
        let aa = (s - 1) / n;
        let yy = (s - 1) % n;
        if !(aa == i || yy == i || yy == aa) {
            assert(g.adj_spec(aa, i) == 0);
            assert(g.adj_spec(aa, yy) == 0);
            assert(str_half_spec(g, cfg, aa, i, yy) == (0int, 0int));
            assert(str_half_spec(g, cfg, aa, yy, i) == (0int, 0int));
            lemma_wf_node_ranges(g, i);
        }
    }
}

} // verus!
