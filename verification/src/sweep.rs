//! Which directions a sweep of some percent of a turn reaches.
//!
//! A percent of a turn is the twenty-fifth part of a quarter turn. The slopes of
//! the rays at 1 to 24 percent are irrational, so no lattice point lies on one.
//! Each ray is known by the two neighbouring fractions that enclose its slope:
//! no point with coordinates up to 127 lies between them, so a point is swept
//! exactly if its slope is at most the lower one.
use vstd::prelude::*;

use crate::angle::Angle;

verus! {

use crate::angle::{
    lemma_at_most_trans,
    lemma_plus_monotone,
    lemma_plus_wf,
    lemma_times_add,
    lemma_times_monotone,
    lemma_times_one,
    lemma_times_plus,
    lemma_times_shift,
    lemma_times_times,
    lemma_times_wf,
    quarter_turns,
    ray,
};

/// Largest coordinate for which the enclosing fractions leave no gap.
pub const MAX_COORDINATE: i32 = 127;

/// The angle, clockwise from straight up, of the point `right` to the right of
/// the centre and `down` below it.
pub open spec fn clockwise_from_up(right: int, down: int) -> Angle {
    if down < 0 && right >= 0 {
        Angle { quarters: 0, x: -down, y: right }
    } else if right > 0 {
        Angle { quarters: 1, x: right, y: down }
    } else if down > 0 {
        Angle { quarters: 2, x: down, y: -right }
    } else {
        Angle { quarters: 3, x: -right, y: -down }
    }
}

/// Whether a sweep clockwise from straight up reaches the point: its angle is
/// at most `percent` hundredths of a turn, so twenty-five times the angle is at
/// most `percent` quarter turns.
pub open spec fn swept(right: int, down: int, percent: int) -> bool {
    clockwise_from_up(right, down).times(25).at_most(quarter_turns(percent))
}

/// The fraction next below the slope of the ray at `k` percent of a turn.
pub open spec fn below(k: u16) -> Angle {
    match k {
        1 => ray(16, 1),
        2 => ray(95, 12),
        3 => ray(21, 4),
        4 => ray(113, 29),
        5 => ray(117, 38),
        6 => ray(48, 19),
        7 => ray(117, 55),
        8 => ray(111, 61),
        9 => ray(52, 33),
        10 => ray(117, 85),
        11 => ray(81, 67),
        12 => ray(82, 77),
        13 => ray(108, 115),
        14 => ray(91, 110),
        15 => ray(8, 11),
        16 => ray(73, 115),
        17 => ray(11, 20),
        18 => ray(8, 17),
        19 => ray(40, 101),
        20 => ray(13, 40),
        21 => ray(19, 74),
        22 => ray(21, 110),
        23 => ray(11, 87),
        _ => ray(8, 127),
    }
}

/// The fraction next above the slope of the ray at `k` percent of a turn.
pub open spec fn above(k: u16) -> Angle {
    match k {
        1 => ray(127, 8),
        2 => ray(87, 11),
        3 => ray(110, 21),
        4 => ray(74, 19),
        5 => ray(40, 13),
        6 => ray(101, 40),
        7 => ray(17, 8),
        8 => ray(20, 11),
        9 => ray(115, 73),
        10 => ray(11, 8),
        11 => ray(110, 91),
        12 => ray(115, 108),
        13 => ray(77, 82),
        14 => ray(67, 81),
        15 => ray(85, 117),
        16 => ray(33, 52),
        17 => ray(61, 111),
        18 => ray(55, 117),
        19 => ray(19, 48),
        20 => ray(38, 117),
        21 => ray(29, 113),
        22 => ray(4, 21),
        23 => ray(12, 95),
        _ => ray(1, 16),
    }
}

/// An angle slightly below one percent of a turn.
spec fn short_percent() -> Angle {
    ray(100_000_000, 6_291_466)
}

/// An angle slightly above one percent of a turn.
spec fn long_percent() -> Angle {
    ray(100_000_000, 6_291_468)
}

/// Bounds a multiple from above by the bounds of two smaller ones.
proof fn lemma_bound_above(h: Angle, m: nat, n: nat, a: Angle, b: Angle, c: Angle)
    requires
        h.wf(),
        a.wf(),
        b.wf(),
        c.wf(),
        h.times(m).at_most(a),
        h.times(n).at_most(b),
        a.plus(b).at_most(c),
    ensures
        h.times(m + n).at_most(c),
{
    lemma_times_add(h, m, n);
    lemma_times_wf(h, m);
    lemma_times_wf(h, n);
    lemma_plus_wf(h.times(m), h.times(n));
    lemma_plus_wf(a, h.times(n));
    lemma_plus_wf(a, b);
    lemma_plus_monotone(h.times(m), a, h.times(n));
    lemma_plus_monotone(h.times(n), b, a);
    lemma_at_most_trans(h.times(m + n), a.plus(h.times(n)), a.plus(b));
    lemma_at_most_trans(h.times(m + n), a.plus(b), c);
}

/// Bounds a multiple from below by the bounds of two smaller ones.
proof fn lemma_bound_below(h: Angle, m: nat, n: nat, a: Angle, b: Angle, c: Angle)
    requires
        h.wf(),
        a.wf(),
        b.wf(),
        c.wf(),
        a.at_most(h.times(m)),
        b.at_most(h.times(n)),
        c.at_most(a.plus(b)),
    ensures
        c.at_most(h.times(m + n)),
{
    lemma_times_add(h, m, n);
    lemma_times_wf(h, m);
    lemma_times_wf(h, n);
    lemma_plus_wf(h.times(m), h.times(n));
    lemma_plus_wf(a, h.times(n));
    lemma_plus_wf(a, b);
    lemma_plus_monotone(a, h.times(m), h.times(n));
    lemma_plus_monotone(b, h.times(n), a);
    lemma_at_most_trans(a.plus(b), a.plus(h.times(n)), h.times(m + n));
    lemma_at_most_trans(c, a.plus(b), h.times(m + n));
}

/// Twenty-five short percents stay below a quarter turn.
proof fn lemma_short_percent()
    ensures
        short_percent().times(25).quarters == 0,
{
    let h = short_percent();
    lemma_times_one(h);
    lemma_bound_above(h, 1, 1, ray(100_000_000, 6_291_466), ray(100_000_000, 6_291_466), ray(100_000_000, 12_632_937));
    lemma_bound_above(h, 2, 1, ray(100_000_000, 12_632_937), ray(100_000_000, 6_291_466), ray(100_000_000, 19_076_019));
    lemma_bound_above(h, 3, 3, ray(100_000_000, 19_076_019), ray(100_000_000, 19_076_019), ray(100_000_000, 39_592_799));
    lemma_bound_above(h, 6, 6, ray(100_000_000, 39_592_799), ray(100_000_000, 39_592_799), ray(100_000_000, 93_906_245));
    lemma_bound_above(h, 12, 12, ray(100_000_000, 93_906_245), ray(100_000_000, 93_906_245), ray(6_291_472, 100_000_000));
    lemma_bound_above(h, 24, 1, ray(6_291_472, 100_000_000), ray(100_000_000, 6_291_466), ray(5, 100_000_000));
    lemma_times_wf(h, 25);
}

/// Twenty-five long percents exceed a quarter turn.
proof fn lemma_long_percent()
    ensures
        !long_percent().times(25).at_most(quarter_turns(1)),
        long_percent().times(25).quarters >= 1,
{
    let h = long_percent();
    lemma_times_one(h);
    lemma_bound_below(h, 1, 1, ray(100_000_000, 6_291_468), ray(100_000_000, 6_291_468), ray(100_000_000, 12_632_940));
    lemma_bound_below(h, 2, 1, ray(100_000_000, 12_632_940), ray(100_000_000, 6_291_468), ray(100_000_000, 19_076_023));
    lemma_bound_below(h, 3, 3, ray(100_000_000, 19_076_023), ray(100_000_000, 19_076_023), ray(100_000_000, 39_592_807));
    lemma_bound_below(h, 6, 6, ray(100_000_000, 39_592_807), ray(100_000_000, 39_592_807), ray(100_000_000, 93_906_270));
    lemma_bound_below(h, 12, 12, ray(100_000_000, 93_906_270), ray(100_000_000, 93_906_270), ray(6_291_447, 100_000_000));
    lemma_bound_below(h, 24, 1, ray(6_291_447, 100_000_000), ray(100_000_000, 6_291_468), Angle { quarters: 1, x: 100_000_000, y: 20 });
    lemma_times_wf(h, 25);
}

/// A multiple of more than one quarter turn exceeds as many of them.
proof fn lemma_times_beyond(a: Angle, n: nat)
    requires
        a.wf(),
        a.quarters >= 1,
        !a.at_most(quarter_turns(1)),
        n > 0,
    ensures
        !a.times(n).at_most(quarter_turns(n as int)),
    decreases n,
{
    if n == 1 {
        lemma_times_one(a);
    } else {
        let m = (n - 1) as nat;
        lemma_times_add(a, m, 1);
        lemma_times_one(a);
        lemma_times_beyond(a, m);
        lemma_times_wf(a, m);
        let t = a.times(m);
        lemma_plus_wf(t, a);
        assert(t.y > 0 || t.quarters > m);
        if t.quarters == m && a.quarters == 1 {
            assert(t.x * a.y + t.y * a.x > 0) by (nonlinear_arith)
                requires
                    t.x > 0,
                    t.y > 0,
                    a.x > 0,
                    a.y > 0,
            ;
        }
    }
}

/// Extends the rays that stay below their percentage by one percent, and
/// concludes for the fraction below the new one.
proof fn lemma_short_step(k: nat, a: Angle, b: Angle, l: Angle)
    requires
        a.wf(),
        b.wf(),
        l.wf(),
        a.at_most(short_percent().times(k)),
        b.at_most(a.plus(short_percent())),
        l.at_most(b),
    ensures
        b.at_most(short_percent().times(k + 1)),
        l.times(25).quarters < k + 1,
{
    let h = short_percent();
    lemma_times_one(h);
    lemma_bound_below(h, k, 1, a, h, b);
    lemma_times_wf(h, k + 1);
    lemma_at_most_trans(l, b, h.times(k + 1));
    lemma_short_end(k + 1, l);
}

/// What is at most `k` short percents is below `k` percent of a turn.
proof fn lemma_short_end(k: nat, l: Angle)
    requires
        l.wf(),
        k > 0,
        l.at_most(short_percent().times(k)),
    ensures
        l.times(25).quarters < k,
{
    let h = short_percent();
    lemma_short_percent();
    lemma_times_wf(h, k);
    lemma_times_wf(h, 25);
    lemma_times_monotone(l, h.times(k), 25);
    lemma_times_times(h, k, 25);
    lemma_times_times(h, 25, k);
    assert(k * 25 == 25 * k);
    lemma_times_wf(h.times(25), k);
}

/// Extends the rays that exceed their percentage by one percent, and concludes
/// for the fraction above the new one.
proof fn lemma_long_step(k: nat, a: Angle, b: Angle, u: Angle)
    requires
        a.wf(),
        b.wf(),
        u.wf(),
        long_percent().times(k).at_most(a),
        a.plus(long_percent()).at_most(b),
        b.at_most(u),
    ensures
        long_percent().times(k + 1).at_most(b),
        !u.times(25).at_most(quarter_turns((k + 1) as int)),
{
    let h = long_percent();
    lemma_times_one(h);
    lemma_bound_above(h, k, 1, a, h, b);
    lemma_times_wf(h, k + 1);
    lemma_at_most_trans(h.times(k + 1), b, u);
    lemma_long_end(k + 1, u);
}

/// What is at least `k` long percents is beyond `k` percent of a turn.
proof fn lemma_long_end(k: nat, u: Angle)
    requires
        u.wf(),
        k > 0,
        long_percent().times(k).at_most(u),
    ensures
        !u.times(25).at_most(quarter_turns(k as int)),
{
    let h = long_percent();
    lemma_long_percent();
    lemma_times_wf(h, k);
    lemma_times_wf(h, 25);
    lemma_times_wf(u, 25);
    lemma_times_monotone(h.times(k), u, 25);
    lemma_times_times(h, k, 25);
    lemma_times_times(h, 25, k);
    assert(k * 25 == 25 * k);
    lemma_times_beyond(h.times(25), k);
    lemma_times_wf(h.times(25), k);
    if u.times(25).at_most(quarter_turns(k as int)) {
        lemma_at_most_trans(h.times(k).times(25), u.times(25), quarter_turns(k as int));
    }
}

/// The fractions below the rays are swept.
proof fn lemma_below_rays()
    ensures
        forall|k: u16| 1 <= k <= 24 ==> (#[trigger] below(k)).times(25).quarters < k,
{
    lemma_times_one(short_percent());
    lemma_short_end(1, ray(16, 1));
    lemma_short_step(1, ray(100_000_000, 6_291_466), ray(100_000_000, 12_632_936), ray(95, 12));
    lemma_short_step(2, ray(100_000_000, 12_632_936), ray(100_000_000, 19_076_017), ray(21, 4));
    lemma_short_step(3, ray(100_000_000, 19_076_017), ray(100_000_000, 25_675_631), ray(113, 29));
    lemma_short_step(4, ray(100_000_000, 25_675_631), ray(100_000_000, 32_491_963), ray(117, 38));
    lemma_short_step(5, ray(100_000_000, 32_491_963), ray(100_000_000, 39_592_793), ray(48, 19));
    lemma_short_step(6, ray(100_000_000, 39_592_793), ray(100_000_000, 47_056_418), ray(117, 55));
    lemma_short_step(7, ray(100_000_000, 47_056_418), ray(100_000_000, 54_975_453), ray(111, 61));
    lemma_short_step(8, ray(100_000_000, 54_975_453), ray(100_000_000, 63_461_915), ray(52, 33));
    lemma_short_step(9, ray(100_000_000, 63_461_915), ray(100_000_000, 72_654_235), ray(117, 85));
    lemma_short_step(10, ray(100_000_000, 72_654_235), ray(100_000_000, 82_727_173), ray(81, 67));
    lemma_short_step(11, ray(100_000_000, 82_727_173), ray(100_000_000, 93_906_225), ray(82, 77));
    lemma_short_step(12, ray(100_000_000, 93_906_225), ray(93_906_278, 100_000_000), ray(108, 115));
    lemma_short_step(13, ray(93_906_278, 100_000_000), ray(82_727_221, 100_000_000), ray(91, 110));
    lemma_short_step(14, ray(82_727_221, 100_000_000), ray(72_654_278, 100_000_000), ray(8, 11));
    lemma_short_step(15, ray(72_654_278, 100_000_000), ray(63_461_954, 100_000_000), ray(73, 115));
    lemma_short_step(16, ray(63_461_954, 100_000_000), ray(54_975_489, 100_000_000), ray(11, 20));
    lemma_short_step(17, ray(54_975_489, 100_000_000), ray(47_056_452, 100_000_000), ray(8, 17));
    lemma_short_step(18, ray(47_056_452, 100_000_000), ray(39_592_825, 100_000_000), ray(40, 101));
    lemma_short_step(19, ray(39_592_825, 100_000_000), ray(32_491_994, 100_000_000), ray(13, 40));
    lemma_short_step(20, ray(32_491_994, 100_000_000), ray(25_675_661, 100_000_000), ray(19, 74));
    lemma_short_step(21, ray(25_675_661, 100_000_000), ray(19_076_046, 100_000_000), ray(21, 110));
    lemma_short_step(22, ray(19_076_046, 100_000_000), ray(12_632_964, 100_000_000), ray(11, 87));
    lemma_short_step(23, ray(12_632_964, 100_000_000), ray(6_291_494, 100_000_000), ray(8, 127));
}

/// The fractions above the rays are not swept.
proof fn lemma_above_rays()
    ensures
        forall|k: u16| 1 <= k <= 24 ==> !(#[trigger] above(k)).times(25).at_most(
            quarter_turns(k as int),
        ),
{
    lemma_times_one(long_percent());
    lemma_long_end(1, ray(127, 8));
    lemma_long_step(1, ray(100_000_000, 6_291_468), ray(100_000_000, 12_632_941), ray(87, 11));
    lemma_long_step(2, ray(100_000_000, 12_632_941), ray(100_000_000, 19_076_025), ray(110, 21));
    lemma_long_step(3, ray(100_000_000, 19_076_025), ray(100_000_000, 25_675_643), ray(74, 19));
    lemma_long_step(4, ray(100_000_000, 25_675_643), ray(100_000_000, 32_491_979), ray(40, 13));
    lemma_long_step(5, ray(100_000_000, 32_491_979), ray(100_000_000, 39_592_813), ray(101, 40));
    lemma_long_step(6, ray(100_000_000, 39_592_813), ray(100_000_000, 47_056_443), ray(17, 8));
    lemma_long_step(7, ray(100_000_000, 47_056_443), ray(100_000_000, 54_975_483), ray(20, 11));
    lemma_long_step(8, ray(100_000_000, 54_975_483), ray(100_000_000, 63_461_951), ray(115, 73));
    lemma_long_step(9, ray(100_000_000, 63_461_951), ray(100_000_000, 72_654_278), ray(11, 8));
    lemma_long_step(10, ray(100_000_000, 72_654_278), ray(100_000_000, 82_727_225), ray(110, 91));
    lemma_long_step(11, ray(100_000_000, 82_727_225), ray(100_000_000, 93_906_287), ray(115, 108));
    lemma_long_step(12, ray(100_000_000, 93_906_287), ray(93_906_211, 100_000_000), ray(77, 82));
    lemma_long_step(13, ray(93_906_211, 100_000_000), ray(82_727_157, 100_000_000), ray(67, 81));
    lemma_long_step(14, ray(82_727_157, 100_000_000), ray(72_654_216, 100_000_000), ray(85, 117));
    lemma_long_step(15, ray(72_654_216, 100_000_000), ray(63_461_894, 100_000_000), ray(33, 52));
    lemma_long_step(16, ray(63_461_894, 100_000_000), ray(54_975_430, 100_000_000), ray(61, 111));
    lemma_long_step(17, ray(54_975_430, 100_000_000), ray(47_056_393, 100_000_000), ray(55, 117));
    lemma_long_step(18, ray(47_056_393, 100_000_000), ray(39_592_766, 100_000_000), ray(19, 48));
    lemma_long_step(19, ray(39_592_766, 100_000_000), ray(32_491_934, 100_000_000), ray(38, 117));
    lemma_long_step(20, ray(32_491_934, 100_000_000), ray(25_675_600, 100_000_000), ray(29, 113));
    lemma_long_step(21, ray(25_675_600, 100_000_000), ray(19_075_983, 100_000_000), ray(4, 21));
    lemma_long_step(22, ray(19_075_983, 100_000_000), ray(12_632_900, 100_000_000), ray(12, 95));
    lemma_long_step(23, ray(12_632_900, 100_000_000), ray(6_291_428, 100_000_000), ray(1, 16));
}

/// The fractions on both sides of a ray are neighbours, and no fraction between
/// them has a numerator and a denominator up to [`MAX_COORDINATE`].
proof fn lemma_neighbours()
    ensures
        forall|k: u16| #![trigger below(k)]
            #![trigger above(k)]
            1 <= k <= 24 ==> {
                &&& below(k).wf() && below(k).quarters == 0
                &&& above(k).wf() && above(k).quarters == 0
                &&& below(k).x * above(k).y - below(k).y * above(k).x == 1
                &&& below(k).x + above(k).x > MAX_COORDINATE || below(k).y + above(k).y
                    > MAX_COORDINATE
            },
{
}

/// A point right of the fraction below a ray and left of the fraction above it
/// has a coordinate beyond [`MAX_COORDINATE`].
proof fn lemma_no_point_between(k: u16, x: int, y: int)
    requires
        1 <= k <= 24,
        0 < x <= MAX_COORDINATE,
        0 <= y <= MAX_COORDINATE,
        !ray(x, y).at_most(below(k)),
    ensures
        above(k).at_most(ray(x, y)),
{
    lemma_neighbours();
    let (lx, ly, ux, uy) = (below(k).x, below(k).y, above(k).x, above(k).y);
    if !above(k).at_most(ray(x, y)) {
        let s = y * lx - ly * x;
        let t = uy * x - y * ux;
        assert(s >= 1 && t >= 1);
        let one = lx * uy - ly * ux;
        assert(ux * s == ux * (y * lx) - ux * (ly * x)) by (nonlinear_arith)
            requires
                s == y * lx - ly * x,
        ;
        assert(lx * t == lx * (uy * x) - lx * (y * ux)) by (nonlinear_arith)
            requires
                t == uy * x - y * ux,
        ;
        assert(uy * s == uy * (y * lx) - uy * (ly * x)) by (nonlinear_arith)
            requires
                s == y * lx - ly * x,
        ;
        assert(ly * t == ly * (uy * x) - ly * (y * ux)) by (nonlinear_arith)
            requires
                t == uy * x - y * ux,
        ;
        assert(ux * (y * lx) == lx * (y * ux)) by (nonlinear_arith);
        assert(uy * (ly * x) == ly * (uy * x)) by (nonlinear_arith);
        assert(lx * (uy * x) - ux * (ly * x) == (lx * uy - ly * ux) * x) by (nonlinear_arith);
        assert(uy * (y * lx) - ly * (y * ux) == (lx * uy - ly * ux) * y) by (nonlinear_arith);
        assert(ux * s + lx * t == one * x && uy * s + ly * t == one * y);
        assert(ux * s >= ux && lx * t >= lx) by (nonlinear_arith)
            requires
                ux > 0,
                lx > 0,
                s >= 1,
                t >= 1,
        ;
        assert(uy * s >= uy && ly * t >= ly) by (nonlinear_arith)
            requires
                uy >= 0,
                ly >= 0,
                s >= 1,
                t >= 1,
        ;
    }
}

/// Multiples of a positive angle are positive.
proof fn lemma_times_positive(a: Angle, n: nat)
    requires
        a.wf(),
        a.quarters == 0,
        a.y > 0,
        n > 0,
    ensures
        a.times(n).quarters > 0 || a.times(n).y > 0,
    decreases n,
{
    lemma_times_one(a);
    if n > 1 {
        let m = (n - 1) as nat;
        lemma_times_add(a, m, 1);
        lemma_times_positive(a, m);
        lemma_times_wf(a, m);
        let t = a.times(m);
        lemma_plus_wf(t, a);
        assert(t.x * a.y + t.y * a.x > 0) by (nonlinear_arith)
            requires
                t.x > 0,
                t.y >= 0,
                a.x > 0,
                a.y > 0,
        ;
    }
}

/// The fraction next below the slope of the ray at `k` percent of a turn, as
/// its denominator and numerator.
fn slope_below(k: u16) -> (r: (i32, i32))
    requires
        1 <= k <= 24,
    ensures
        below(k) == ray(r.0 as int, r.1 as int),
        0 < r.0 <= MAX_COORDINATE,
        0 <= r.1 <= MAX_COORDINATE,
{
    match k {
        1 => (16, 1),
        2 => (95, 12),
        3 => (21, 4),
        4 => (113, 29),
        5 => (117, 38),
        6 => (48, 19),
        7 => (117, 55),
        8 => (111, 61),
        9 => (52, 33),
        10 => (117, 85),
        11 => (81, 67),
        12 => (82, 77),
        13 => (108, 115),
        14 => (91, 110),
        15 => (8, 11),
        16 => (73, 115),
        17 => (11, 20),
        18 => (8, 17),
        19 => (40, 101),
        20 => (13, 40),
        21 => (19, 74),
        22 => (21, 110),
        23 => (11, 87),
        _ => (8, 127),
    }
}

/// Decides whether a sweep of `percent` percent reaches a point off the axes.
pub fn reaches(right: i32, down: i32, percent: u16) -> (r: bool)
    requires
        -MAX_COORDINATE <= right <= MAX_COORDINATE,
        -MAX_COORDINATE <= down <= MAX_COORDINATE,
        right != 0,
        down != 0,
    ensures
        r == swept(right as int, down as int, percent as int),
{
    let (quarter, x, y): (u16, i32, i32) = if down < 0 && right > 0 {
        (0, -down, right)
    } else if right > 0 {
        (1, right, down)
    } else if down > 0 {
        (2, down, -right)
    } else {
        (3, -right, -down)
    };
    let start: u16 = quarter * 25;
    let ghost angle = clockwise_from_up(right as int, down as int);
    let ghost rest = ray(x as int, y as int);
    proof {
        assert(angle == (Angle { quarters: quarter as int, x: x as int, y: y as int }));
        lemma_times_shift(angle, 25);
        lemma_times_wf(rest, 25);
        lemma_times_positive(rest, 25);
        assert(quarter_turns(percent as int).x == 1);
    }
    if percent <= start {
        return false;
    }
    let k: u16 = percent - start;
    if k >= 25 {
        return true;
    }
    let (lx, ly) = slope_below(k);
    assert(y * lx <= 127 * 127 && ly * x <= 127 * 127) by (nonlinear_arith)
        requires
            0 < x <= 127,
            0 < y <= 127,
            0 < lx <= 127,
            0 <= ly <= 127,
    ;
    assert(y * lx >= 0 && ly * x >= 0) by (nonlinear_arith)
        requires
            0 < x <= 127,
            0 < y <= 127,
            0 < lx <= 127,
            0 <= ly <= 127,
    ;
    let r = y * lx <= ly * x;
    proof {
        lemma_neighbours();
        if r {
            lemma_below_rays();
            lemma_times_monotone(rest, below(k), 25);
        } else {
            lemma_above_rays();
            lemma_no_point_between(k, x as int, y as int);
            lemma_times_monotone(above(k), rest, 25);
            lemma_times_wf(above(k), 25);
            if rest.times(25).at_most(quarter_turns(k as int)) {
                lemma_at_most_trans(
                    above(k).times(25),
                    rest.times(25),
                    quarter_turns(k as int),
                );
            }
        }
    }
    r
}

/// Multiples of the zero angle are zero.
proof fn lemma_times_zero(a: Angle, n: nat)
    requires
        a.wf(),
        a.quarters == 0,
        a.y == 0,
    ensures
        a.times(n).quarters == 0,
        a.times(n).y == 0,
    decreases n,
{
    lemma_times_one(a);
    if n == 0 {
        reveal(Angle::times);
    } else {
        let m = (n - 1) as nat;
        lemma_times_add(a, m, 1);
        lemma_times_zero(a, m);
        lemma_times_wf(a, m);
        let t = a.times(m);
        assert(t.x * a.x - 0 * 0 > 0) by (nonlinear_arith)
            requires
                t.x > 0,
                a.x > 0,
        ;
        assert(t.x * 0 + 0 * a.x == 0);
    }
}

/// A larger sweep reaches every point that a smaller one reaches.
pub proof fn law_sweep_grows(right: int, down: int, small: int, large: int)
    requires
        small <= large,
        swept(right, down, small),
    ensures
        swept(right, down, large),
{
}

/// The sweep runs clockwise from straight up: with a point it reaches every
/// point at a smaller angle.
pub proof fn law_sweep_is_clockwise(
    right: int,
    down: int,
    other_right: int,
    other_down: int,
    percent: int,
)
    requires
        right != 0 || down != 0,
        other_right != 0 || other_down != 0,
        clockwise_from_up(right, down).at_most(clockwise_from_up(other_right, other_down)),
        swept(other_right, other_down, percent),
    ensures
        swept(right, down, percent),
{
    let a = clockwise_from_up(right, down);
    let b = clockwise_from_up(other_right, other_down);
    lemma_times_monotone(a, b, 25);
    lemma_times_wf(a, 25);
    lemma_times_wf(b, 25);
    lemma_at_most_trans(a.times(25), b.times(25), quarter_turns(percent));
}

/// Every 25 percent are a quarter turn: at 0 percent the sweep reaches only
/// what is straight up, at 25 percent the upper right quadrant, and at 100
/// percent everything.
pub proof fn law_sweep_quarters(right: int, down: int, quarters: int)
    requires
        right != 0 || down != 0,
    ensures
        swept(right, down, 25 * quarters) <==> clockwise_from_up(right, down).at_most(
            quarter_turns(quarters),
        ),
        quarters >= 4 ==> swept(right, down, 25 * quarters),
{
    let a = clockwise_from_up(right, down);
    let rest = ray(a.x, a.y);
    lemma_times_shift(a, 25);
    lemma_times_wf(rest, 25);
    if a.y == 0 {
        lemma_times_zero(rest, 25);
    } else {
        lemma_times_positive(rest, 25);
    }
}

/// A quarter turn clockwise takes 25 percent: a point in the first three quadrants
/// is swept exactly if the point a quarter turn further is at 25 percent more.
pub proof fn law_sweep_turns(right: int, down: int, percent: int)
    requires
        right != 0 || down != 0,
        right >= 0 || down > 0,
    ensures
        swept(-down, right, percent + 25) <==> swept(right, down, percent),
{
    let a = clockwise_from_up(right, down);
    let b = clockwise_from_up(-down, right);
    assert(b == Angle { quarters: a.quarters + 1, ..a });
    lemma_times_shift(a, 25);
    lemma_times_shift(b, 25);
    lemma_times_wf(a, 25);
}

/// Percentages add up as angles do. From two points in the first quadrant, the
/// point at the sum of their angles is swept at the sum of two percentages that
/// sweep them, and not at the sum of two that do not.
pub proof fn law_sweeps_add_up(
    right: int,
    up: int,
    other_right: int,
    other_up: int,
    percent: int,
    other_percent: int,
)
    requires
        right >= 0,
        up > 0,
        other_right >= 0,
        other_up > 0,
    ensures
        ({
            let sum_right = up * other_right + right * other_up;
            let sum_up = up * other_up - right * other_right;
            let one = swept(right, -up, percent);
            let other = swept(other_right, -other_up, other_percent);
            let both = swept(sum_right, -sum_up, percent + other_percent);
            &&& one && other ==> both
            &&& !one && !other ==> !both
        }),
{
    let a = clockwise_from_up(right, -up);
    let b = clockwise_from_up(other_right, -other_up);
    let sum_right = up * other_right + right * other_up;
    let sum_up = up * other_up - right * other_right;
    let c = clockwise_from_up(sum_right, -sum_up);
    assert(up * other_up > 0 && right * other_right >= 0 && sum_right >= 0) by (nonlinear_arith)
        requires
            right >= 0,
            up > 0,
            other_right >= 0,
            other_up > 0,
            sum_right == up * other_right + right * other_up,
    ;
    if sum_up <= 0 {
        assert(sum_right > 0) by (nonlinear_arith)
            requires
                right >= 0,
                up > 0,
                other_right >= 0,
                other_up > 0,
                up * other_up - right * other_right <= 0,
                sum_right == up * other_right + right * other_up,
        ;
    }
    assert(c == a.plus(b));
    lemma_times_plus(a, b, 25);
    let (many_a, many_b) = (a.times(25), b.times(25));
    lemma_times_wf(a, 25);
    lemma_times_wf(b, 25);
    lemma_plus_wf(many_a, many_b);
    let (one, other) = (quarter_turns(percent), quarter_turns(other_percent));
    if swept(right, -up, percent) && swept(other_right, -other_up, other_percent) {
        lemma_plus_monotone(many_a, one, many_b);
        lemma_plus_monotone(many_b, other, one);
        lemma_plus_wf(one, many_b);
        lemma_plus_wf(one, other);
        lemma_at_most_trans(many_a.plus(many_b), one.plus(many_b), one.plus(other));
        assert(one.plus(other) == quarter_turns(percent + other_percent));
    }
    if !swept(right, -up, percent) && !swept(other_right, -other_up, other_percent) {
        if many_a.y > 0 || many_b.y > 0 {
            assert(many_a.x * many_b.y + many_a.y * many_b.x > 0) by (nonlinear_arith)
                requires
                    many_a.x > 0,
                    many_b.x > 0,
                    many_a.y >= 0,
                    many_b.y >= 0,
                    many_a.y > 0 || many_b.y > 0,
            ;
        }
    }
}

/// At 0, 25, 50, 75 and 100 percent the sweep reaches what is straight up, the
/// upper right quadrant, the right half, all but the inside of the upper left
/// quadrant, and everything; below 0 it reaches nothing.
pub proof fn law_sweep_quadrants(right: int, down: int, percent: int)
    requires
        right != 0 || down != 0,
    ensures
        percent < 0 ==> !swept(right, down, percent),
        swept(right, down, 0) <==> right == 0 && down < 0,
        swept(right, down, 25) <==> right >= 0 && down <= 0,
        swept(right, down, 50) <==> right >= 0,
        swept(right, down, 75) <==> right >= 0 || down >= 0,
        percent >= 100 ==> swept(right, down, percent),
{
    law_sweep_quarters(right, down, -1);
    law_sweep_quarters(right, down, 0);
    law_sweep_quarters(right, down, 1);
    law_sweep_quarters(right, down, 2);
    law_sweep_quarters(right, down, 3);
    law_sweep_quarters(right, down, 4);
    let a = clockwise_from_up(right, down);
    lemma_times_shift(a, 25);
    lemma_times_wf(ray(a.x, a.y), 25);
}

} // verus!
