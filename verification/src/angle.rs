//! Angles in the plane, in exact integer arithmetic.
//!
//! An angle is a number of whole quarter turns and a rest below one quarter
//! turn, which is the direction of a lattice point of the first quadrant.
//! Adding two angles multiplies their rests as complex numbers, so whether some
//! multiple of an angle exceeds a number of quarter turns is decided without
//! rounding.
use vstd::prelude::*;

verus! {

/// `quarters` quarter turns and, on top of them, the angle between the ray
/// through `(1, 0)` and the ray through `(x, y)`.
pub struct Angle {
    pub quarters: int,
    pub x: int,
    pub y: int,
}

impl Angle {
    /// The rest is at least zero and below one quarter turn.
    pub open spec fn wf(self) -> bool {
        self.x > 0 && self.y >= 0
    }

    /// The sum of two angles.
    pub open spec fn plus(self, other: Angle) -> Angle {
        let x = self.x * other.x - self.y * other.y;
        let y = self.x * other.y + self.y * other.x;
        let quarters = self.quarters + other.quarters;
        if x > 0 {
            Angle { quarters, x, y }
        } else {
            Angle { quarters: quarters + 1, x: y, y: -x }
        }
    }

    /// The sum of `n` copies of the angle.
    #[verifier::opaque]
    pub open spec fn times(self, n: nat) -> Angle
        decreases n,
    {
        if n == 0 {
            quarter_turns(0)
        } else {
            self.times((n - 1) as nat).plus(self)
        }
    }

    /// Whether this angle is at most `other`.
    pub open spec fn at_most(self, other: Angle) -> bool {
        ||| self.quarters < other.quarters
        ||| self.quarters == other.quarters && self.y * other.x <= other.y * self.x
    }
}

/// The angle of `n` quarter turns.
pub open spec fn quarter_turns(n: int) -> Angle {
    Angle { quarters: n, x: 1, y: 0 }
}

/// The angle below one quarter turn between the rays through `(1, 0)` and
/// `(x, y)`.
pub open spec fn ray(x: int, y: int) -> Angle {
    Angle { quarters: 0, x, y }
}

/// Products of sums and differences of two.
proof fn lemma_foil(a: int, b: int, c: int, d: int)
    ensures
        (a + b) * (c + d) == a * c + a * d + b * c + b * d,
        (a + b) * (c - d) == a * c - a * d + b * c - b * d,
        (a - b) * (c - d) == a * c - a * d - b * c + b * d,
        (a - b) * (c + d) == a * c + a * d - b * c - b * d,
{
    assert((a + b) * (c + d) == a * c + a * d + b * c + b * d) by (nonlinear_arith);
    assert((a + b) * (c - d) == a * c - a * d + b * c - b * d) by (nonlinear_arith);
    assert((a - b) * (c - d) == a * c - a * d - b * c + b * d) by (nonlinear_arith);
    assert((a - b) * (c + d) == a * c + a * d - b * c - b * d) by (nonlinear_arith);
}

/// The factors of two products, paired the other way.
proof fn lemma_pair_up(a: int, b: int, c: int, d: int)
    ensures
        (a * b) * (c * d) == (a * c) * (b * d),
        (a * b) * (c * d) == (c * a) * (b * d),
{
    assert((a * b) * (c * d) == (a * c) * (b * d)) by (nonlinear_arith);
    assert((a * b) * (c * d) == (c * a) * (b * d)) by (nonlinear_arith);
}

/// The order on angles is transitive.
pub proof fn lemma_at_most_trans(a: Angle, b: Angle, c: Angle)
    requires
        a.wf(),
        b.wf(),
        c.wf(),
        a.at_most(b),
        b.at_most(c),
    ensures
        a.at_most(c),
{
    if a.quarters == c.quarters {
        let (ax, ay, bx, by, cx, cy) = (a.x, a.y, b.x, b.y, c.x, c.y);
        assert(ay * cx <= cy * ax) by (nonlinear_arith)
            requires
                bx > 0,
                ax > 0,
                cx > 0,
                ay * bx <= by * ax,
                by * cx <= cy * bx,
        {
            assert((ay * bx) * cx <= (by * ax) * cx);
            assert((by * cx) * ax <= (cy * bx) * ax);
            assert((ay * cx) * bx <= (cy * ax) * bx);
        }
    }
}

/// A sum of angles is an angle.
pub proof fn lemma_plus_wf(a: Angle, b: Angle)
    requires
        a.wf(),
        b.wf(),
    ensures
        a.plus(b).wf(),
        a.quarters + b.quarters <= a.plus(b).quarters <= a.quarters + b.quarters + 1,
{
    let (ax, ay, bx, by) = (a.x, a.y, b.x, b.y);
    assert(ax * by + ay * bx >= 0) by (nonlinear_arith)
        requires
            ax > 0,
            ay >= 0,
            bx > 0,
            by >= 0,
    ;
    if ax * bx - ay * by <= 0 {
        assert(ax * by + ay * bx > 0) by (nonlinear_arith)
            requires
                ax > 0,
                ay >= 0,
                bx > 0,
                by >= 0,
                ax * bx - ay * by <= 0,
        {
            assert(ax * bx > 0);
            assert(ay * by > 0);
            assert(by > 0);
            assert(ax * by > 0);
        }
    }
}

/// Angles add up the same in either order.
pub proof fn lemma_plus_commutes(a: Angle, b: Angle)
    ensures
        a.plus(b) == b.plus(a),
{
    assert(a.x * b.x == b.x * a.x) by (nonlinear_arith);
    assert(a.y * b.y == b.y * a.y) by (nonlinear_arith);
    assert(a.x * b.y == b.y * a.x) by (nonlinear_arith);
    assert(a.y * b.x == b.x * a.y) by (nonlinear_arith);
}

/// Adding the same angle keeps the order.
pub proof fn lemma_plus_monotone(a: Angle, b: Angle, c: Angle)
    requires
        a.wf(),
        b.wf(),
        c.wf(),
        a.at_most(b),
    ensures
        a.plus(c).at_most(b.plus(c)),
        c.plus(a).at_most(c.plus(b)),
{
    lemma_plus_commutes(a, c);
    lemma_plus_commutes(b, c);
    lemma_plus_wf(a, c);
    lemma_plus_wf(b, c);
    let (ax, ay, bx, by, cx, cy) = (a.x, a.y, b.x, b.y, c.x, c.y);
    let (px, py) = (ax * cx - ay * cy, ax * cy + ay * cx);
    let (qx, qy) = (bx * cx - by * cy, bx * cy + by * cx);
    if a.quarters == b.quarters {
        if px <= 0 {
            assert(qx <= 0) by (nonlinear_arith)
                requires
                    ax > 0,
                    bx > 0,
                    cy >= 0,
                    ax * cx - ay * cy <= 0,
                    ay * bx <= by * ax,
                    qx == bx * cx - by * cy,
            {
                assert((ax * cx) * bx <= (ay * cy) * bx);
                assert((ay * bx) * cy <= (by * ax) * cy);
                assert((bx * cx) * ax <= (by * cy) * ax);
            }
        }
        lemma_foil(bx * cy, by * cx, ax * cx, ay * cy);
        lemma_foil(ax * cy, ay * cx, bx * cx, by * cy);
        lemma_pair_up(bx, cy, ax, cx);
        lemma_pair_up(ax, cy, bx, cx);
        lemma_pair_up(bx, cy, ay, cy);
        lemma_pair_up(ax, cy, by, cy);
        lemma_pair_up(by, cx, ax, cx);
        lemma_pair_up(ay, cx, bx, cx);
        lemma_pair_up(by, cx, ay, cy);
        lemma_pair_up(ay, cx, by, cy);
        lemma_foil(by * ax, ay * bx, cx * cx, cy * cy);
        assert(qy * px - py * qx == (by * ax - ay * bx) * (cx * cx + cy * cy)) by {
            assert(cx * cy == cy * cx) by (nonlinear_arith);
            assert(ax * by == by * ax) by (nonlinear_arith);
            assert(ax * bx == bx * ax) by (nonlinear_arith);
            assert(ay * by == by * ay) by (nonlinear_arith);
            assert(ay * bx == bx * ay) by (nonlinear_arith);
        }
        assert((by * ax - ay * bx) * (cx * cx + cy * cy) >= 0) by (nonlinear_arith)
            requires
                ay * bx <= by * ax,
        ;
        assert(py * qx <= qy * px);
        assert((-px) * qy <= (-qx) * py) by (nonlinear_arith)
            requires
                py * qx <= qy * px,
        ;
    } else if a.plus(c).quarters == b.plus(c).quarters {
        // The rest of `a` and `c` passes a quarter turn, that of `b` and `c`
        // does not: the first sum is below `c`, the second is not.
        lemma_foil(bx * cy, by * cx, ax * cy, ay * cx);
        lemma_foil(ax * cx, ay * cy, bx * cx, by * cy);
        lemma_pair_up(bx, cy, ax, cy);
        lemma_pair_up(bx, cy, ay, cx);
        lemma_pair_up(by, cx, ax, cy);
        lemma_pair_up(by, cx, ay, cx);
        lemma_pair_up(ax, cx, bx, cx);
        lemma_pair_up(ax, cx, by, cy);
        lemma_pair_up(ay, cy, bx, cx);
        lemma_pair_up(ay, cy, by, cy);
        lemma_foil(ax * bx, ay * by, cx * cx, cy * cy);
        assert(qy * py + px * qx == (ax * bx + ay * by) * (cx * cx + cy * cy)) by {
            assert(cx * cy == cy * cx) by (nonlinear_arith);
            assert(ax * by == by * ax) by (nonlinear_arith);
            assert(ax * bx == bx * ax) by (nonlinear_arith);
            assert(ay * by == by * ay) by (nonlinear_arith);
            assert(ay * bx == bx * ay) by (nonlinear_arith);
        }
        assert((ax * bx + ay * by) * (cx * cx + cy * cy) >= 0) by (nonlinear_arith)
            requires
                ax > 0,
                ay >= 0,
                bx > 0,
                by >= 0,
        ;
        assert((-px) * qx == -(px * qx)) by (nonlinear_arith);
    }
}

/// The sum of three angles does not depend on how they are grouped.
pub proof fn lemma_plus_associative(a: Angle, b: Angle, c: Angle)
    requires
        a.wf(),
        b.wf(),
        c.wf(),
    ensures
        a.plus(b).plus(c) == a.plus(b.plus(c)),
{
    lemma_plus_wf(a, b);
    lemma_plus_wf(b, c);
    lemma_plus_wf(a.plus(b), c);
    lemma_plus_wf(a, b.plus(c));
    let (ax, ay, bx, by, cx, cy) = (a.x, a.y, b.x, b.y, c.x, c.y);
    let (px, py) = (ax * bx - ay * by, ax * by + ay * bx);
    let (qx, qy) = (bx * cx - by * cy, bx * cy + by * cx);
    // The product of all three rests; each side is one of its quarter turns,
    // and only one of them lies in the first quadrant.
    let (tx, ty) = (px * cx - py * cy, px * cy + py * cx);
    assert(ax * qx == (ax * bx) * cx - (ax * by) * cy) by (nonlinear_arith)
        requires
            qx == bx * cx - by * cy,
    ;
    assert(ay * qy == (ay * bx) * cy + (ay * by) * cx) by (nonlinear_arith)
        requires
            qy == bx * cy + by * cx,
    ;
    assert(ax * qy == (ax * bx) * cy + (ax * by) * cx) by (nonlinear_arith)
        requires
            qy == bx * cy + by * cx,
    ;
    assert(ay * qx == (ay * bx) * cx - (ay * by) * cy) by (nonlinear_arith)
        requires
            qx == bx * cx - by * cy,
    ;
    let (m, n, u, v) = (ax * bx, ay * by, ax * by, ay * bx);
    assert((m - n) * cx == m * cx - n * cx && (u + v) * cy == u * cy + v * cy) by (nonlinear_arith);
    assert((m - n) * cy == m * cy - n * cy && (u + v) * cx == u * cx + v * cx) by (nonlinear_arith);
    assert(py * cx - (-px) * cy == ty && py * cy + (-px) * cx == -tx) by (nonlinear_arith)
        requires
            tx == px * cx - py * cy,
            ty == px * cy + py * cx,
    ;
    assert(ax * qy - ay * (-qx) == ax * qy + ay * qx && ax * (-qx) + ay * qy == -(ax * qx - ay
        * qy)) by (nonlinear_arith);
}

/// One copy of an angle is the angle.
pub proof fn lemma_times_one(a: Angle)
    requires
        a.wf(),
    ensures
        a.times(1) == a,
{
    reveal_with_fuel(Angle::times, 2);
    assert(1 * a.x - 0 * a.y == a.x && 1 * a.y + 0 * a.x == a.y);
}

/// A multiple of an angle is an angle; of a rest below one quarter turn, a
/// positive multiple stays below as many quarter turns.
pub proof fn lemma_times_wf(a: Angle, n: nat)
    requires
        a.wf(),
    ensures
        a.times(n).wf(),
        a.quarters == 0 ==> 0 <= a.times(n).quarters <= n,
        a.quarters == 0 && n > 0 ==> a.times(n).quarters < n,
    decreases n,
{
    reveal(Angle::times);
    if n > 0 {
        lemma_times_wf(a, (n - 1) as nat);
        lemma_plus_wf(a.times((n - 1) as nat), a);
        if n == 1 {
            assert(a.times(0) == quarter_turns(0));
            assert(1 * a.x - 0 * a.y == a.x);
        }
    }
}

/// Multiples keep the order.
pub proof fn lemma_times_monotone(a: Angle, b: Angle, n: nat)
    requires
        a.wf(),
        b.wf(),
        a.at_most(b),
    ensures
        a.times(n).at_most(b.times(n)),
    decreases n,
{
    reveal(Angle::times);
    if n > 0 {
        let m = (n - 1) as nat;
        lemma_times_monotone(a, b, m);
        lemma_times_wf(a, m);
        lemma_times_wf(b, m);
        lemma_plus_monotone(a.times(m), b.times(m), a);
        lemma_plus_monotone(a, b, b.times(m));
        lemma_plus_wf(a.times(m), a);
        lemma_plus_wf(b.times(m), a);
        lemma_plus_wf(b.times(m), b);
        lemma_at_most_trans(a.times(n), b.times(m).plus(a), b.times(n));
    }
}

/// `m + n` copies are `m` copies and `n` copies.
pub proof fn lemma_times_add(a: Angle, m: nat, n: nat)
    requires
        a.wf(),
    ensures
        a.times(m + n) == a.times(m).plus(a.times(n)),
    decreases n,
{
    reveal(Angle::times);
    lemma_times_wf(a, m);
    if n == 0 {
        let t = a.times(m);
        assert(t.x * 1 - t.y * 0 == t.x && t.x * 0 + t.y * 1 == t.y);
    } else {
        let k = (n - 1) as nat;
        lemma_times_add(a, m, k);
        lemma_times_wf(a, k);
        lemma_plus_associative(a.times(m), a.times(k), a);
        assert(((m + n) - 1) as nat == m + k);
    }
}

/// `n` times the `m`-fold angle is its `m * n`-fold.
pub proof fn lemma_times_times(a: Angle, m: nat, n: nat)
    requires
        a.wf(),
    ensures
        a.times(m).times(n) == a.times(m * n),
    decreases n,
{
    reveal(Angle::times);
    lemma_times_wf(a, m);
    if n == 0 {
        assert(m * n == 0);
    } else {
        let k = (n - 1) as nat;
        lemma_times_times(a, m, k);
        lemma_times_add(a, m * k, m);
        assert(m * k + m == m * n) by (nonlinear_arith)
            requires
                k == n - 1,
        ;
    }
}

/// Whole quarter turns multiply on their own.
pub proof fn lemma_times_shift(a: Angle, n: nat)
    requires
        a.wf(),
    ensures
        a.times(n) == (Angle {
            quarters: ray(a.x, a.y).times(n).quarters + n * a.quarters,
            ..ray(a.x, a.y).times(n)
        }),
    decreases n,
{
    reveal(Angle::times);
    if n > 0 {
        let m = (n - 1) as nat;
        lemma_times_shift(a, m);
        assert(m * a.quarters + a.quarters == n * a.quarters) by (nonlinear_arith)
            requires
                m == n - 1,
        ;
    } else {
        assert(0 * a.quarters == 0);
    }
}

/// Copies of a sum are the sum of the copies.
pub proof fn lemma_times_plus(a: Angle, b: Angle, n: nat)
    requires
        a.wf(),
        b.wf(),
    ensures
        a.plus(b).times(n) == a.times(n).plus(b.times(n)),
    decreases n,
{
    reveal(Angle::times);
    if n > 0 {
        let m = (n - 1) as nat;
        let (am, bm) = (a.times(m), b.times(m));
        lemma_times_plus(a, b, m);
        lemma_plus_wf(a, b);
        lemma_times_wf(a, m);
        lemma_times_wf(b, m);
        lemma_plus_wf(am, a);
        lemma_plus_wf(am, bm);
        // (am + bm) + (a + b) = am + (bm + (a + b)) = am + ((a + b) + bm)
        lemma_plus_associative(am, bm, a.plus(b));
        lemma_plus_commutes(bm, a.plus(b));
        // am + ((a + b) + bm) = am + (a + (b + bm)) = (am + a) + (bm + b)
        lemma_plus_associative(a, b, bm);
        lemma_plus_commutes(b, bm);
        lemma_plus_wf(bm, b);
        lemma_plus_associative(am, a, bm.plus(b));
    } else {
        let none = quarter_turns(0);
        assert(none.plus(none) == none);
        assert(a.times(n) == none && b.times(n) == none && a.plus(b).times(n) == none);
    }
}

} // verus!
