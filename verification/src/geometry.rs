//! Fixed-point plane geometry: integer square roots, straight-line
//! distances, and the scaled division used to move along a direction.

use vstd::prelude::*;

use crate::world::WorldPosition;

verus! {

/// The integer square root: the greatest `r` with `r * r <= n`.
pub open spec fn spec_isqrt(n: int) -> int
    decreases n,
{
    if n <= 0 {
        0
    } else {
        let p = spec_isqrt(n - 1);
        if (p + 1) * (p + 1) <= n {
            p + 1
        } else {
            p
        }
    }
}

/// `spec_isqrt` is the floor of the square root.
pub proof fn lemma_isqrt_bounds(n: int)
    requires
        n >= 0,
    ensures
        spec_isqrt(n) >= 0,
        spec_isqrt(n) * spec_isqrt(n) <= n,
        n < (spec_isqrt(n) + 1) * (spec_isqrt(n) + 1),
    decreases n,
{
    if n == 0 {
        assert(spec_isqrt(0) == 0);
    } else {
        lemma_isqrt_bounds(n - 1);
        let p = spec_isqrt(n - 1);
        if (p + 1) * (p + 1) <= n {
            assert((p + 2) * (p + 2) > n) by (nonlinear_arith)
                requires
                    p >= 0,
                    n - 1 < (p + 1) * (p + 1),
            ;
        }
    }
}

/// Any `r` in floor-of-square-root position equals `spec_isqrt(n)`.
pub proof fn lemma_isqrt_unique(n: int, r: int)
    requires
        n >= 0,
        r >= 0,
        r * r <= n,
        n < (r + 1) * (r + 1),
    ensures
        r == spec_isqrt(n),
{
    lemma_isqrt_bounds(n);
    let s = spec_isqrt(n);
    if r < s {
        assert(false) by (nonlinear_arith)
            requires
                0 <= r < s,
                s * s <= n,
                n < (r + 1) * (r + 1),
        ;
    }
    if s < r {
        assert(false) by (nonlinear_arith)
            requires
                0 <= s < r,
                r * r <= n,
                n < (s + 1) * (s + 1),
        ;
    }
}

/// The integer square root, by binary search.
pub fn isqrt(n: u64) -> (r: u64)
    ensures
        r == spec_isqrt(n as int),
        r * r <= n as int,
        (n as int) < (r + 1) * (r + 1),
        r <= 4_294_967_295,
{
    let mut lo: u64 = 0;
    let mut hi: u64 = 4_294_967_296;
    proof {
        assert((hi as int * hi as int) > n as int) by (nonlinear_arith)
            requires
                hi == 4_294_967_296,
                n <= 0xffff_ffff_ffff_ffff,
        ;
    }
    while lo + 1 < hi
        invariant
            lo < hi <= 4_294_967_296,
            lo as int * lo as int <= n as int,
            (n as int) < hi as int * hi as int,
        decreases hi - lo,
    {
        let mid: u64 = lo + (hi - lo) / 2;
        proof {
            assert(lo < mid < hi);
            assert((mid as int * mid as int) < 0xffff_ffff_ffff_ffff) by (nonlinear_arith)
                requires
                    mid < 4_294_967_296,
            ;
        }
        if mid * mid <= n {
            lo = mid;
        } else {
            hi = mid;
        }
    }
    proof {
        lemma_isqrt_unique(n as int, lo as int);
    }
    lo
}

/// Division that rounds toward zero, the behavior of machine division on a
/// signed numerator and positive denominator.
pub open spec fn div_toward_zero(x: int, d: int) -> int {
    if x >= 0 {
        x / d
    } else {
        -((-x) / d)
    }
}

/// `a * b / c`, rounded toward zero, without intermediate overflow.
pub fn mul_div_toward_zero(a: i64, b: u64, c: u64) -> (r: i64)
    requires
        c > 0,
        a > i64::MIN,
        -(i64::MAX as int) <= a as int * b as int <= i64::MAX as int,
    ensures
        r == div_toward_zero(a as int * b as int, c as int),
{
    if a >= 0 {
        proof {
            vstd::arithmetic::div_mod::lemma_div_is_ordered(
                a as int * b as int,
                i64::MAX as int,
                c as int,
            );
        }
        ((a as u64 * b) / c) as i64
    } else {
        proof {
            vstd::arithmetic::mul::lemma_mul_unary_negation(a as int, b as int);
            vstd::arithmetic::div_mod::lemma_div_is_ordered(
                (-(a as int)) * b as int,
                i64::MAX as int,
                c as int,
            );
        }
        -((((-a) as u64 * b) / c) as i64)
    }
}

/// The squared straight-line distance between two positions, in squared
/// milliunits.
pub open spec fn spec_dist2(a: WorldPosition, b: WorldPosition) -> int {
    (b.x - a.x) * (b.x - a.x) + (b.y - a.y) * (b.y - a.y)
}

/// The straight-line distance between two positions, in milliunits,
/// rounded down.
pub open spec fn spec_distance(a: WorldPosition, b: WorldPosition) -> int {
    spec_isqrt(spec_dist2(a, b))
}

/// Computes the straight-line distance between two in-bounds positions.
pub fn distance_milli(a: &WorldPosition, b: &WorldPosition) -> (r: u64)
    requires
        a.wf(),
        b.wf(),
    ensures
        r == spec_distance(*a, *b),
        r <= 4_294_967_295,
{
    let dx: i64 = b.x - a.x;
    let dy: i64 = b.y - a.y;
    let dx_abs: u64 = if dx >= 0 {
        dx as u64
    } else {
        (-dx) as u64
    };
    let dy_abs: u64 = if dy >= 0 {
        dy as u64
    } else {
        (-dy) as u64
    };
    proof {
        assert(dx_abs as int * dx_abs as int == (dx as int) * (dx as int)) by (nonlinear_arith)
            requires
                dx_abs as int == if dx >= 0 {
                    dx as int
                } else {
                    -(dx as int)
                },
        ;
        assert(dy_abs as int * dy_abs as int == (dy as int) * (dy as int)) by (nonlinear_arith)
            requires
                dy_abs as int == if dy >= 0 {
                    dy as int
                } else {
                    -(dy as int)
                },
        ;
        assert(dx_abs as int * dx_abs as int <= 4_000_000_000_000_000_000) by (nonlinear_arith)
            requires
                dx_abs <= 2_000_000_000,
        ;
        assert(dy_abs as int * dy_abs as int <= 4_000_000_000_000_000_000) by (nonlinear_arith)
            requires
                dy_abs <= 2_000_000_000,
        ;
    }
    let d2: u64 = dx_abs * dx_abs + dy_abs * dy_abs;
    isqrt(d2)
}

/// Where one movement step ends: no change on a degenerate (zero-length)
/// direction, the target itself when it is within reach, otherwise one step
/// of `step_len` along the straight line toward the target, each coordinate
/// scaled by the integer ratio `step_len / distance` and rounded toward
/// zero.
pub open spec fn spec_moved_position(
    pos: WorldPosition,
    target: WorldPosition,
    step_len: int,
) -> WorldPosition {
    let d2 = spec_dist2(pos, target);
    let dist = spec_isqrt(d2);
    if d2 == 0 {
        pos
    } else if dist <= step_len {
        target
    } else {
        WorldPosition {
            x: (pos.x + div_toward_zero((target.x - pos.x) * step_len, dist)) as i64,
            y: (pos.y + div_toward_zero((target.y - pos.y) * step_len, dist)) as i64,
        }
    }
}

/// Advances `pos` one step of length `step_len` milliunits toward `target`.
/// A degenerate zero-length direction is absorbed by skipping the update;
/// the step never overshoots: it ends on the segment between the two.
pub fn move_toward(pos: &WorldPosition, target: &WorldPosition, step_len: u64) -> (r:
    WorldPosition)
    requires
        pos.wf(),
        target.wf(),
    ensures
        r == spec_moved_position(*pos, *target, step_len as int),
        r.wf(),
{
    let dx: i64 = target.x - pos.x;
    let dy: i64 = target.y - pos.y;
    if dx == 0 && dy == 0 {
        proof {
            assert(spec_dist2(*pos, *target) == 0);
        }
        return *pos;
    }
    proof {
        assert(spec_dist2(*pos, *target) > 0) by (nonlinear_arith)
            requires
                spec_dist2(*pos, *target) == (target.x - pos.x) * (target.x - pos.x) + (target.y
                    - pos.y) * (target.y - pos.y),
                target.x - pos.x != 0 || target.y - pos.y != 0,
        ;
    }
    let dist: u64 = distance_milli(pos, target);
    if dist <= step_len {
        return *target;
    }
    proof {
        lemma_isqrt_bounds(spec_dist2(*pos, *target));
        assert(dist >= 1) by {
            if spec_isqrt(spec_dist2(*pos, *target)) == 0 {
                assert(spec_dist2(*pos, *target) < 1);
            }
        }
        assert(dx as int * step_len as int <= 2_000_000_000 * 4_294_967_295) by (nonlinear_arith)
            requires
                dx <= 2_000_000_000,
                0 <= step_len < 4_294_967_295,
        ;
        assert((-(dx as int)) * step_len as int <= 2_000_000_000 * 4_294_967_295)
            by (nonlinear_arith)
            requires
                -(dx as int) <= 2_000_000_000,
                0 <= step_len < 4_294_967_295,
        ;
        assert(dy as int * step_len as int <= 2_000_000_000 * 4_294_967_295) by (nonlinear_arith)
            requires
                dy <= 2_000_000_000,
                0 <= step_len < 4_294_967_295,
        ;
        assert((-(dy as int)) * step_len as int <= 2_000_000_000 * 4_294_967_295)
            by (nonlinear_arith)
            requires
                -(dy as int) <= 2_000_000_000,
                0 <= step_len < 4_294_967_295,
        ;
    }
    proof {
        vstd::arithmetic::mul::lemma_mul_unary_negation(dx as int, step_len as int);
        vstd::arithmetic::mul::lemma_mul_unary_negation(dy as int, step_len as int);
    }
    let ox: i64 = mul_div_toward_zero(dx, step_len, dist);
    let oy: i64 = mul_div_toward_zero(dy, step_len, dist);
    proof {
        lemma_offset_within(dx as int, step_len as int, dist as int);
        lemma_offset_within(dy as int, step_len as int, dist as int);
    }
    WorldPosition { x: pos.x + ox, y: pos.y + oy }
}

/// A movement step never overshoots: wherever one step ends, it is no
/// farther from the target than where it began.
pub proof fn lemma_move_never_overshoots(pos: WorldPosition, target: WorldPosition, step_len: int)
    requires
        pos.wf(),
        target.wf(),
        step_len >= 0,
    ensures
        spec_dist2(spec_moved_position(pos, target, step_len), target) <= spec_dist2(pos, target),
{
    let d2 = spec_dist2(pos, target);
    let dist = spec_isqrt(d2);
    let dx = target.x - pos.x;
    let dy = target.y - pos.y;
    assert(d2 >= 0) by (nonlinear_arith)
        requires
            d2 == dx * dx + dy * dy,
    ;
    if d2 == 0 {
    } else if dist <= step_len {
        assert(spec_dist2(target, target) == 0);
    } else {
        lemma_isqrt_bounds(d2);
        assert(dist >= 1) by {
            if dist == 0 {
                assert(d2 < 1);
            }
        }
        lemma_offset_within(dx, step_len, dist);
        lemma_offset_within(dy, step_len, dist);
        let ox = div_toward_zero(dx * step_len, dist);
        let oy = div_toward_zero(dy * step_len, dist);
        let moved = spec_moved_position(pos, target, step_len);
        assert(moved.x == pos.x + ox && moved.y == pos.y + oy);
        let ndx = target.x - moved.x;
        let ndy = target.y - moved.y;
        assert(ndx == dx - ox && ndy == dy - oy);
        assert(ndx * ndx <= dx * dx) by (nonlinear_arith)
            requires
                (dx >= 0 && 0 <= ox <= dx && ndx == dx - ox) || (dx < 0 && dx <= ox <= 0 && ndx
                    == dx - ox),
        ;
        assert(ndy * ndy <= dy * dy) by (nonlinear_arith)
            requires
                (dy >= 0 && 0 <= oy <= dy && ndy == dy - oy) || (dy < 0 && dy <= oy <= 0 && ndy
                    == dy - oy),
        ;
    }
}

/// One scaled movement offset never exceeds the remaining coordinate gap:
/// `|d * s / dist| <= |d|` whenever `s <= dist`.
proof fn lemma_offset_within(d: int, s: int, dist: int)
    requires
        0 <= s <= dist,
        0 < dist,
    ensures
        d >= 0 ==> 0 <= div_toward_zero(d * s, dist) <= d,
        d < 0 ==> d <= div_toward_zero(d * s, dist) <= 0,
{
    if d >= 0 {
        assert(0 <= d * s <= d * dist) by (nonlinear_arith)
            requires
                d >= 0,
                0 <= s <= dist,
        ;
        vstd::arithmetic::div_mod::lemma_div_is_ordered(0, d * s, dist);
        vstd::arithmetic::div_mod::lemma_div_is_ordered(d * s, d * dist, dist);
        vstd::arithmetic::div_mod::lemma_div_by_multiple(d, dist);
    } else {
        vstd::arithmetic::mul::lemma_mul_unary_negation(d, s);
        assert(0 <= (-d) * s <= (-d) * dist) by (nonlinear_arith)
            requires
                d < 0,
                0 <= s <= dist,
        ;
        vstd::arithmetic::div_mod::lemma_div_is_ordered(0, (-d) * s, dist);
        vstd::arithmetic::div_mod::lemma_div_is_ordered((-d) * s, (-d) * dist, dist);
        vstd::arithmetic::div_mod::lemma_div_by_multiple(-d, dist);
    }
}

} // verus!
