use vstd::prelude::*;

verus! {

/// One world unit, in the micro-units that positions are stored in.
pub const MICRO: i64 = 1_000_000;

/// A unit heading has this length, in milli-units.
pub const MILLI: i64 = 1000;

/// Positions stay within this distance of the origin on each axis.
pub const COORD_LIMIT: i64 = 1_099_511_627_776;

/// A point or a displacement in the plane.
#[derive(Clone, Copy, Debug, PartialEq, Eq, Structural)]
pub struct Vec2 {
    pub x: i64,
    pub y: i64,
}

/// Integer square root: the largest `r` with `r * r <= n`.
pub open spec fn is_isqrt(n: int, r: int) -> bool {
    0 <= r && r * r <= n && n < (r + 1) * (r + 1)
}

pub open spec fn dist_sq_spec(a: Vec2, b: Vec2) -> int {
    (a.x - b.x) * (a.x - b.x) + (a.y - b.y) * (a.y - b.y)
}

pub open spec fn in_bounds(p: Vec2) -> bool {
    -COORD_LIMIT <= p.x <= COORD_LIMIT && -COORD_LIMIT <= p.y <= COORD_LIMIT
}

/// Division that truncates toward zero, as Rust's integer division does.
pub open spec fn div_trunc(a: int, b: int) -> int {
    if a >= 0 {
        a / b
    } else {
        -((-a) / b)
    }
}

/// The largest `r` with `r * r <= n`.
pub fn isqrt(n: u128) -> (r: u64)
    ensures
        is_isqrt(n as int, r as int),
{
    let mut lo: u128 = 0;
    let mut hi: u128 = 0x1_0000_0000_0000_0000;
    assert(n < hi * hi) by (nonlinear_arith)
        requires
            n <= u128::MAX,
            hi == 0x1_0000_0000_0000_0000u128,
    ;
    while hi - lo > 1
        invariant
            lo < hi <= 0x1_0000_0000_0000_0000u128,
            lo * lo <= n,
            n < hi * hi,
        decreases hi - lo,
    {
        let mid: u128 = lo + (hi - lo) / 2;
        assert(mid * mid <= u128::MAX) by (nonlinear_arith)
            requires
                mid < 0x1_0000_0000_0000_0000u128,
        ;
        if mid * mid <= n {
            lo = mid;
        } else {
            hi = mid;
        }
    }
    assert(hi == lo + 1);
    lo as u64
}

/// The squared distance between two points in bounds is at most 2^84.
pub proof fn lemma_dist_sq_bound(a: Vec2, b: Vec2)
    requires
        in_bounds(a),
        in_bounds(b),
    ensures
        0 <= dist_sq_spec(a, b) <= 0x10_0000_0000_0000_0000_0000,
{
    let dx = a.x - b.x;
    let dy = a.y - b.y;
    assert(0 <= dx * dx <= 0x4_0000_0000_0000_0000_0000) by (nonlinear_arith)
        requires -0x200_0000_0000 <= dx <= 0x200_0000_0000;
    assert(0 <= dy * dy <= 0x4_0000_0000_0000_0000_0000) by (nonlinear_arith)
        requires -0x200_0000_0000 <= dy <= 0x200_0000_0000;
    assert(dist_sq_spec(a, b) == dx * dx + dy * dy);
}

/// Squared distance between two points.
pub fn dist_sq(a: Vec2, b: Vec2) -> (r: u128)
    requires
        in_bounds(a),
        in_bounds(b),
    ensures
        r as int == dist_sq_spec(a, b),
{
    let dx: i128 = a.x as i128 - b.x as i128;
    let dy: i128 = a.y as i128 - b.y as i128;
    assert(dx * dx <= 0x4_0000_0000_0000_0000_0000 && dy * dy <= 0x4_0000_0000_0000_0000_0000)
        by (nonlinear_arith)
        requires
            -0x200_0000_0000 <= dx <= 0x200_0000_0000,
            -0x200_0000_0000 <= dy <= 0x200_0000_0000,
    ;
    assert(dx * dx >= 0 && dy * dy >= 0) by (nonlinear_arith);
    ((dx * dx) + (dy * dy)) as u128
}

/// Distance between two points, rounded down.
pub fn dist(a: Vec2, b: Vec2) -> (r: u64)
    requires
        in_bounds(a),
        in_bounds(b),
    ensures
        is_isqrt(dist_sq_spec(a, b), r as int),
{
    isqrt(dist_sq(a, b))
}

/// A number has one integer square root.
pub proof fn lemma_isqrt_unique(n: int, a: int, b: int)
    requires
        is_isqrt(n, a),
        is_isqrt(n, b),
    ensures
        a == b,
{
    if a < b {
        assert((a + 1) * (a + 1) <= b * b) by (nonlinear_arith)
            requires 0 <= a, a + 1 <= b;
    }
    if b < a {
        assert((b + 1) * (b + 1) <= a * a) by (nonlinear_arith)
            requires 0 <= b, b + 1 <= a;
    }
}

/// Each coordinate of a vector is shorter than a bound on its length.
proof fn lemma_square_below(a: int, b: int, m: int)
    requires
        m > 0,
        a * a + b * b < m * m,
    ensures
        -m < a < m,
        -m < b < m,
{
    assert(a * a >= 0 && b * b >= 0) by (nonlinear_arith);
    if a >= m {
        assert(a * a >= m * m) by (nonlinear_arith) requires a >= m, m > 0;
    }
    if a <= -m {
        assert(a * a >= m * m) by (nonlinear_arith) requires a <= -m, m > 0;
    }
    if b >= m {
        assert(b * b >= m * m) by (nonlinear_arith) requires b >= m, m > 0;
    }
    if b <= -m {
        assert(b * b >= m * m) by (nonlinear_arith) requires b <= -m, m > 0;
    }
}

/// `a * MILLI / n`, truncated toward zero.
fn scale_to_milli(a: i64, n: u64) -> (r: i64)
    requires
        n > 0,
        -n <= a <= n,
        -COORD_LIMIT <= a <= COORD_LIMIT,
    ensures
        r as int == div_trunc(a * MILLI, n as int),
        -MILLI <= r <= MILLI,
{
    if a >= 0 {
        let num: u64 = a as u64 * 1000;
        assert(num / n <= 1000) by (nonlinear_arith)
            requires num == a * 1000, 0 <= a <= n, n > 0;
        (num / n) as i64
    } else {
        let num: u64 = (-(a as i128)) as u64 * 1000;
        assert(num / n <= 1000) by (nonlinear_arith)
            requires num == -a * 1000, 0 <= -a <= n, n > 0;
        -((num / n) as i64)
    }
}

/// `v` divided by its length `n`, in milli-units, each component truncated.
pub open spec fn direction_spec(v: Vec2, n: int) -> Vec2 {
    Vec2 { x: div_trunc(v.x * MILLI, n) as i64, y: div_trunc(v.y * MILLI, n) as i64 }
}

/// The unit direction of `v` in milli-units, with the rounded-down length it
/// was divided by; `None` where that length is zero.
pub fn direction(v: Vec2) -> (r: Option<(Vec2, u64)>)
    requires
        in_bounds(v),
    ensures
        match r {
            Some((d, n)) => n > 0 && is_isqrt(v.x * v.x + v.y * v.y, n as int) && d
                == direction_spec(v, n as int) && -MILLI <= d.x <= MILLI && -MILLI <= d.y <= MILLI,
            None => v.x == 0 && v.y == 0,
        },
{
    let origin = Vec2 { x: 0, y: 0 };
    let n: u64 = dist(v, origin);
    assert(dist_sq_spec(v, origin) == v.x * v.x + v.y * v.y);
    proof {
        lemma_square_below(v.x as int, v.y as int, n + 1);
    }
    if n == 0 {
        None
    } else {
        let d = Vec2 { x: scale_to_milli(v.x, n), y: scale_to_milli(v.y, n) };
        Some((d, n))
    }
}

} // verus!
