use vstd::prelude::*;

verus! {

/// A point of the world, in whole world units.
#[derive(Clone, Copy, Debug, PartialEq, Eq, Structural)]
pub struct Position {
    pub x: i32,
    pub y: i32,
}

impl Position {
    pub fn new(x: i32, y: i32) -> (r: Position)
        ensures
            r.x == x,
            r.y == y,
    {
        Position { x, y }
    }
}

/// Squared Euclidean distance between two points.
pub open spec fn dist_sq(a: Position, b: Position) -> int {
    (b.x - a.x) * (b.x - a.x) + (b.y - a.y) * (b.y - a.y)
}

/// `r` is the integer square root of `n`.
pub open spec fn is_isqrt(n: int, r: int) -> bool {
    0 <= r && r * r <= n && n < (r + 1) * (r + 1)
}

/// The integer square root (the floor of the real one).
pub open spec fn isqrt(n: int) -> int {
    choose|r: int| is_isqrt(n, r)
}

/// Quotient of `a` by `b > 0`, rounded toward zero.
pub open spec fn div_toward_zero(a: int, b: int) -> int {
    if a >= 0 {
        a / b
    } else {
        -((-a) / b)
    }
}

/// The offset from `from` to `to`, rescaled to length `m` (each component
/// rounded toward zero); the lengths are integer square roots.
pub open spec fn scaled_toward(from: Position, to: Position, m: int) -> (int, int) {
    let len = isqrt(dist_sq(from, to));
    (div_toward_zero((to.x - from.x) * m, len), div_toward_zero((to.y - from.y) * m, len))
}

pub proof fn lemma_isqrt_unique(n: int, a: int, b: int)
    requires
        is_isqrt(n, a),
        is_isqrt(n, b),
    ensures
        a == b,
{
    if a < b {
        assert((a + 1) * (a + 1) <= b * b) by (nonlinear_arith)
            requires
                0 <= a,
                a + 1 <= b,
        ;
    } else if b < a {
        assert((b + 1) * (b + 1) <= a * a) by (nonlinear_arith)
            requires
                0 <= b,
                b + 1 <= a,
        ;
    }
}

/// The integer square root, found by bisection.
pub fn isqrt_u128(n: u128) -> (r: u64)
    ensures
        is_isqrt(n as int, r as int),
        r as int == isqrt(n as int),
{
    // invariant: lo * lo <= n < hi * hi
    let mut lo: u128 = 0;
    let mut hi: u128 = 0x1_0000_0000_0000_0000;
    assert(n < hi * hi) by (nonlinear_arith)
        requires
            hi == 0x1_0000_0000_0000_0000u128,
            n <= u128::MAX,
    ;
    while hi - lo > 1
        invariant
            lo < hi <= 0x1_0000_0000_0000_0000,
            lo * lo <= n,
            n < hi * hi,
        decreases hi - lo,
    {
        let mid: u128 = lo + (hi - lo) / 2;
        assert(mid * mid <= 0xffff_ffff_ffff_ffff * 0xffff_ffff_ffff_ffff) by (nonlinear_arith)
            requires
                0 <= mid <= 0xffff_ffff_ffff_ffff,
        ;
        if mid * mid <= n {
            lo = mid;
        } else {
            hi = mid;
        }
    }
    assert(hi == lo + 1);
    assert(is_isqrt(n as int, lo as int));
    proof {
        lemma_isqrt_unique(n as int, lo as int, isqrt(n as int));
    }
    lo as u64
}

/// Squared distance between two points.
pub fn distance_squared(a: Position, b: Position) -> (r: u128)
    ensures
        r == dist_sq(a, b),
{
    let dx: i64 = b.x as i64 - a.x as i64;
    let dy: i64 = b.y as i64 - a.y as i64;
    let ax: u128 = if dx < 0 { (-dx) as u128 } else { dx as u128 };
    let ay: u128 = if dy < 0 { (-dy) as u128 } else { dy as u128 };
    assert(ax * ax <= 0x1_0000_0000 * 0x1_0000_0000) by (nonlinear_arith)
        requires
            ax <= 0x1_0000_0000,
    ;
    assert(ay * ay <= 0x1_0000_0000 * 0x1_0000_0000) by (nonlinear_arith)
        requires
            ay <= 0x1_0000_0000,
    ;
    assert(ax * ax == dx * dx) by (nonlinear_arith)
        requires
            ax == dx || ax == -dx,
    ;
    assert(ay * ay == dy * dy) by (nonlinear_arith)
        requires
            ay == dy || ay == -dy,
    ;
    ax * ax + ay * ay
}

/// Whether `a` and `b` are at most `limit` apart.
pub fn within_distance(a: Position, b: Position, limit: u64) -> (r: bool)
    ensures
        r == (dist_sq(a, b) <= limit * limit),
{
    let l: u128 = limit as u128;
    assert(l * l <= 0xffff_ffff_ffff_ffff * 0xffff_ffff_ffff_ffff) by (nonlinear_arith)
        requires
            l <= 0xffff_ffff_ffff_ffff,
    ;
    distance_squared(a, b) <= l * l
}

/// The offset from `from` to `to` rescaled to length `m`; `from` and `to`
/// must differ.
pub fn scale_toward(from: Position, to: Position, m: u32) -> (r: (i64, i64))
    requires
        from != to,
    ensures
        r.0 == scaled_toward(from, to, m as int).0,
        r.1 == scaled_toward(from, to, m as int).1,
        -m <= r.0 <= m,
        -m <= r.1 <= m,
{
    let d2 = distance_squared(from, to);
    let len = isqrt_u128(d2);
    let dx: i64 = to.x as i64 - from.x as i64;
    let dy: i64 = to.y as i64 - from.y as i64;
    let ax: u64 = if dx < 0 { (-dx) as u64 } else { dx as u64 };
    let ay: u64 = if dy < 0 { (-dy) as u64 } else { dy as u64 };
    proof {
        lemma_component_below_length(dx as int, dy as int, len as int);
        lemma_component_below_length(dy as int, dx as int, len as int);
        lemma_scaled_component(ax as int, len as int, m as int);
        lemma_scaled_component(ay as int, len as int, m as int);
    }
    assert(ax * m <= 0x1_0000_0000 * 0xffff_ffff) by (nonlinear_arith)
        requires
            ax <= 0x1_0000_0000,
            m <= 0xffff_ffff,
    ;
    assert(ay * m <= 0x1_0000_0000 * 0xffff_ffff) by (nonlinear_arith)
        requires
            ay <= 0x1_0000_0000,
            m <= 0xffff_ffff,
    ;
    let qx: u64 = ((ax as u128 * m as u128) / len as u128) as u64;
    let qy: u64 = ((ay as u128 * m as u128) / len as u128) as u64;
    let sx: i64 = if dx < 0 { -(qx as i64) } else { qx as i64 };
    let sy: i64 = if dy < 0 { -(qy as i64) } else { qy as i64 };
    assert((-dx) * (m as int) == -(dx * (m as int))) by (nonlinear_arith);
    assert((-dy) * (m as int) == -(dy * (m as int))) by (nonlinear_arith);
    (sx, sy)
}

proof fn lemma_component_below_length(a: int, b: int, len: int)
    requires
        is_isqrt(a * a + b * b, len),
        a != 0 || b != 0,
    ensures
        -len <= a <= len,
        len > 0,
{
    if len == 0 {
        assert((len + 1) * (len + 1) == 1) by (nonlinear_arith)
            requires
                len == 0,
        ;
        assert(a * a + b * b < 1);
        assert(a * a >= 0) by (nonlinear_arith);
        assert(b * b >= 0) by (nonlinear_arith);
        assert(a != 0 ==> a * a >= 1) by (nonlinear_arith);
        assert(b != 0 ==> b * b >= 1) by (nonlinear_arith);
    }
    assert(b * b >= 0) by (nonlinear_arith);
    if a > len || a < -len {
        assert(a * a >= (len + 1) * (len + 1)) by (nonlinear_arith)
            requires
                len >= 0,
                a > len || a < -len,
        ;
    }
}

proof fn lemma_scaled_component(a: int, len: int, m: int)
    requires
        0 <= a <= len,
        len > 0,
        0 <= m,
    ensures
        0 <= (a * m) / len <= m,
{
    assert(a * m <= len * m) by (nonlinear_arith)
        requires
            0 <= a <= len,
            0 <= m,
    ;
    assert(0 <= a * m) by (nonlinear_arith)
        requires
            0 <= a,
            0 <= m,
    ;
    assert((a * m) / len <= (len * m) / len) by (nonlinear_arith)
        requires
            a * m <= len * m,
            len > 0,
    ;
    assert((len * m) / len == m) by (nonlinear_arith)
        requires
            len > 0,
    ;
    assert(0 <= (a * m) / len) by (nonlinear_arith)
        requires
            0 <= a * m,
            len > 0,
    ;
}

} // verus!
