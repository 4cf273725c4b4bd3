//! Integer helpers behind the geometry: floor square roots and the scaling of a
//! vector component by a ratio of lengths.
//!
//! All geometry in this crate lives on an integer grid (one unit is a
//! millimetre), so a length is the floor of a square root and a point "at
//! distance `d` in some direction" is found by scaling the direction's
//! components by `d / |direction|`, rounding toward zero.

use vstd::prelude::*;

verus! {

/// `r` is the floor of the square root of `n`.
pub open spec fn is_floor_sqrt(n: int, r: int) -> bool {
    0 <= r && r * r <= n < (r + 1) * (r + 1)
}

/// The floor of the square root of `n`.
pub open spec fn floor_sqrt(n: nat) -> nat
    decreases n,
{
    if n == 0 {
        0
    } else {
        let r = floor_sqrt((n - 1) as nat);
        if (r + 1) * (r + 1) <= n {
            r + 1
        } else {
            r
        }
    }
}

/// `floor_sqrt(n)` squared is at most `n`, and the next integer squared exceeds `n`.
pub proof fn lemma_floor_sqrt(n: nat)
    ensures
        is_floor_sqrt(n as int, floor_sqrt(n) as int),
    decreases n,
{
    if n > 0 {
        lemma_floor_sqrt((n - 1) as nat);
        let r = floor_sqrt((n - 1) as nat) as int;
        assert((r + 2) * (r + 2) > (r + 1) * (r + 1)) by (nonlinear_arith)
            requires
                r >= 0,
        ;
    }
}

/// Only one integer is the floor square root of `n`.
pub proof fn lemma_floor_sqrt_unique(n: nat, r: int)
    requires
        is_floor_sqrt(n as int, r),
    ensures
        r == floor_sqrt(n),
{
    lemma_floor_sqrt(n);
    let s = floor_sqrt(n) as int;
    if r < s {
        assert((r + 1) * (r + 1) <= s * s) by (nonlinear_arith)
            requires
                0 <= r,
                r + 1 <= s,
        ;
    }
    if s < r {
        assert((s + 1) * (s + 1) <= r * r) by (nonlinear_arith)
            requires
                0 <= s,
                s + 1 <= r,
        ;
    }
}

/// The floor square root is monotone.
pub proof fn lemma_floor_sqrt_monotone(a: nat, b: nat)
    requires
        a <= b,
    ensures
        floor_sqrt(a) <= floor_sqrt(b),
{
    lemma_floor_sqrt(a);
    lemma_floor_sqrt(b);
    let r = floor_sqrt(a) as int;
    let s = floor_sqrt(b) as int;
    if s < r {
        assert((s + 1) * (s + 1) <= r * r) by (nonlinear_arith)
            requires
                0 <= s,
                s + 1 <= r,
        ;
    }
}

/// The floor square root of a perfect square is its root.
pub proof fn lemma_floor_sqrt_of_square(r: nat)
    ensures
        floor_sqrt(r * r) == r,
{
    assert(r * r < (r + 1) * (r + 1)) by (nonlinear_arith);
    assert(r * r >= 0) by (nonlinear_arith);
    lemma_floor_sqrt_unique(r * r, r as int);
}

/// Computes the floor of the square root of `n` by bisection.
pub fn isqrt(n: u64) -> (r: u64)
    ensures
        r == floor_sqrt(n as nat),
        r < 0x1_0000_0000,
{
    let mut lo: u64 = 0;
    let mut hi: u64 = 0x1_0000_0000;
    while hi - lo > 1
        invariant
            lo < hi <= 0x1_0000_0000,
            lo * lo <= n < hi * hi,
        decreases hi - lo,
    {
        let mid: u64 = lo + (hi - lo) / 2;
        assert(mid * mid <= 0xFFFF_FFFF * 0xFFFF_FFFF) by (nonlinear_arith)
            requires
                mid <= 0xFFFF_FFFF,
        ;
        if mid * mid <= n {
            lo = mid;
        } else {
            hi = mid;
        }
    }
    proof {
        lemma_floor_sqrt_unique(n as nat, lo as int);
    }
    lo
}

/// Division that rounds toward zero, for a positive divisor.
pub open spec fn trunc_div(a: int, b: int) -> int
    recommends
        b > 0,
{
    if a >= 0 {
        a / b
    } else {
        -((-a) / b)
    }
}

/// The component `comp` of a vector of length `len`, rescaled to a vector of
/// length `dist`: `dist * comp / len`, rounded toward zero. A vector of
/// length zero has no direction and scales to zero.
pub open spec fn scaled(dist: int, comp: int, len: int) -> int {
    if len > 0 {
        trunc_div(dist * comp, len)
    } else {
        0
    }
}

/// The largest magnitude of a distance that [`scale`] takes.
pub const SCALE_DISTANCE_LIMIT: i64 = 0xFFFF_FFFF;

/// The largest magnitude of a component that [`scale`] takes.
pub const SCALE_COMPONENT_LIMIT: i64 = 0x8000_0000;

/// Negating the distance or the component negates the scaled component.
pub proof fn lemma_scaled_neg(dist: int, comp: int, len: int)
    ensures
        scaled(-dist, comp, len) == -scaled(dist, comp, len),
        scaled(dist, -comp, len) == -scaled(dist, comp, len),
{
    assert((-dist) * comp == -(dist * comp)) by (nonlinear_arith);
    assert(dist * (-comp) == -(dist * comp)) by (nonlinear_arith);
}

/// A component no longer than the vector scales to at most the distance, and
/// keeps the sign of `dist * comp`.
pub proof fn lemma_scaled_bounds(dist: int, comp: int, len: int)
    requires
        dist >= 0,
        len > 0,
        -len <= comp <= len,
    ensures
        comp >= 0 ==> 0 <= scaled(dist, comp, len) <= dist,
        comp <= 0 ==> -dist <= scaled(dist, comp, len) <= 0,
        dist <= len ==> (comp >= 0 ==> scaled(dist, comp, len) <= comp),
        dist <= len ==> (comp <= 0 ==> scaled(dist, comp, len) >= comp),
{
    if comp >= 0 {
        lemma_quotient_bounds(dist, comp, len);
    } else {
        lemma_quotient_bounds(dist, -comp, len);
        assert(dist * (-comp) == -(dist * comp)) by (nonlinear_arith);
        assert(dist * comp <= 0) by (nonlinear_arith)
            requires
                dist >= 0,
                comp <= 0,
        ;
    }
}

/// For non-negative `a` and `0 <= c <= b`, the quotient `a * c / b` lies in
/// `[0, a]`, and in `[0, c]` when `a <= b`.
pub proof fn lemma_quotient_bounds(a: int, c: int, b: int)
    requires
        a >= 0,
        b > 0,
        0 <= c <= b,
    ensures
        0 <= (a * c) / b <= a,
        a <= b ==> (a * c) / b <= c,
{
    let p = a * c;
    let q = p / b;
    assert(0 <= p <= a * b) by (nonlinear_arith)
        requires
            p == a * c,
            a >= 0,
            0 <= c <= b,
    ;
    assert(0 <= q && q * b <= p && p < (q + 1) * b) by (nonlinear_arith)
        requires
            q == p / b,
            b > 0,
            p >= 0,
    ;
    assert(q <= a) by (nonlinear_arith)
        requires
            q * b <= p,
            p <= a * b,
            b > 0,
    ;
    if a <= b {
        assert(p <= c * b) by (nonlinear_arith)
            requires
                p == a * c,
                0 <= a <= b,
                c >= 0,
        ;
        assert(q <= c) by (nonlinear_arith)
            requires
                q * b <= p,
                p <= c * b,
                b > 0,
        ;
    }
}

/// Scaling a component by the vector's own length gives the component back.
pub proof fn lemma_scaled_full(comp: int, len: int)
    requires
        len > 0,
    ensures
        scaled(len, comp, len) == comp,
        scaled(0, comp, len) == 0,
{
    assert(0 * comp == 0) by (nonlinear_arith);
    if comp >= 0 {
        assert((len * comp) / len == comp && len * comp >= 0) by (nonlinear_arith)
            requires
                len > 0,
                comp >= 0,
        ;
    } else {
        assert((-(len * comp)) / len == -comp && len * comp < 0) by (nonlinear_arith)
            requires
                len > 0,
                comp < 0,
        ;
    }
}

/// For a non-negative component `a`, the floor quotient `q = h * a / m` loses
/// less than one: `a * q * m >= h * a * a - a * m`, and `q * m <= h * a`.
proof fn lemma_quotient_loss(h: int, a: int, m: int)
    requires
        h >= 0,
        a >= 0,
        m > 0,
    ensures
        a * ((h * a) / m) * m >= h * a * a - a * m,
        ((h * a) / m) * m <= h * a,
        (h * a) / m >= 0,
{
    let p = h * a;
    let q = p / m;
    assert(p >= 0) by (nonlinear_arith)
        requires
            p == h * a,
            h >= 0,
            a >= 0,
    ;
    assert(q >= 0 && q * m <= p && p < q * m + m) by (nonlinear_arith)
        requires
            q == p / m,
            m > 0,
            p >= 0,
    ;
    assert(a * q * m >= h * a * a - a * m) by (nonlinear_arith)
        requires
            p == h * a,
            p < q * m + m,
            a >= 0,
    ;
}

/// The larger of two numbers.
pub open spec fn larger(a: int, b: int) -> int {
    if a >= b {
        a
    } else {
        b
    }
}

/// The size of a component.
pub open spec fn magnitude(a: int) -> int {
    if a >= 0 {
        a
    } else {
        -a
    }
}

/// A scaled component has the sign of the component, for a non-negative
/// distance, and the size of the scaled size.
pub proof fn lemma_scaled_sign(dist: int, comp: int, len: int)
    requires
        dist >= 0,
        len > 0,
    ensures
        comp >= 0 ==> scaled(dist, comp, len) == (dist * comp) / len && scaled(dist, comp, len)
            >= 0,
        comp <= 0 ==> scaled(dist, comp, len) == -((dist * (-comp)) / len) && scaled(
            dist,
            comp,
            len,
        ) <= 0,
        comp * scaled(dist, comp, len) == magnitude(comp) * ((dist * magnitude(comp)) / len),
{
    let a = magnitude(comp);
    lemma_quotient_loss(dist, a, len);
    let q = (dist * a) / len;
    if comp >= 0 {
        assert(dist * comp >= 0) by (nonlinear_arith)
            requires
                dist >= 0,
                comp >= 0,
        ;
    } else {
        assert(dist * comp <= 0 && -(dist * comp) == dist * (-comp)) by (nonlinear_arith)
            requires
                dist >= 0,
                comp <= 0,
        ;
        if dist * comp == 0 {
            assert(dist * (-comp) == 0);
        }
        assert(scaled(dist, comp, len) == -q);
        assert(comp * (-q) == a * q) by (nonlinear_arith)
            requires
                a == -comp,
        ;
    }
}

/// A vector `(a, b)` of length at least `m` (with `m` at least the size of
/// each component), dotted with itself rescaled to the length `h`, gives at
/// least `(h - 2) * m`: the rounding of the two components costs at most `2 * m`.
pub proof fn lemma_scaled_dot(h: int, a: int, b: int, m: int)
    requires
        h >= 0,
        m > 0,
        m * m <= a * a + b * b,
        -m <= a <= m,
        -m <= b <= m,
    ensures
        a * scaled(h, a, m) + b * scaled(h, b, m) >= (h - 2) * m,
        a * scaled(h, a, m) >= 0,
        b * scaled(h, b, m) >= 0,
{
    let x = magnitude(a);
    let y = magnitude(b);
    lemma_scaled_sign(h, a, m);
    lemma_scaled_sign(h, b, m);
    lemma_quotient_loss(h, x, m);
    lemma_quotient_loss(h, y, m);
    let q = (h * x) / m;
    let r = (h * y) / m;
    assert(x * x == a * a && y * y == b * b) by (nonlinear_arith)
        requires
            x == a || x == -a,
            y == b || y == -b,
    ;
    assert(x * q >= 0 && y * r >= 0) by (nonlinear_arith)
        requires
            x >= 0,
            q >= 0,
            y >= 0,
            r >= 0,
    ;
    assert((x * q + y * r) * m >= (h - 2) * m * m) by (nonlinear_arith)
        requires
            x * q * m >= h * x * x - x * m,
            y * r * m >= h * y * y - y * m,
            m * m <= x * x + y * y,
            0 <= x <= m,
            0 <= y <= m,
            h >= 0,
            m > 0,
    ;
    assert(x * q + y * r >= (h - 2) * m) by (nonlinear_arith)
        requires
            (x * q + y * r) * m >= (h - 2) * m * m,
            m > 0,
    ;
}

/// A vector `(a, b)` crossed with itself rescaled to a length `r` gives at
/// most `m` in size: exactly it would give zero, and the rounding of the two
/// components costs at most `m`.
pub proof fn lemma_scaled_cross(r: int, a: int, b: int, m: int)
    requires
        0 <= r,
        m > 0,
        -m <= a <= m,
        -m <= b <= m,
    ensures
        -m <= a * scaled(r, b, m) - b * scaled(r, a, m) <= m,
        -larger(magnitude(a), magnitude(b)) <= a * scaled(r, b, m) - b * scaled(r, a, m) <= larger(
            magnitude(a),
            magnitude(b),
        ),
{
    let x = magnitude(a);
    let y = magnitude(b);
    lemma_scaled_sign(r, a, m);
    lemma_scaled_sign(r, b, m);
    let qa = (r * x) / m;
    let qb = (r * y) / m;
    lemma_quotient_loss(r, x, m);
    lemma_quotient_loss(r, y, m);
    assert(qa * m <= r * x && r * x < qa * m + m && qa >= 0) by (nonlinear_arith)
        requires
            qa == (r * x) / m,
            m > 0,
            r >= 0,
            x >= 0,
    ;
    assert(qb * m <= r * y && r * y < qb * m + m && qb >= 0) by (nonlinear_arith)
        requires
            qb == (r * y) / m,
            m > 0,
            r >= 0,
            y >= 0,
    ;
    assert((x * qb - y * qa) * m <= y * m) by (nonlinear_arith)
        requires
            qb * m <= r * y,
            r * x < qa * m + m,
            x >= 0,
            y >= 0,
    ;
    assert((y * qa - x * qb) * m <= x * m) by (nonlinear_arith)
        requires
            qa * m <= r * x,
            r * y < qb * m + m,
            x >= 0,
            y >= 0,
    ;
    assert(x * qb - y * qa <= y && y * qa - x * qb <= x) by (nonlinear_arith)
        requires
            (x * qb - y * qa) * m <= y * m,
            (y * qa - x * qb) * m <= x * m,
            m > 0,
    ;
    let sa = scaled(r, a, m);
    let sb = scaled(r, b, m);
    assert(a * sb - b * sa == x * qb - y * qa || a * sb - b * sa == y * qa - x * qb)
        by (nonlinear_arith)
        requires
            (a == x && sa == qa) || (a == -x && sa == -qa),
            (b == y && sb == qb) || (b == -y && sb == -qb),
    ;
}

/// A vector `(a, b)` of length at least `m` (with `m` at least the size of
/// each component), dotted with itself rescaled to a length `h` of two or
/// more, gives at least the size of its larger component, which is positive:
/// that component makes up more than half of the vector's length, so
/// rescaled to two or more it does not round to zero.
pub proof fn lemma_scaled_dot_least(h: int, a: int, b: int, m: int)
    requires
        h >= 2,
        m > 0,
        m * m <= a * a + b * b,
        -m <= a <= m,
        -m <= b <= m,
    ensures
        a * scaled(h, a, m) + b * scaled(h, b, m) >= larger(magnitude(a), magnitude(b)),
        larger(magnitude(a), magnitude(b)) >= 1,
{
    let x = magnitude(a);
    let y = magnitude(b);
    let big = larger(x, y);
    lemma_scaled_sign(h, a, m);
    lemma_scaled_sign(h, b, m);
    lemma_quotient_loss(h, x, m);
    lemma_quotient_loss(h, y, m);
    let q = (h * x) / m;
    let r = (h * y) / m;
    assert(x * x == a * a && y * y == b * b) by (nonlinear_arith)
        requires
            x == a || x == -a,
            y == b || y == -b,
    ;
    assert(2 * big >= m) by (nonlinear_arith)
        requires
            m * m <= x * x + y * y,
            0 <= x <= big,
            0 <= y <= big,
            m > 0,
    ;
    assert(x * q >= 0 && y * r >= 0) by (nonlinear_arith)
        requires
            x >= 0,
            q >= 0,
            y >= 0,
            r >= 0,
    ;
    if x >= y {
        assert(q >= 1) by (nonlinear_arith)
            requires
                q == (h * x) / m,
                h >= 2,
                2 * x >= m,
                m > 0,
        ;
        assert(x * q >= x) by (nonlinear_arith)
            requires
                q >= 1,
                x >= 0,
        ;
    } else {
        assert(r >= 1) by (nonlinear_arith)
            requires
                r == (h * y) / m,
                h >= 2,
                2 * y >= m,
                m > 0,
        ;
        assert(y * r >= y) by (nonlinear_arith)
            requires
                r >= 1,
                y >= 0,
        ;
    }
}

/// One component rescaled to two lengths, `r` no more than the vector's own
/// and `h` any: the product of the two is non-negative and no more than the
/// component times its rescaling to `h`.
pub proof fn lemma_scaled_product(r: int, h: int, a: int, m: int)
    requires
        0 <= r <= m,
        h >= 0,
        m > 0,
        -m <= a <= m,
    ensures
        0 <= scaled(r, a, m) * scaled(h, a, m) <= a * scaled(h, a, m),
{
    let x = magnitude(a);
    lemma_scaled_sign(r, a, m);
    lemma_scaled_sign(h, a, m);
    lemma_scaled_bounds(r, a, m);
    let qr = (r * x) / m;
    let qh = (h * x) / m;
    lemma_quotient_bounds(r, x, m);
    lemma_quotient_loss(h, x, m);
    let sr = scaled(r, a, m);
    let sh = scaled(h, a, m);
    assert(0 <= qr * qh <= x * qh) by (nonlinear_arith)
        requires
            0 <= qr <= x,
            qh >= 0,
    ;
    assert(sr * sh == qr * qh && a * sh == x * qh) by (nonlinear_arith)
        requires
            (a == x && sr == qr && sh == qh) || (a == -x && sr == -qr && sh == -qh),
    ;
}

/// A number that lies between `q * d` and `(q + 1) * d` has the quotient `q` by `d`.
pub proof fn lemma_div_bracket(n: int, d: int, q: int)
    requires
        d > 0,
        q * d <= n < (q + 1) * d,
    ensures
        n / d == q,
{
    assert((q + 1) * d == q * d + d) by (nonlinear_arith);
    vstd::arithmetic::div_mod::lemma_fundamental_div_mod_converse(n, d, q, n - q * d);
}

/// Computes [`scaled`]: `dist * comp / len`, rounded toward zero, or zero for
/// a vector of length zero.
pub fn scale(dist: i64, comp: i64, len: u64) -> (r: i64)
    requires
        -SCALE_DISTANCE_LIMIT <= dist <= SCALE_DISTANCE_LIMIT,
        -SCALE_COMPONENT_LIMIT <= comp <= SCALE_COMPONENT_LIMIT,
    ensures
        r == scaled(dist as int, comp as int, len as int),
{
    if len == 0 {
        return 0;
    }
    let d: i128 = dist as i128;
    let c: i128 = comp as i128;
    assert(-0x7FFF_FFFF_8000_0000 <= d * c <= 0x7FFF_FFFF_8000_0000) by (nonlinear_arith)
        requires
            -0xFFFF_FFFF <= d <= 0xFFFF_FFFF,
            -0x8000_0000 <= c <= 0x8000_0000,
    ;
    let p: i128 = d * c;
    let l: i128 = len as i128;
    let q: i128 = if p >= 0 {
        p / l
    } else {
        -((-p) / l)
    };
    assert(-0x7FFF_FFFF_8000_0000 <= q <= 0x7FFF_FFFF_8000_0000) by (nonlinear_arith)
        requires
            l >= 1,
            -0x7FFF_FFFF_8000_0000 <= p <= 0x7FFF_FFFF_8000_0000,
            q == trunc_div(p as int, l as int),
    ;
    q as i64
}

} // verus!
