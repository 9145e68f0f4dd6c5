//! Two-dimensional fixed-point vectors, 2x2 matrices and normalisation.

use vstd::prelude::*;
use vstd::arithmetic::div_mod::lemma_fundamental_div_mod;
use vstd::arithmetic::div_mod::lemma_div_is_ordered;
use crate::fixed::{abs, abs_i128, max, with_sign, trunc_div, isqrt, isqrt_u128, lemma_mul_bound, lemma_isqrt_is_floor, lemma_isqrt_bounds, ONE};

verus! {

/// A vector of two mathematical integers: the model of every vector here.
pub struct IntVec2 {
    pub x: int,
    pub y: int,
}

impl IntVec2 {
    /// The zero vector.
    pub open spec fn zero() -> IntVec2 {
        IntVec2 { x: 0, y: 0 }
    }

    /// Squared Euclidean length.
    pub open spec fn len2(self) -> int {
        self.x * self.x + self.y * self.y
    }

    /// Componentwise sum.
    pub open spec fn plus(self, o: IntVec2) -> IntVec2 {
        IntVec2 { x: self.x + o.x, y: self.y + o.y }
    }

    /// Componentwise difference.
    pub open spec fn minus(self, o: IntVec2) -> IntVec2 {
        IntVec2 { x: self.x - o.x, y: self.y - o.y }
    }

    /// Every component multiplied by `k`.
    pub open spec fn times(self, k: int) -> IntVec2 {
        IntVec2 { x: self.x * k, y: self.y * k }
    }

    /// Every component divided by `ONE`, rounding toward zero.
    pub open spec fn descaled(self) -> IntVec2 {
        IntVec2 { x: trunc_div(self.x, ONE as int), y: trunc_div(self.y, ONE as int) }
    }

    /// Unit length up to rounding: the length is within two 65536ths of 1.
    pub open spec fn is_unit(self) -> bool {
        (ONE - 2) * (ONE - 2) <= self.len2() <= (ONE + 2) * (ONE + 2)
    }
}

/// The largest magnitude that a vector is brought to before its length is
/// taken: 2^31.
pub const NORM_TOP: u64 = 0x8000_0000;

/// A magnitude `a <= m` brought to the scale at which `m` lies between 2^30
/// and 2^31: small vectors are multiplied up, large ones divided down.
pub open spec fn rescale(a: int, m: int) -> int {
    if m <= NORM_TOP {
        a * (NORM_TOP as int / m)
    } else {
        a / (m / (NORM_TOP as int) + 1)
    }
}

/// The vector of length `ONE` (up to rounding) that points the way of
/// `(x, y)`; the zero vector for the zero vector. Each component of the
/// rescaled vector is multiplied by `ONE` and divided by the floor of the
/// rescaled length, rounding toward zero.
pub open spec fn unit_of(x: int, y: int) -> IntVec2 {
    let m = max(abs(x), abs(y));
    if m == 0 {
        IntVec2::zero()
    } else {
        let sx = rescale(abs(x), m);
        let sy = rescale(abs(y), m);
        let len = isqrt(sx * sx + sy * sy);
        IntVec2 { x: with_sign(x, sx * ONE / len), y: with_sign(y, sy * ONE / len) }
    }
}

/// Rescaling keeps order and brings the largest magnitude into
/// `[2^30, 2^31]`.
pub proof fn lemma_rescale_bounds(a: int, m: int)
    requires
        0 <= a <= m,
        0 < m,
    ensures
        0 <= rescale(a, m) <= rescale(m, m),
        0x4000_0000 <= rescale(m, m) <= 0x8000_0000,
{
    let top = NORM_TOP as int;
    if m <= top {
        let k = top / m;
        lemma_fundamental_div_mod(top, m);
        assert(top == m * k + top % m);
        assert(k >= 1 && m * k <= top && m * k >= 0x4000_0000) by (nonlinear_arith)
            requires
                top == 0x8000_0000,
                0 < m <= top,
                0 <= top % m < m,
                top == m * k + top % m,
        ;
        assert(0 <= a * k <= m * k) by (nonlinear_arith)
            requires
                0 <= a <= m,
                k >= 1,
        ;
    } else {
        let q = m / top + 1;
        assert(q >= 2);
        assert(m < top * q);
        assert(m >= 0x4000_0000 * q);
        lemma_fundamental_div_mod(m, q);
        assert(0x4000_0000 <= m / q < 0x8000_0000) by (nonlinear_arith)
            requires
                q >= 2,
                m < 0x8000_0000 * q,
                m >= 0x4000_0000 * q,
                m == q * (m / q) + m % q,
                0 <= m % q < q,
        ;
        lemma_div_is_ordered(a, m, q);
        lemma_fundamental_div_mod(a, q);
        assert(0 <= a / q) by (nonlinear_arith)
            requires
                q >= 2,
                a >= 0,
                a == q * (a / q) + a % q,
                0 <= a % q < q,
        ;
    }
}

/// Dividing two rescaled magnitudes by the floor of their common length
/// gives a vector whose length is within two 65536ths of 1.
pub proof fn lemma_scaled_quotients_are_unit(sx: int, sy: int)
    requires
        0 <= sx,
        0 <= sy,
        0x4000_0000 <= max(sx, sy) <= 0x8000_0000,
    ensures
        ({
            let len = isqrt(sx * sx + sy * sy);
            let a = sx * ONE / len;
            let b = sy * ONE / len;
            &&& len >= 0x4000_0000
            &&& 0 <= a <= ONE
            &&& 0 <= b <= ONE
            &&& (IntVec2 { x: a, y: b }).is_unit()
        }),
{
    let one = ONE as int;
    let s = sx * sx + sy * sy;
    let len = isqrt(s);
    let m = max(sx, sy);
    assert(sx * sx >= 0 && sy * sy >= 0 && m * m <= s) by (nonlinear_arith)
        requires
            0 <= sx,
            0 <= sy,
            m == sx || m == sy,
            s == sx * sx + sy * sy,
    ;
    lemma_isqrt_is_floor(s);
    lemma_isqrt_bounds(s, m);
    lemma_isqrt_bounds(s, sx);
    lemma_isqrt_bounds(s, sy);
    assert(sx * sx <= s && sy * sy <= s);
    assert(sx <= len && sy <= len && len >= 0x4000_0000);
    let a = sx * one / len;
    let b = sy * one / len;
    lemma_fundamental_div_mod(sx * one, len);
    lemma_fundamental_div_mod(sy * one, len);
    let ra = (sx * one) % len;
    let rb = (sy * one) % len;
    assert(sx * one == len * a + ra && 0 <= ra < len);
    assert(sy * one == len * b + rb && 0 <= rb < len);
    assert(0 <= a <= one) by (nonlinear_arith)
        requires
            sx * one == len * a + ra,
            0 <= ra < len,
            0 <= sx <= len,
            one == 65536,
    ;
    assert(0 <= b <= one) by (nonlinear_arith)
        requires
            sy * one == len * b + rb,
            0 <= rb < len,
            0 <= sy <= len,
            one == 65536,
    ;
    // Upper bound: (a^2 + b^2) len^2 <= s one^2 < (len + 1)^2 one^2 <= (one + 1)^2 len^2.
    assert((a * a) * (len * len) <= (sx * sx) * (one * one)) by (nonlinear_arith)
        requires
            sx * one == len * a + ra,
            0 <= ra,
            0 <= a,
            0 < len,
            0 <= sx,
            one == 65536,
    ;
    assert((b * b) * (len * len) <= (sy * sy) * (one * one)) by (nonlinear_arith)
        requires
            sy * one == len * b + rb,
            0 <= rb,
            0 <= b,
            0 < len,
            0 <= sy,
            one == 65536,
    ;
    let n2 = a * a + b * b;
    assert(n2 * (len * len) <= s * (one * one)) by (nonlinear_arith)
        requires
            (a * a) * (len * len) <= (sx * sx) * (one * one),
            (b * b) * (len * len) <= (sy * sy) * (one * one),
            n2 == a * a + b * b,
            s == sx * sx + sy * sy,
    ;
    assert(s * (one * one) < ((one + 1) * (one + 1)) * (len * len)) by (nonlinear_arith)
        requires
            s < (len + 1) * (len + 1),
            len >= 0x4000_0000,
            one == 65536,
            s >= 0,
    ;
    assert(n2 < (one + 1) * (one + 1)) by (nonlinear_arith)
        requires
            n2 * (len * len) < ((one + 1) * (one + 1)) * (len * len),
            len > 0,
    ;
    // Lower bound: ((a + 1)^2 + (b + 1)^2) len^2 > s one^2 >= len^2 one^2.
    assert(((a + 1) * (a + 1)) * (len * len) > (sx * sx) * (one * one)) by (nonlinear_arith)
        requires
            sx * one == len * a + ra,
            0 <= ra < len,
            0 <= a,
            0 < len,
            0 <= sx,
            one == 65536,
    ;
    assert(((b + 1) * (b + 1)) * (len * len) > (sy * sy) * (one * one)) by (nonlinear_arith)
        requires
            sy * one == len * b + rb,
            0 <= rb < len,
            0 <= b,
            0 < len,
            0 <= sy,
            one == 65536,
    ;
    let u2 = (a + 1) * (a + 1) + (b + 1) * (b + 1);
    assert(u2 * (len * len) > (one * one) * (len * len)) by (nonlinear_arith)
        requires
            ((a + 1) * (a + 1)) * (len * len) > (sx * sx) * (one * one),
            ((b + 1) * (b + 1)) * (len * len) > (sy * sy) * (one * one),
            u2 == (a + 1) * (a + 1) + (b + 1) * (b + 1),
            s == sx * sx + sy * sy,
            len * len <= s,
            one == 65536,
    ;
    assert(u2 > one * one) by (nonlinear_arith)
        requires
            u2 * (len * len) > (one * one) * (len * len),
            len > 0,
    ;
    assert(u2 == n2 + 2 * (a + b) + 2) by (nonlinear_arith)
        requires
            u2 == (a + 1) * (a + 1) + (b + 1) * (b + 1),
            n2 == a * a + b * b,
    ;
    assert(n2 >= (one - 2) * (one - 2)) by (nonlinear_arith)
        requires
            n2 + 2 * (a + b) + 2 > one * one,
            0 <= a <= one,
            0 <= b <= one,
            n2 == a * a + b * b,
            n2 < (one + 1) * (one + 1),
            one == 65536,
    ;
}

/// A non-zero vector is normalised to a unit vector, the zero vector to the
/// zero vector; every component keeps its sign.
pub proof fn lemma_unit_of(x: int, y: int)
    ensures
        (x == 0 && y == 0) ==> unit_of(x, y) == IntVec2::zero(),
        (x != 0 || y != 0) ==> unit_of(x, y).is_unit(),
        -ONE <= unit_of(x, y).x <= ONE,
        -ONE <= unit_of(x, y).y <= ONE,
        x >= 0 ==> unit_of(x, y).x >= 0,
        x <= 0 ==> unit_of(x, y).x <= 0,
        y >= 0 ==> unit_of(x, y).y >= 0,
        y <= 0 ==> unit_of(x, y).y <= 0,
{
    let m = max(abs(x), abs(y));
    if m != 0 {
        lemma_rescale_bounds(abs(x), m);
        lemma_rescale_bounds(abs(y), m);
        let sx = rescale(abs(x), m);
        let sy = rescale(abs(y), m);
        assert(max(sx, sy) == rescale(m, m));
        lemma_scaled_quotients_are_unit(sx, sy);
        let len = isqrt(sx * sx + sy * sy);
        let a = sx * ONE / len;
        let b = sy * ONE / len;
        let u = unit_of(x, y);
        assert(u.x == with_sign(x, a) && u.y == with_sign(y, b));
        assert(u.x * u.x == a * a) by (nonlinear_arith)
            requires
                u.x == a || u.x == -a,
        ;
        assert(u.y * u.y == b * b) by (nonlinear_arith)
            requires
                u.y == b || u.y == -b,
        ;
        if x == 0 {
            assert(sx == 0) by (nonlinear_arith)
                requires
                    sx == rescale(0, m),
                    m > 0,
            ;
            assert(a == 0) by (nonlinear_arith)
                requires
                    a == 0 * ONE / len,
                    len > 0,
            ;
        }
        if y == 0 {
            assert(sy == 0) by (nonlinear_arith)
                requires
                    sy == rescale(0, m),
                    m > 0,
            ;
            assert(b == 0) by (nonlinear_arith)
                requires
                    b == 0 * ONE / len,
                    len > 0,
            ;
        }
    }
}

/// A vector of two fixed-point scalars.
#[derive(Clone, Copy, Debug, PartialEq, Eq, Structural)]
pub struct Vec2 {
    pub x: i64,
    pub y: i64,
}

impl View for Vec2 {
    type V = IntVec2;

    open spec fn view(&self) -> IntVec2 {
        IntVec2 { x: self.x as int, y: self.y as int }
    }
}

/// Normalising keeps the direction. The cross product of a vector and its
/// normalised image is below twice the vector's largest component in
/// magnitude, so the sine of the angle between the two is below 2^-14; and
/// the image points into the half plane of the vector.
pub proof fn lemma_unit_of_keeps_direction(x: int, y: int)
    ensures
        -2 * max(abs(x), abs(y)) <= unit_of(x, y).x * y - unit_of(x, y).y * x <= 2 * max(abs(x), abs(y)),
        unit_of(x, y).x * x >= 0,
        unit_of(x, y).y * y >= 0,
{
    let m = max(abs(x), abs(y));
    let n = unit_of(x, y);
    lemma_unit_of(x, y);
    assert(n.x * x >= 0 && n.y * y >= 0) by (nonlinear_arith)
        requires
            x >= 0 ==> n.x >= 0,
            x <= 0 ==> n.x <= 0,
            y >= 0 ==> n.y >= 0,
            y <= 0 ==> n.y <= 0,
    ;
    if m != 0 {
        let ax = abs(x);
        let ay = abs(y);
        lemma_rescale_bounds(ax, m);
        lemma_rescale_bounds(ay, m);
        let sx = rescale(ax, m);
        let sy = rescale(ay, m);
        let big = rescale(m, m);
        assert(max(sx, sy) == big);
        lemma_scaled_quotients_are_unit(sx, sy);
        let one = ONE as int;
        let len = isqrt(sx * sx + sy * sy);
        let a = sx * one / len;
        let b = sy * one / len;
        lemma_fundamental_div_mod(sx * one, len);
        lemma_fundamental_div_mod(sy * one, len);
        let ra = (sx * one) % len;
        let rb = (sy * one) % len;
        let c = a * sy - b * sx;
        // (a sy - b sx) len = rb sx - ra sy, and both remainders are below len.
        assert(-big < c < big) by (nonlinear_arith)
            requires
                c == a * sy - b * sx,
                sx * one == len * a + ra,
                sy * one == len * b + rb,
                0 <= ra < len,
                0 <= rb < len,
                0 <= sx <= big,
                0 <= sy <= big,
                len > 0,
                big > 0,
        ;
        let d = a * ay - b * ax;
        if m <= NORM_TOP {
            let k = NORM_TOP as int / m;
            assert(-m < d < m) by (nonlinear_arith)
                requires
                    d == a * ay - b * ax,
                    c == a * sy - b * sx,
                    sx == ax * k,
                    sy == ay * k,
                    big == m * k,
                    -big < c < big,
                    big > 0,
                    m > 0,
            ;
        } else {
            let q = m / (NORM_TOP as int) + 1;
            lemma_fundamental_div_mod(ax, q);
            lemma_fundamental_div_mod(ay, q);
            lemma_fundamental_div_mod(m, q);
            let rx = ax % q;
            let ry = ay % q;
            assert(q * big <= m);
            assert(-m < q * c < m) by (nonlinear_arith)
                requires
                    -big < c < big,
                    q * big <= m,
                    q >= 1,
            ;
            assert(-(one * q) <= a * ry - b * rx <= one * q) by (nonlinear_arith)
                requires
                    0 <= a <= one,
                    0 <= b <= one,
                    0 <= rx < q,
                    0 <= ry < q,
            ;
            assert(one * q <= m);
            assert(a * ay == q * (a * sy) + a * ry) by (nonlinear_arith)
                requires
                    ay == q * sy + ry,
            ;
            assert(b * ax == q * (b * sx) + b * rx) by (nonlinear_arith)
                requires
                    ax == q * sx + rx,
            ;
            assert(q * c == q * (a * sy) - q * (b * sx)) by (nonlinear_arith)
                requires
                    c == a * sy - b * sx,
            ;
            assert(d == q * c + (a * ry - b * rx));
        }
        assert(-2 * m <= d <= 2 * m);
        assert(n.x * y - n.y * x == d || n.x * y - n.y * x == -d) by (nonlinear_arith)
            requires
                d == a * ay - b * ax,
                n.x == a || n.x == -a,
                n.y == b || n.y == -b,
                x >= 0 ==> n.x == a && ax == x,
                x < 0 ==> n.x == -a && ax == -x,
                y >= 0 ==> n.y == b && ay == y,
                y < 0 ==> n.y == -b && ay == -y,
        ;
    }
}

/// A vector of two wide integers, for sums and products that are not yet
/// brought back to scale.
#[derive(Clone, Copy, Debug, PartialEq, Eq, Structural)]
pub struct Wide2 {
    pub x: i128,
    pub y: i128,
}

impl View for Wide2 {
    type V = IntVec2;

    open spec fn view(&self) -> IntVec2 {
        IntVec2 { x: self.x as int, y: self.y as int }
    }
}

impl Wide2 {
    /// Every component has magnitude at most `bound`.
    pub open spec fn within(self, bound: int) -> bool {
        -bound <= self.x <= bound && -bound <= self.y <= bound
    }

    /// The unit vector pointing this way, or zero for the zero vector.
    pub fn normalize_or_zero(&self) -> (n: Vec2)
        ensures
            n@ == unit_of(self.x as int, self.y as int),
            n.within(ONE as int),
            self.x == 0 && self.y == 0 ==> n.x == 0 && n.y == 0,
            self.x != 0 || self.y != 0 ==> n.is_unit(),
    {
        normalize_wide(self.x, self.y)
    }
}

/// The largest magnitude of a component that the matrix product accepts: 2^40.
pub const VEC_MAX: i64 = 0x100_0000_0000;

/// The largest magnitude of a matrix entry: 2^20, that is 16.
pub const MAT_MAX: i64 = 0x10_0000;

impl Vec2 {
    /// The vector with the given components.
    pub fn new(x: i64, y: i64) -> (v: Vec2)
        ensures
            v.x == x,
            v.y == y,
    {
        Vec2 { x, y }
    }

    /// The zero vector.
    pub fn zero() -> (v: Vec2)
        ensures
            v.x == 0,
            v.y == 0,
    {
        Vec2 { x: 0, y: 0 }
    }

    /// The unit vector along the y axis.
    pub fn unit_y() -> (v: Vec2)
        ensures
            v.x == 0,
            v.y == ONE,
            v.is_unit(),
    {
        assert((ONE - 2) * (ONE - 2) <= 0 * 0 + ONE * ONE <= (ONE + 2) * (ONE + 2)) by (nonlinear_arith);
        Vec2 { x: 0, y: ONE }
    }

    /// Unit length up to rounding.
    pub open spec fn is_unit(self) -> bool {
        self@.is_unit()
    }

    /// Every component has magnitude at most `bound`.
    pub open spec fn within(self, bound: int) -> bool {
        -bound <= self.x <= bound && -bound <= self.y <= bound
    }

    /// Whether the length is within two 65536ths of 1.
    pub fn has_unit_length(&self) -> (unit: bool)
        ensures
            unit == self.is_unit(),
    {
        let ax: u128 = abs_i128(self.x as i128);
        let ay: u128 = abs_i128(self.y as i128);
        proof {
            lemma_mul_bound(ax as int, ax as int, 0x8000_0000_0000_0000, 0x8000_0000_0000_0000);
            lemma_mul_bound(ay as int, ay as int, 0x8000_0000_0000_0000, 0x8000_0000_0000_0000);
            assert(ax * ax == self.x * self.x && ay * ay == self.y * self.y) by (nonlinear_arith)
                requires
                    ax == self.x || ax == -self.x,
                    ay == self.y || ay == -self.y,
            ;
        }
        let len2: u128 = ax * ax + ay * ay;
        let low: u128 = 65534 * 65534;
        let high: u128 = 65538 * 65538;
        low <= len2 && len2 <= high
    }

    /// Whether every component has magnitude at most `bound`.
    pub fn is_within(&self, bound: i64) -> (inside: bool)
        requires
            bound >= 0,
        ensures
            inside == self.within(bound as int),
    {
        -bound <= self.x && self.x <= bound && -bound <= self.y && self.y <= bound
    }

    /// Whether this is the zero vector.
    pub fn is_zero(&self) -> (z: bool)
        ensures
            z == (self.x == 0 && self.y == 0),
    {
        self.x == 0 && self.y == 0
    }

    /// The unit vector pointing this way, or zero for the zero vector.
    pub fn normalize_or_zero(&self) -> (n: Vec2)
        ensures
            n@ == unit_of(self.x as int, self.y as int),
            n.within(ONE as int),
            self.x == 0 && self.y == 0 ==> n.x == 0 && n.y == 0,
            self.x != 0 || self.y != 0 ==> n.is_unit(),
    {
        normalize_wide(self.x as i128, self.y as i128)
    }
}

/// A unit vector has components of magnitude at most `ONE + 2`.
pub proof fn lemma_unit_within(v: IntVec2)
    requires
        v.is_unit(),
    ensures
        -(ONE + 2) <= v.x <= ONE + 2,
        -(ONE + 2) <= v.y <= ONE + 2,
        v.x != 0 || v.y != 0,
{
    assert(-(ONE + 2) <= v.x <= ONE + 2 && -(ONE + 2) <= v.y <= ONE + 2 && (v.x != 0 || v.y != 0))
        by (nonlinear_arith)
        requires
            (ONE - 2) * (ONE - 2) <= v.x * v.x + v.y * v.y <= (ONE + 2) * (ONE + 2),
            ONE == 65536,
    ;
}

/// The unit vector pointing the way of `(x, y)`, or zero for the zero vector.
pub fn normalize_wide(x: i128, y: i128) -> (n: Vec2)
    ensures
        n@ == unit_of(x as int, y as int),
        x == 0 && y == 0 ==> n.x == 0 && n.y == 0,
        x != 0 || y != 0 ==> n.is_unit(),
        n.within(ONE as int),
        -2 * max(abs(x as int), abs(y as int)) <= n.x * y - n.y * x <= 2 * max(abs(x as int), abs(y as int)),
        n.x * x >= 0,
        n.y * y >= 0,
{
    proof {
        lemma_unit_of(x as int, y as int);
        lemma_unit_of_keeps_direction(x as int, y as int);
    }
    let ax: u128 = abs_i128(x);
    let ay: u128 = abs_i128(y);
    let m: u128 = if ax >= ay { ax } else { ay };
    if m == 0 {
        return Vec2 { x: 0, y: 0 };
    }
    proof {
        lemma_rescale_bounds(ax as int, m as int);
        lemma_rescale_bounds(ay as int, m as int);
    }
    let sx: u64;
    let sy: u64;
    if m <= NORM_TOP as u128 {
        let k: u128 = NORM_TOP as u128 / m;
        assert(ax * k == rescale(ax as int, m as int));
        assert(ay * k == rescale(ay as int, m as int));
        sx = (ax * k) as u64;
        sy = (ay * k) as u64;
    } else {
        let q: u128 = m / (NORM_TOP as u128) + 1;
        sx = (ax / q) as u64;
        sy = (ay / q) as u64;
    }
    assert(sx == rescale(ax as int, m as int) && sy == rescale(ay as int, m as int));
    assert(sx <= 0x8000_0000 && sy <= 0x8000_0000);
    assert(max(sx as int, sy as int) == rescale(m as int, m as int));
    proof {
        lemma_scaled_quotients_are_unit(sx as int, sy as int);
        lemma_mul_bound(sx as int, sx as int, 0x8000_0000, 0x8000_0000);
        lemma_mul_bound(sy as int, sy as int, 0x8000_0000, 0x8000_0000);
    }
    let s: u64 = sx * sx + sy * sy;
    let len: u64 = isqrt_u128(s as u128);
    let one: u64 = 65536;
    let nx: u64 = sx * one / len;
    let ny: u64 = sy * one / len;
    Vec2 {
        x: if x < 0 { -(nx as i64) } else { nx as i64 },
        y: if y < 0 { -(ny as i64) } else { ny as i64 },
    }
}

/// A 2x2 matrix of fixed-point scalars, held by columns.
#[derive(Clone, Copy, Debug, PartialEq, Eq, Structural)]
pub struct Mat2 {
    pub x_axis: Vec2,
    pub y_axis: Vec2,
}

impl Mat2 {
    /// Every entry has magnitude at most `MAT_MAX`.
    pub open spec fn wf(self) -> bool {
        self.x_axis.within(MAT_MAX as int) && self.y_axis.within(MAT_MAX as int)
    }

    /// The matrix applied to `v`: `x_axis * v.x + y_axis * v.y`, brought back
    /// to scale by a division by `ONE` that rounds toward zero.
    pub open spec fn apply(self, v: IntVec2) -> IntVec2 {
        IntVec2 {
            x: trunc_div(self.x_axis.x * v.x + self.y_axis.x * v.y, ONE as int),
            y: trunc_div(self.x_axis.y * v.x + self.y_axis.y * v.y, ONE as int),
        }
    }

    /// The rotation by the angle whose cosine and sine are given; a positive
    /// angle turns counter-clockwise.
    pub open spec fn rotation(cos: i64, sin: i64) -> Mat2 {
        Mat2 { x_axis: Vec2 { x: cos, y: sin }, y_axis: Vec2 { x: (-sin) as i64, y: cos } }
    }

    /// The rotation by the angle whose cosine and sine are given; a positive
    /// angle turns counter-clockwise.
    pub fn from_cos_sin(cos: i64, sin: i64) -> (m: Mat2)
        requires
            -MAT_MAX <= cos <= MAT_MAX,
            -MAT_MAX <= sin <= MAT_MAX,
        ensures
            m == Mat2::rotation(cos, sin),
            m.wf(),
    {
        Mat2 { x_axis: Vec2 { x: cos, y: sin }, y_axis: Vec2 { x: -sin, y: cos } }
    }

    /// Whether every entry has magnitude at most `MAT_MAX`.
    pub fn is_wf(&self) -> (ok: bool)
        ensures
            ok == self.wf(),
    {
        -MAT_MAX <= self.x_axis.x && self.x_axis.x <= MAT_MAX && -MAT_MAX <= self.x_axis.y
            && self.x_axis.y <= MAT_MAX && -MAT_MAX <= self.y_axis.x && self.y_axis.x <= MAT_MAX
            && -MAT_MAX <= self.y_axis.y && self.y_axis.y <= MAT_MAX
    }

    /// The matrix applied to `v`.
    pub fn mul_vec2(&self, v: Vec2) -> (r: Vec2)
        requires
            self.wf(),
            v.within(VEC_MAX as int),
        ensures
            r@ == self.apply(v@),
            r.within(2 * (MAT_MAX as int) * (VEC_MAX as int) / (ONE as int)),
    {
        proof {
            lemma_mul_bound(self.x_axis.x as int, v.x as int, MAT_MAX as int, VEC_MAX as int);
            lemma_mul_bound(self.y_axis.x as int, v.y as int, MAT_MAX as int, VEC_MAX as int);
            lemma_mul_bound(self.x_axis.y as int, v.x as int, MAT_MAX as int, VEC_MAX as int);
            lemma_mul_bound(self.y_axis.y as int, v.y as int, MAT_MAX as int, VEC_MAX as int);
        }
        let px: i128 = self.x_axis.x as i128 * v.x as i128 + self.y_axis.x as i128 * v.y as i128;
        let py: i128 = self.x_axis.y as i128 * v.x as i128 + self.y_axis.y as i128 * v.y as i128;
        let one: i128 = 65536;
        Vec2 { x: (px / one) as i64, y: (py / one) as i64 }
    }
}

} // verus!
