//! Fixed-point 3D points and the integer geometry the tracker needs.
use vstd::prelude::*;

verus! {

/// Number of fixed-point steps in one unit (coordinates, radians, confidence).
pub const SCALE: u32 = 1_000_000;

/// A point or direction in millionths of the detector's normalised unit.
#[derive(Clone, Copy, Debug, PartialEq, Eq, Structural)]
pub struct Point3 {
    pub x: i32,
    pub y: i32,
    pub z: i32,
}

/// Squared Euclidean distance between two points, in squared fixed-point steps.
pub open spec fn dist_sq(a: Point3, b: Point3) -> int {
    (a.x - b.x) * (a.x - b.x) + (a.y - b.y) * (a.y - b.y) + (a.z - b.z) * (a.z - b.z)
}

/// The `y` component of the cross product `a × b`.
pub open spec fn cross_y(a: Point3, b: Point3) -> int {
    a.z * b.x - a.x * b.z
}

impl Point3 {
    pub fn new(x: i32, y: i32, z: i32) -> (r: Point3)
        ensures
            r == (Point3 { x, y, z }),
    {
        Point3 { x, y, z }
    }

    /// Squared distance to `other`.
    pub fn distance_sq(&self, other: &Point3) -> (r: i128)
        ensures
            r == dist_sq(*self, *other),
    {
        let dx = self.x as i128 - other.x as i128;
        let dy = self.y as i128 - other.y as i128;
        let dz = self.z as i128 - other.z as i128;
        assert(dx * dx <= 0x1_0000_0000_0000_0000) by (nonlinear_arith)
            requires -0x1_0000_0000 <= dx <= 0x1_0000_0000;
        assert(dy * dy <= 0x1_0000_0000_0000_0000) by (nonlinear_arith)
            requires -0x1_0000_0000 <= dy <= 0x1_0000_0000;
        assert(dz * dz <= 0x1_0000_0000_0000_0000) by (nonlinear_arith)
            requires -0x1_0000_0000 <= dz <= 0x1_0000_0000;
        assert(0 <= dx * dx && 0 <= dy * dy && 0 <= dz * dz) by (nonlinear_arith);
        dx * dx + dy * dy + dz * dz
    }

    /// The `y` component of `self × other`.
    pub fn cross_y(&self, other: &Point3) -> (r: i128)
        ensures
            r == cross_y(*self, *other),
            -0x8000_0000_0000_0000 <= r <= 0x8000_0000_0000_0000,
    {
        let (z, x) = (self.z as i128, other.x as i128);
        let (x2, z2) = (self.x as i128, other.z as i128);
        assert(-0x4000_0000_0000_0000 <= z * x <= 0x4000_0000_0000_0000) by (nonlinear_arith)
            requires -0x8000_0000 <= z <= 0x8000_0000, -0x8000_0000 <= x <= 0x8000_0000;
        assert(-0x4000_0000_0000_0000 <= x2 * z2 <= 0x4000_0000_0000_0000) by (nonlinear_arith)
            requires -0x8000_0000 <= x2 <= 0x8000_0000, -0x8000_0000 <= z2 <= 0x8000_0000;
        z * x - x2 * z2
    }
}

} // verus!

verus! {

/// Squared length of `(x, y, z)`.
pub open spec fn norm_sq(x: int, y: int, z: int) -> int {
    x * x + y * y + z * z
}

/// Integer square root: the largest `r` with `r * r <= n`.
pub open spec fn int_sqrt(n: nat) -> nat
    decreases n,
{
    if n == 0 {
        0
    } else {
        let r = int_sqrt((n - 1) as nat);
        if (r + 1) * (r + 1) <= n {
            r + 1
        } else {
            r
        }
    }
}

pub proof fn lemma_int_sqrt(n: nat)
    ensures
        int_sqrt(n) * int_sqrt(n) <= n < (int_sqrt(n) + 1) * (int_sqrt(n) + 1),
    decreases n,
{
    if n > 0 {
        lemma_int_sqrt((n - 1) as nat);
        let r = int_sqrt((n - 1) as nat);
        assert((r + 1) * (r + 1) < (r + 2) * (r + 2)) by (nonlinear_arith);
        assert(r * r <= n);
        let t = int_sqrt(n);
        if (r + 1) * (r + 1) <= n {
            assert(t == r + 1);
            assert(t * t <= n < (t + 1) * (t + 1));
        } else {
            assert(t == r);
            assert(t * t <= n < (t + 1) * (t + 1));
        }
    } else {
        let t = int_sqrt(n);
        assert(t == 0);
        assert(t * t == 0 && (t + 1) * (t + 1) == 1) by (nonlinear_arith)
            requires
                t == 0,
        ;
    }
}

proof fn lemma_sqrt_unique(r: int, s: int, n: int)
    requires
        0 <= r,
        0 <= s,
        r * r <= n < (r + 1) * (r + 1),
        s * s <= n < (s + 1) * (s + 1),
    ensures
        r == s,
{
    if r < s {
        assert((r + 1) * (r + 1) <= s * s) by (nonlinear_arith)
            requires
                0 <= r < s,
        ;
    } else if s < r {
        assert((s + 1) * (s + 1) <= r * r) by (nonlinear_arith)
            requires
                0 <= s < r,
        ;
    }
}

/// `c / len` scaled by `SCALE`, rounded towards zero.
pub open spec fn scaled(c: int, len: int) -> int {
    if c < 0 {
        -((-c) * SCALE / len)
    } else {
        c * SCALE / len
    }
}

/// `(x, y, z)` scaled to length `SCALE`, or `None` when its length, rounded
/// down, is under `min_len`.
pub open spec fn normalized(x: int, y: int, z: int, min_len: int) -> Option<Point3> {
    let l = int_sqrt(norm_sq(x, y, z) as nat) as int;
    if l < min_len {
        None
    } else {
        Some(Point3 { x: scaled(x, l) as i32, y: scaled(y, l) as i32, z: scaled(z, l) as i32 })
    }
}

/// Largest magnitude of a coordinate that `normalize` accepts.
pub const WIDE_LIMIT: i64 = 0x1000_0000_0000;

/// Integer square root of `n`.
pub fn isqrt(n: u128) -> (r: u128)
    ensures
        r == int_sqrt(n as nat),
{
    let mut lo: u128 = 0;
    let mut hi: u128 = 0x1_0000_0000_0000_0000;
    assert(n < 0x1_0000_0000_0000_0000 * 0x1_0000_0000_0000_0000);
    while hi - lo > 1
        invariant
            lo < hi <= 0x1_0000_0000_0000_0000,
            lo * lo <= n,
            n < hi * hi,
        decreases hi - lo,
    {
        let mid = lo + (hi - lo) / 2;
        assert(mid * mid < 0x1_0000_0000_0000_0000 * 0x1_0000_0000_0000_0000) by (nonlinear_arith)
            requires
                mid < 0x1_0000_0000_0000_0000,
        ;
        if mid * mid <= n {
            lo = mid;
        } else {
            hi = mid;
        }
    }
    proof {
        lemma_int_sqrt(n as nat);
        lemma_sqrt_unique(lo as int, int_sqrt(n as nat) as int, n as int);
    }
    lo
}

proof fn lemma_scaled_bound(c: int, l: int, q: int)
    requires
        l > 0,
        c * c <= q,
        q < (l + 1) * (l + 1),
    ensures
        -(SCALE as int) <= scaled(c, l) <= SCALE,
{
    let a = if c < 0 {
        -c
    } else {
        c
    };
    assert(a * a == c * c) by (nonlinear_arith)
        requires
            a == c || a == -c,
    ;
    assert(a <= l) by (nonlinear_arith)
        requires
            a * a < (l + 1) * (l + 1),
            a >= 0,
            l > 0,
    ;
    assert(a * SCALE / l <= SCALE) by (nonlinear_arith)
        requires
            0 <= a <= l,
            l > 0,
            SCALE == 1_000_000,
    ;
    assert(a * SCALE / l >= 0) by (nonlinear_arith)
        requires
            0 <= a,
            l > 0,
            SCALE == 1_000_000,
    ;
}

fn scale_component(c: i64, l: u128) -> (r: i32)
    requires
        -WIDE_LIMIT <= c <= WIDE_LIMIT,
        l > 0,
        -(SCALE as int) <= scaled(c as int, l as int) <= SCALE,
    ensures
        r == scaled(c as int, l as int),
{
    let a: u128 = if c < 0 {
        (-(c as i128)) as u128
    } else {
        c as u128
    };
    assert(a * SCALE <= 0x1000_0000_0000 * 1_000_000) by (nonlinear_arith)
        requires
            a <= 0x1000_0000_0000,
            SCALE == 1_000_000,
    ;
    let m = a * (SCALE as u128) / l;
    if c < 0 {
        -(m as i32)
    } else {
        m as i32
    }
}

/// Scales `(x, y, z)` to length `SCALE`; `None` when its length, rounded
/// down, is under `min_len`.
pub fn normalize(x: i64, y: i64, z: i64, min_len: u128) -> (r: Option<Point3>)
    requires
        -WIDE_LIMIT <= x <= WIDE_LIMIT,
        -WIDE_LIMIT <= y <= WIDE_LIMIT,
        -WIDE_LIMIT <= z <= WIDE_LIMIT,
        min_len >= 1,
    ensures
        r == normalized(x as int, y as int, z as int, min_len as int),
        r matches Some(p) ==> -(SCALE as int) <= p.x <= SCALE && -(SCALE as int) <= p.y <= SCALE
            && -(SCALE as int) <= p.z <= SCALE,
{
    let (xw, yw, zw) = (x as i128, y as i128, z as i128);
    assert(xw * xw <= 0x100_0000_0000_0000_0000_0000 && 0 <= xw * xw) by (nonlinear_arith)
        requires
            -0x1000_0000_0000 <= xw <= 0x1000_0000_0000,
    ;
    assert(yw * yw <= 0x100_0000_0000_0000_0000_0000 && 0 <= yw * yw) by (nonlinear_arith)
        requires
            -0x1000_0000_0000 <= yw <= 0x1000_0000_0000,
    ;
    assert(zw * zw <= 0x100_0000_0000_0000_0000_0000 && 0 <= zw * zw) by (nonlinear_arith)
        requires
            -0x1000_0000_0000 <= zw <= 0x1000_0000_0000,
    ;
    let q = (xw * xw + yw * yw + zw * zw) as u128;
    let l = isqrt(q);
    if l < min_len {
        return None;
    }
    proof {
        lemma_int_sqrt(q as nat);
        assert(xw * xw <= q && yw * yw <= q && zw * zw <= q);
        lemma_scaled_bound(x as int, l as int, q as int);
        lemma_scaled_bound(y as int, l as int, q as int);
        lemma_scaled_bound(z as int, l as int, q as int);
    }
    Some(Point3 { x: scale_component(x, l), y: scale_component(y, l), z: scale_component(z, l) })
}

} // verus!

verus! {

proof fn lemma_scaled_floor(c: int, l: int)
    requires
        l > 0,
    ensures
        ({
            let a = if c < 0 {
                -c
            } else {
                c
            };
            let m = if scaled(c, l) < 0 {
                -scaled(c, l)
            } else {
                scaled(c, l)
            };
            &&& m >= 0
            &&& m * m == scaled(c, l) * scaled(c, l)
            &&& a * a == c * c
            &&& m * m * (l * l) <= a * a * (SCALE * SCALE)
            &&& a * a * (SCALE * SCALE) < (m + 1) * (m + 1) * (l * l)
        }),
{
    let a = if c < 0 {
        -c
    } else {
        c
    };
    let f = a * SCALE / l;
    assert(f >= 0 && f * l <= a * SCALE < (f + 1) * l) by (nonlinear_arith)
        requires
            a >= 0,
            l > 0,
            SCALE == 1_000_000,
            f == a * SCALE / l,
    ;
    assert(scaled(c, l) == f || scaled(c, l) == -f);
    let m = if scaled(c, l) < 0 {
        -scaled(c, l)
    } else {
        scaled(c, l)
    };
    assert(m == f);
    assert(m * m == scaled(c, l) * scaled(c, l)) by (nonlinear_arith)
        requires
            m == scaled(c, l) || m == -scaled(c, l),
    ;
    assert(a * a == c * c) by (nonlinear_arith)
        requires
            a == c || a == -c,
    ;
    assert(m * m * (l * l) <= a * a * (SCALE * SCALE)) by (nonlinear_arith)
        requires
            0 <= m * l <= a * SCALE,
            m >= 0,
            l > 0,
    ;
    assert(a * a * (SCALE * SCALE) < (m + 1) * (m + 1) * (l * l)) by (nonlinear_arith)
        requires
            0 <= a * SCALE < (m + 1) * l,
            a >= 0,
            l > 0,
    ;
}

/// A vector normalised with a minimum length of at least `SCALE` has length
/// `SCALE` up to rounding: its squared length lies strictly between
/// `SCALE² - 4·SCALE - 7` and `(SCALE + 1)²`.
pub proof fn lemma_normalized_unit(x: int, y: int, z: int, min_len: int)
    requires
        min_len >= SCALE,
        normalized(x, y, z, min_len) is Some,
    ensures
        ({
            let p = normalized(x, y, z, min_len)->Some_0;
            let n = norm_sq(p.x as int, p.y as int, p.z as int);
            &&& SCALE * SCALE - 4 * SCALE - 7 < n
            &&& n < (SCALE + 1) * (SCALE + 1)
        }),
{
    let q = norm_sq(x, y, z);
    assert(q >= 0) by (nonlinear_arith)
        requires
            q == x * x + y * y + z * z,
    ;
    let l = int_sqrt(q as nat) as int;
    lemma_int_sqrt(q as nat);
    lemma_scaled_floor(x, l);
    lemma_scaled_floor(y, l);
    lemma_scaled_floor(z, l);
    let (sx, sy, sz) = (scaled(x, l), scaled(y, l), scaled(z, l));
    lemma_scaled_bound(x, l, q);
    lemma_scaled_bound(y, l, q);
    lemma_scaled_bound(z, l, q);
    let p = normalized(x, y, z, min_len)->Some_0;
    assert(p.x == sx && p.y == sy && p.z == sz);
    let mx = if sx < 0 {
        -sx
    } else {
        sx
    };
    let my = if sy < 0 {
        -sy
    } else {
        sy
    };
    let mz = if sz < 0 {
        -sz
    } else {
        sz
    };
    let n = mx * mx + my * my + mz * mz;
    assert(n == norm_sq(p.x as int, p.y as int, p.z as int));
    let s2 = SCALE * SCALE;
    let l2 = l * l;
    assert(l2 > 0) by (nonlinear_arith)
        requires
            l >= SCALE,
            SCALE == 1_000_000,
            l2 == l * l,
    ;
    // Upper bound: n·l² <= q·S² < (l+1)²·S² <= (S+1)²·l².
    assert(n * l2 <= q * s2) by (nonlinear_arith)
        requires
            mx * mx * l2 <= x * x * s2,
            my * my * l2 <= y * y * s2,
            mz * mz * l2 <= z * z * s2,
            n == mx * mx + my * my + mz * mz,
            q == x * x + y * y + z * z,
    ;
    assert(q * s2 < (l + 1) * (l + 1) * s2) by (nonlinear_arith)
        requires
            q < (l + 1) * (l + 1),
            s2 > 0,
    ;
    assert((l + 1) * (l + 1) * s2 <= (SCALE + 1) * (SCALE + 1) * l2) by (nonlinear_arith)
        requires
            l >= SCALE,
            SCALE == 1_000_000,
            s2 == SCALE * SCALE,
            l2 == l * l,
    ;
    assert(n < (SCALE + 1) * (SCALE + 1)) by (nonlinear_arith)
        requires
            n * l2 < (SCALE + 1) * (SCALE + 1) * l2,
            l2 > 0,
    ;
    // Lower bound: the components rounded up reach length S.
    let up = (mx + 1) * (mx + 1) + (my + 1) * (my + 1) + (mz + 1) * (mz + 1);
    assert(q * s2 < up * l2) by (nonlinear_arith)
        requires
            x * x * s2 < (mx + 1) * (mx + 1) * l2,
            y * y * s2 < (my + 1) * (my + 1) * l2,
            z * z * s2 < (mz + 1) * (mz + 1) * l2,
            up == (mx + 1) * (mx + 1) + (my + 1) * (my + 1) + (mz + 1) * (mz + 1),
            q == x * x + y * y + z * z,
    ;
    assert(l2 * s2 <= q * s2) by (nonlinear_arith)
        requires
            l2 == l * l,
            l * l <= q,
            s2 > 0,
    ;
    assert(s2 < up) by (nonlinear_arith)
        requires
            l2 * s2 < up * l2,
            l2 > 0,
    ;
    let msum = mx + my + mz;
    assert(msum * msum <= 3 * n) by (nonlinear_arith)
        requires
            msum == mx + my + mz,
            n == mx * mx + my * my + mz * mz,
    ;
    assert(msum < 2 * (SCALE + 1)) by (nonlinear_arith)
        requires
            msum * msum <= 3 * n,
            n < (SCALE + 1) * (SCALE + 1),
            msum >= 0,
            SCALE == 1_000_000,
    ;
    assert(up == n + 2 * msum + 3) by (nonlinear_arith)
        requires
            up == (mx + 1) * (mx + 1) + (my + 1) * (my + 1) + (mz + 1) * (mz + 1),
            n == mx * mx + my * my + mz * mz,
            msum == mx + my + mz,
    ;
}

} // verus!
