//! Palm orientation from the 21 smoothed landmarks of one hand.
use crate::geometry::{
    int_sqrt, lemma_int_sqrt, lemma_normalized_unit, normalize, normalized, norm_sq, scaled, Point3,
    SCALE,
};
use crate::skeleton::HAND_LANDMARKS;
use vstd::arithmetic::mul::lemma_mul_is_distributive_sub;
use vstd::prelude::*;

verus! {

pub const WRIST: usize = 0;
pub const THUMB_CMC: usize = 1;
pub const INDEX_MCP: usize = 5;
pub const MIDDLE_MCP: usize = 9;
pub const MIDDLE_TIP: usize = 12;
pub const RING_MCP: usize = 13;
pub const PINKY_MCP: usize = 17;

/// Shortest combined normal, in squared fixed-point steps, that still gives
/// an orientation: below it the palm is taken as degenerate.
pub const MIN_NORMAL_LEN: u128 = 16_000_000;

pub open spec fn cross_x(a: Point3, b: Point3) -> int {
    a.y * b.z - a.z * b.y
}

pub open spec fn cross_z(a: Point3, b: Point3) -> int {
    a.x * b.y - a.y * b.x
}

/// `lm[j] - lm[k]`.
pub open spec fn diff(lm: Seq<Point3>, j: int, k: int) -> (int, int, int) {
    (lm[j].x - lm[k].x, lm[j].y - lm[k].y, lm[j].z - lm[k].z)
}

/// Four times the palm centre, the mean of the four finger bases, less four
/// times the wrist: it points from the wrist to the palm centre.
pub open spec fn palm_vec(lm: Seq<Point3>) -> (int, int, int) {
    let (w, i, m, r, p) = (lm[0], lm[5], lm[9], lm[13], lm[17]);
    (
        i.x + m.x + r.x + p.x - 4 * w.x,
        i.y + m.y + r.y + p.y - 4 * w.y,
        i.z + m.z + r.z + p.z - 4 * w.z,
    )
}

/// From the thumb base to the pinky base.
pub open spec fn across_vec(lm: Seq<Point3>) -> (int, int, int) {
    diff(lm, 17, 1)
}

/// Along the middle finger, from its base to its tip.
pub open spec fn finger_vec(lm: Seq<Point3>) -> (int, int, int) {
    diff(lm, 12, 9)
}

pub open spec fn xprod(a: (int, int, int), b: (int, int, int)) -> (int, int, int) {
    (a.1 * b.2 - a.2 * b.1, a.2 * b.0 - a.0 * b.2, a.0 * b.1 - a.1 * b.0)
}

/// `a` and `b` are parallel, or one of them is zero.
pub open spec fn parallel(a: (int, int, int), b: (int, int, int)) -> bool {
    xprod(a, b) == (0int, 0int, 0int)
}

pub open spec fn unit_of(v: (int, int, int)) -> Option<Point3> {
    normalized(v.0, v.1, v.2, 1)
}

pub open spec fn palm_direction(lm: Seq<Point3>) -> Option<Point3> {
    unit_of(palm_vec(lm))
}

pub open spec fn thumb_pinky(lm: Seq<Point3>) -> Option<Point3> {
    unit_of(across_vec(lm))
}

pub open spec fn finger_direction(lm: Seq<Point3>) -> Option<Point3> {
    unit_of(finger_vec(lm))
}

/// The palm normal: `thumb_pinky × palm_direction + thumb_pinky ×
/// finger_direction`, normalised. `None` when the thumb-pinky line is
/// parallel to both the palm and the finger direction, when any of the three
/// directions is zero, or when the combined normal is too short to have a
/// direction.
pub open spec fn palm_normal_of(lm: Seq<Point3>) -> Option<Point3> {
    if parallel(across_vec(lm), palm_vec(lm)) && parallel(across_vec(lm), finger_vec(lm)) {
        None
    } else {
        match (thumb_pinky(lm), palm_direction(lm), finger_direction(lm)) {
            (Some(a), Some(b), Some(c)) => normalized(
                cross_x(a, b) + cross_x(a, c),
                crate::geometry::cross_y(a, b) + crate::geometry::cross_y(a, c),
                cross_z(a, b) + cross_z(a, c),
                MIN_NORMAL_LEN as int,
            ),
            _ => None,
        }
    }
}

/// Whether two vectors of coordinates of at most `2^35` are parallel.
fn is_parallel(a: (i64, i64, i64), b: (i64, i64, i64)) -> (r: bool)
    requires
        -0x8_0000_0000 <= a.0 <= 0x8_0000_0000,
        -0x8_0000_0000 <= a.1 <= 0x8_0000_0000,
        -0x8_0000_0000 <= a.2 <= 0x8_0000_0000,
        -0x8_0000_0000 <= b.0 <= 0x8_0000_0000,
        -0x8_0000_0000 <= b.1 <= 0x8_0000_0000,
        -0x8_0000_0000 <= b.2 <= 0x8_0000_0000,
    ensures
        r == parallel((a.0 as int, a.1 as int, a.2 as int), (b.0 as int, b.1 as int, b.2 as int)),
{
    let (a0, a1, a2) = (a.0 as i128, a.1 as i128, a.2 as i128);
    let (b0, b1, b2) = (b.0 as i128, b.1 as i128, b.2 as i128);
    assert forall|u: i128, v: i128|
        -0x8_0000_0000 <= u <= 0x8_0000_0000 && -0x8_0000_0000 <= v <= 0x8_0000_0000 implies
        -0x40_0000_0000_0000_0000 <= #[trigger] (u * v) <= 0x40_0000_0000_0000_0000 by {
        assert(-0x40_0000_0000_0000_0000 <= u * v <= 0x40_0000_0000_0000_0000) by (nonlinear_arith)
            requires
                -0x8_0000_0000 <= u <= 0x8_0000_0000,
                -0x8_0000_0000 <= v <= 0x8_0000_0000,
        ;
    }
    a1 * b2 - a2 * b1 == 0 && a2 * b0 - a0 * b2 == 0 && a0 * b1 - a1 * b0 == 0
}

/// Sum of the cross products `a × b + a × c` of three vectors of length at
/// most `SCALE` per coordinate.
fn cross_sum(a: Point3, b: Point3, c: Point3) -> (r: (i64, i64, i64))
    requires
        -(SCALE as int) <= a.x <= SCALE && -(SCALE as int) <= a.y <= SCALE && -(SCALE as int) <= a.z <= SCALE,
        -(SCALE as int) <= b.x <= SCALE && -(SCALE as int) <= b.y <= SCALE && -(SCALE as int) <= b.z <= SCALE,
        -(SCALE as int) <= c.x <= SCALE && -(SCALE as int) <= c.y <= SCALE && -(SCALE as int) <= c.z <= SCALE,
    ensures
        r.0 == cross_x(a, b) + cross_x(a, c),
        r.1 == crate::geometry::cross_y(a, b) + crate::geometry::cross_y(a, c),
        r.2 == cross_z(a, b) + cross_z(a, c),
        -4_000_000_000_000 <= r.0 <= 4_000_000_000_000,
        -4_000_000_000_000 <= r.1 <= 4_000_000_000_000,
        -4_000_000_000_000 <= r.2 <= 4_000_000_000_000,
{
    let (ax, ay, az) = (a.x as i64, a.y as i64, a.z as i64);
    let (bx, by, bz) = (b.x as i64, b.y as i64, b.z as i64);
    let (cx, cy, cz) = (c.x as i64, c.y as i64, c.z as i64);
    assert forall|u: i64, v: i64|
        -1_000_000 <= u <= 1_000_000 && -1_000_000 <= v <= 1_000_000 implies -1_000_000_000_000
        <= #[trigger] (u * v) <= 1_000_000_000_000 by {
        assert(-1_000_000_000_000 <= u * v <= 1_000_000_000_000) by (nonlinear_arith)
            requires
                -1_000_000 <= u <= 1_000_000,
                -1_000_000 <= v <= 1_000_000,
        ;
    }
    let x = (ay * bz - az * by) + (ay * cz - az * cy);
    let y = (az * bx - ax * bz) + (az * cx - ax * cz);
    let z = (ax * by - ay * bx) + (ax * cy - ay * cx);
    (x, y, z)
}

/// Unit palm normal (scaled by `SCALE`) of a hand, or `None` when the hand
/// has fewer than 21 landmarks or its geometry is degenerate.
pub fn palm_normal(landmarks: &Vec<Point3>) -> (r: Option<Point3>)
    ensures
        r == if landmarks@.len() >= HAND_LANDMARKS {
            palm_normal_of(landmarks@)
        } else {
            None
        },
{
    if landmarks.len() < HAND_LANDMARKS {
        return None;
    }
    let w = landmarks[WRIST];
    let t = landmarks[THUMB_CMC];
    let i = landmarks[INDEX_MCP];
    let m = landmarks[MIDDLE_MCP];
    let tip = landmarks[MIDDLE_TIP];
    let r = landmarks[RING_MCP];
    let p = landmarks[PINKY_MCP];
    let pv = (
        i.x as i64 + m.x as i64 + r.x as i64 + p.x as i64 - 4 * w.x as i64,
        i.y as i64 + m.y as i64 + r.y as i64 + p.y as i64 - 4 * w.y as i64,
        i.z as i64 + m.z as i64 + r.z as i64 + p.z as i64 - 4 * w.z as i64,
    );
    let av = (p.x as i64 - t.x as i64, p.y as i64 - t.y as i64, p.z as i64 - t.z as i64);
    let fv = (tip.x as i64 - m.x as i64, tip.y as i64 - m.y as i64, tip.z as i64 - m.z as i64);
    if is_parallel(av, pv) && is_parallel(av, fv) {
        return None;
    }
    let palm = normalize(pv.0, pv.1, pv.2, 1);
    let across = normalize(av.0, av.1, av.2, 1);
    let finger = normalize(fv.0, fv.1, fv.2, 1);
    match (across, palm, finger) {
        (Some(a), Some(b), Some(c)) => {
            let (x, y, z) = cross_sum(a, b, c);
            normalize(x, y, z, MIN_NORMAL_LEN)
        },
        _ => None,
    }
}

/// A palm normal, when there is one, has length one up to rounding: its
/// squared length in fixed point lies strictly between `SCALE² - 4·SCALE - 7`
/// and `(SCALE + 1)²`.
pub proof fn lemma_palm_normal_unit(lm: Seq<Point3>)
    requires
        lm.len() >= HAND_LANDMARKS,
        palm_normal_of(lm) is Some,
    ensures
        ({
            let n = palm_normal_of(lm)->Some_0;
            let len_sq = norm_sq(n.x as int, n.y as int, n.z as int);
            &&& SCALE * SCALE - 4 * SCALE - 7 < len_sq
            &&& len_sq < (SCALE + 1) * (SCALE + 1)
        }),
{
    let (a, b, c) = (thumb_pinky(lm)->Some_0, palm_direction(lm)->Some_0, finger_direction(lm)->Some_0);
    lemma_normalized_unit(
        cross_x(a, b) + cross_x(a, c),
        crate::geometry::cross_y(a, b) + crate::geometry::cross_y(a, c),
        cross_z(a, b) + cross_z(a, c),
        MIN_NORMAL_LEN as int,
    );
}

} // verus!

verus! {

pub open spec fn add3(a: (int, int, int), b: (int, int, int)) -> (int, int, int) {
    (a.0 + b.0, a.1 + b.1, a.2 + b.2)
}

pub open spec fn sub3(a: (int, int, int), b: (int, int, int)) -> (int, int, int) {
    (a.0 - b.0, a.1 - b.1, a.2 - b.2)
}

proof fn lemma_parallel_add(a: (int, int, int), b: (int, int, int), c: (int, int, int))
    requires
        parallel(a, c),
        parallel(b, c),
    ensures
        parallel(add3(a, b), c),
{
    assert((a.1 + b.1) * c.2 - (a.2 + b.2) * c.1 == (a.1 * c.2 - a.2 * c.1) + (b.1 * c.2 - b.2 * c.1))
        by (nonlinear_arith);
    assert((a.2 + b.2) * c.0 - (a.0 + b.0) * c.2 == (a.2 * c.0 - a.0 * c.2) + (b.2 * c.0 - b.0 * c.2))
        by (nonlinear_arith);
    assert((a.0 + b.0) * c.1 - (a.1 + b.1) * c.0 == (a.0 * c.1 - a.1 * c.0) + (b.0 * c.1 - b.1 * c.0))
        by (nonlinear_arith);
}

proof fn lemma_parallel_sub(a: (int, int, int), b: (int, int, int), c: (int, int, int))
    requires
        parallel(a, c),
        parallel(b, c),
    ensures
        parallel(sub3(a, b), c),
{
    assert((a.1 - b.1) * c.2 - (a.2 - b.2) * c.1 == (a.1 * c.2 - a.2 * c.1) - (b.1 * c.2 - b.2 * c.1))
        by (nonlinear_arith);
    assert((a.2 - b.2) * c.0 - (a.0 - b.0) * c.2 == (a.2 * c.0 - a.0 * c.2) - (b.2 * c.0 - b.0 * c.2))
        by (nonlinear_arith);
    assert((a.0 - b.0) * c.1 - (a.1 - b.1) * c.0 == (a.0 * c.1 - a.1 * c.0) - (b.0 * c.1 - b.1 * c.0))
        by (nonlinear_arith);
}

proof fn lemma_parallel_sym(a: (int, int, int), b: (int, int, int))
    requires
        parallel(a, b),
    ensures
        parallel(b, a),
{
    assert(b.1 * a.2 - b.2 * a.1 == -(a.1 * b.2 - a.2 * b.1)) by (nonlinear_arith);
    assert(b.2 * a.0 - b.0 * a.2 == -(a.2 * b.0 - a.0 * b.2)) by (nonlinear_arith);
    assert(b.0 * a.1 - b.1 * a.0 == -(a.0 * b.1 - a.1 * b.0)) by (nonlinear_arith);
}

/// The landmarks the estimator reads besides the wrist.
pub open spec fn read_landmark(k: int) -> bool {
    k == 1 || k == 5 || k == 9 || k == 12 || k == 13 || k == 17
}

/// The landmarks the estimator reads all lie on one line: seen from the
/// wrist, any two of them are parallel.
pub open spec fn collinear(lm: Seq<Point3>) -> bool {
    forall|j: int, k: int|
        read_landmark(j) && read_landmark(k) ==> #[trigger] parallel(diff(lm, j, 0), diff(lm, k, 0))
}

/// A hand gives no palm normal, never a made-up one, when its landmarks are
/// collinear, when the thumb-pinky line, the wrist-to-palm direction or the
/// finger direction is zero, or when the combined normal is shorter than
/// `MIN_NORMAL_LEN`.
pub proof fn lemma_palm_normal_degenerate(lm: Seq<Point3>)
    requires
        lm.len() >= HAND_LANDMARKS,
    ensures
        collinear(lm) ==> palm_normal_of(lm) is None,
        across_vec(lm) == (0int, 0int, 0int) ==> palm_normal_of(lm) is None,
        palm_vec(lm) == (0int, 0int, 0int) ==> palm_normal_of(lm) is None,
        finger_vec(lm) == (0int, 0int, 0int) ==> palm_normal_of(lm) is None,
        (match (thumb_pinky(lm), palm_direction(lm), finger_direction(lm)) {
            (Some(a), Some(b), Some(c)) => norm_sq(
                cross_x(a, b) + cross_x(a, c),
                crate::geometry::cross_y(a, b) + crate::geometry::cross_y(a, c),
                cross_z(a, b) + cross_z(a, c),
            ) < MIN_NORMAL_LEN * MIN_NORMAL_LEN,
            _ => false,
        }) ==> palm_normal_of(lm) is None,
{
    let (pv, av, fv) = (palm_vec(lm), across_vec(lm), finger_vec(lm));
    let zero = (0int, 0int, 0int);
    assert(int_sqrt(0) == 0);
    assert(norm_sq(0, 0, 0) == 0);
    if av == zero {
        assert(0 * pv.2 - 0 * pv.1 == 0 && 0 * pv.0 - 0 * pv.2 == 0 && 0 * pv.1 - 0 * pv.0 == 0)
            by (nonlinear_arith);
        assert(0 * fv.2 - 0 * fv.1 == 0 && 0 * fv.0 - 0 * fv.2 == 0 && 0 * fv.1 - 0 * fv.0 == 0)
            by (nonlinear_arith);
        assert(parallel(av, pv));
        assert(parallel(av, fv));
    }
    if collinear(lm) {
        let d = |k: int| diff(lm, k, 0);
        assert(pv == add3(add3(add3(d(5), d(9)), d(13)), d(17)));
        assert(av == sub3(d(17), d(1)));
        assert(fv == sub3(d(12), d(9)));
        assert forall|j: int| read_landmark(j) implies parallel(pv, #[trigger] d(j)) by {
            assert(parallel(d(5), d(j)));
            assert(parallel(d(9), d(j)));
            assert(parallel(d(13), d(j)));
            assert(parallel(d(17), d(j)));
            lemma_parallel_add(d(5), d(9), d(j));
            lemma_parallel_add(add3(d(5), d(9)), d(13), d(j));
            lemma_parallel_add(add3(add3(d(5), d(9)), d(13)), d(17), d(j));
        }
        assert forall|j: int| read_landmark(j) implies parallel(fv, #[trigger] d(j)) by {
            assert(parallel(d(12), d(j)));
            assert(parallel(d(9), d(j)));
            lemma_parallel_sub(d(12), d(9), d(j));
        }
        assert(parallel(pv, d(17)));
        assert(parallel(pv, d(1)));
        lemma_parallel_sym(pv, d(17));
        lemma_parallel_sym(pv, d(1));
        lemma_parallel_sub(d(17), d(1), pv);
        assert(parallel(fv, d(17)));
        assert(parallel(fv, d(1)));
        lemma_parallel_sym(fv, d(17));
        lemma_parallel_sym(fv, d(1));
        lemma_parallel_sub(d(17), d(1), fv);
    }
    match (thumb_pinky(lm), palm_direction(lm), finger_direction(lm)) {
        (Some(a), Some(b), Some(c)) => {
            let q = norm_sq(
                cross_x(a, b) + cross_x(a, c),
                crate::geometry::cross_y(a, b) + crate::geometry::cross_y(a, c),
                cross_z(a, b) + cross_z(a, c),
            );
            if q < MIN_NORMAL_LEN * MIN_NORMAL_LEN {
                assert(q >= 0) by (nonlinear_arith)
                    requires
                        q == norm_sq(
                            cross_x(a, b) + cross_x(a, c),
                            crate::geometry::cross_y(a, b) + crate::geometry::cross_y(a, c),
                            cross_z(a, b) + cross_z(a, c),
                        ),
                ;
                lemma_int_sqrt(q as nat);
                let l = int_sqrt(q as nat) as int;
                assert(l < MIN_NORMAL_LEN) by (nonlinear_arith)
                    requires
                        l >= 0,
                        l * l <= q,
                        q < MIN_NORMAL_LEN * MIN_NORMAL_LEN,
                        MIN_NORMAL_LEN == 16_000_000,
                ;
            }
        },
        _ => {},
    }
}

} // verus!

verus! {

proof fn lemma_scaled_error(c: int, l: int, q: int)
    requires
        l > 0,
        c * c <= q,
        q < (l + 1) * (l + 1),
    ensures
        -l <= c <= l,
        -l < c * SCALE - scaled(c, l) * l < l,
        -(SCALE as int) <= scaled(c, l) <= SCALE,
{
    let a = if c < 0 {
        -c
    } else {
        c
    };
    assert(a * a == c * c) by (nonlinear_arith)
        requires
            a == c || a == -c,
    ;
    assert(a <= l) by (nonlinear_arith)
        requires
            a * a < (l + 1) * (l + 1),
            a >= 0,
            l > 0,
    ;
    let f = a * SCALE / l;
    assert(f * l <= a * SCALE < (f + 1) * l) by (nonlinear_arith)
        requires
            a >= 0,
            l > 0,
            SCALE == 1_000_000,
            f == a * SCALE / l,
    ;
    assert((f + 1) * l == f * l + l) by (nonlinear_arith);
    assert(0 <= f <= SCALE) by (nonlinear_arith)
        requires
            0 <= a <= l,
            l > 0,
            SCALE == 1_000_000,
            f == a * SCALE / l,
    ;
    let sc = scaled(c, l);
    if c < 0 {
        assert(sc == -f);
        assert(c * SCALE - sc * l == -(a * SCALE - f * l)) by (nonlinear_arith)
            requires
                c == -a,
                sc == -f,
        ;
    } else {
        assert(sc == f);
        assert(c * SCALE - sc * l == a * SCALE - f * l) by (nonlinear_arith)
            requires
                c == a,
                sc == f,
        ;
    }
}

proof fn lemma_product_bound(x: int, y: int, bx: int, by_: int)
    requires
        -bx <= x <= bx,
        -by_ <= y <= by_,
    ensures
        -(bx * by_) <= x * y <= bx * by_,
{
    assert(-(bx * by_) <= x * y <= bx * by_) by (nonlinear_arith)
        requires
            -bx <= x <= bx,
            -by_ <= y <= by_,
    ;
}

proof fn lemma_swap4(a: int, b: int, c: int, d: int)
    ensures
        (a * b) * (c * d) == (b * d) * (a * c),
{
    assert((a * b) * (c * d) == (b * d) * (a * c)) by (nonlinear_arith);
}

proof fn lemma_expand(p: int, e: int, q: int, f: int)
    ensures
        (p - e) * (q - f) == p * q - p * f - e * q + e * f,
{
    assert((p - e) * (q - f) == p * q - p * f - e * q + e * f) by (nonlinear_arith);
}

proof fn lemma_scale_left(u: int, f: int)
    ensures
        (u * SCALE) * f == SCALE * (u * f),
{
    assert((u * SCALE) * f == SCALE * (u * f)) by (nonlinear_arith);
}

proof fn lemma_scale_right(e: int, v: int)
    ensures
        e * (v * SCALE) == SCALE * (e * v),
{
    assert(e * (v * SCALE) == SCALE * (e * v)) by (nonlinear_arith);
}

/// One component of `a × b` for `a`, `b` the unit forms of parallel `u`, `v`.
proof fn lemma_cross_component_small(
    uj: int, uk: int, vj: int, vk: int,
    aj: int, ak: int, bj: int, bk: int,
    lu: int, lv: int,
)
    requires
        lu > 0,
        lv > 0,
        uj * vk - uk * vj == 0,
        -lu <= uj <= lu,
        -lu <= uk <= lu,
        -lv <= vj <= lv,
        -lv <= vk <= lv,
        -lu < uj * SCALE - aj * lu < lu,
        -lu < uk * SCALE - ak * lu < lu,
        -lv < vj * SCALE - bj * lv < lv,
        -lv < vk * SCALE - bk * lv < lv,
    ensures
        -(4 * SCALE + 2) <= aj * bk - ak * bj <= 4 * SCALE + 2,
{
    let (ej, ek) = (uj * SCALE - aj * lu, uk * SCALE - ak * lu);
    let (fj, fk) = (vj * SCALE - bj * lv, vk * SCALE - bk * lv);
    let x = aj * bk - ak * bj;
    let (pa, pb, pc, pd) = (aj * lu, ak * lu, bj * lv, bk * lv);
    lemma_swap4(aj, lu, bk, lv);
    lemma_swap4(ak, lu, bj, lv);
    assert((lu * lv) * (aj * bk) - (lu * lv) * (ak * bj) == (lu * lv) * x) by {
        lemma_mul_is_distributive_sub(lu * lv, aj * bk, ak * bj);
    }
    assert(lu * lv * x == pa * pd - pb * pc);
    let s_ = SCALE as int;
    lemma_expand(uj * s_, ej, vk * s_, fk);
    lemma_expand(uk * s_, ek, vj * s_, fj);
    lemma_swap4(uj, s_, vk, s_);
    lemma_swap4(uk, s_, vj, s_);
    assert(uj * vk == uk * vj);
    lemma_scale_left(uj, fk);
    lemma_scale_left(uk, fj);
    lemma_scale_right(ej, vk);
    lemma_scale_right(ek, vj);
    assert(pa == uj * s_ - ej && pb == uk * s_ - ek && pc == vj * s_ - fj && pd == vk * s_ - fk);
    let luv = lu * lv;
    lemma_product_bound(uj, fk, lu, lv);
    lemma_product_bound(uk, fj, lu, lv);
    lemma_product_bound(ej, vk, lu, lv);
    lemma_product_bound(ek, vj, lu, lv);
    lemma_product_bound(ej, fk, lu, lv);
    lemma_product_bound(ek, fj, lu, lv);
    let t = -SCALE * (uj * fk - uk * fj) - SCALE * (ej * vk - ek * vj) + (ej * fk - ek * fj);
    assert(pa * pd - pb * pc == t);
    assert(-(4 * SCALE + 2) * luv <= t <= (4 * SCALE + 2) * luv) by (nonlinear_arith)
        requires
            t == -SCALE * (uj * fk - uk * fj) - SCALE * (ej * vk - ek * vj) + (ej * fk - ek * fj),
            luv == lu * lv,
            -luv <= uj * fk <= luv,
            -luv <= uk * fj <= luv,
            -luv <= ej * vk <= luv,
            -luv <= ek * vj <= luv,
            -luv <= ej * fk <= luv,
            -luv <= ek * fj <= luv,
            SCALE == 1_000_000,
    ;
    assert(luv * x == t) by (nonlinear_arith)
        requires
            lu * lv * x == pa * pd - pb * pc,
            pa * pd - pb * pc == t,
            luv == lu * lv,
    ;
    assert(luv > 0) by (nonlinear_arith)
        requires
            lu > 0,
            lv > 0,
            luv == lu * lv,
    ;
    assert(-(4 * SCALE + 2) <= x <= 4 * SCALE + 2) by (nonlinear_arith)
        requires
            luv > 0,
            luv * x == t,
            -(4 * SCALE + 2) * luv <= t <= (4 * SCALE + 2) * luv,
    ;
}

/// What a unit form `p` of `v` keeps of `v`: each coordinate of `v` is at
/// most the rounded length `l`, and `p` is `v·SCALE/l` up to less than one.
proof fn lemma_unit_facts(v: (int, int, int))
    requires
        unit_of(v) is Some,
    ensures
        ({
            let l = int_sqrt(norm_sq(v.0, v.1, v.2) as nat) as int;
            let p = unit_of(v)->Some_0;
            &&& l > 0
            &&& -l <= v.0 <= l && -l < v.0 * SCALE - p.x * l < l
            &&& -l <= v.1 <= l && -l < v.1 * SCALE - p.y * l < l
            &&& -l <= v.2 <= l && -l < v.2 * SCALE - p.z * l < l
        }),
{
    let q = norm_sq(v.0, v.1, v.2);
    assert(0 <= v.0 * v.0 && 0 <= v.1 * v.1 && 0 <= v.2 * v.2) by (nonlinear_arith);
    lemma_int_sqrt(q as nat);
    let l = int_sqrt(q as nat) as int;
    lemma_scaled_error(v.0, l, q);
    lemma_scaled_error(v.1, l, q);
    lemma_scaled_error(v.2, l, q);
}

/// When the thumb-pinky line is parallel to both the palm and the finger
/// direction, the rounded combined normal is already too short to give an
/// orientation: the exact test for that case never changes a result.
pub proof fn lemma_parallel_palm_is_short(lm: Seq<Point3>)
    requires
        lm.len() >= HAND_LANDMARKS,
        parallel(across_vec(lm), palm_vec(lm)),
        parallel(across_vec(lm), finger_vec(lm)),
    ensures
        match (thumb_pinky(lm), palm_direction(lm), finger_direction(lm)) {
            (Some(a), Some(b), Some(c)) => normalized(
                cross_x(a, b) + cross_x(a, c),
                crate::geometry::cross_y(a, b) + crate::geometry::cross_y(a, c),
                cross_z(a, b) + cross_z(a, c),
                MIN_NORMAL_LEN as int,
            ) is None,
            _ => true,
        },
{
    let (u, v, w) = (across_vec(lm), palm_vec(lm), finger_vec(lm));
    match (thumb_pinky(lm), palm_direction(lm), finger_direction(lm)) {
        (Some(a), Some(b), Some(c)) => {
            lemma_unit_facts(u);
            lemma_unit_facts(v);
            lemma_unit_facts(w);
            let lu = int_sqrt(norm_sq(u.0, u.1, u.2) as nat) as int;
            let lv = int_sqrt(norm_sq(v.0, v.1, v.2) as nat) as int;
            let lw = int_sqrt(norm_sq(w.0, w.1, w.2) as nat) as int;
            lemma_cross_component_small(u.1, u.2, v.1, v.2, a.y as int, a.z as int, b.y as int, b.z as int, lu, lv);
            lemma_cross_component_small(u.2, u.0, v.2, v.0, a.z as int, a.x as int, b.z as int, b.x as int, lu, lv);
            lemma_cross_component_small(u.0, u.1, v.0, v.1, a.x as int, a.y as int, b.x as int, b.y as int, lu, lv);
            lemma_cross_component_small(u.1, u.2, w.1, w.2, a.y as int, a.z as int, c.y as int, c.z as int, lu, lw);
            lemma_cross_component_small(u.2, u.0, w.2, w.0, a.z as int, a.x as int, c.z as int, c.x as int, lu, lw);
            lemma_cross_component_small(u.0, u.1, w.0, w.1, a.x as int, a.y as int, c.x as int, c.y as int, lu, lw);
            let x = cross_x(a, b) + cross_x(a, c);
            let y = crate::geometry::cross_y(a, b) + crate::geometry::cross_y(a, c);
            let z = cross_z(a, b) + cross_z(a, c);
            let bound = 8 * SCALE + 4;
            assert(-bound <= x <= bound && -bound <= y <= bound && -bound <= z <= bound);
            let q = norm_sq(x, y, z);
            assert(q < MIN_NORMAL_LEN * MIN_NORMAL_LEN) by (nonlinear_arith)
                requires
                    -bound <= x <= bound,
                    -bound <= y <= bound,
                    -bound <= z <= bound,
                    bound == 8_000_004,
                    q == x * x + y * y + z * z,
                    MIN_NORMAL_LEN == 16_000_000,
            ;
            assert(q >= 0) by (nonlinear_arith)
                requires
                    q == x * x + y * y + z * z,
            ;
            lemma_int_sqrt(q as nat);
            let l = int_sqrt(q as nat) as int;
            assert(l < MIN_NORMAL_LEN) by (nonlinear_arith)
                requires
                    l >= 0,
                    l * l <= q,
                    q < MIN_NORMAL_LEN * MIN_NORMAL_LEN,
                    MIN_NORMAL_LEN == 16_000_000,
            ;
        },
        _ => {},
    }
}

/// Every non-degenerate hand has a palm normal of length one up to rounding:
/// when the three directions are defined and their combined normal is at
/// least `MIN_NORMAL_LEN` long, the estimator gives `Some(n)` with `n` the
/// normalised combined normal, whose squared length lies strictly between
/// `SCALE² - 4·SCALE - 7` and `(SCALE + 1)²`.
pub proof fn lemma_palm_normal_nondegenerate(lm: Seq<Point3>)
    requires
        lm.len() >= HAND_LANDMARKS,
        thumb_pinky(lm) is Some,
        palm_direction(lm) is Some,
        finger_direction(lm) is Some,
        ({
            let (a, b, c) = (thumb_pinky(lm)->Some_0, palm_direction(lm)->Some_0, finger_direction(lm)->Some_0);
            normalized(
                cross_x(a, b) + cross_x(a, c),
                crate::geometry::cross_y(a, b) + crate::geometry::cross_y(a, c),
                cross_z(a, b) + cross_z(a, c),
                MIN_NORMAL_LEN as int,
            ) is Some
        }),
    ensures
        palm_normal_of(lm) is Some,
        ({
            let (a, b, c) = (thumb_pinky(lm)->Some_0, palm_direction(lm)->Some_0, finger_direction(lm)->Some_0);
            palm_normal_of(lm) == normalized(
                cross_x(a, b) + cross_x(a, c),
                crate::geometry::cross_y(a, b) + crate::geometry::cross_y(a, c),
                cross_z(a, b) + cross_z(a, c),
                MIN_NORMAL_LEN as int,
            )
        }),
        ({
            let n = palm_normal_of(lm)->Some_0;
            let len_sq = norm_sq(n.x as int, n.y as int, n.z as int);
            &&& SCALE * SCALE - 4 * SCALE - 7 < len_sq
            &&& len_sq < (SCALE + 1) * (SCALE + 1)
        }),
{
    if parallel(across_vec(lm), palm_vec(lm)) && parallel(across_vec(lm), finger_vec(lm)) {
        lemma_parallel_palm_is_short(lm);
    }
    lemma_palm_normal_unit(lm);
}

} // verus!
