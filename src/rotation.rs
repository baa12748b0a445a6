//! Per-side accumulation of palm orientation into a smoothed rotation.
use crate::config::TrackerConfig;
use crate::geometry::{cross_y, Point3, SCALE};
use crate::gesture::Rotation;
use crate::history::{bounded_push, History};
use vstd::prelude::*;

verus! {

/// One palm observation: the unit palm normal (scaled by `SCALE`) and the
/// angle in micro-radians by which it turned from the palm normal that was
/// newest before it (zero for the first one).
#[derive(Clone, Copy, Debug, PartialEq, Eq, Structural)]
pub struct PalmSample {
    pub normal: Point3,
    pub turn: u32,
}

/// Number of adjacent pairs `(h[k-1], h[k])`, `1 <= k < n`, whose turn
/// exceeds `thr`.
pub open spec fn valid_pairs(h: Seq<PalmSample>, thr: nat, n: int) -> nat
    decreases n,
{
    if n <= 1 {
        0
    } else {
        valid_pairs(h, thr, n - 1) + if h[n - 2].turn > thr {
            1nat
        } else {
            0nat
        }
    }
}

/// Sum of the turns of those pairs.
pub open spec fn turn_sum(h: Seq<PalmSample>, thr: nat, n: int) -> nat
    decreases n,
{
    if n <= 1 {
        0
    } else {
        turn_sum(h, thr, n - 1) + if h[n - 2].turn > thr {
            h[n - 2].turn as nat
        } else {
            0nat
        }
    }
}

/// `y` component of the sum of `h[k-1] × h[k]` over those pairs.
pub open spec fn axis_y_sum(h: Seq<PalmSample>, thr: nat, n: int) -> int
    decreases n,
{
    if n <= 1 {
        0
    } else {
        axis_y_sum(h, thr, n - 1) + if h[n - 2].turn > thr {
            cross_y(h[n - 2].normal, h[n - 1].normal)
        } else {
            0
        }
    }
}

/// Mean turn of the significant pairs of the palm history, when the history
/// is long enough and enough of its pairs are significant.
pub open spec fn average_turn(h: Seq<PalmSample>, cfg: TrackerConfig) -> Option<nat> {
    let thr = cfg.min_rotation_threshold as nat;
    let v = valid_pairs(h, thr, h.len() as int);
    if h.len() < cfg.min_stable_frames || v == 0 || v + 1 < cfg.min_stable_frames {
        None
    } else {
        Some(turn_sum(h, thr, h.len() as int) / v)
    }
}

/// Weight of the entry `k` steps back: `SCALE` for the newest, each older one
/// `factor / SCALE` of the one before, rounded down.
pub open spec fn weight(factor: nat, k: nat) -> nat
    decreases k,
{
    if k == 0 {
        SCALE as nat
    } else {
        weight(factor, (k - 1) as nat) * factor / (SCALE as nat)
    }
}

pub open spec fn weighted_sum(vals: Seq<u32>, factor: nat, n: nat) -> nat
    decreases n,
{
    if n == 0 {
        0
    } else {
        weighted_sum(vals, factor, (n - 1) as nat) + weight(factor, (n - 1) as nat) * vals[n
            - 1] as nat
    }
}

pub open spec fn weight_total(factor: nat, n: nat) -> nat
    decreases n,
{
    if n == 0 {
        0
    } else {
        weight_total(factor, (n - 1) as nat) + weight(factor, (n - 1) as nat)
    }
}

/// Exponentially weighted mean of a newest-first sequence.
pub open spec fn smoothed(vals: Seq<u32>, factor: nat) -> nat {
    if vals.len() == 0 {
        0
    } else {
        weighted_sum(vals, factor, vals.len()) / weight_total(factor, vals.len())
    }
}

/// The rotation history after a palm history `palm` was reached.
pub open spec fn next_rotations(palm: Seq<PalmSample>, rot: Seq<u32>, cfg: TrackerConfig) -> Seq<
    u32,
> {
    match average_turn(palm, cfg) {
        Some(a) => bounded_push(rot, a as u32, cfg.history_size as nat),
        None => rot,
    }
}

/// The rotation reported once both histories were brought up to date.
pub open spec fn rotation_of(palm: Seq<PalmSample>, rot: Seq<u32>, cfg: TrackerConfig) -> Option<
    Rotation,
> {
    let s = smoothed(rot, cfg.rotation_smoothing_factor as nat);
    if average_turn(palm, cfg).is_some() && s > cfg.gesture_angle_threshold {
        Some(
            Rotation {
                magnitude: s as u32,
                axis_y: axis_y_sum(
                    palm,
                    cfg.min_rotation_threshold as nat,
                    palm.len() as int,
                ) as i128,
            },
        )
    } else {
        None
    }
}

pub proof fn lemma_weight_bound(factor: nat, k: nat)
    requires
        factor <= SCALE,
    ensures
        weight(factor, k) <= SCALE,
    decreases k,
{
    if k > 0 {
        lemma_weight_bound(factor, (k - 1) as nat);
        let w = weight(factor, (k - 1) as nat);
        assert(w * factor / (SCALE as nat) <= w) by (nonlinear_arith)
            requires
                factor <= SCALE,
                SCALE == 1_000_000,
        ;
    }
}

proof fn lemma_weighted_sum_constant(vals: Seq<u32>, factor: nat, n: nat, c: u32)
    requires
        n <= vals.len(),
        forall|k: int| 0 <= k < n ==> vals[k] == c,
    ensures
        weighted_sum(vals, factor, n) == c * weight_total(factor, n),
    decreases n,
{
    if n > 0 {
        lemma_weighted_sum_constant(vals, factor, (n - 1) as nat, c);
        let w = weight(factor, (n - 1) as nat);
        let t = weight_total(factor, (n - 1) as nat);
        assert(vals[n - 1] == c);
        assert(weighted_sum(vals, factor, n) == weighted_sum(vals, factor, (n - 1) as nat) + w * c);
        assert(weight_total(factor, n) == t + w);
        assert((c as int) * (t as int) + (w as int) * (c as int) == (c as int) * ((t + w) as int)) by (nonlinear_arith);
    } else {
        assert((c as int) * 0 == 0);
    }
}

/// A rotation history that holds one value throughout smooths to that value:
/// the weighted mean of equal turns is the turn itself.
pub proof fn lemma_smoothed_constant(vals: Seq<u32>, factor: nat, c: u32)
    requires
        vals.len() > 0,
        forall|k: int| 0 <= k < vals.len() ==> vals[k] == c,
    ensures
        smoothed(vals, factor) == c,
{
    lemma_weighted_sum_constant(vals, factor, vals.len(), c);
    lemma_total_grows(factor, vals.len());
    let t = weight_total(factor, vals.len());
    assert(((c as int) * (t as int)) / (t as int) == c as int) by (nonlinear_arith)
        requires
            t > 0,
    ;
}

proof fn lemma_div_bound(a: nat, b: nat, m: nat)
    requires
        b > 0,
        a <= b * m,
    ensures
        a / b <= m,
{
    assert(a / b <= m) by (nonlinear_arith)
        requires
            b > 0,
            a <= b * m,
    ;
}

/// Palm and rotation histories of one side.
pub struct RotationAccumulator {
    palm_history: History<PalmSample>,
    rotation_history: History<u32>,
}

impl RotationAccumulator {
    pub closed spec fn palm(&self) -> Seq<PalmSample> {
        self.palm_history@
    }

    pub closed spec fn rotations(&self) -> Seq<u32> {
        self.rotation_history@
    }

    pub closed spec fn capacity(&self) -> nat {
        self.palm_history.cap()
    }

    pub closed spec fn wf(&self) -> bool {
        &&& self.palm_history.wf()
        &&& self.rotation_history.wf()
        &&& self.rotation_history.cap() == self.palm_history.cap()
    }

    pub fn new(capacity: usize) -> (r: RotationAccumulator)
        ensures
            r.wf(),
            r.capacity() == capacity,
            r.palm() == Seq::<PalmSample>::empty(),
            r.rotations() == Seq::<u32>::empty(),
    {
        RotationAccumulator { palm_history: History::new(capacity), rotation_history: History::new(capacity) }
    }

    /// The newest palm normal, if any.
    pub fn latest_normal(&self) -> (r: Option<Point3>)
        requires
            self.wf(),
        ensures
            r == (if self.palm().len() == 0 {
                None
            } else {
                Some(self.palm()[0].normal)
            }),
    {
        if self.palm_history.len() == 0 {
            None
        } else {
            Some(self.palm_history.get(0).normal)
        }
    }

    pub fn palm_len(&self) -> (r: usize)
        requires
            self.wf(),
        ensures
            r == self.palm().len(),
            r <= self.capacity(),
    {
        self.palm_history.len()
    }

    pub fn rotation_len(&self) -> (r: usize)
        requires
            self.wf(),
        ensures
            r == self.rotations().len(),
            r <= self.capacity(),
    {
        self.rotation_history.len()
    }

    /// Mean turn of the significant pairs of the palm history, if it is judged.
    fn average_turn(&self, cfg: &TrackerConfig) -> (r: Option<(u32, i128)>)
        requires
            self.wf(),
        ensures
            match average_turn(self.palm(), *cfg) {
                Some(a) => r == Some(
                    (
                        a as u32,
                        axis_y_sum(
                            self.palm(),
                            cfg.min_rotation_threshold as nat,
                            self.palm().len() as int,
                        ) as i128,
                    ),
                ) && a <= u32::MAX,
                None => r.is_none(),
            },
    {
        let n = self.palm_history.len();
        if n < cfg.min_stable_frames || n == 0 {
            return None;
        }
        let thr = cfg.min_rotation_threshold;
        let ghost h = self.palm();
        let mut valid: u64 = 0;
        let mut sum: u128 = 0;
        let mut axis: i128 = 0;
        let mut k: usize = 1;
        while k < n
            invariant
                1 <= k <= n,
                n == h.len(),
                h == self.palm(),
                n <= usize::MAX,
                valid == valid_pairs(h, thr as nat, k as int),
                sum == turn_sum(h, thr as nat, k as int),
                axis == axis_y_sum(h, thr as nat, k as int),
                valid <= k,
                sum <= valid * 0xFFFF_FFFF,
                -(k as int) * 0x8000_0000_0000_0000 <= axis <= (k as int) * 0x8000_0000_0000_0000,
            decreases n - k,
        {
            let prev = self.palm_history.get(k - 1);
            if prev.turn > thr {
                let next = self.palm_history.get(k);
                let c = prev.normal.cross_y(&next.normal);
                valid = valid + 1;
                sum = sum + prev.turn as u128;
                axis = axis + c;
            }
            k = k + 1;
        }
        if valid == 0 || (valid as u128) + 1 < cfg.min_stable_frames as u128 {
            return None;
        }
        proof {
            lemma_div_bound(sum as nat, valid as nat, 0xFFFF_FFFF);
        }
        Some(((sum / (valid as u128)) as u32, axis))
    }

    /// Exponentially weighted mean of the rotation history.
    fn smoothed_rotation(&self, cfg: &TrackerConfig) -> (r: u32)
        requires
            self.wf(),
            cfg.wf(),
        ensures
            r == smoothed(self.rotations(), cfg.rotation_smoothing_factor as nat),
    {
        let n = self.rotation_history.len();
        if n == 0 {
            return 0;
        }
        let f = cfg.rotation_smoothing_factor as u64;
        let ghost vals = self.rotations();
        let mut w: u64 = SCALE as u64;
        let mut ws: u128 = 0;
        let mut wt: u128 = 0;
        let mut k: usize = 0;
        while k < n
            invariant
                k <= n,
                n == vals.len(),
                vals == self.rotations(),
                f <= SCALE,
                w == weight(f as nat, k as nat),
                ws == weighted_sum(vals, f as nat, k as nat),
                wt == weight_total(f as nat, k as nat),
                wt <= k * SCALE,
                ws <= wt * 0xFFFF_FFFF,
            decreases n - k,
        {
            proof {
                lemma_weight_bound(f as nat, k as nat);
            }
            let v = *self.rotation_history.get(k);
            assert(w * v <= w * 0xFFFF_FFFF) by (nonlinear_arith)
                requires v <= 0xFFFF_FFFF;
            ws = ws + (w as u128) * (v as u128);
            wt = wt + w as u128;
            assert((w as int) * (f as int) <= 1_000_000_000_000) by (nonlinear_arith)
                requires w <= 1_000_000, f <= 1_000_000;
            w = w * f / (SCALE as u64);
            k = k + 1;
        }
        assert(wt >= SCALE) by {
            reveal_with_fuel(weight_total, 2);
            assert(weight(f as nat, 0) == SCALE);
            assert forall|j: nat| j >= 1 implies #[trigger] weight_total(f as nat, j) >= SCALE by {
                lemma_total_grows(f as nat, j);
            }
        }
        proof {
            lemma_div_bound(ws as nat, wt as nat, 0xFFFF_FFFF);
        }
        (ws / wt) as u32
    }

    /// Records a palm sample and judges the rotation of the histories that
    /// result.
    pub fn observe(&mut self, sample: PalmSample, cfg: &TrackerConfig) -> (r: Option<Rotation>)
        requires
            old(self).wf(),
            cfg.wf(),
            old(self).capacity() == cfg.history_size,
        ensures
            final(self).wf(),
            final(self).capacity() == old(self).capacity(),
            final(self).palm() == bounded_push(old(self).palm(), sample, cfg.history_size as nat),
            final(self).rotations() == next_rotations(final(self).palm(), old(self).rotations(), *cfg),
            r == rotation_of(final(self).palm(), final(self).rotations(), *cfg),
    {
        self.palm_history.push(sample);
        match self.average_turn(cfg) {
            None => None,
            Some((avg, axis_y)) => {
                self.rotation_history.push(avg);
                let s = self.smoothed_rotation(cfg);
                if s > cfg.gesture_angle_threshold {
                    Some(Rotation { magnitude: s, axis_y })
                } else {
                    None
                }
            },
        }
    }
}

proof fn lemma_total_grows(f: nat, j: nat)
    requires
        j >= 1,
    ensures
        weight_total(f, j) >= SCALE,
    decreases j,
{
    if j > 1 {
        lemma_total_grows(f, (j - 1) as nat);
    } else {
        assert(weight_total(f, 0) == 0);
        assert(weight(f, 0) == SCALE);
    }
}

} // verus!

verus! {

proof fn lemma_constant_pairs(h: Seq<PalmSample>, thr: nat, n: int, t: u32)
    requires
        1 <= n <= h.len(),
        t > thr,
        forall|k: int| 0 <= k < n - 1 ==> #[trigger] h[k].turn == t,
    ensures
        valid_pairs(h, thr, n) == n - 1,
        turn_sum(h, thr, n) == (n - 1) * t,
    decreases n,
{
    if n > 1 {
        lemma_constant_pairs(h, thr, n - 1, t);
        assert(h[n - 2].turn == t);
        assert((n - 2) * t + t == (n - 1) * t) by (nonlinear_arith);
    }
}

/// A steady turn gives a steady rotation. When every pair of the palm history
/// turned by the same significant angle `t` and the rotation history held
/// only `t`, the history is judged with mean turn `t`, the rotation history
/// still holds only `t`, and the rotation reported is `t` itself whenever it
/// exceeds the gesture threshold, and none otherwise.
pub proof fn lemma_steady_rotation(palm: Seq<PalmSample>, rot: Seq<u32>, cfg: TrackerConfig, t: u32)
    requires
        palm.len() >= 2,
        palm.len() >= cfg.min_stable_frames,
        cfg.history_size >= 1,
        t > cfg.min_rotation_threshold,
        forall|k: int| 0 <= k < palm.len() - 1 ==> #[trigger] palm[k].turn == t,
        forall|k: int| 0 <= k < rot.len() ==> #[trigger] rot[k] == t,
    ensures
        average_turn(palm, cfg) == Some(t as nat),
        next_rotations(palm, rot, cfg).len() >= 1,
        forall|k: int|
            0 <= k < next_rotations(palm, rot, cfg).len() ==> #[trigger] next_rotations(
                palm,
                rot,
                cfg,
            )[k] == t,
        rotation_of(palm, next_rotations(palm, rot, cfg), cfg) is Some <==> t
            > cfg.gesture_angle_threshold,
        rotation_of(palm, next_rotations(palm, rot, cfg), cfg) matches Some(r) ==> r.magnitude == t,
{
    let n = palm.len() as int;
    let thr = cfg.min_rotation_threshold as nat;
    lemma_constant_pairs(palm, thr, n, t);
    assert(((n - 1) * t) / (n - 1) == t as int) by (nonlinear_arith)
        requires
            n >= 2,
    ;
    let next = next_rotations(palm, rot, cfg);
    let pushed = seq![t] + rot;
    assert(next == bounded_push(rot, t, cfg.history_size as nat));
    assert forall|k: int| 0 <= k < next.len() implies #[trigger] next[k] == t by {
        assert(next[k] == pushed[k]);
        if k > 0 {
            assert(pushed[k] == rot[k - 1]);
        }
    }
    assert(next[0] == t);
    lemma_smoothed_constant(next, cfg.rotation_smoothing_factor as nat, t);
}

} // verus!
