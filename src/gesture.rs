//! Classification of a smoothed rotation into pronation or supination.
use crate::geometry::SCALE;
use crate::skeleton::Side;
use vstd::prelude::*;

verus! {

#[derive(Clone, Copy, Debug, PartialEq, Eq, Structural)]
pub enum GestureType {
    Pronation,
    Supination,
    /// No rotation: neither pronation nor supination.
    Neutral,
}

/// A classified gesture: `confidence` in millionths, `angle` in micro-radians.
#[derive(Clone, Copy, Debug, PartialEq, Eq, Structural)]
pub struct GestureState {
    pub gesture_type: GestureType,
    pub confidence: u32,
    pub angle: u32,
}

/// A rotation judged significant: its smoothed magnitude in micro-radians and
/// the `y` component of the accumulated rotation axis.
#[derive(Clone, Copy, Debug, PartialEq, Eq, Structural)]
pub struct Rotation {
    pub magnitude: u32,
    pub axis_y: i128,
}

/// `min(1, rotation / (2 * threshold))`, in millionths.
pub open spec fn confidence_of(rotation: nat, threshold: nat) -> nat {
    if rotation >= 2 * threshold {
        SCALE as nat
    } else {
        (rotation * (SCALE as int) / (2 * threshold as int)) as nat
    }
}

/// The rule that names the direction: an axis pointing down the `y` axis is
/// supination. It is the same rule for both sides.
pub open spec fn direction_of(axis_y: int, side: Side) -> GestureType {
    if axis_y < 0 {
        GestureType::Supination
    } else {
        GestureType::Pronation
    }
}

pub open spec fn classify_spec(rotation: Rotation, side: Side, threshold: nat) -> GestureState {
    GestureState {
        gesture_type: direction_of(rotation.axis_y as int, side),
        confidence: confidence_of(rotation.magnitude as nat, threshold) as u32,
        angle: rotation.magnitude,
    }
}

/// The state held before any gesture was seen.
pub open spec fn no_gesture() -> GestureState {
    GestureState { gesture_type: GestureType::Neutral, confidence: 0, angle: 0 }
}

impl GestureState {
    /// The state held before any gesture was seen.
    pub fn none() -> (r: GestureState)
        ensures
            r == no_gesture(),
    {
        GestureState { gesture_type: GestureType::Neutral, confidence: 0, angle: 0 }
    }
}

/// Turns a significant rotation of `side` into a gesture, given the gesture
/// angle threshold.
pub fn classify(rotation: Rotation, side: Side, threshold: u32) -> (r: GestureState)
    ensures
        r == classify_spec(rotation, side, threshold as nat),
        r.confidence <= SCALE,
        r.gesture_type != GestureType::Neutral,
{
    let gesture_type = if rotation.axis_y < 0 {
        GestureType::Supination
    } else {
        GestureType::Pronation
    };
    let m = rotation.magnitude as u64;
    let twice = 2 * (threshold as u64);
    let confidence: u32 = if m >= twice {
        SCALE
    } else {
        let c = m * (SCALE as u64) / twice;
        assert((m as int) * (SCALE as int) / (twice as int) <= SCALE as int) by (nonlinear_arith)
            requires m < twice, twice > 0, SCALE == 1_000_000;
        c as u32
    };
    GestureState { gesture_type, confidence, angle: rotation.magnitude }
}

} // verus!
