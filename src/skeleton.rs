//! Sides, tracked joints, the detector's body-landmark numbering and the
//! assignment of unlabelled hands to a side.
use crate::geometry::{dist_sq, Point3, SCALE};
use vstd::prelude::*;

verus! {

/// Body landmarks a frame needs before it is tracked.
pub const MIN_BODY_LANDMARKS: usize = 17;

/// Landmarks in one hand observation.
pub const HAND_LANDMARKS: usize = 21;

/// Farthest a hand's wrist may lie from an arm's wrist and still be matched
/// to it by distance, in fixed-point steps.
pub const HAND_ARM_CUTOFF: i128 = 300_000;

/// Confidence given to every smoothed joint, in millionths.
pub const JOINT_CONFIDENCE: u32 = 900_000;

#[derive(Clone, Copy, Debug, PartialEq, Eq, Hash, Structural)]
pub enum Side {
    Left,
    Right,
}

#[derive(Clone, Copy, Debug, PartialEq, Eq, Structural)]
pub enum Segment {
    Shoulder,
    Elbow,
    Wrist,
}

/// The six tracked body joints.
#[derive(Clone, Copy, Debug, PartialEq, Eq, Hash, Structural)]
pub enum JointName {
    LeftShoulder,
    RightShoulder,
    LeftElbow,
    RightElbow,
    LeftWrist,
    RightWrist,
}

pub open spec fn joint_of(side: Side, segment: Segment) -> JointName {
    match (side, segment) {
        (Side::Left, Segment::Shoulder) => JointName::LeftShoulder,
        (Side::Right, Segment::Shoulder) => JointName::RightShoulder,
        (Side::Left, Segment::Elbow) => JointName::LeftElbow,
        (Side::Right, Segment::Elbow) => JointName::RightElbow,
        (Side::Left, Segment::Wrist) => JointName::LeftWrist,
        (Side::Right, Segment::Wrist) => JointName::RightWrist,
    }
}

pub open spec fn side_of(j: JointName) -> Side {
    match j {
        JointName::LeftShoulder | JointName::LeftElbow | JointName::LeftWrist => Side::Left,
        _ => Side::Right,
    }
}

pub open spec fn segment_of(j: JointName) -> Segment {
    match j {
        JointName::LeftShoulder | JointName::RightShoulder => Segment::Shoulder,
        JointName::LeftElbow | JointName::RightElbow => Segment::Elbow,
        _ => Segment::Wrist,
    }
}

/// Position of each joint in the detector's body-landmark list.
pub open spec fn body_index_of(j: JointName) -> nat {
    match j {
        JointName::LeftShoulder => 11,
        JointName::RightShoulder => 12,
        JointName::LeftElbow => 13,
        JointName::RightElbow => 14,
        JointName::LeftWrist => 15,
        JointName::RightWrist => 16,
    }
}

impl Side {
    /// The key under which the side is reported.
    pub fn key(&self) -> (r: &'static str)
        ensures
            r@ == match *self {
                Side::Left => "left"@,
                Side::Right => "right"@,
            },
    {
        match self {
            Side::Left => "left",
            Side::Right => "right",
        }
    }
}

impl JointName {
    /// The key under which the joint is reported.
    pub fn key(&self) -> (r: &'static str)
        ensures
            r@ == match *self {
                JointName::LeftShoulder => "left_shoulder"@,
                JointName::RightShoulder => "right_shoulder"@,
                JointName::LeftElbow => "left_elbow"@,
                JointName::RightElbow => "right_elbow"@,
                JointName::LeftWrist => "left_wrist"@,
                JointName::RightWrist => "right_wrist"@,
            },
    {
        match self {
            JointName::LeftShoulder => "left_shoulder",
            JointName::RightShoulder => "right_shoulder",
            JointName::LeftElbow => "left_elbow",
            JointName::RightElbow => "right_elbow",
            JointName::LeftWrist => "left_wrist",
            JointName::RightWrist => "right_wrist",
        }
    }

    /// The six joints in the order a frame smooths them.
    pub fn all() -> (r: Vec<JointName>)
        ensures
            r@ == seq![
                JointName::LeftShoulder,
                JointName::RightShoulder,
                JointName::LeftElbow,
                JointName::RightElbow,
                JointName::LeftWrist,
                JointName::RightWrist,
            ],
    {
        vec![
            JointName::LeftShoulder,
            JointName::RightShoulder,
            JointName::LeftElbow,
            JointName::RightElbow,
            JointName::LeftWrist,
            JointName::RightWrist,
        ]
    }

    pub fn of(side: Side, segment: Segment) -> (r: JointName)
        ensures
            r == joint_of(side, segment),
    {
        match (side, segment) {
            (Side::Left, Segment::Shoulder) => JointName::LeftShoulder,
            (Side::Right, Segment::Shoulder) => JointName::RightShoulder,
            (Side::Left, Segment::Elbow) => JointName::LeftElbow,
            (Side::Right, Segment::Elbow) => JointName::RightElbow,
            (Side::Left, Segment::Wrist) => JointName::LeftWrist,
            (Side::Right, Segment::Wrist) => JointName::RightWrist,
        }
    }

    pub fn side(&self) -> (r: Side)
        ensures
            r == side_of(*self),
            joint_of(r, segment_of(*self)) == *self,
    {
        match self {
            JointName::LeftShoulder | JointName::LeftElbow | JointName::LeftWrist => Side::Left,
            _ => Side::Right,
        }
    }

    pub fn segment(&self) -> (r: Segment)
        ensures
            r == segment_of(*self),
    {
        match self {
            JointName::LeftShoulder | JointName::RightShoulder => Segment::Shoulder,
            JointName::LeftElbow | JointName::RightElbow => Segment::Elbow,
            _ => Segment::Wrist,
        }
    }

    pub fn body_index(&self) -> (r: usize)
        ensures
            r == body_index_of(*self),
            r < MIN_BODY_LANDMARKS,
    {
        match self {
            JointName::LeftShoulder => 11,
            JointName::RightShoulder => 12,
            JointName::LeftElbow => 13,
            JointName::RightElbow => 14,
            JointName::LeftWrist => 15,
            JointName::RightWrist => 16,
        }
    }

    /// Whether a body-landmark list of `body_len` points holds this joint.
    pub fn present_in(&self, body_len: usize) -> (r: bool)
        ensures
            r == (body_index_of(*self) < body_len),
            body_len >= MIN_BODY_LANDMARKS ==> r,
    {
        self.body_index() < body_len
    }
}

/// Whether a hand observation has the landmark count the tracker works on.
pub fn accepts_hand(hand_len: usize) -> (r: bool)
    ensures
        r == (hand_len == HAND_LANDMARKS),
{
    hand_len == HAND_LANDMARKS
}

/// Whether shoulder, elbow and wrist of `side` are all in a body-landmark
/// list of `body_len` points, so that the side's gesture can be judged.
pub fn arm_complete(side: Side, body_len: usize) -> (r: bool)
    ensures
        r == (body_index_of(joint_of(side, Segment::Shoulder)) < body_len
            && body_index_of(joint_of(side, Segment::Elbow)) < body_len
            && body_index_of(joint_of(side, Segment::Wrist)) < body_len),
        body_len >= MIN_BODY_LANDMARKS ==> r,
{
    JointName::of(side, Segment::Shoulder).present_in(body_len)
        && JointName::of(side, Segment::Elbow).present_in(body_len)
        && JointName::of(side, Segment::Wrist).present_in(body_len)
}

/// Side chosen from the horizontal position alone: the camera view is
/// mirrored, so the left half of the image holds the right arm.
pub open spec fn fallback_side(hand_wrist: Point3) -> Side {
    if hand_wrist.x < SCALE / 2 {
        Side::Right
    } else {
        Side::Left
    }
}

/// Side a hand is given: the nearer arm wrist when both are known and the
/// nearer lies within the cutoff, otherwise the horizontal fallback.
pub open spec fn assigned_side(hand_wrist: Point3, left: Option<Point3>, right: Option<Point3>) -> Side {
    match (left, right) {
        (Some(l), Some(r)) => {
            let dl = dist_sq(hand_wrist, l);
            let dr = dist_sq(hand_wrist, r);
            let cut = HAND_ARM_CUTOFF * HAND_ARM_CUTOFF;
            if dl > cut && dr > cut {
                fallback_side(hand_wrist)
            } else if dl < dr {
                Side::Left
            } else {
                Side::Right
            }
        },
        _ => fallback_side(hand_wrist),
    }
}

/// Assigns a hand, by its wrist landmark, to a side, given the smoothed
/// wrists of the two arms in this frame.
pub fn assign_side(hand_wrist: Point3, left_wrist: Option<Point3>, right_wrist: Option<Point3>) -> (r: Side)
    ensures
        r == assigned_side(hand_wrist, left_wrist, right_wrist),
{
    let fallback = if hand_wrist.x < (SCALE / 2) as i32 {
        Side::Right
    } else {
        Side::Left
    };
    match (left_wrist, right_wrist) {
        (Some(l), Some(rw)) => {
            let dl = hand_wrist.distance_sq(&l);
            let dr = hand_wrist.distance_sq(&rw);
            let cut = HAND_ARM_CUTOFF * HAND_ARM_CUTOFF;
            if dl > cut && dr > cut {
                fallback
            } else if dl < dr {
                Side::Left
            } else {
                Side::Right
            }
        },
        _ => fallback,
    }
}

} // verus!
