//! The per-session tracker state and the decisions of the per-frame protocol.
use crate::config::{default_config, TrackerConfig};
use crate::geometry::{Point3, SCALE};
use crate::gesture::{classify, classify_spec, no_gesture, GestureState, GestureType};
use crate::history::bounded_push;
use crate::rotation::{next_rotations, rotation_of, PalmSample, RotationAccumulator};
use crate::skeleton::{Side, MIN_BODY_LANDMARKS};
use vstd::prelude::*;

verus! {

/// Time between two frames, in microseconds.
pub const FRAME_INTERVAL_US: u64 = 33_000;

/// How a frame is to be handled, decided before any landmark is smoothed.
#[derive(Clone, Copy, Debug, PartialEq, Eq, Structural)]
pub struct FramePlan {
    /// Time stamp of the frame, in microseconds since the session began.
    pub timestamp_us: u64,
    /// The detector failed or gave too few body landmarks: nothing of this
    /// frame is smoothed, assigned or classified.
    pub tracking_lost: bool,
}

/// Whether a frame is lost: the detector failed, or it saw a body but gave
/// fewer landmarks than tracking needs. A detection with no body landmarks at
/// all has nothing in view; it is not lost.
pub open spec fn frame_lost(detector_ok: bool, body_len: usize) -> bool {
    !detector_ok || (1 <= body_len && body_len < MIN_BODY_LANDMARKS)
}

/// What a side shows: a fresh gesture replaces the last one kept; without one
/// the last concrete gesture stays on display.
pub open spec fn settled(cache: GestureState, computed: Option<GestureState>) -> (
    Option<GestureState>,
    GestureState,
) {
    match computed {
        Some(g) => (Some(g), g),
        None => (
            if cache.gesture_type != GestureType::Neutral {
                Some(cache)
            } else {
                None
            },
            cache,
        ),
    }
}

/// Once a side shows a concrete gesture, frames that yield no rotation keep
/// showing it, one such frame or two in a row: only a new concrete gesture
/// replaces what is kept.
pub proof fn lemma_gesture_sticks(cache: GestureState, g: GestureState)
    requires
        g.gesture_type != GestureType::Neutral,
    ensures
        settled(cache, Some(g)) == (Some(g), g),
        settled(settled(cache, Some(g)).1, None) == (Some(g), g),
        settled(settled(settled(cache, Some(g)).1, None).1, None) == (Some(g), g),
{
}

/// Whether a frame shows nothing: it is lost, or its detection succeeded with
/// no body landmarks at all, so nothing is in view.
pub open spec fn frame_blank(detector_ok: bool, body_len: usize) -> bool {
    frame_lost(detector_ok, body_len) || body_len == 0
}

/// A detection that succeeds with no landmarks is not lost, yet its frame is
/// blank: `end_frame` then shows no gesture on either side and keeps every
/// history and kept gesture as it was.
pub proof fn lemma_empty_frame()
    ensures
        !frame_lost(true, 0),
        frame_blank(true, 0),
{
}

/// State of one tracking session: each side's palm and rotation histories,
/// the last concrete gesture kept for each side, the per-side switches, the
/// frame clock and the frame being processed.
pub struct ArmTracker {
    config: TrackerConfig,
    left: RotationAccumulator,
    right: RotationAccumulator,
    last_left: GestureState,
    last_right: GestureState,
    left_arm_active: bool,
    right_arm_active: bool,
    left_fingers_active: bool,
    right_fingers_active: bool,
    next_timestamp_us: u64,
    frame_lost: bool,
    frame_blank: bool,
    pending_left: Option<GestureState>,
    pending_right: Option<GestureState>,
}

/// The gestures a frame shows for each side.
#[derive(Clone, Copy, Debug, PartialEq, Eq, Structural)]
pub struct FrameGestures {
    pub left: Option<GestureState>,
    pub right: Option<GestureState>,
}

impl ArmTracker {
    pub closed spec fn cfg(&self) -> TrackerConfig {
        self.config
    }

    pub closed spec fn palm(&self, side: Side) -> Seq<PalmSample> {
        match side {
            Side::Left => self.left.palm(),
            Side::Right => self.right.palm(),
        }
    }

    pub closed spec fn rotations(&self, side: Side) -> Seq<u32> {
        match side {
            Side::Left => self.left.rotations(),
            Side::Right => self.right.rotations(),
        }
    }

    /// The last concrete gesture kept for `side`.
    pub closed spec fn last_valid(&self, side: Side) -> GestureState {
        match side {
            Side::Left => self.last_left,
            Side::Right => self.last_right,
        }
    }

    pub closed spec fn arm_active(&self, side: Side) -> bool {
        match side {
            Side::Left => self.left_arm_active,
            Side::Right => self.right_arm_active,
        }
    }

    pub closed spec fn fingers_active(&self, side: Side) -> bool {
        match side {
            Side::Left => self.left_fingers_active,
            Side::Right => self.right_fingers_active,
        }
    }

    /// The gesture computed for `side` in the open frame, if any.
    pub closed spec fn pending(&self, side: Side) -> Option<GestureState> {
        match side {
            Side::Left => self.pending_left,
            Side::Right => self.pending_right,
        }
    }

    /// Whether the open frame is not tracked.
    pub closed spec fn lost(&self) -> bool {
        self.frame_lost
    }

    /// Whether the open frame shows nothing.
    pub closed spec fn blank(&self) -> bool {
        self.frame_blank
    }

    pub closed spec fn clock(&self) -> nat {
        self.next_timestamp_us as nat
    }

    pub closed spec fn wf(&self) -> bool {
        &&& self.config.wf()
        &&& self.left.wf()
        &&& self.right.wf()
        &&& self.left.capacity() == self.config.history_size
        &&& self.right.capacity() == self.config.history_size
        &&& self.last_left.confidence <= SCALE
        &&& self.last_right.confidence <= SCALE
        &&& (self.pending_left matches Some(g) ==> g.confidence <= SCALE)
        &&& (self.pending_right matches Some(g) ==> g.confidence <= SCALE)
    }

    /// What a frame does not touch: the histories, the kept gestures and the
    /// switches.
    pub open spec fn same_state(&self, other: &ArmTracker) -> bool {
        &&& self.cfg() == other.cfg()
        &&& forall|s: Side| #[trigger] self.palm(s) == other.palm(s)
        &&& forall|s: Side| #[trigger] self.rotations(s) == other.rotations(s)
        &&& forall|s: Side| #[trigger] self.last_valid(s) == other.last_valid(s)
        &&& forall|s: Side| #[trigger] self.arm_active(s) == other.arm_active(s)
        &&& forall|s: Side| #[trigger] self.fingers_active(s) == other.fingers_active(s)
    }

    /// A tracker with the default configuration.
    pub fn new() -> (r: ArmTracker)
        ensures
            r.wf(),
            r.cfg() == default_config(),
            forall|s: Side| #[trigger] r.palm(s) == Seq::<PalmSample>::empty(),
            forall|s: Side| #[trigger] r.rotations(s) == Seq::<u32>::empty(),
            forall|s: Side| #[trigger] r.last_valid(s) == no_gesture(),
            forall|s: Side| #[trigger] r.arm_active(s),
            forall|s: Side| #[trigger] r.fingers_active(s),
            r.clock() == 0,
    {
        let config = TrackerConfig::default();
        ArmTracker::with_config(config)
    }

    pub fn with_config(config: TrackerConfig) -> (r: ArmTracker)
        requires
            config.wf(),
        ensures
            r.wf(),
            r.cfg() == config,
            forall|s: Side| #[trigger] r.palm(s) == Seq::<PalmSample>::empty(),
            forall|s: Side| #[trigger] r.rotations(s) == Seq::<u32>::empty(),
            forall|s: Side| #[trigger] r.last_valid(s) == no_gesture(),
            forall|s: Side| #[trigger] r.arm_active(s),
            forall|s: Side| #[trigger] r.fingers_active(s),
            r.clock() == 0,
    {
        ArmTracker {
            config,
            left: RotationAccumulator::new(config.history_size),
            right: RotationAccumulator::new(config.history_size),
            last_left: GestureState::none(),
            last_right: GestureState::none(),
            left_arm_active: true,
            right_arm_active: true,
            left_fingers_active: true,
            right_fingers_active: true,
            next_timestamp_us: 0,
            frame_lost: false,
            frame_blank: false,
            pending_left: None,
            pending_right: None,
        }
    }

    pub fn config(&self) -> (r: &TrackerConfig)
        ensures
            *r == self.cfg(),
    {
        &self.config
    }

    /// Opens a frame: stamps it and decides whether it is tracked at all.
    /// Only the clock moves; a frame that is not tracked changes nothing else
    /// before the next one.
    pub fn begin_frame(&mut self, detector_ok: bool, body_len: usize) -> (r: FramePlan)
        requires
            old(self).wf(),
        ensures
            final(self).wf(),
            final(self).same_state(old(self)),
            r.timestamp_us == old(self).clock(),
            final(self).clock() == if old(self).clock() + FRAME_INTERVAL_US <= u64::MAX {
                old(self).clock() + FRAME_INTERVAL_US
            } else {
                u64::MAX as int
            },
            r.tracking_lost == frame_lost(detector_ok, body_len),
            final(self).lost() == r.tracking_lost,
            final(self).blank() == frame_blank(detector_ok, body_len),
            forall|s: Side| #[trigger] final(self).pending(s) == None::<GestureState>,
    {
        let timestamp_us = self.next_timestamp_us;
        self.next_timestamp_us = self.next_timestamp_us.saturating_add(FRAME_INTERVAL_US);
        let tracking_lost = !detector_ok || (1 <= body_len && body_len < MIN_BODY_LANDMARKS);
        self.frame_lost = tracking_lost;
        self.frame_blank = tracking_lost || body_len == 0;
        self.pending_left = None;
        self.pending_right = None;
        FramePlan { timestamp_us, tracking_lost }
    }

    /// The newest palm normal recorded for `side`, against which the turn of
    /// the next palm sample is measured.
    pub fn latest_palm_normal(&self, side: Side) -> (r: Option<Point3>)
        requires
            self.wf(),
        ensures
            r == (if self.palm(side).len() == 0 {
                None
            } else {
                Some(self.palm(side)[0].normal)
            }),
    {
        match side {
            Side::Left => self.left.latest_normal(),
            Side::Right => self.right.latest_normal(),
        }
    }

    pub fn palm_history_len(&self, side: Side) -> (r: usize)
        requires
            self.wf(),
        ensures
            r == self.palm(side).len(),
            r <= self.cfg().history_size,
    {
        match side {
            Side::Left => self.left.palm_len(),
            Side::Right => self.right.palm_len(),
        }
    }

    pub fn rotation_history_len(&self, side: Side) -> (r: usize)
        requires
            self.wf(),
        ensures
            r == self.rotations(side).len(),
            r <= self.cfg().history_size,
    {
        match side {
            Side::Left => self.left.rotation_len(),
            Side::Right => self.right.rotation_len(),
        }
    }

    /// Records the palm orientation of `side` for this frame and classifies
    /// the rotation it completes, if any.
    pub fn observe_palm(&mut self, side: Side, sample: PalmSample) -> (r: Option<GestureState>)
        requires
            old(self).wf(),
        ensures
            final(self).wf(),
            final(self).cfg() == old(self).cfg(),
            final(self).palm(side) == bounded_push(
                old(self).palm(side),
                sample,
                old(self).cfg().history_size as nat,
            ),
            final(self).rotations(side) == next_rotations(
                final(self).palm(side),
                old(self).rotations(side),
                old(self).cfg(),
            ),
            r == match rotation_of(final(self).palm(side), final(self).rotations(side), old(self).cfg()) {
                Some(rot) => Some(classify_spec(rot, side, old(self).cfg().gesture_angle_threshold as nat)),
                None => None::<GestureState>,
            },
            forall|s: Side| s != side ==> #[trigger] final(self).palm(s) == old(self).palm(s),
            forall|s: Side| s != side ==> #[trigger] final(self).rotations(s) == old(self).rotations(s),
            forall|s: Side| #[trigger] final(self).last_valid(s) == old(self).last_valid(s),
            forall|s: Side| #[trigger] final(self).arm_active(s) == old(self).arm_active(s),
            forall|s: Side| #[trigger] final(self).fingers_active(s) == old(self).fingers_active(s),
            final(self).clock() == old(self).clock(),
            final(self).lost() == old(self).lost(),
            final(self).blank() == old(self).blank(),
            final(self).pending(side) == if r.is_some() {
                r
            } else {
                old(self).pending(side)
            },
            forall|s: Side| s != side ==> #[trigger] final(self).pending(s) == old(self).pending(s),
    {
        let rotation = match side {
            Side::Left => self.left.observe(sample, &self.config),
            Side::Right => self.right.observe(sample, &self.config),
        };
        match rotation {
            Some(rot) => {
                let g = classify(rot, side, self.config.gesture_angle_threshold);
                match side {
                    Side::Left => self.pending_left = Some(g),
                    Side::Right => self.pending_right = Some(g),
                }
                Some(g)
            },
            None => None,
        }
    }

    fn settle(&mut self, side: Side) -> (r: Option<GestureState>)
        ensures
            r == settled(old(self).last_valid(side), old(self).pending(side)).0,
            final(self).last_valid(side) == settled(old(self).last_valid(side), old(self).pending(side)).1,
            forall|s: Side| s != side ==> #[trigger] final(self).last_valid(s) == old(self).last_valid(s),
            forall|s: Side| #[trigger] final(self).palm(s) == old(self).palm(s),
            forall|s: Side| #[trigger] final(self).rotations(s) == old(self).rotations(s),
            forall|s: Side| #[trigger] final(self).arm_active(s) == old(self).arm_active(s),
            forall|s: Side| #[trigger] final(self).fingers_active(s) == old(self).fingers_active(s),
            forall|s: Side| #[trigger] final(self).pending(s) == old(self).pending(s),
            final(self).cfg() == old(self).cfg(),
            final(self).clock() == old(self).clock(),
            final(self).lost() == old(self).lost(),
            final(self).blank() == old(self).blank(),
            old(self).wf() ==> final(self).wf(),
    {
        let (computed, cache) = match side {
            Side::Left => (self.pending_left, &mut self.last_left),
            Side::Right => (self.pending_right, &mut self.last_right),
        };
        match computed {
            Some(g) => {
                *cache = g;
                Some(g)
            },
            None => {
                if cache.gesture_type != GestureType::Neutral {
                    Some(*cache)
                } else {
                    None
                }
            },
        }
    }

    /// Closes a frame and says what each side shows. In a tracked frame a
    /// side shows the last gesture computed for it in the frame, which is
    /// kept; without one, the last concrete gesture kept for it. A frame that
    /// is not tracked shows nothing and keeps what was kept.
    pub fn end_frame(&mut self) -> (r: FrameGestures)
        requires
            old(self).wf(),
        ensures
            final(self).wf(),
            old(self).blank() ==> r == (FrameGestures { left: None, right: None }),
            old(self).blank() ==> final(self).same_state(old(self)),
            r.left matches Some(g) ==> g.confidence <= SCALE,
            r.right matches Some(g) ==> g.confidence <= SCALE,
            !old(self).blank() ==> {
                &&& r.left == settled(old(self).last_valid(Side::Left), old(self).pending(Side::Left)).0
                &&& r.right == settled(old(self).last_valid(Side::Right), old(self).pending(Side::Right)).0
                &&& forall|s: Side| #[trigger] final(self).last_valid(s) == settled(old(self).last_valid(s), old(self).pending(s)).1
            },
            forall|s: Side| #[trigger] final(self).palm(s) == old(self).palm(s),
            forall|s: Side| #[trigger] final(self).rotations(s) == old(self).rotations(s),
            forall|s: Side| #[trigger] final(self).arm_active(s) == old(self).arm_active(s),
            forall|s: Side| #[trigger] final(self).fingers_active(s) == old(self).fingers_active(s),
            final(self).cfg() == old(self).cfg(),
            final(self).clock() == old(self).clock(),
    {
        if self.frame_blank {
            return FrameGestures { left: None, right: None };
        }
        let left = self.settle(Side::Left);
        let right = self.settle(Side::Right);
        FrameGestures { left, right }
    }

    /// The last concrete gesture kept for `side`.
    pub fn last_valid_gesture(&self, side: Side) -> (r: GestureState)
        ensures
            r == self.last_valid(side),
    {
        match side {
            Side::Left => self.last_left,
            Side::Right => self.last_right,
        }
    }

    pub fn toggle_arm(&mut self, side: Side)
        ensures
            final(self).arm_active(side) == !old(self).arm_active(side),
            final(self).arm_active(other_side(side)) == old(self).arm_active(other_side(side)),
            forall|s: Side| #[trigger] final(self).palm(s) == old(self).palm(s),
            forall|s: Side| #[trigger] final(self).rotations(s) == old(self).rotations(s),
            forall|s: Side| #[trigger] final(self).last_valid(s) == old(self).last_valid(s),
            forall|s: Side| #[trigger] final(self).fingers_active(s) == old(self).fingers_active(s),
            final(self).cfg() == old(self).cfg(),
            final(self).clock() == old(self).clock(),
            final(self).lost() == old(self).lost(),
            final(self).blank() == old(self).blank(),
            forall|s: Side| #[trigger] final(self).pending(s) == old(self).pending(s),
            old(self).wf() ==> final(self).wf(),
    {
        match side {
            Side::Left => self.left_arm_active = !self.left_arm_active,
            Side::Right => self.right_arm_active = !self.right_arm_active,
        }
    }

    pub fn toggle_fingers(&mut self, side: Side)
        ensures
            final(self).fingers_active(side) == !old(self).fingers_active(side),
            final(self).fingers_active(other_side(side)) == old(self).fingers_active(other_side(side)),
            forall|s: Side| #[trigger] final(self).palm(s) == old(self).palm(s),
            forall|s: Side| #[trigger] final(self).rotations(s) == old(self).rotations(s),
            forall|s: Side| #[trigger] final(self).last_valid(s) == old(self).last_valid(s),
            forall|s: Side| #[trigger] final(self).arm_active(s) == old(self).arm_active(s),
            final(self).cfg() == old(self).cfg(),
            final(self).clock() == old(self).clock(),
            final(self).lost() == old(self).lost(),
            final(self).blank() == old(self).blank(),
            forall|s: Side| #[trigger] final(self).pending(s) == old(self).pending(s),
            old(self).wf() ==> final(self).wf(),
    {
        match side {
            Side::Left => self.left_fingers_active = !self.left_fingers_active,
            Side::Right => self.right_fingers_active = !self.right_fingers_active,
        }
    }

    pub fn is_arm_active(&self, side: Side) -> (r: bool)
        ensures
            r == self.arm_active(side),
    {
        match side {
            Side::Left => self.left_arm_active,
            Side::Right => self.right_arm_active,
        }
    }

    pub fn are_fingers_active(&self, side: Side) -> (r: bool)
        ensures
            r == self.fingers_active(side),
    {
        match side {
            Side::Left => self.left_fingers_active,
            Side::Right => self.right_fingers_active,
        }
    }
}

pub open spec fn other_side(side: Side) -> Side {
    match side {
        Side::Left => Side::Right,
        Side::Right => Side::Left,
    }
}

} // verus!
