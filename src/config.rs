//! Tuning of the tracker, fixed for one tracking session.
use crate::geometry::SCALE;
use vstd::prelude::*;

verus! {

/// Session configuration. Angles are in micro-radians, the confidence
/// threshold and the smoothing factor in millionths.
#[derive(Clone, Copy, Debug)]
pub struct TrackerConfig {
    /// Capacity of each per-side history.
    pub history_size: usize,
    /// Detector confidence below which the surrounding application distrusts
    /// a frame; the tracking core itself does not read it.
    pub confidence_threshold: u32,
    /// Smoothed rotation above which a gesture is reported.
    pub gesture_angle_threshold: u32,
    /// Frame-to-frame palm turn above which a turn counts as real motion.
    pub min_rotation_threshold: u32,
    /// Factor by which each older rotation value weighs less, at most one.
    pub rotation_smoothing_factor: u32,
    /// Palm samples needed before a rotation is judged.
    pub min_stable_frames: usize,
    pub enable_kalman: bool,
    pub downsample_width: u32,
    pub adaptive_frame_skip: bool,
    pub max_frame_skip: usize,
}

impl TrackerConfig {
    pub open spec fn wf(&self) -> bool {
        self.rotation_smoothing_factor <= SCALE
    }
}

/// The configuration a session starts with unless told otherwise.
pub open spec fn default_config() -> TrackerConfig {
    TrackerConfig {
        history_size: 10,
        confidence_threshold: 600_000,
        gesture_angle_threshold: 50_000,
        min_rotation_threshold: 30_000,
        rotation_smoothing_factor: 500_000,
        min_stable_frames: 2,
        enable_kalman: true,
        downsample_width: 640,
        adaptive_frame_skip: false,
        max_frame_skip: 1,
    }
}

impl Default for TrackerConfig {
    fn default() -> (r: TrackerConfig)
        ensures
            r.wf(),
            r == default_config(),
    {
        TrackerConfig {
            history_size: 10,
            confidence_threshold: 600_000,
            gesture_angle_threshold: 50_000,
            min_rotation_threshold: 30_000,
            rotation_smoothing_factor: 500_000,
            min_stable_frames: 2,
            enable_kalman: true,
            downsample_width: 640,
            adaptive_frame_skip: false,
            max_frame_skip: 1,
        }
    }
}

} // verus!
