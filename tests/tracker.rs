use supro_tracker::config::TrackerConfig;
use supro_tracker::geometry::Point3;
use supro_tracker::gesture::GestureType;
use supro_tracker::report::{tally, FrameSummary};
use supro_tracker::rotation::PalmSample;
use supro_tracker::skeleton::Side;
use supro_tracker::tracker::ArmTracker;

/// Palm normal turned `angle` radians about the vertical axis.
fn normal_at(angle: f64) -> Point3 {
    Point3::new(
        (angle.sin() * 1e6).round() as i32,
        0,
        (angle.cos() * 1e6).round() as i32,
    )
}

fn sample(angle: f64, turn: u32) -> PalmSample {
    PalmSample { normal: normal_at(angle), turn }
}

#[test]
fn default_config_values() {
    let c = TrackerConfig::default();
    assert_eq!(c.history_size, 10);
    assert_eq!(c.confidence_threshold, 600_000);
    assert_eq!(c.gesture_angle_threshold, 50_000);
    assert_eq!(c.min_rotation_threshold, 30_000);
    assert_eq!(c.rotation_smoothing_factor, 500_000);
    assert_eq!(c.min_stable_frames, 2);
}

#[test]
fn smooth_rotation_yields_gesture_from_second_frame() {
    let mut t = ArmTracker::new();
    let mut shown = Vec::new();
    for k in 0..10 {
        let plan = t.begin_frame(true, 33);
        assert!(!plan.tracking_lost);
        assert_eq!(plan.timestamp_us, 33_000 * k as u64);
        let turn = if k == 0 { 0 } else { 80_000 };
        let g = t.observe_palm(Side::Left, sample(0.08 * k as f64, turn));
        let frame = t.end_frame();
        assert_eq!(frame.left, g);
        assert_eq!(frame.right, None);
        shown.push(frame.left);
        if k == 0 {
            assert_eq!(g, None);
        }
    }
    for g in &shown[1..] {
        let g = g.expect("a gesture once two samples are in");
        assert_eq!(g.angle, 80_000);
        assert!(g.confidence > 0 && g.confidence < 1_000_000);
        assert_eq!(g.confidence, 800_000);
        // Newer normals turned towards +x: the axis points down the y axis.
        assert_eq!(g.gesture_type, GestureType::Supination);
    }
    assert_eq!(t.palm_history_len(Side::Left), 10);
    assert_eq!(t.rotation_history_len(Side::Left), 9);
    assert_eq!(t.palm_history_len(Side::Right), 0);
}

#[test]
fn opposite_turn_is_pronation() {
    let mut t = ArmTracker::new();
    assert_eq!(t.observe_palm(Side::Right, sample(0.0, 0)), None);
    let g = t.observe_palm(Side::Right, sample(-0.08, 80_000)).unwrap();
    assert_eq!(g.gesture_type, GestureType::Pronation);
}

#[test]
fn weighted_average_of_two_rotations() {
    let mut t = ArmTracker::new();
    t.observe_palm(Side::Left, sample(0.0, 0));
    t.observe_palm(Side::Left, sample(0.08, 80_000));
    // Pairs of 40000 and 80000: mean 60000; then (60000 + 80000 / 2) / 1.5.
    let g = t.observe_palm(Side::Left, sample(0.12, 40_000)).unwrap();
    assert_eq!(g.angle, 66_666);
    assert_eq!(g.confidence, 666_660);
}

#[test]
fn jitter_below_threshold_gives_no_rotation() {
    let mut t = ArmTracker::new();
    for k in 0..5 {
        let g = t.observe_palm(Side::Left, sample(0.01 * k as f64, if k == 0 { 0 } else { 10_000 }));
        assert_eq!(g, None);
    }
    assert_eq!(t.rotation_history_len(Side::Left), 0);
    assert_eq!(t.palm_history_len(Side::Left), 5);
}

#[test]
fn histories_stay_within_capacity() {
    let mut t = ArmTracker::new();
    for k in 0..25 {
        t.observe_palm(Side::Right, sample(0.08 * k as f64, if k == 0 { 0 } else { 80_000 }));
        assert!(t.palm_history_len(Side::Right) <= 10);
        assert!(t.rotation_history_len(Side::Right) <= 10);
    }
    assert_eq!(t.palm_history_len(Side::Right), 10);
    assert_eq!(t.rotation_history_len(Side::Right), 10);
    assert_eq!(t.latest_palm_normal(Side::Right), Some(normal_at(0.08 * 24.0)));
}

#[test]
fn kept_gesture_survives_frames_without_rotation() {
    let mut c = TrackerConfig::default();
    c.history_size = 2;
    let mut t = ArmTracker::with_config(c);
    t.begin_frame(true, 33);
    t.observe_palm(Side::Left, sample(0.0, 0));
    assert_eq!(t.end_frame().left, None);
    t.begin_frame(true, 33);
    let g = t.observe_palm(Side::Left, sample(0.08, 80_000)).unwrap();
    assert_eq!(t.end_frame().left, Some(g));
    // A frame with no hand, then one whose turn is only jitter.
    t.begin_frame(true, 33);
    let frame = t.end_frame();
    assert_eq!(frame.left, Some(g));
    assert_eq!(frame.right, None);
    t.begin_frame(true, 33);
    assert_eq!(t.observe_palm(Side::Left, sample(0.081, 1_000)), None);
    assert_eq!(t.end_frame().left, Some(g));
    assert_eq!(t.last_valid_gesture(Side::Left), g);
    // A new concrete gesture replaces the kept one.
    t.begin_frame(true, 33);
    let h = t.observe_palm(Side::Left, sample(0.0, 81_000)).unwrap();
    assert_ne!(h, g);
    assert_eq!(t.end_frame().left, Some(h));
    t.begin_frame(true, 33);
    assert_eq!(t.end_frame().left, Some(h));
}

#[test]
fn later_hand_of_a_side_wins_within_a_frame() {
    let mut t = ArmTracker::new();
    t.observe_palm(Side::Right, sample(0.0, 0));
    t.begin_frame(true, 33);
    let first = t.observe_palm(Side::Right, sample(0.08, 80_000)).unwrap();
    let second = t.observe_palm(Side::Right, sample(0.2, 120_000)).unwrap();
    assert_ne!(first, second);
    assert_eq!(t.end_frame().right, Some(second));
}

#[test]
fn later_hand_without_rotation_does_not_erase() {
    let mut c = TrackerConfig::default();
    c.history_size = 2;
    let mut t = ArmTracker::with_config(c);
    t.observe_palm(Side::Right, sample(0.0, 0));
    t.begin_frame(true, 33);
    let g = t.observe_palm(Side::Right, sample(0.08, 80_000)).unwrap();
    assert_eq!(t.observe_palm(Side::Right, sample(0.08, 0)), None);
    assert_eq!(t.end_frame().right, Some(g));
}

#[test]
fn lost_frame_keeps_kept_gesture() {
    let mut t = ArmTracker::new();
    t.observe_palm(Side::Right, sample(0.0, 0));
    t.begin_frame(true, 33);
    let g = t.observe_palm(Side::Right, sample(0.08, 80_000)).unwrap();
    assert_eq!(t.end_frame().right, Some(g));
    let plan = t.begin_frame(false, 33);
    assert!(plan.tracking_lost);
    let frame = t.end_frame();
    assert_eq!(frame.left, None);
    assert_eq!(frame.right, None);
    assert_eq!(t.last_valid_gesture(Side::Right), g);
    t.begin_frame(true, 33);
    assert_eq!(t.end_frame().right, Some(g));
}

#[test]
fn frame_without_landmarks_changes_no_history() {
    let mut t = ArmTracker::new();
    t.observe_palm(Side::Left, sample(0.0, 0));
    t.observe_palm(Side::Left, sample(0.08, 80_000));
    let before = t.latest_palm_normal(Side::Left);
    let plan = t.begin_frame(true, 0);
    assert!(!plan.tracking_lost);
    let frame = t.end_frame();
    assert_eq!(frame.left, None);
    assert_eq!(frame.right, None);
    assert_eq!(t.palm_history_len(Side::Left), 2);
    assert_eq!(t.rotation_history_len(Side::Left), 1);
    assert_eq!(t.latest_palm_normal(Side::Left), before);
    let plan = t.begin_frame(true, 16);
    assert!(plan.tracking_lost);
    assert_eq!(plan.timestamp_us, 33_000);
    assert!(t.begin_frame(false, 0).tracking_lost);
    assert!(!t.begin_frame(true, 17).tracking_lost);
}

#[test]
fn empty_detection_shows_nothing_and_keeps_kept_gesture() {
    let mut t = ArmTracker::new();
    t.observe_palm(Side::Left, sample(0.0, 0));
    t.begin_frame(true, 33);
    let g = t.observe_palm(Side::Left, sample(0.08, 80_000)).unwrap();
    assert_eq!(t.end_frame().left, Some(g));
    let plan = t.begin_frame(true, 0);
    assert!(!plan.tracking_lost);
    let frame = t.end_frame();
    assert_eq!(frame.left, None);
    assert_eq!(frame.right, None);
    assert_eq!(t.last_valid_gesture(Side::Left), g);
    assert_eq!(t.palm_history_len(Side::Left), 2);
    assert_eq!(t.rotation_history_len(Side::Left), 1);
    // The next frame with a body in view shows the kept gesture again.
    t.begin_frame(true, 33);
    assert_eq!(t.end_frame().left, Some(g));
}

#[test]
fn toggles_flip_one_side() {
    let mut t = ArmTracker::new();
    assert!(t.is_arm_active(Side::Left) && t.is_arm_active(Side::Right));
    t.toggle_arm(Side::Left);
    assert!(!t.is_arm_active(Side::Left));
    assert!(t.is_arm_active(Side::Right));
    t.toggle_fingers(Side::Right);
    assert!(!t.are_fingers_active(Side::Right));
    assert!(t.are_fingers_active(Side::Left));
    t.toggle_arm(Side::Left);
    assert!(t.is_arm_active(Side::Left));
}

#[test]
fn custom_config_is_kept() {
    let mut c = TrackerConfig::default();
    c.history_size = 3;
    c.min_stable_frames = 3;
    let mut t = ArmTracker::with_config(c);
    assert_eq!(t.config().history_size, 3);
    assert_eq!(t.observe_palm(Side::Left, sample(0.0, 0)), None);
    // Two samples are too few when three are needed.
    assert_eq!(t.observe_palm(Side::Left, sample(0.08, 80_000)), None);
    assert!(t.observe_palm(Side::Left, sample(0.16, 80_000)).is_some());
}

#[test]
fn session_tally_counts_left_gestures_and_losses() {
    let f = |lost, g| FrameSummary { tracking_lost: lost, left_gesture: g };
    let frames = vec![
        f(false, Some(GestureType::Supination)),
        f(true, None),
        f(false, Some(GestureType::Pronation)),
        f(false, Some(GestureType::Supination)),
        f(false, Some(GestureType::Neutral)),
        f(true, None),
    ];
    let t = tally(&frames);
    assert_eq!(t.total_frames, 6);
    assert_eq!(t.tracking_lost, 2);
    assert_eq!(t.left_supination, 2);
    assert_eq!(t.left_pronation, 1);
    let empty = tally(&Vec::new());
    assert_eq!(empty.total_frames, 0);
    assert_eq!(empty.tracking_lost, 0);
}
