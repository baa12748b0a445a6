use supro_tracker::geometry::Point3;
use supro_tracker::session::{MediaPipeStatus};
use supro_tracker::skeleton::{accepts_hand, arm_complete, assign_side, JointName, Segment, Side};

fn at(x: i32, y: i32) -> Point3 {
    Point3::new(x, y, 0)
}

#[test]
fn hand_goes_to_nearest_wrist() {
    // The right arm appears on the left half of a mirrored view.
    let right = Some(at(200_000, 500_000));
    let left = Some(at(800_000, 500_000));
    assert_eq!(assign_side(at(220_000, 500_000), left, right), Side::Right);
    assert_eq!(assign_side(at(220_000, 500_000), right, left), Side::Left);
    assert_eq!(assign_side(at(780_000, 500_000), left, right), Side::Left);
}

#[test]
fn hand_without_wrists_falls_back_to_position() {
    assert_eq!(assign_side(at(100_000, 500_000), None, None), Side::Right);
    assert_eq!(assign_side(at(600_000, 500_000), None, None), Side::Left);
    assert_eq!(assign_side(at(500_000, 500_000), None, None), Side::Left);
    assert_eq!(assign_side(at(100_000, 500_000), Some(at(900_000, 0)), None), Side::Right);
}

#[test]
fn hand_far_from_both_wrists_falls_back_to_position() {
    let left = Some(at(900_000, 100_000));
    let right = Some(at(900_000, 900_000));
    assert_eq!(assign_side(at(100_000, 500_000), left, right), Side::Right);
}

#[test]
fn hand_at_cutoff_is_matched_by_distance() {
    let left = Some(at(700_000, 500_000));
    let right = Some(at(1_000_000, 900_000));
    // Exactly 0.3 from the left wrist: still within reach.
    assert_eq!(assign_side(at(400_000, 500_000), left, right), Side::Left);
}

#[test]
fn equal_distances_go_right() {
    let left = Some(at(400_000, 500_000));
    let right = Some(at(600_000, 500_000));
    assert_eq!(assign_side(at(500_000, 500_000), left, right), Side::Right);
}

#[test]
fn joint_table() {
    let all = JointName::all();
    let idx: Vec<usize> = all.iter().map(|j| j.body_index()).collect();
    assert_eq!(idx, vec![11, 12, 13, 14, 15, 16]);
    let keys: Vec<&str> = all.iter().map(|j| j.key()).collect();
    assert_eq!(
        keys,
        vec!["left_shoulder", "right_shoulder", "left_elbow", "right_elbow", "left_wrist", "right_wrist"]
    );
    assert_eq!(JointName::of(Side::Right, Segment::Elbow), JointName::RightElbow);
    assert_eq!(JointName::LeftWrist.side(), Side::Left);
    assert!(JointName::RightWrist.present_in(17));
    assert!(!JointName::RightWrist.present_in(16));
    assert_eq!(Side::Left.key(), "left");
    assert_eq!(Side::Right.key(), "right");
}

#[test]
fn detector_status_order() {
    assert_eq!(MediaPipeStatus::current(true, true, false), MediaPipeStatus::Ready);
    assert_eq!(MediaPipeStatus::current(false, true, true), MediaPipeStatus::Initializing);
    assert_eq!(MediaPipeStatus::current(false, false, false), MediaPipeStatus::NotInitialized);
    assert_eq!(MediaPipeStatus::current(false, false, true), MediaPipeStatus::SimulationMode);
    assert_eq!(MediaPipeStatus::Failed.label(), "Failed (Simulation Mode)");
    assert_eq!(MediaPipeStatus::Ready.label(), "MediaPipe Ready");
}

#[test]
fn hand_and_arm_checks() {
    assert!(accepts_hand(21));
    assert!(!accepts_hand(20));
    assert!(!accepts_hand(22));
    assert!(!accepts_hand(0));
    assert!(arm_complete(Side::Left, 17));
    assert!(arm_complete(Side::Left, 16));
    assert!(!arm_complete(Side::Right, 16));
    assert!(!arm_complete(Side::Left, 15));
    assert!(!arm_complete(Side::Right, 0));
}
