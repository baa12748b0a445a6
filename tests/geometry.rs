use supro_tracker::geometry::Point3;
use supro_tracker::gesture::{classify, GestureType, Rotation};
use supro_tracker::skeleton::Side;

#[test]
fn squared_distance_is_exact() {
    let a = Point3::new(200_000, 500_000, 0);
    let b = Point3::new(220_000, 500_000, 10_000);
    assert_eq!(a.distance_sq(&b), 20_000i128 * 20_000 + 10_000 * 10_000);
}

#[test]
fn squared_distance_at_coordinate_extremes() {
    let a = Point3::new(i32::MIN, i32::MIN, i32::MIN);
    let b = Point3::new(i32::MAX, i32::MAX, i32::MAX);
    let d = (i32::MAX as i128) - (i32::MIN as i128);
    assert_eq!(a.distance_sq(&b), 3 * d * d);
}

#[test]
fn cross_y_component() {
    let a = Point3::new(0, 0, 1_000_000);
    let b = Point3::new(1_000_000, 0, 0);
    assert_eq!(a.cross_y(&b), 1_000_000_000_000);
    assert_eq!(b.cross_y(&a), -1_000_000_000_000);
}

#[test]
fn classify_confidence_is_half_ratio_to_twice_threshold() {
    let g = classify(Rotation { magnitude: 80_000, axis_y: 5 }, Side::Left, 50_000);
    assert_eq!(g.gesture_type, GestureType::Pronation);
    assert_eq!(g.confidence, 800_000);
    assert_eq!(g.angle, 80_000);
}

#[test]
fn classify_confidence_saturates_at_one() {
    let g = classify(Rotation { magnitude: 120_000, axis_y: -1 }, Side::Right, 50_000);
    assert_eq!(g.gesture_type, GestureType::Supination);
    assert_eq!(g.confidence, 1_000_000);
}

// The direction rule is the same for both sides; an anatomical correction
// would make these two differ.
#[test]
fn classify_direction_rule_ignores_side() {
    let r = Rotation { magnitude: 60_000, axis_y: -3 };
    let left = classify(r, Side::Left, 50_000);
    let right = classify(r, Side::Right, 50_000);
    assert_eq!(left.gesture_type, GestureType::Supination);
    assert_eq!(right.gesture_type, GestureType::Supination);
    let r = Rotation { magnitude: 60_000, axis_y: 0 };
    assert_eq!(classify(r, Side::Left, 50_000).gesture_type, GestureType::Pronation);
    assert_eq!(classify(r, Side::Right, 50_000).gesture_type, GestureType::Pronation);
}

#[test]
fn classify_with_zero_threshold_is_fully_confident() {
    let g = classify(Rotation { magnitude: 1, axis_y: 0 }, Side::Left, 0);
    assert_eq!(g.confidence, 1_000_000);
}
