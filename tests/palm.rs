use supro_tracker::geometry::{normalize, Point3};
use supro_tracker::palm::palm_normal;

fn p(x: f64, y: f64, z: f64) -> Point3 {
    Point3::new((x * 1e6).round() as i32, (y * 1e6).round() as i32, (z * 1e6).round() as i32)
}

/// A hand whose listed landmarks are given, the others at the wrist.
fn hand(pts: &[(usize, Point3)], wrist: Point3) -> Vec<Point3> {
    let mut v = vec![wrist; 21];
    for (i, q) in pts {
        v[*i] = *q;
    }
    v
}

fn flat_hand() -> Vec<Point3> {
    hand(
        &[
            (1, p(0.40, 0.75, 0.0)),
            (5, p(0.45, 0.60, 0.0)),
            (9, p(0.50, 0.58, 0.0)),
            (10, p(0.50, 0.50, 0.0)),
            (12, p(0.50, 0.40, 0.0)),
            (13, p(0.55, 0.60, 0.0)),
            (17, p(0.60, 0.62, 0.0)),
        ],
        p(0.5, 0.8, 0.0),
    )
}

fn len_sq(n: &Point3) -> i128 {
    let (x, y, z) = (n.x as i128, n.y as i128, n.z as i128);
    x * x + y * y + z * z
}

fn assert_unit(n: &Point3) {
    let s: i128 = 1_000_000;
    let l = len_sq(n);
    assert!(l > s * s - 4 * s - 7 && l < (s + 1) * (s + 1), "length² {l}");
}

#[test]
fn flat_hand_faces_along_depth_axis() {
    let n = palm_normal(&flat_hand()).expect("a flat open hand has a normal");
    assert_eq!(n.x, 0);
    assert_eq!(n.y, 0);
    assert_eq!(n.z, -1_000_000);
    assert_unit(&n);
}

#[test]
fn mirrored_hand_faces_the_other_way() {
    let mirrored: Vec<Point3> = flat_hand().iter().map(|q| Point3::new(1_000_000 - q.x, q.y, q.z)).collect();
    let n = palm_normal(&mirrored).unwrap();
    assert_eq!(n.z, 1_000_000);
}

#[test]
fn tilted_hands_have_unit_normals() {
    for k in 0..20 {
        let t = k as f64 * 0.3;
        let pts: Vec<Point3> = flat_hand()
            .iter()
            .map(|q| {
                let (x, y) = (q.x as f64 / 1e6 - 0.5, q.y as f64 / 1e6 - 0.6);
                p(0.5 + x * t.cos(), 0.6 + y, x * t.sin() + 0.01 * (k as f64))
            })
            .collect();
        let n = palm_normal(&pts).expect("tilted hand");
        assert_unit(&n);
    }
}

#[test]
fn collinear_landmarks_have_no_normal() {
    let on_axis: Vec<Point3> = (0..21).map(|i| p(0.1 + 0.03 * i as f64, 0.5, 0.0)).collect();
    assert_eq!(palm_normal(&on_axis), None);
    let on_diagonal: Vec<Point3> =
        (0..21).map(|i| p(0.1 + 0.031 * i as f64, 0.2 + 0.017 * i as f64, 0.013 * i as f64)).collect();
    assert_eq!(palm_normal(&on_diagonal), None);
}

#[test]
fn coincident_landmarks_have_no_normal() {
    let all_same = vec![p(0.5, 0.5, 0.0); 21];
    assert_eq!(palm_normal(&all_same), None);
}

#[test]
fn short_hand_has_no_normal() {
    let mut h = flat_hand();
    h.truncate(20);
    assert_eq!(palm_normal(&h), None);
}

#[test]
fn normalize_scales_to_unit() {
    assert_eq!(normalize(3, 0, -4, 1), Some(Point3::new(600_000, 0, -800_000)));
    assert_eq!(normalize(0, 0, 0, 1), None);
    assert_eq!(normalize(0, 2, 0, 3), None);
    assert_eq!(normalize(0, -7, 0, 1), Some(Point3::new(0, -1_000_000, 0)));
}

#[test]
fn thumb_pinky_line_of_zero_length_has_no_normal() {
    let mut h = flat_hand();
    h[1] = h[17];
    assert_eq!(palm_normal(&h), None);
}

#[test]
fn finger_of_zero_length_has_no_normal() {
    let mut h = flat_hand();
    h[12] = h[9];
    assert_eq!(palm_normal(&h), None);
}
