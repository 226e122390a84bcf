use bevy_pong::vector::{Vector, NORMALIZE_LIMIT, UNIT_TOLERANCE};

fn norm_sq(v: &Vector) -> i128 {
    v.x as i128 * v.x as i128 + v.y as i128 * v.y as i128
}

#[test]
fn new_vector_has_the_coordinates_given() {
    let v = Vector::new(3, -4);
    assert_eq!(v.x, 3);
    assert_eq!(v.y, -4);
    assert_eq!(v, Vector { x: 3, y: -4 });
}

#[test]
fn normalize_of_the_serve() {
    let v = Vector::new(-1_000_000, 250_000);
    assert_eq!(v.normalize(), Some(Vector { x: -970_142, y: 242_535 }));
}

#[test]
fn normalize_of_exact_triples() {
    assert_eq!(Vector::new(3, 4).normalize(), Some(Vector { x: 600_000, y: 800_000 }));
    assert_eq!(Vector::new(-3, -4).normalize(), Some(Vector { x: -600_000, y: -800_000 }));
    assert_eq!(
        Vector::new(600_000, -800_000).normalize(),
        Some(Vector { x: 600_000, y: -800_000 })
    );
}

#[test]
fn normalize_along_the_axes() {
    assert_eq!(Vector::new(1, 0).normalize(), Some(Vector { x: 1_000_000, y: 0 }));
    assert_eq!(Vector::new(0, -1).normalize(), Some(Vector { x: 0, y: -1_000_000 }));
    assert_eq!(Vector::new(0, 123_456).normalize(), Some(Vector { x: 0, y: 1_000_000 }));
    assert_eq!(
        Vector::new(-NORMALIZE_LIMIT, 0).normalize(),
        Some(Vector { x: -1_000_000, y: 0 })
    );
}

#[test]
fn normalize_of_the_diagonal() {
    assert_eq!(Vector::new(1, 1).normalize(), Some(Vector { x: 707_107, y: 707_107 }));
    assert_eq!(
        Vector::new(NORMALIZE_LIMIT, -NORMALIZE_LIMIT).normalize(),
        Some(Vector { x: 707_106, y: -707_106 })
    );
}

#[test]
fn normalize_of_a_steep_rebound() {
    assert_eq!(
        Vector::new(1_000_000, 800_000).normalize(),
        Some(Vector { x: 780_868, y: 624_695 })
    );
    assert_eq!(
        Vector::new(1_000_000, 500_000).normalize(),
        Some(Vector { x: 894_427, y: 447_213 })
    );
}

#[test]
fn normalize_of_zero_is_none() {
    assert_eq!(Vector::new(0, 0).normalize(), None);
}

#[test]
fn normalize_gives_unit_vectors() {
    let mut x: i64 = -1_999_999;
    while x <= 2_000_000 {
        let mut y: i64 = -900_001;
        while y <= 900_000 {
            let unit = Vector::new(x, y).normalize().unwrap();
            assert!(unit.is_unit());
            let error = norm_sq(&unit) - 1_000_000_000_000;
            assert!(-(UNIT_TOLERANCE as i128) <= error && error <= UNIT_TOLERANCE as i128);
            assert_eq!(unit.x.signum() * x.signum() >= 0, true);
            assert_eq!(unit.y.signum() * y.signum() >= 0, true);
            y += 60_007;
        }
        x += 70_001;
    }
}

#[test]
fn is_unit_accepts_the_tolerance_and_no_more() {
    assert!(Vector::new(1_000_000, 0).is_unit());
    assert!(Vector::new(0, -1_000_000).is_unit());
    assert!(Vector::new(600_000, 800_000).is_unit());
    assert!(Vector::new(-970_142, 242_535).is_unit());
    // 1_000_002 squared is 4_000_004 more than a million squared.
    assert!(Vector::new(1_000_001, 0).is_unit());
    assert!(!Vector::new(1_000_002, 0).is_unit());
    assert!(Vector::new(999_998, 0).is_unit());
    assert!(!Vector::new(999_997, 0).is_unit());
    assert!(Vector::new(1_000_000, 2_000).is_unit());
    assert!(!Vector::new(1_000_000, 2_001).is_unit());
}

#[test]
fn is_unit_rejects_what_is_far_from_unit() {
    assert!(!Vector::new(0, 0).is_unit());
    assert!(!Vector::new(1, 1).is_unit());
    assert!(!Vector::new(1_000_000, 1_000_000).is_unit());
    assert!(!Vector::new(i64::MAX, i64::MIN).is_unit());
    assert!(!Vector::new(i64::MIN, i64::MIN).is_unit());
}
