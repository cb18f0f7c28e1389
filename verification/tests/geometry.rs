use binaural::fixed::ONE;
use binaural::geometry::{to_cartesian, Angle, CartesianVector, SphericalPosition, COORD_LIMIT};

const UNIT: i32 = 65536;

fn degrees_0() -> Angle {
    Angle { sin: 0, cos: UNIT }
}

fn degrees_90() -> Angle {
    Angle { sin: UNIT, cos: 0 }
}

fn degrees_minus_90() -> Angle {
    Angle { sin: -UNIT, cos: 0 }
}

#[test]
fn unit_is_two_to_the_sixteenth() {
    assert_eq!(ONE, 65536);
    assert_eq!(i64::from(UNIT), ONE);
}

#[test]
fn source_straight_ahead_lies_on_the_y_axis() {
    let p = SphericalPosition { azimuth: degrees_0(), elevation: degrees_0(), radius: UNIT };
    assert_eq!(to_cartesian(&p), CartesianVector { x: 0, y: 65536, z: 0 });
}

#[test]
fn positive_azimuth_points_left() {
    let p = SphericalPosition { azimuth: degrees_90(), elevation: degrees_0(), radius: UNIT };
    assert_eq!(to_cartesian(&p), CartesianVector { x: -65536, y: 0, z: 0 });
}

#[test]
fn source_to_the_right_at_one_and_a_half() {
    let p = SphericalPosition {
        azimuth: degrees_minus_90(),
        elevation: degrees_0(),
        radius: 98304,
    };
    assert_eq!(to_cartesian(&p), CartesianVector { x: 98304, y: 0, z: 0 });
}

#[test]
fn source_overhead_lies_on_the_z_axis() {
    let p = SphericalPosition { azimuth: degrees_0(), elevation: degrees_90(), radius: 3 * UNIT };
    assert_eq!(to_cartesian(&p), CartesianVector { x: 0, y: 0, z: 196608 });
}

#[test]
fn oblique_source_has_exact_coordinates() {
    // azimuth 30 degrees, elevation 60 degrees, radius 2
    let azimuth = Angle { sin: 32768, cos: 56756 };
    let elevation = Angle { sin: 56756, cos: 32768 };
    let p = SphericalPosition { azimuth, elevation, radius: 131072 };
    assert_eq!(to_cartesian(&p), CartesianVector { x: -32768, y: 56756, z: 113512 });
}

#[test]
fn fractions_are_dropped_toward_zero() {
    let tiny = Angle { sin: 1, cos: 65535 };
    let up = SphericalPosition { azimuth: degrees_0(), elevation: tiny, radius: 100000 };
    // z = 100000 * 1 / 65536 = 1.52..., y = 100000 * 65535 / 65536 = 99998.47...
    assert_eq!(to_cartesian(&up), CartesianVector { x: 0, y: 99998, z: 1 });
    let down = SphericalPosition { azimuth: degrees_0(), elevation: tiny, radius: -100000 };
    assert_eq!(to_cartesian(&down), CartesianVector { x: 0, y: -99998, z: -1 });
    let below_one = SphericalPosition {
        azimuth: degrees_0(),
        elevation: Angle { sin: -65535, cos: 0 },
        radius: 1,
    };
    assert_eq!(to_cartesian(&below_one), CartesianVector { x: 0, y: 0, z: 0 });
}

#[test]
fn zero_radius_is_the_origin() {
    let p = SphericalPosition {
        azimuth: Angle { sin: 12345, cos: -54321 },
        elevation: Angle { sin: -777, cos: 65000 },
        radius: 0,
    };
    assert_eq!(to_cartesian(&p), CartesianVector { x: 0, y: 0, z: 0 });
}

#[test]
fn conversion_gives_the_same_result_every_time() {
    let p = SphericalPosition {
        azimuth: Angle { sin: -46341, cos: 46341 },
        elevation: Angle { sin: 11380, cos: 64540 },
        radius: 98304,
    };
    let first = to_cartesian(&p);
    let second = to_cartesian(&p);
    let third = to_cartesian(&p.clone());
    assert_eq!(first, second);
    assert_eq!(first, third);
}

#[test]
fn extreme_ratios_still_convert() {
    let wild = Angle { sin: i32::MIN, cos: i32::MIN };
    let p = SphericalPosition { azimuth: wild, elevation: wild, radius: i32::MIN };
    let v = to_cartesian(&p);
    // x = (-2^31) * (-2^31) * 2^31 / 2^32, y = (-2^31)^3 / 2^32, z = (-2^31)^2 / 2^16
    assert_eq!(v.x, 2305843009213693952);
    assert_eq!(v.y, -2305843009213693952);
    assert_eq!(v.z, 70368744177664);
    assert!(!v.is_in_range());
}

#[test]
fn unit_ratios_keep_the_result_in_range() {
    let p = SphericalPosition {
        azimuth: Angle { sin: -UNIT, cos: UNIT },
        elevation: Angle { sin: UNIT, cos: UNIT },
        radius: i32::MIN,
    };
    let v = to_cartesian(&p);
    assert_eq!(v, CartesianVector { x: -2147483648, y: -2147483648, z: -2147483648 });
    assert!(v.is_in_range());
}

#[test]
fn range_ends_at_the_limit() {
    assert_eq!(COORD_LIMIT, 281474976710656);
    assert!(CartesianVector { x: COORD_LIMIT, y: -COORD_LIMIT, z: 0 }.is_in_range());
    assert!(!CartesianVector { x: COORD_LIMIT + 1, y: 0, z: 0 }.is_in_range());
    assert!(!CartesianVector { x: 0, y: -COORD_LIMIT - 1, z: 0 }.is_in_range());
    assert!(!CartesianVector { x: 0, y: 0, z: i64::MAX }.is_in_range());
    assert!(!CartesianVector { x: 0, y: 0, z: i64::MIN }.is_in_range());
}

#[test]
fn unbounded_markers_lie_out_of_range() {
    assert!(!CartesianVector::unbounded().is_in_range());
    let position = SphericalPosition::unbounded();
    assert_eq!(position.radius, i32::MIN);
    assert!(!to_cartesian(&position).is_in_range());
}
