use plants::error::PlantError;
use plants::fixed::Fixed;
use plants::utils::geometry::bounds::WorldBox;
use plants::utils::geometry::transform::{ProjectionMatrix, WorldTransform};
use plants::utils::geometry::{ScreenPoint, WorldPoint, WorldRotation, WorldVector};

const UNIT: i64 = 1_000_000;

fn f(micros: i64) -> Fixed {
    Fixed::from_micros(micros)
}

fn point(x: i64, y: i64, z: i64) -> WorldPoint {
    WorldPoint::new(f(x), f(y), f(z))
}

fn vector(x: i64, y: i64, z: i64) -> WorldVector {
    WorldVector::new(f(x), f(y), f(z))
}

fn screen(x: i64, y: i64) -> ScreenPoint {
    ScreenPoint::new(f(x), f(y))
}

fn cube(half: i64) -> WorldBox {
    WorldBox::new(point(-half, -half, -half), point(half, half, half))
}

fn as_float(value: Fixed) -> f64 {
    value.to_micros() as f64 / UNIT as f64
}

fn close(value: Fixed, expected: f64) -> bool {
    (as_float(value) - expected).abs() < 1e-4
}

#[test]
fn vectors_add_and_scale_coordinate_by_coordinate() {
    assert_eq!(WorldVector::zero(), vector(0, 0, 0));
    assert_eq!(WorldVector::one(), vector(UNIT, UNIT, UNIT));
    assert_eq!(
        vector(1, 2, 3).plus(vector(10, 20, 30)),
        vector(11, 22, 33)
    );
    assert_eq!(
        vector(UNIT, -2 * UNIT, 3).scaled(f(2_500_000)),
        vector(2_500_000, -5_000_000, 7)
    );
    assert_eq!(vector(1, 2, 3).to_point(), point(1, 2, 3));
}

#[test]
fn rotations_compose_by_adding_their_angles() {
    let quarter = WorldRotation::new(f(0), f(UNIT));
    assert_eq!(WorldRotation::identity().compose(&quarter), quarter);
    assert_eq!(
        quarter.compose(&quarter),
        WorldRotation::new(f(-UNIT), f(0))
    );
    assert_eq!(
        quarter.compose(&quarter.inverse()),
        WorldRotation::identity()
    );
    let eighth = WorldRotation::eighth_turn();
    assert_eq!(eighth, WorldRotation::new(f(707_107), f(707_107)));
    assert_eq!(
        eighth.compose(&eighth),
        WorldRotation::new(f(0), f(1_000_000))
    );
}

#[test]
fn rotations_turn_about_the_vertical_axis() {
    let quarter = WorldRotation::new(f(0), f(UNIT));
    assert_eq!(
        quarter.transform_vector3d(vector(UNIT, 0, 7)),
        vector(0, UNIT, 7)
    );
    assert_eq!(
        quarter.transform_vector3d(vector(0, UNIT, -7)),
        vector(-UNIT, 0, -7)
    );
    assert_eq!(
        WorldRotation::eighth_turn().transform_vector3d(WorldVector::one()),
        vector(0, 1_414_214, UNIT)
    );
}

#[test]
fn rotations_agree_with_quaternions() {
    let mut ours = WorldRotation::eighth_turn();
    let mut theirs = euclid::default::Rotation3D::<f64>::around_z(euclid::Angle::radians(
        std::f64::consts::FRAC_PI_4,
    ));
    let angle = std::f64::consts::FRAC_PI_3;
    let turn = WorldRotation::new(
        f((angle.cos() * 1e6).round() as i64),
        f((angle.sin() * 1e6).round() as i64),
    );
    for step in 0..5 {
        let moved = ours.transform_vector3d(WorldVector::one());
        let expected = theirs.transform_vector3d(euclid::default::Vector3D::new(1.0, 1.0, 1.0));
        assert!(close(moved.x, expected.x));
        assert!(close(moved.y, expected.y));
        assert!(close(moved.z, expected.z));
        if step % 2 == 0 {
            ours = ours.compose(&turn);
            theirs = theirs.then(&euclid::default::Rotation3D::around_z(euclid::Angle::radians(
                angle,
            )));
        } else {
            ours = ours.compose(&turn.inverse()).compose(&turn.inverse());
            let back = euclid::default::Rotation3D::around_z(euclid::Angle::radians(-angle));
            theirs = theirs.then(&back).then(&back);
        }
    }
}

#[test]
fn bounding_box_is_the_smallest_around_all_points() {
    let polygons = vec![
        vec![point(3, -1, 5), point(-2, 4, 5)],
        vec![],
        vec![point(0, 0, -9), point(7, 1, 2), point(1, 1, 1)],
    ];
    assert_eq!(
        WorldBox::from_points(&polygons),
        Ok(WorldBox::new(point(-2, -1, -9), point(7, 4, 5)))
    );
}

#[test]
fn bounding_box_of_one_point_is_that_point() {
    let polygons = vec![vec![], vec![point(3, -1, 5)]];
    let around = WorldBox::from_points(&polygons).unwrap();
    assert_eq!(around, WorldBox::new(point(3, -1, 5), point(3, -1, 5)));
    assert!(around.width().is_zero());
    assert!(around.height().is_zero());
    assert!(around.depth().is_zero());
}

#[test]
fn bounding_box_needs_a_point() {
    assert_eq!(
        WorldBox::from_points(&Vec::new()),
        Err(PlantError::EmptyGeometry)
    );
    assert_eq!(
        WorldBox::from_points(&vec![vec![], vec![]]),
        Err(PlantError::EmptyGeometry)
    );
}

#[test]
fn extents_are_measured_along_each_axis() {
    let b = WorldBox::new(point(-1, 10, 100), point(2, 14, 105));
    assert_eq!(b.width(), f(3));
    assert_eq!(b.height(), f(4));
    assert_eq!(b.depth(), f(5));
}

#[test]
fn fitting_scales_by_the_inset_ratio_of_the_extents() {
    let source = WorldBox::new(point(UNIT, UNIT, UNIT), point(3 * UNIT, 3 * UNIT, 3 * UNIT));
    let transform = WorldTransform::fit(&source, &cube(5 * UNIT)).unwrap();
    assert_eq!(transform.scale, vector(4_750_000, 4_750_000, 4_750_000));
    assert_eq!(transform.offset, vector(-2 * UNIT, -2 * UNIT, -2 * UNIT));
    for x in [UNIT, 3 * UNIT] {
        for y in [UNIT, 3 * UNIT] {
            for z in [UNIT, 3 * UNIT] {
                let corner = transform.transform_point3d(point(x, y, z));
                assert_eq!(corner.x.to_micros().abs(), 4_750_000);
                assert_eq!(corner.y.to_micros().abs(), 4_750_000);
                assert_eq!(corner.z.to_micros().abs(), 4_750_000);
                assert_eq!(corner.x.to_micros() > 0, x > 2 * UNIT);
                assert_eq!(corner.y.to_micros() > 0, y > 2 * UNIT);
                assert_eq!(corner.z.to_micros() > 0, z > 2 * UNIT);
            }
        }
    }
    assert_eq!(
        transform.transform_point3d(point(2 * UNIT, 2 * UNIT, 2 * UNIT)),
        point(0, 0, 0)
    );
}

#[test]
fn fitting_is_a_move_and_two_scalings() {
    let source = WorldBox::new(point(-UNIT, 0, 10 * UNIT), point(UNIT, 4 * UNIT, 14 * UNIT));
    let destination = WorldBox::new(point(0, 0, 0), point(10 * UNIT, 20 * UNIT, UNIT));
    let by_hand = WorldTransform::translation(f(0), f(-2 * UNIT), f(-12 * UNIT))
        .then_scale(f(5 * UNIT), f(5 * UNIT), f(250_000))
        .then_scale(f(950_000), f(950_000), f(950_000));
    assert_eq!(WorldTransform::fit(&source, &destination), Ok(by_hand));
    assert_eq!(by_hand.scale, vector(4_750_000, 4_750_000, 237_500));
}

#[test]
fn fitting_polygons_keeps_membership_and_order() {
    let polygons = vec![
        vec![point(UNIT, UNIT, UNIT), point(3 * UNIT, 3 * UNIT, 3 * UNIT)],
        vec![],
        vec![point(2 * UNIT, UNIT, 3 * UNIT)],
    ];
    assert_eq!(
        WorldTransform::fit_polygons(&polygons, &cube(5 * UNIT)),
        Ok(vec![
            vec![
                point(-4_750_000, -4_750_000, -4_750_000),
                point(4_750_000, 4_750_000, 4_750_000),
            ],
            vec![],
            vec![point(0, -4_750_000, 4_750_000)],
        ])
    );
}

#[test]
fn fitting_agrees_with_matrices() {
    let raw = [
        (-1.5, 0.25, 10.0),
        (1.0, 4.0, 14.5),
        (0.0, 1.0, 11.0),
        (0.75, 3.5, 12.25),
    ];
    let polygons = vec![raw
        .iter()
        .map(|&(x, y, z)| {
            point(
                (x * 1e6) as i64,
                (y * 1e6) as i64,
                (z * 1e6) as i64,
            )
        })
        .collect::<Vec<_>>()];
    let destination = WorldBox::new(
        point(-8 * UNIT, -6 * UNIT, 0),
        point(8 * UNIT, 6 * UNIT, 3 * UNIT),
    );
    let fitted = WorldTransform::fit_polygons(&polygons, &destination).unwrap();

    let points: Vec<euclid::default::Point3D<f64>> = raw
        .iter()
        .map(|&(x, y, z)| euclid::default::Point3D::new(x, y, z))
        .collect();
    let bbox_in = euclid::default::Box3D::from_points(points.iter());
    let transform = euclid::default::Transform3D::translation(
        -(bbox_in.min.x + bbox_in.max.x) / 2.0,
        -(bbox_in.min.y + bbox_in.max.y) / 2.0,
        -(bbox_in.min.z + bbox_in.max.z) / 2.0,
    )
    .then_scale(
        16.0 / bbox_in.width(),
        12.0 / bbox_in.height(),
        3.0 / bbox_in.depth(),
    )
    .then_scale(0.95, 0.95, 0.95);
    for (ours, theirs) in fitted[0].iter().zip(points.iter()) {
        let expected = transform.transform_point3d(*theirs).unwrap();
        assert!(close(ours.x, expected.x));
        assert!(close(ours.y, expected.y));
        assert!(close(ours.z, expected.z));
    }
}

#[test]
fn fitting_needs_a_point() {
    assert_eq!(
        WorldTransform::fit_polygons(&vec![vec![], vec![]], &cube(UNIT)),
        Err(PlantError::EmptyGeometry)
    );
    let flat = WorldBox::new(point(0, 0, 0), point(0, 0, 0));
    assert_eq!(
        WorldTransform::fit_polygons(&Vec::new(), &flat),
        Err(PlantError::EmptyGeometry)
    );
}

#[test]
fn fitting_rejects_a_flat_source() {
    let on_a_line = vec![vec![point(0, 0, 0), point(UNIT, 0, 0), point(5 * UNIT, 0, 0)]];
    assert_eq!(
        WorldTransform::fit_polygons(&on_a_line, &cube(UNIT)),
        Err(PlantError::DegenerateBox)
    );
    for (x, y, z) in [(0, 1, 1), (1, 0, 1), (1, 1, 0)] {
        let source = WorldBox::new(point(0, 0, 0), point(x, y, z));
        assert_eq!(
            WorldTransform::fit(&source, &cube(UNIT)),
            Err(PlantError::DegenerateBox)
        );
    }
    let single = vec![vec![point(4, 4, 4)]];
    assert_eq!(
        WorldTransform::fit_polygons(&single, &cube(UNIT)),
        Err(PlantError::DegenerateBox)
    );
}

#[test]
fn fitting_rejects_a_flat_destination() {
    let source = WorldBox::new(point(0, 0, 0), point(1, 1, 1));
    for (x, y, z) in [(0, 1, 1), (1, 0, 1), (1, 1, 0)] {
        let destination = WorldBox::new(point(0, 0, 0), point(x, y, z));
        assert_eq!(
            WorldTransform::fit(&source, &destination),
            Err(PlantError::DegenerateBox)
        );
    }
}

#[test]
fn projection_divides_by_the_share_of_the_distance_left() {
    let near = ProjectionMatrix::perspective(f(UNIT));
    assert_eq!(
        near.transform_point3d(point(2 * UNIT, 4 * UNIT, 0)),
        Some(screen(2 * UNIT, 4 * UNIT))
    );
    assert_eq!(
        near.transform_point3d(point(2 * UNIT, 4 * UNIT, -UNIT)),
        Some(screen(UNIT, 2 * UNIT))
    );
    assert_eq!(
        near.transform_point3d(point(2 * UNIT, 4 * UNIT, 500_000)),
        Some(screen(4 * UNIT, 8 * UNIT))
    );
    let far = ProjectionMatrix::perspective(f(3 * UNIT));
    assert_eq!(
        far.transform_point3d(point(UNIT, UNIT, -2 * UNIT)),
        Some(screen(600_000, 600_000))
    );
    let behind = ProjectionMatrix::perspective(f(-10 * UNIT));
    assert_eq!(
        behind.transform_point3d(point(3 * UNIT, -6 * UNIT, 5 * UNIT)),
        Some(screen(2 * UNIT, -4 * UNIT))
    );
}

#[test]
fn projection_drops_what_cannot_be_seen() {
    let near = ProjectionMatrix::perspective(f(UNIT));
    assert_eq!(near.transform_point3d(point(2 * UNIT, 4 * UNIT, UNIT)), None);
    assert_eq!(near.transform_point3d(point(2 * UNIT, 4 * UNIT, 2 * UNIT)), None);
    let behind = ProjectionMatrix::perspective(f(-10 * UNIT));
    assert_eq!(behind.transform_point3d(point(3, -6, -10 * UNIT)), None);
    assert_eq!(behind.transform_point3d(point(3, -6, -20 * UNIT)), None);
    let in_the_plane = ProjectionMatrix::perspective(f(0));
    assert_eq!(in_the_plane.transform_point3d(point(UNIT, UNIT, UNIT)), None);
    assert_eq!(in_the_plane.transform_point3d(point(UNIT, UNIT, -UNIT)), None);
}

#[test]
fn projection_agrees_with_matrices() {
    let theirs = euclid::default::Transform3D::<f64>::perspective(2.5);
    let ours = ProjectionMatrix::perspective(f(2_500_000));
    for &(x, y, z) in &[
        (1.0, 2.0, 0.0),
        (-3.0, 0.5, 1.25),
        (4.0, -4.0, -7.5),
        (1.0, 1.0, 2.5),
        (1.0, 1.0, 3.0),
    ] {
        let seen = ours.transform_point3d(point(
            (x * 1e6) as i64,
            (y * 1e6) as i64,
            (z * 1e6) as i64,
        ));
        let expected = theirs
            .transform_point3d(euclid::default::Point3D::new(x, y, z))
            .map(|p| p.xy());
        match (seen, expected) {
            (Some(q), Some(e)) => {
                assert!(close(q.x, e.x));
                assert!(close(q.y, e.y));
            }
            (None, None) => {}
            _ => panic!("one projection sees what the other does not"),
        }
    }
}

#[test]
fn projecting_polygons_may_shrink_them_but_keeps_each() {
    let polygons = vec![
        vec![
            point(2 * UNIT, 4 * UNIT, 0),
            point(2 * UNIT, 4 * UNIT, UNIT),
            point(2 * UNIT, 4 * UNIT, -UNIT),
        ],
        vec![point(0, 0, 5 * UNIT), point(1, 1, UNIT)],
        vec![],
    ];
    assert_eq!(
        ProjectionMatrix::perspective(f(UNIT)).project_polygons(&polygons),
        vec![
            vec![screen(2 * UNIT, 4 * UNIT), screen(UNIT, 2 * UNIT)],
            vec![],
            vec![],
        ]
    );
}
