use plants::error::PlantError;
use plants::fixed::Fixed;
use plants::outline::{grow, grow_l_system, leaf_outline};
use plants::systems::leaf::LeafParameters;
use plants::turtle::polygon::Params;
use plants::utils::geometry::bounds::WorldBox;
use plants::utils::geometry::transform::ProjectionMatrix;
use plants::utils::geometry::{WorldPoint, WorldRotation};
use rand::rngs::StdRng;
use rand::{Rng, SeedableRng};

const UNIT: i64 = 1_000_000;

fn f(micros: i64) -> Fixed {
    Fixed::from_micros(micros)
}

fn point(x: i64, y: i64, z: i64) -> WorldPoint {
    WorldPoint::new(f(x), f(y), f(z))
}

fn sixth() -> Params {
    Params::new(WorldRotation::new(f(500_000), f(866_025)))
}

fn cube(half: i64) -> WorldBox {
    WorldBox::new(point(-half, -half, -half), point(half, half, half))
}

fn parameters() -> LeafParameters {
    LeafParameters::new(
        f(5_000_000),
        f(1_100_000),
        f(2_000_000),
        f(1_150_000),
        f(1_000_000),
        f(1_020_000),
        f(500_000),
    )
}

#[test]
fn drawn_constants_follow_the_draws() {
    let p = LeafParameters::from_draws(1_100_000, 500_000, 2_000_000, 750_000, 1_020_000, 300_000);
    assert_eq!(
        p,
        LeafParameters::new(
            f(5_000_000),
            f(1_100_000),
            f(2_000_000),
            f(1_155_000),
            f(750_000),
            f(1_020_000),
            f(300_000),
        )
    );
    let q = LeafParameters::from_draws(1_199_999, 999_999, 1_000_000, 500_000, 1_000_000, 250_000);
    assert_eq!(q.side_apex_growth_rate, f(1_319_997));
}

#[test]
fn sampled_constants_lie_in_their_ranges() {
    for seed in 0..200u64 {
        let mut rng = StdRng::seed_from_u64(seed);
        let p = LeafParameters::sample(&mut rng);
        assert_eq!(p.main_apex_length, f(5_000_000));
        let main = p.main_apex_growth_rate.to_micros();
        assert!((1_000_000..1_200_000).contains(&main));
        let side = p.side_apex_growth_rate.to_micros();
        assert!(main <= side && side * 10 < main * 11);
        assert!((1_000_000..3_000_000).contains(&p.side_apex_length.to_micros()));
        assert!((500_000..1_500_000).contains(&p.notch_length.to_micros()));
        assert!((1_000_000..1_050_000).contains(&p.notch_growth_rate.to_micros()));
        assert!((250_000..1_000_000).contains(&p.potential_decrement.to_micros()));
    }
}

#[test]
fn sampled_constants_vary_with_the_seed() {
    let mut rates = Vec::new();
    let mut lengths = Vec::new();
    for seed in 0..50u64 {
        let mut rng = StdRng::seed_from_u64(seed);
        let p = LeafParameters::sample(&mut rng);
        rates.push(p.main_apex_growth_rate.to_micros());
        lengths.push(p.side_apex_length.to_micros());
    }
    rates.sort();
    rates.dedup();
    lengths.sort();
    lengths.dedup();
    assert!(rates.len() > 40);
    assert!(lengths.len() > 40);
    assert!(rates.iter().any(|rate| *rate != 1_000_000));
}

#[test]
fn sampling_takes_six_draws_in_order() {
    let mut rng = StdRng::seed_from_u64(11);
    let p = LeafParameters::sample(&mut rng);
    let mut again = StdRng::seed_from_u64(11);
    let main_rate: i64 = again.gen_range(1_000_000..1_200_000);
    let boost: i64 = again.gen_range(0..1_000_000);
    let side_length: i64 = again.gen_range(1_000_000..3_000_000);
    let notch_length: i64 = again.gen_range(500_000..1_500_000);
    let notch_rate: i64 = again.gen_range(1_000_000..1_050_000);
    let decrement: i64 = again.gen_range(250_000..1_000_000);
    assert_eq!(
        p,
        LeafParameters::from_draws(main_rate, boost, side_length, notch_length, notch_rate, decrement)
    );
    assert_eq!(rng, again);
}

#[test]
fn grown_leaf_is_fitted_into_the_box() {
    let polygons = grow(&parameters(), 3, &sixth(), &cube(5 * UNIT)).unwrap();
    assert_eq!(polygons.len(), 8);
    let sizes: Vec<usize> = polygons.iter().map(|polygon| polygon.len()).collect();
    assert_eq!(sizes, vec![3, 4, 4, 2, 3, 4, 4, 2]);
    assert_eq!(
        polygons[0],
        vec![
            point(0, -4_749_987, -4_749_995),
            point(0, -1_379_028, -1_475_069),
            point(-4_749_998, -1_100_437, -933_759),
        ]
    );
    assert_eq!(
        polygons[1],
        vec![
            point(0, -1_379_028, -1_475_069),
            point(0, -1_379_028, -1_475_069),
            point(0, 1_685_479, 1_502_135),
            point(-4_749_998, 1_964_071, 2_043_445),
        ]
    );
    for polygon in &polygons {
        for p in polygon {
            for coordinate in [p.x, p.y, p.z] {
                assert!(coordinate.to_micros().abs() <= 4_750_000);
            }
        }
    }
}

#[test]
fn starting_sequence_alone_cannot_be_fitted() {
    assert_eq!(
        grow(&parameters(), 0, &sixth(), &cube(5 * UNIT)),
        Err(PlantError::DegenerateBox)
    );
}

#[test]
fn flat_destination_is_rejected() {
    let flat = WorldBox::new(point(-UNIT, -UNIT, 0), point(UNIT, UNIT, 0));
    assert_eq!(
        grow(&parameters(), 3, &sixth(), &flat),
        Err(PlantError::DegenerateBox)
    );
}

#[test]
fn same_constants_give_the_same_polygons() {
    let first = grow(&parameters(), 5, &sixth(), &cube(5 * UNIT));
    let second = grow(&parameters(), 5, &sixth(), &cube(5 * UNIT));
    assert!(first.is_ok());
    assert_eq!(first, second);
}

#[test]
fn same_seed_gives_the_same_polygons() {
    for seed in [0u64, 1, 42, u64::MAX] {
        let mut first_rng = StdRng::seed_from_u64(seed);
        let mut second_rng = StdRng::seed_from_u64(seed);
        let first = grow_l_system(6, &mut first_rng, &sixth(), cube(5 * UNIT));
        let second = grow_l_system(6, &mut second_rng, &sixth(), cube(5 * UNIT));
        assert!(first.is_ok());
        assert_eq!(first, second);
    }
}

#[test]
fn growing_from_a_generator_is_growing_from_its_sample() {
    let mut rng = StdRng::seed_from_u64(9);
    let mut same = StdRng::seed_from_u64(9);
    let p = LeafParameters::sample(&mut same);
    assert_eq!(
        grow_l_system(4, &mut rng, &sixth(), cube(5 * UNIT)),
        grow(&p, 4, &sixth(), &cube(5 * UNIT))
    );
}

#[test]
fn same_seed_gives_the_same_outline() {
    let first = leaf_outline(7, 6, &sixth(), cube(5 * UNIT), f(20 * UNIT));
    let second = leaf_outline(7, 6, &sixth(), cube(5 * UNIT), f(20 * UNIT));
    assert!(first.is_ok());
    assert_eq!(first, second);
    let other = leaf_outline(8, 6, &sixth(), cube(5 * UNIT), f(20 * UNIT));
    assert!(other.is_ok());
    assert_ne!(first, other);
}

#[test]
fn outline_is_the_projection_of_the_fitted_leaf() {
    let mut rng = StdRng::seed_from_u64(3);
    let polygons = grow_l_system(5, &mut rng, &sixth(), cube(5 * UNIT)).unwrap();
    let expected = ProjectionMatrix::perspective(f(20 * UNIT)).project_polygons(&polygons);
    let outline = leaf_outline(3, 5, &sixth(), cube(5 * UNIT), f(20 * UNIT)).unwrap();
    assert_eq!(outline, expected);
    assert_eq!(outline.len(), polygons.len());
    for (path, polygon) in outline.iter().zip(polygons.iter()) {
        assert_eq!(path.len(), polygon.len());
    }
}

#[test]
fn outline_keeps_polygons_that_cannot_be_seen() {
    let outline = leaf_outline(3, 5, &sixth(), cube(5 * UNIT), f(-UNIT)).unwrap();
    let visible = leaf_outline(3, 5, &sixth(), cube(5 * UNIT), f(20 * UNIT)).unwrap();
    assert_eq!(outline.len(), visible.len());
    assert!(outline.iter().any(|path| path.is_empty()));
}
