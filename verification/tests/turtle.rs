use plants::error::PlantError;
use plants::fixed::Fixed;
use plants::systems::leaf::{leaf_axiom, nth_generation, Leaf, LeafParameters};
use plants::turtle::polygon::{to_geom, Params, TurtlePolygon, TurtlePolygonInterpretation};
use plants::utils::geometry::{WorldPoint, WorldRotation};

fn f(micros: i64) -> Fixed {
    Fixed::from_micros(micros)
}

fn point(x: i64, y: i64, z: i64) -> WorldPoint {
    WorldPoint::new(f(x), f(y), f(z))
}

/// A turn by a sixth of a full turn.
fn sixth() -> Params {
    Params::new(WorldRotation::new(f(500_000), f(866_025)))
}

fn grow(length: i64) -> Leaf {
    Leaf::Grow(f(length), f(1_000_000), None)
}

fn parameters() -> LeafParameters {
    LeafParameters::new(
        f(5_000_000),
        f(1_100_000),
        f(2_000_000),
        f(1_150_000),
        f(1_000_000),
        f(1_020_000),
        f(500_000),
    )
}

#[test]
fn symbols_stand_for_their_commands() {
    assert_eq!(Leaf::Vertex.to_turtle(), TurtlePolygon::Vertex);
    assert_eq!(
        Leaf::Grow(f(7), f(8), Some(f(9))).to_turtle(),
        TurtlePolygon::Forward(f(7))
    );
    assert_eq!(Leaf::MainApex(f(1), true).to_turtle(), TurtlePolygon::NoOp);
    assert_eq!(Leaf::SideApex(f(1)).to_turtle(), TurtlePolygon::NoOp);
    assert_eq!(Leaf::AnglePos.to_turtle(), TurtlePolygon::Left);
    assert_eq!(Leaf::AngleNeg.to_turtle(), TurtlePolygon::Right);
    assert_eq!(Leaf::Save.to_turtle(), TurtlePolygon::Push);
    assert_eq!(Leaf::Load.to_turtle(), TurtlePolygon::Pop);
    assert_eq!(Leaf::Pile.to_turtle(), TurtlePolygon::NewPolygon);
    assert_eq!(Leaf::Depile.to_turtle(), TurtlePolygon::ClosePolygon);
}

#[test]
fn starting_sequence_draws_one_point_per_rib() {
    let polygons = to_geom(leaf_axiom(), &sixth()).unwrap();
    assert_eq!(polygons, vec![vec![point(0, 0, 0)], vec![point(0, 0, 0)]]);
}

#[test]
fn polygon_without_movement_stays_at_the_origin() {
    let commands = vec![Leaf::Pile, Leaf::Vertex, Leaf::Vertex, Leaf::Depile];
    let polygons = to_geom(commands, &sixth()).unwrap();
    assert_eq!(polygons, vec![vec![point(0, 0, 0), point(0, 0, 0)]]);
}

#[test]
fn empty_sequence_draws_nothing() {
    let polygons = to_geom(Vec::<Leaf>::new(), &sixth()).unwrap();
    assert!(polygons.is_empty());
}

#[test]
fn forward_moves_along_the_turned_diagonal() {
    let commands = vec![Leaf::Pile, grow(5_000_000), Leaf::Vertex, Leaf::Depile];
    let polygons = to_geom(commands, &sixth()).unwrap();
    assert_eq!(polygons, vec![vec![point(0, 7_071_070, 5_000_000)]]);
}

#[test]
fn turns_accumulate() {
    let commands = vec![
        Leaf::Pile,
        Leaf::AnglePos,
        grow(1_000_000),
        Leaf::Vertex,
        Leaf::AnglePos,
        grow(1_000_000),
        Leaf::Vertex,
        Leaf::AngleNeg,
        Leaf::AngleNeg,
        Leaf::AngleNeg,
        grow(1_000_000),
        Leaf::Vertex,
        Leaf::Depile,
    ];
    let polygons = to_geom(commands, &sixth()).unwrap();
    assert_eq!(
        polygons,
        vec![vec![
            point(-1_224_744, 707_106, 1_000_000),
            point(-2_449_487, 1, 2_000_000),
            point(-1_224_749, 707_105, 3_000_000),
        ]]
    );
}

#[test]
fn restored_state_brings_position_and_heading_back() {
    let commands = vec![
        Leaf::Pile,
        Leaf::Save,
        Leaf::AnglePos,
        grow(2_000_000),
        Leaf::Vertex,
        Leaf::Load,
        Leaf::Vertex,
        grow(1_000_000),
        Leaf::Vertex,
        Leaf::Depile,
    ];
    let polygons = to_geom(commands, &sixth()).unwrap();
    assert_eq!(
        polygons,
        vec![vec![
            point(-2_449_488, 1_414_212, 2_000_000),
            point(0, 0, 0),
            point(0, 1_414_214, 1_000_000),
        ]]
    );
}

#[test]
fn polygons_come_out_in_closing_order() {
    let commands = vec![
        Leaf::Pile,
        Leaf::Vertex,
        Leaf::Pile,
        grow(1_000_000),
        Leaf::Vertex,
        Leaf::Depile,
        grow(1_000_000),
        Leaf::Vertex,
        Leaf::Depile,
    ];
    let polygons = to_geom(commands, &sixth()).unwrap();
    assert_eq!(
        polygons,
        vec![
            vec![point(0, 1_414_214, 1_000_000)],
            vec![point(0, 0, 0), point(0, 2_828_428, 2_000_000)],
        ]
    );
}

#[test]
fn open_polygons_are_left_out() {
    let commands = vec![Leaf::Vertex, Leaf::Pile, Leaf::Vertex, Leaf::Vertex];
    let polygons = to_geom(commands, &sixth()).unwrap();
    assert!(polygons.is_empty());
}

#[test]
fn closing_without_opening_underflows() {
    assert_eq!(
        to_geom(vec![Leaf::Vertex, Leaf::Depile], &sixth()),
        Err(PlantError::StackUnderflow)
    );
}

#[test]
fn restoring_without_saving_underflows() {
    assert_eq!(
        to_geom(vec![Leaf::Load], &sixth()),
        Err(PlantError::StackUnderflow)
    );
}

#[test]
fn the_two_stacks_are_independent() {
    let interleaved = vec![Leaf::Save, Leaf::Pile, Leaf::Load, Leaf::Vertex, Leaf::Depile];
    assert_eq!(to_geom(interleaved, &sixth()), Ok(vec![vec![point(0, 0, 0)]]));
    assert_eq!(
        to_geom(vec![Leaf::Save, Leaf::Depile], &sixth()),
        Err(PlantError::StackUnderflow)
    );
    assert_eq!(
        to_geom(vec![Leaf::Pile, Leaf::Load], &sixth()),
        Err(PlantError::StackUnderflow)
    );
}

#[test]
fn balanced_sequences_never_underflow() {
    let p = parameters();
    for steps in 0..6 {
        assert!(to_geom(nth_generation(&p, steps), &sixth()).is_ok());
    }
}

#[test]
fn taking_out_an_opener_underflows() {
    let balanced = leaf_axiom();
    for (at, symbol) in balanced.iter().enumerate() {
        if *symbol == Leaf::Pile || *symbol == Leaf::Save {
            let mut short = balanced.clone();
            short.remove(at);
            assert_eq!(to_geom(short, &sixth()), Err(PlantError::StackUnderflow));
        }
    }
}

#[test]
fn taking_out_a_closer_leaves_something_open() {
    let balanced = leaf_axiom();
    let mut without_depile = balanced.clone();
    without_depile.remove(4);
    assert_eq!(
        to_geom(without_depile, &sixth()),
        Ok(vec![vec![point(0, 0, 0)]])
    );
    let mut without_load = balanced.clone();
    without_load.remove(5);
    assert_eq!(
        to_geom(without_load, &sixth()),
        Ok(vec![vec![point(0, 0, 0)], vec![point(0, 0, 0)]])
    );
}

#[test]
fn first_generation_draws_a_notch_to_each_side() {
    let polygons = to_geom(nth_generation(&parameters(), 1), &sixth()).unwrap();
    assert_eq!(
        polygons,
        vec![
            vec![
                point(0, 0, 0),
                point(0, 7_071_070, 5_000_000),
                point(-1_224_744, 7_778_176, 6_000_000),
            ],
            vec![point(0, 7_071_070, 5_000_000), point(0, 7_071_070, 5_000_000)],
            vec![
                point(0, 0, 0),
                point(0, 7_071_070, 5_000_000),
                point(1_224_744, 7_778_176, 6_000_000),
            ],
            vec![point(0, 7_071_070, 5_000_000), point(0, 7_071_070, 5_000_000)],
        ]
    );
}
