//! From the constants of a leaf to its outline: grow the symbols, walk them
//! with the turtle, fit what was drawn into a box and look at it from above.

use crate::error::PlantError;
use crate::fixed::Fixed;
use crate::systems::balance::lemma_generations_are_balanced;
use crate::systems::leaf::{generation, nth_generation, LeafParameters};
use crate::turtle::nesting::lemma_balanced_runs;
use crate::turtle::polygon::{commands_of, to_geom, Params, Turtle};
use crate::utils::geometry::bounds::WorldBox;
use crate::utils::geometry::transform::{ProjectionMatrix, WorldTransform};
use crate::utils::geometry::{outlines, ScreenPoint, WorldPoint};
use crate::utils::random::seeded;
use rand::rngs::StdRng;
use vstd::prelude::*;

verus! {

/// The polygons of the leaf with the given constants after `steps`
/// generations, fitted into `destination`; or the reason why there are none.
pub open spec fn leaf_polygons(
    parameters: LeafParameters,
    steps: nat,
    turtle: Params,
    destination: WorldBox,
) -> Result<Seq<Seq<WorldPoint>>, PlantError> {
    match Turtle::start().run(commands_of(generation(steps, parameters)), turtle) {
        None => Err(PlantError::StackUnderflow),
        Some(end) => WorldTransform::fitted(end.polygons, destination),
    }
}

/// Whether the polygons handed back, or the failure, are the expected ones.
pub open spec fn agrees<A>(
    result: Result<Vec<Vec<A>>, PlantError>,
    expected: Result<Seq<Seq<A>>, PlantError>,
) -> bool {
    match expected {
        Ok(shapes) => result matches Ok(polygons) && outlines(polygons@) == shapes,
        Err(e) => result matches Err(f) && f == e,
    }
}

/// The turtle can walk every generation of every leaf: growing a leaf never
/// fails for want of a saved state or an open polygon.
pub proof fn lemma_leaf_never_underflows(
    parameters: LeafParameters,
    steps: nat,
    turtle: Params,
    destination: WorldBox,
)
    ensures
        Turtle::start().run(commands_of(generation(steps, parameters)), turtle) is Some,
        leaf_polygons(parameters, steps, turtle, destination) != Err::<
            Seq<Seq<WorldPoint>>,
            PlantError,
        >(PlantError::StackUnderflow),
{
    lemma_generations_are_balanced(steps, parameters);
    lemma_balanced_runs(commands_of(generation(steps, parameters)), turtle);
}

/// Two results that agree with the same expectation hold the same: both
/// the same polygons with the same points in the same order, or both the
/// same failure. So two runs on the same constants, generation count, turn
/// and box cannot differ.
pub proof fn lemma_runs_cannot_differ<A>(
    first: Result<Vec<Vec<A>>, PlantError>,
    second: Result<Vec<Vec<A>>, PlantError>,
    expected: Result<Seq<Seq<A>>, PlantError>,
)
    requires
        agrees(first, expected),
        agrees(second, expected),
    ensures
        match (first, second) {
            (Ok(one), Ok(other)) => outlines(one@) == outlines(other@),
            (Err(one), Err(other)) => one == other,
            _ => false,
        },
{
}

/// Grows the leaf with the given constants for `steps` generations and fits
/// its polygons into `bbox_out`. The same arguments give the same polygons.
/// The only failures are those of the fitting: a leaf that has no point, or
/// a leaf or a box that is flat.
pub fn grow(
    parameters: &LeafParameters,
    steps: usize,
    turtle_params: &Params,
    bbox_out: &WorldBox,
) -> (result: Result<Vec<Vec<WorldPoint>>, PlantError>)
    ensures
        agrees(result, leaf_polygons(*parameters, steps as nat, *turtle_params, *bbox_out)),
        !(result matches Err(e) && e == PlantError::StackUnderflow),
{
    proof {
        lemma_leaf_never_underflows(*parameters, steps as nat, *turtle_params, *bbox_out);
    }
    let commands = nth_generation(parameters, steps);
    let polygons = match to_geom(commands, turtle_params) {
        Ok(polygons) => polygons,
        Err(_) => {
            return Err(PlantError::StackUnderflow);
        },
    };
    WorldTransform::fit_polygons(&polygons, bbox_out)
}

/// Draws the constants of a leaf from the generator, then grows and fits
/// the leaf. Whatever was drawn, the polygons are those of the leaf with
/// some constants that can be drawn.
pub fn grow_l_system(
    steps: usize,
    rng: &mut StdRng,
    turtle_params: &Params,
    bbox_out: WorldBox,
) -> (result: Result<Vec<Vec<WorldPoint>>, PlantError>)
    ensures
        exists|parameters: LeafParameters|
            parameters.can_be_drawn() && agrees(
                result,
                #[trigger] leaf_polygons(parameters, steps as nat, *turtle_params, bbox_out),
            ),
{
    let parameters = LeafParameters::sample(rng);
    grow(&parameters, steps, turtle_params, &bbox_out)
}

/// The outline, on the drawing plane, of the leaf that grows from `seed`:
/// its polygons after `steps` generations, fitted into `bbox_out` and seen
/// from `distance`. A polygon keeps its place even where none of its points
/// can be seen.
pub fn leaf_outline(
    seed: u64,
    steps: usize,
    turtle_params: &Params,
    bbox_out: WorldBox,
    distance: Fixed,
) -> (result: Result<Vec<Vec<ScreenPoint>>, PlantError>)
    ensures
        exists|parameters: LeafParameters|
            parameters.can_be_drawn() && match #[trigger] leaf_polygons(
                parameters,
                steps as nat,
                *turtle_params,
                bbox_out,
            ) {
                Ok(shapes) => result matches Ok(paths) && paths@.len() == shapes.len() && forall|
                    i: int,
                |
                    0 <= i < shapes.len() ==> (#[trigger] paths@[i])@
                        == ProjectionMatrix { distance }.seen_path(shapes[i]),
                Err(e) => result matches Err(f) && f == e,
            },
{
    let mut rng = seeded(seed);
    let polygons = match grow_l_system(steps, &mut rng, turtle_params, bbox_out) {
        Ok(polygons) => polygons,
        Err(e) => {
            return Err(e);
        },
    };
    let projection = ProjectionMatrix::perspective(distance);
    let paths = projection.project_polygons(&polygons);
    proof {
        let parameters = choose|parameters: LeafParameters|
            parameters.can_be_drawn() && agrees(
                Ok::<Vec<Vec<WorldPoint>>, PlantError>(polygons),
                #[trigger] leaf_polygons(parameters, steps as nat, *turtle_params, bbox_out),
            );
        let shapes = leaf_polygons(parameters, steps as nat, *turtle_params, bbox_out)->Ok_0;
        assert forall|i: int| 0 <= i < shapes.len() implies (#[trigger] paths@[i])@
            == projection.seen_path(shapes[i]) by {
            assert(outlines(polygons@)[i] == polygons@[i]@);
        }
    }
    Ok(paths)
}

} // verus!
