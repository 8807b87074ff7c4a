//! A turtle that walks through space and closes polygons behind it.
//!
//! The turtle keeps a position and a heading. It can save and restore the
//! two on one stack, and set aside and resume the polygon it is drawing on
//! another. The two stacks never touch each other.

use crate::error::PlantError;
use crate::fixed::Fixed;
use crate::turtle::nesting::{lemma_runs_iff_well_nested, well_nested};
use crate::utils::geometry::{outlines, WorldPoint, WorldRotation, WorldVector};
use std::collections::VecDeque;
use vstd::prelude::*;

verus! {

/// What a symbol asks the turtle to do.
pub trait TurtlePolygonInterpretation {
    /// The command that this symbol stands for.
    spec fn action(&self) -> TurtlePolygon;

    fn to_turtle(&self) -> (command: TurtlePolygon)
        ensures
            command == self.action(),
    ;
}

/// One command to the turtle.
#[derive(Clone, Copy, Debug, PartialEq, Eq)]
pub enum TurtlePolygon {
    /// Add the current position to the open polygon.
    Vertex,
    /// Move along the heading by the given length.
    Forward(Fixed),
    /// Turn by the turn angle.
    Left,
    /// Turn by the turn angle the other way.
    Right,
    /// Save position and heading.
    Push,
    /// Go back to the position and heading saved last.
    Pop,
    /// Set the open polygon aside and open an empty one.
    NewPolygon,
    /// Close the open polygon and resume the one set aside last.
    ClosePolygon,
    /// Do nothing.
    NoOp,
}

/// How the turtle turns: the rotation of one turn to the left, given by the
/// cosine and the sine of the turn angle.
#[derive(Clone, Copy, Debug, PartialEq, Eq)]
pub struct Params {
    pub angle: WorldRotation,
}

impl Params {
    /// The turtle that turns by `angle`.
    pub fn new(angle: WorldRotation) -> (params: Self)
        ensures
            params.angle == angle,
    {
        Self { angle }
    }
}

/// Everything the turtle knows between two commands.
pub struct Turtle {
    pub position: WorldVector,
    pub rotation: WorldRotation,
    /// The saved positions and headings, the latest last.
    pub states: Seq<(WorldVector, WorldRotation)>,
    /// The polygon being drawn.
    pub points: Seq<WorldPoint>,
    /// The polygons set aside, the latest last.
    pub saved_points: Seq<Seq<WorldPoint>>,
    /// The closed polygons, in the order of their closing.
    pub polygons: Seq<Seq<WorldPoint>>,
}

impl Turtle {
    /// The turtle before its first command: at the origin, turned by an
    /// eighth of a full turn, with nothing saved and nothing drawn.
    pub open spec fn start() -> Turtle {
        Turtle {
            position: WorldVector::at(Fixed::of(0), Fixed::of(0), Fixed::of(0)),
            rotation: WorldRotation::of(Fixed::of(707_107), Fixed::of(707_107)),
            states: Seq::empty(),
            points: Seq::empty(),
            saved_points: Seq::empty(),
            polygons: Seq::empty(),
        }
    }

    /// The displacement of a move of the given length: the vector whose
    /// coordinates are all one, turned by the heading and stretched by the
    /// length. With every move the turtle so rises by the length.
    pub open spec fn stride(self, length: Fixed) -> WorldVector {
        self.rotation.turned(
            WorldVector::at(Fixed::of(1_000_000), Fixed::of(1_000_000), Fixed::of(1_000_000)),
        ).stretched(length)
    }

    /// The turtle after one command, or `None` where the command asks for
    /// something that no stack holds.
    pub open spec fn step(self, command: TurtlePolygon, params: Params) -> Option<Turtle> {
        match command {
            TurtlePolygon::Vertex => Some(
                Turtle { points: self.points.push(self.position.tip()), ..self },
            ),
            TurtlePolygon::Forward(length) => Some(
                Turtle { position: self.position.moved(self.stride(length)), ..self },
            ),
            TurtlePolygon::Left => Some(
                Turtle { rotation: self.rotation.followed_by(params.angle), ..self },
            ),
            TurtlePolygon::Right => Some(
                Turtle { rotation: self.rotation.followed_by(params.angle.reversed()), ..self },
            ),
            TurtlePolygon::Push => Some(
                Turtle { states: self.states.push((self.position, self.rotation)), ..self },
            ),
            TurtlePolygon::Pop => if self.states.len() == 0 {
                None
            } else {
                Some(
                    Turtle {
                        position: self.states.last().0,
                        rotation: self.states.last().1,
                        states: self.states.drop_last(),
                        ..self
                    },
                )
            },
            TurtlePolygon::NewPolygon => Some(
                Turtle {
                    saved_points: self.saved_points.push(self.points),
                    points: Seq::empty(),
                    ..self
                },
            ),
            TurtlePolygon::ClosePolygon => if self.saved_points.len() == 0 {
                None
            } else {
                Some(
                    Turtle {
                        polygons: self.polygons.push(self.points),
                        points: self.saved_points.last(),
                        saved_points: self.saved_points.drop_last(),
                        ..self
                    },
                )
            },
            TurtlePolygon::NoOp => Some(self),
        }
    }

    /// The turtle after all the commands, in order, or `None` where one of
    /// them could not be carried out.
    pub open spec fn run(self, commands: Seq<TurtlePolygon>, params: Params) -> Option<Turtle>
        decreases commands.len(),
    {
        if commands.len() == 0 {
            Some(self)
        } else {
            match self.run(commands.drop_last(), params) {
                Some(turtle) => turtle.step(commands.last(), params),
                None => None,
            }
        }
    }
}

/// The commands that the symbols stand for, in order.
pub open spec fn commands_of<T: TurtlePolygonInterpretation>(symbols: Seq<T>) -> Seq<TurtlePolygon> {
    Seq::new(symbols.len(), |i: int| symbols[i].action())
}

/// Once a command has failed, no later command mends it.
pub proof fn lemma_run_fails_for_good(
    turtle: Turtle,
    commands: Seq<TurtlePolygon>,
    params: Params,
    n: int,
)
    requires
        0 <= n <= commands.len(),
        turtle.run(commands.take(n), params) is None,
    ensures
        turtle.run(commands, params) is None,
    decreases commands.len(),
{
    if n == commands.len() {
        assert(commands.take(n) == commands);
    } else {
        assert(commands.drop_last().take(n) == commands.take(n));
        lemma_run_fails_for_good(turtle, commands.drop_last(), params, n);
    }
}

/// Replays the symbols as turtle commands, from the origin, and hands back
/// the polygons that were closed, in the order of their closing. What is
/// still open at the end is left out. The replay fails where a command
/// restores a state or closes a polygon and none is left, and only there.
pub fn to_geom<T: TurtlePolygonInterpretation>(commands: Vec<T>, params: &Params) -> (result: Result<
    Vec<Vec<WorldPoint>>,
    PlantError,
>)
    ensures
        match Turtle::start().run(commands_of(commands@), *params) {
            Some(turtle) => result matches Ok(polygons) && outlines(polygons@) == turtle.polygons,
            None => result == Err::<Vec<Vec<WorldPoint>>, PlantError>(PlantError::StackUnderflow),
        },
        result is Ok <==> well_nested(commands_of(commands@)),
{
    proof {
        lemma_runs_iff_well_nested(Turtle::start(), commands_of(commands@), *params);
    }
    let mut polygons: Vec<Vec<WorldPoint>> = Vec::new();
    let mut position = WorldVector::zero();
    let mut rotation = WorldRotation::eighth_turn();
    let mut states: VecDeque<(WorldVector, WorldRotation)> = VecDeque::new();
    let mut points: Vec<WorldPoint> = Vec::new();
    let mut saved_points: VecDeque<Vec<WorldPoint>> = VecDeque::new();
    let ghost all = commands_of(commands@);
    let mut i: usize = 0;
    assert(all.take(0) == Seq::<TurtlePolygon>::empty());
    assert(outlines(polygons@) == Seq::<Seq<WorldPoint>>::empty());
    assert(outlines(saved_points@) == Seq::<Seq<WorldPoint>>::empty());
    while i < commands.len()
        invariant
            i <= commands.len(),
            all == commands_of(commands@),
            Turtle::start().run(all, *params) is Some <==> well_nested(all),
            Turtle::start().run(all.take(i as int), *params) == Some(
                Turtle {
                    position,
                    rotation,
                    states: states@,
                    points: points@,
                    saved_points: outlines(saved_points@),
                    polygons: outlines(polygons@),
                },
            ),
        decreases commands.len() - i,
    {
        let command = commands[i].to_turtle();
        let ghost before = Turtle {
            position,
            rotation,
            states: states@,
            points: points@,
            saved_points: outlines(saved_points@),
            polygons: outlines(polygons@),
        };
        proof {
            assert(all.take(i + 1).drop_last() == all.take(i as int));
            assert(all.take(i + 1).last() == command);
        }
        match command {
            TurtlePolygon::Vertex => points.push(position.to_point()),
            TurtlePolygon::Forward(length) => {
                position = position.plus(rotation.transform_vector3d(WorldVector::one()).scaled(length));
            },
            TurtlePolygon::Left => {
                rotation = rotation.compose(&params.angle);
            },
            TurtlePolygon::Right => {
                rotation = rotation.compose(&params.angle.inverse());
            },
            TurtlePolygon::Push => {
                states.push_back((position, rotation));
            },
            TurtlePolygon::Pop => {
                match states.pop_back() {
                    Some(saved) => {
                        position = saved.0;
                        rotation = saved.1;
                    },
                    None => {
                        proof {
                            lemma_run_fails_for_good(Turtle::start(), all, *params, i + 1);
                        }
                        return Err(PlantError::StackUnderflow);
                    },
                }
            },
            TurtlePolygon::NewPolygon => {
                let ghost set_aside = points@;
                saved_points.push_back(points);
                points = Vec::new();
                assert(outlines(saved_points@) == before.saved_points.push(set_aside));
            },
            TurtlePolygon::ClosePolygon => {
                match saved_points.pop_back() {
                    Some(resumed) => {
                        polygons.push(points);
                        points = resumed;
                        assert(outlines(polygons@) == before.polygons.push(before.points));
                        assert(outlines(saved_points@) == before.saved_points.drop_last());
                    },
                    None => {
                        proof {
                            lemma_run_fails_for_good(Turtle::start(), all, *params, i + 1);
                        }
                        return Err(PlantError::StackUnderflow);
                    },
                }
            },
            TurtlePolygon::NoOp => {},
        }
        i += 1;
    }
    assert(all.take(i as int) == all);
    Ok(polygons)
}

} // verus!
