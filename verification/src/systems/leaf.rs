//! The grammar of a leaf: its alphabet, its productions and its constants.

use crate::fixed::{Fixed, SCALE};
use crate::systems::{
    clones, evolves, joined, lemma_evolves_last_step, lemma_evolves_no_step, produces,
    rewrites_to, LSystem,
};
use crate::turtle::polygon::{TurtlePolygon, TurtlePolygonInterpretation};
use crate::utils::random::draw;
use rand::rngs::StdRng;
use vstd::prelude::*;

verus! {

/// A symbol of the leaf grammar.
#[derive(Clone, Copy, Debug, PartialEq, Eq)]
pub enum Leaf {
    /// A corner of the outline.
    Vertex,
    /// A stretch of rib: its length, its growth rate and, for a side shoot,
    /// the age that is left to it.
    Grow(Fixed, Fixed, Option<Fixed>),
    /// The tip of a main rib: its age, and the side on which it buds.
    MainApex(Fixed, bool),
    /// The tip of a side lobe, with the age that is left to it.
    SideApex(Fixed),
    /// A turn to the left.
    AnglePos,
    /// A turn to the right.
    AngleNeg,
    /// Remember position and heading.
    Save,
    /// Return to the position and heading remembered last.
    Load,
    /// Start a polygon inside the current one.
    Pile,
    /// Close the current polygon and resume the one around it.
    Depile,
}

/// The constants of one leaf. They are drawn once and then stay as they are.
#[derive(Clone, Copy, Debug, PartialEq, Eq)]
pub struct LeafParameters {
    pub main_apex_length: Fixed,
    pub main_apex_growth_rate: Fixed,
    pub side_apex_length: Fixed,
    pub side_apex_growth_rate: Fixed,
    pub notch_length: Fixed,
    pub notch_growth_rate: Fixed,
    pub potential_decrement: Fixed,
}

impl LeafParameters {
    /// The constants with the given values.
    pub fn new(
        main_apex_length: Fixed,
        main_apex_growth_rate: Fixed,
        side_apex_length: Fixed,
        side_apex_growth_rate: Fixed,
        notch_length: Fixed,
        notch_growth_rate: Fixed,
        potential_decrement: Fixed,
    ) -> (parameters: Self)
        ensures
            parameters == (LeafParameters {
                main_apex_length,
                main_apex_growth_rate,
                side_apex_length,
                side_apex_growth_rate,
                notch_length,
                notch_growth_rate,
                potential_decrement,
            }),
    {
        Self {
            main_apex_length,
            main_apex_growth_rate,
            side_apex_length,
            side_apex_growth_rate,
            notch_length,
            notch_growth_rate,
            potential_decrement,
        }
    }
}

/// The six numbers that are drawn for a leaf, each a count of millionths.
pub struct Draws {
    /// The growth rate of the main rib.
    pub main_rate: int,
    /// By how much of a tenth the side lobes outgrow the main rib.
    pub boost: int,
    pub side_length: int,
    pub notch_length: int,
    pub notch_rate: int,
    pub decrement: int,
}

impl Draws {
    /// Whether each number lies in the range that it is drawn from.
    pub open spec fn in_range(self) -> bool {
        &&& 1_000_000 <= self.main_rate < 1_200_000
        &&& 0 <= self.boost < 1_000_000
        &&& 1_000_000 <= self.side_length < 3_000_000
        &&& 500_000 <= self.notch_length < 1_500_000
        &&& 1_000_000 <= self.notch_rate < 1_050_000
        &&& 250_000 <= self.decrement < 1_000_000
    }

    /// The constants that the draws stand for. The main rib starts five
    /// units long; the side lobes grow at the rate of the main rib times one
    /// and a tenth of the boost.
    pub open spec fn constants(self) -> LeafParameters {
        LeafParameters {
            main_apex_length: Fixed::of(5_000_000),
            main_apex_growth_rate: Fixed::of(self.main_rate),
            side_apex_length: Fixed::of(self.side_length),
            side_apex_growth_rate: Fixed::of(self.main_rate).product(
                Fixed::of(SCALE as int).sum(Fixed::of(100_000).product(Fixed::of(self.boost))),
            ),
            notch_length: Fixed::of(self.notch_length),
            notch_growth_rate: Fixed::of(self.notch_rate),
            potential_decrement: Fixed::of(self.decrement),
        }
    }
}

impl LeafParameters {
    /// Whether these constants can come out of a drawing.
    pub open spec fn can_be_drawn(self) -> bool {
        exists|draws: Draws| draws.in_range() && self == #[trigger] draws.constants()
    }

    /// Constants that were drawn lie in their ranges: the main rib starts
    /// five units long and grows by less than a fifth, and the side lobes grow
    /// at least as fast as the main rib and less than a tenth faster.
    pub proof fn lemma_drawn_is_in_range(self)
        requires
            self.can_be_drawn(),
        ensures
            self.main_apex_length@ == 5_000_000,
            1_000_000 <= self.main_apex_growth_rate@ < 1_200_000,
            self.main_apex_growth_rate@ <= self.side_apex_growth_rate@,
            10 * self.side_apex_growth_rate@ < 11 * self.main_apex_growth_rate@,
            1_000_000 <= self.side_apex_length@ < 3_000_000,
            500_000 <= self.notch_length@ < 1_500_000,
            1_000_000 <= self.notch_growth_rate@ < 1_050_000,
            250_000 <= self.potential_decrement@ < 1_000_000,
    {
        let draws = choose|draws: Draws| draws.in_range() && self == #[trigger] draws.constants();
        let main = draws.main_rate;
        let tenth = (100_000 * draws.boost) / 1_000_000;
        let factor = 1_000_000 + tenth;
        assert(0 <= tenth < 100_000);
        assert(main * 1_000_000 <= main * factor < main * 1_100_000) by (nonlinear_arith)
            requires
                main >= 1_000_000,
                1_000_000 <= factor < 1_100_000,
        ;
        let side = (main * factor) / 1_000_000;
        assert(main <= side && side * 1_000_000 < main * 1_100_000) by (nonlinear_arith)
            requires
                main * 1_000_000 <= main * factor < main * 1_100_000,
                side == (main * factor) / 1_000_000,
        ;
        assert(self.side_apex_growth_rate@ == side);
    }

    /// The constants that the six drawn numbers stand for.
    pub fn from_draws(
        main_rate: i64,
        boost: i64,
        side_length: i64,
        notch_length: i64,
        notch_rate: i64,
        decrement: i64,
    ) -> (parameters: Self)
        ensures
            parameters == (Draws {
                main_rate: main_rate as int,
                boost: boost as int,
                side_length: side_length as int,
                notch_length: notch_length as int,
                notch_rate: notch_rate as int,
                decrement: decrement as int,
            }).constants(),
    {
        let main_apex_growth_rate = Fixed::from_micros(main_rate);
        let side_apex_growth_rate = main_apex_growth_rate.times(
            Fixed::one().plus(Fixed::from_micros(100_000).times(Fixed::from_micros(boost))),
        );
        LeafParameters {
            main_apex_length: Fixed::from_int(5),
            main_apex_growth_rate,
            side_apex_length: Fixed::from_micros(side_length),
            side_apex_growth_rate,
            notch_length: Fixed::from_micros(notch_length),
            notch_growth_rate: Fixed::from_micros(notch_rate),
            potential_decrement: Fixed::from_micros(decrement),
        }
    }

    /// Draws the constants of a leaf: six numbers from the generator, in the
    /// order main rate, boost, side length, notch length, notch rate,
    /// decrement.
    pub fn sample(rng: &mut StdRng) -> (parameters: Self)
        ensures
            parameters.can_be_drawn(),
    {
        let main_rate = draw(rng, 1_000_000, 1_200_000);
        let boost = draw(rng, 0, 1_000_000);
        let side_length = draw(rng, 1_000_000, 3_000_000);
        let notch_length = draw(rng, 500_000, 1_500_000);
        let notch_rate = draw(rng, 1_000_000, 1_050_000);
        let decrement = draw(rng, 250_000, 1_000_000);
        let parameters = Self::from_draws(
            main_rate,
            boost,
            side_length,
            notch_length,
            notch_rate,
            decrement,
        );
        proof {
            let draws = Draws {
                main_rate: main_rate as int,
                boost: boost as int,
                side_length: side_length as int,
                notch_length: notch_length as int,
                notch_rate: notch_rate as int,
                decrement: decrement as int,
            };
            assert(draws.in_range() && parameters == draws.constants());
        }
        parameters
    }
}

/// Whether an age still allows growth: it does while it is above one.
pub open spec fn still_growing(age: Fixed) -> bool {
    age@ > SCALE
}

/// One of the two halves of the starting sequence: a main rib that buds to
/// the side given by `direction`, inside a polygon and a saved state of its
/// own.
pub open spec fn rib(direction: bool) -> Seq<Leaf> {
    seq![
        Leaf::Save,
        Leaf::Pile,
        Leaf::MainApex(Fixed::of(0), direction),
        Leaf::Vertex,
        Leaf::Depile,
        Leaf::Load,
    ]
}

/// The sequence that every leaf starts from: a rib to each side.
pub open spec fn start_sequence() -> Seq<Leaf> {
    rib(true) + rib(false)
}

/// What the tip of a main rib turns into. The rib grows by one stretch; a
/// side lobe with a notch closes the polygon that was open, a second side
/// lobe opens the next one, and a tip one year older takes the place of the
/// old tip.
pub open spec fn main_apex_production(age: Fixed, direction: bool, parameters: LeafParameters) -> Seq<
    Leaf,
> {
    let turn = if direction {
        Leaf::AnglePos
    } else {
        Leaf::AngleNeg
    };
    seq![
        Leaf::Vertex,
        Leaf::Grow(parameters.main_apex_length, parameters.main_apex_growth_rate, None),
        Leaf::Vertex,
        Leaf::Save,
        turn,
        Leaf::SideApex(age),
        Leaf::Grow(parameters.notch_length, parameters.notch_growth_rate, Some(age)),
        Leaf::Vertex,
        Leaf::Depile,
        Leaf::Load,
        Leaf::Save,
        turn,
        Leaf::SideApex(age),
        Leaf::Pile,
        Leaf::Vertex,
        Leaf::Load,
        Leaf::MainApex(age.sum(Fixed::of(SCALE as int)), direction),
    ]
}

/// What one symbol turns into in one generation.
pub open spec fn production(symbol: Leaf, parameters: LeafParameters) -> Seq<Leaf> {
    match symbol {
        Leaf::Grow(length, growth_rate, Some(age)) => if still_growing(age) {
            seq![
                Leaf::Grow(
                    length.product(growth_rate),
                    growth_rate,
                    Some(age.difference(parameters.potential_decrement)),
                ),
            ]
        } else {
            seq![symbol]
        },
        Leaf::Grow(length, growth_rate, None) => seq![
            Leaf::Grow(length.product(growth_rate), growth_rate, None),
        ],
        Leaf::MainApex(age, direction) => main_apex_production(age, direction, parameters),
        Leaf::SideApex(age) => if still_growing(age) {
            seq![
                Leaf::Grow(parameters.side_apex_length, parameters.side_apex_growth_rate, None),
                Leaf::SideApex(age.difference(parameters.potential_decrement)),
            ]
        } else {
            seq![symbol]
        },
        _ => seq![symbol],
    }
}

/// The sequence with every symbol replaced by its production, in order.
pub open spec fn rewritten(symbols: Seq<Leaf>, parameters: LeafParameters) -> Seq<Leaf>
    decreases symbols.len(),
{
    if symbols.len() == 0 {
        Seq::empty()
    } else {
        rewritten(symbols.drop_last(), parameters) + production(symbols.last(), parameters)
    }
}

/// The sequence `start` rewritten `count` times.
pub open spec fn grown(start: Seq<Leaf>, count: nat, parameters: LeafParameters) -> Seq<Leaf>
    decreases count,
{
    if count == 0 {
        start
    } else {
        rewritten(grown(start, (count - 1) as nat, parameters), parameters)
    }
}

/// The starting sequence rewritten `count` times.
pub open spec fn generation(count: nat, parameters: LeafParameters) -> Seq<Leaf> {
    grown(start_sequence(), count, parameters)
}

/// No production is empty.
pub proof fn lemma_production_is_not_empty(symbol: Leaf, parameters: LeafParameters)
    ensures
        production(symbol, parameters).len() >= 1,
{
}

/// Rewriting never shortens a sequence.
pub proof fn lemma_rewriting_never_shrinks(symbols: Seq<Leaf>, parameters: LeafParameters)
    ensures
        rewritten(symbols, parameters).len() >= symbols.len(),
    decreases symbols.len(),
{
    if symbols.len() > 0 {
        lemma_rewriting_never_shrinks(symbols.drop_last(), parameters);
        lemma_production_is_not_empty(symbols.last(), parameters);
    }
}

/// Each generation holds at least as many symbols as the one before it.
pub proof fn lemma_generations_never_shrink(count: nat, parameters: LeafParameters)
    ensures
        generation(count + 1, parameters).len() >= generation(count, parameters).len(),
{
    assert(((count + 1) - 1) as nat == count);
    lemma_rewriting_never_shrinks(generation(count, parameters), parameters);
}

/// A side lobe whose age is spent stays as it is, however often it is
/// rewritten.
pub proof fn lemma_spent_side_apex_is_fixed(age: Fixed, count: nat, parameters: LeafParameters)
    requires
        !still_growing(age),
    ensures
        production(Leaf::SideApex(age), parameters) == seq![Leaf::SideApex(age)],
        grown(seq![Leaf::SideApex(age)], count, parameters) == seq![Leaf::SideApex(age)],
    decreases count,
{
    let alone = seq![Leaf::SideApex(age)];
    if count > 0 {
        lemma_spent_side_apex_is_fixed(age, (count - 1) as nat, parameters);
        assert(alone.drop_last() == Seq::<Leaf>::empty());
        assert(rewritten(alone, parameters) == rewritten(alone.drop_last(), parameters)
            + production(alone.last(), parameters));
        assert(rewritten(alone, parameters) == alone);
    }
}

/// What the rule hands back for each symbol, joined, is the rewritten
/// sequence.
pub proof fn lemma_pieces_join_to_rewritten(
    before: Seq<Leaf>,
    pieces: Seq<Vec<Leaf>>,
    parameters: LeafParameters,
)
    requires
        produces(leaf_rule, parameters, before, pieces),
    ensures
        joined(pieces) == rewritten(before, parameters),
    decreases before.len(),
{
    if before.len() > 0 {
        assert(produces(leaf_rule, parameters, before.drop_last(), pieces.drop_last())) by {
            assert forall|i: int| 0 <= i < before.drop_last().len() implies call_ensures(
                leaf_rule,
                (before.drop_last()[i], &parameters),
                #[trigger] pieces.drop_last()[i],
            ) by {
                assert(pieces.drop_last()[i] == pieces[i]);
            }
        }
        lemma_pieces_join_to_rewritten(before.drop_last(), pieces.drop_last(), parameters);
        assert(call_ensures(leaf_rule, (before.last(), &parameters), pieces[pieces.len() - 1]));
    }
}

/// One step of the engine under the leaf rule gives the rewritten sequence
/// and no other.
pub proof fn lemma_step_is_rewritten(before: Seq<Leaf>, after: Seq<Leaf>, parameters: LeafParameters)
    requires
        rewrites_to(leaf_rule, parameters, before, after),
    ensures
        after == rewritten(before, parameters),
{
    let pieces = choose|pieces: Seq<Vec<Leaf>>|
        {
            &&& #[trigger] produces(leaf_rule, parameters, before, pieces)
            &&& after == joined(pieces)
        };
    lemma_pieces_join_to_rewritten(before, pieces, parameters);
}

/// Some steps of the engine under the leaf rule give the sequence grown by
/// as many generations, and no other.
pub proof fn lemma_steps_are_grown(
    start: Seq<Leaf>,
    steps: nat,
    end: Seq<Leaf>,
    parameters: LeafParameters,
)
    requires
        evolves(leaf_rule, parameters, start, steps, end),
    ensures
        end == grown(start, steps, parameters),
    decreases steps,
{
    if steps > 0 {
        lemma_evolves_last_step(leaf_rule, parameters, start, steps, end);
        let middle = choose|middle: Seq<Leaf>|
            {
                &&& evolves(leaf_rule, parameters, start, (steps - 1) as nat, middle)
                &&& #[trigger] rewrites_to(leaf_rule, parameters, middle, end)
            };
        lemma_steps_are_grown(start, (steps - 1) as nat, middle, parameters);
        lemma_step_is_rewritten(middle, end, parameters);
    } else {
        lemma_evolves_no_step(leaf_rule, parameters, start, end);
    }
}

/// The starting sequence rewritten `steps` times.
pub fn nth_generation(parameters: &LeafParameters, steps: usize) -> (symbols: Vec<Leaf>)
    ensures
        symbols@ == generation(steps as nat, *parameters),
{
    let mut system = LSystem::new(leaf_axiom(), leaf_rule, *parameters);
    let ghost start = system.sequence();
    match system.nth(steps) {
        Some(symbols) => {
            proof {
                let reached = choose|reached: Seq<Leaf>|
                    {
                        &&& #[trigger] evolves(leaf_rule, *parameters, start, steps as nat, reached)
                        &&& clones(reached, symbols@)
                        &&& rewrites_to(leaf_rule, *parameters, reached, system.sequence())
                    };
                lemma_steps_are_grown(start, steps as nat, reached, *parameters);
                assert(symbols@ =~= reached);
            }
            symbols
        },
        None => Vec::new(),
    }
}

/// The sequence that every leaf starts from.
pub fn leaf_axiom() -> (symbols: Vec<Leaf>)
    ensures
        symbols@ == start_sequence(),
{
    let symbols = vec![
        Leaf::Save,
        Leaf::Pile,
        Leaf::MainApex(Fixed::zero(), true),
        Leaf::Vertex,
        Leaf::Depile,
        Leaf::Load,
        Leaf::Save,
        Leaf::Pile,
        Leaf::MainApex(Fixed::zero(), false),
        Leaf::Vertex,
        Leaf::Depile,
        Leaf::Load,
    ];
    assert(symbols@ =~= start_sequence());
    symbols
}

/// The production of one symbol.
pub fn leaf_rule(input: Leaf, parameters: &LeafParameters) -> (output: Vec<Leaf>)
    ensures
        output@ == production(input, *parameters),
{
    match input {
        Leaf::Vertex => vec![Leaf::Vertex],
        Leaf::Grow(length, growth_rate, time) => match time {
            Some(age) => {
                if age.greater_than(Fixed::one()) {
                    vec![
                        Leaf::Grow(
                            length.times(growth_rate),
                            growth_rate,
                            Some(age.minus(parameters.potential_decrement)),
                        ),
                    ]
                } else {
                    vec![Leaf::Grow(length, growth_rate, time)]
                }
            },
            None => vec![Leaf::Grow(length.times(growth_rate), growth_rate, None)],
        },
        Leaf::MainApex(time, direction) => {
            let turn = if direction {
                Leaf::AnglePos
            } else {
                Leaf::AngleNeg
            };
            vec![
                Leaf::Vertex,
                Leaf::Grow(parameters.main_apex_length, parameters.main_apex_growth_rate, None),
                Leaf::Vertex,
                Leaf::Save,
                turn,
                Leaf::SideApex(time),
                Leaf::Grow(parameters.notch_length, parameters.notch_growth_rate, Some(time)),
                Leaf::Vertex,
                Leaf::Depile,
                Leaf::Load,
                Leaf::Save,
                turn,
                Leaf::SideApex(time),
                Leaf::Pile,
                Leaf::Vertex,
                Leaf::Load,
                Leaf::MainApex(time.plus(Fixed::one()), direction),
            ]
        },
        Leaf::SideApex(time) => {
            if time.greater_than(Fixed::one()) {
                vec![
                    Leaf::Grow(parameters.side_apex_length, parameters.side_apex_growth_rate, None),
                    Leaf::SideApex(time.minus(parameters.potential_decrement)),
                ]
            } else {
                vec![Leaf::SideApex(time)]
            }
        },
        Leaf::AnglePos => vec![Leaf::AnglePos],
        Leaf::AngleNeg => vec![Leaf::AngleNeg],
        Leaf::Save => vec![Leaf::Save],
        Leaf::Load => vec![Leaf::Load],
        Leaf::Pile => vec![Leaf::Pile],
        Leaf::Depile => vec![Leaf::Depile],
    }
}

impl TurtlePolygonInterpretation for Leaf {
    open spec fn action(&self) -> TurtlePolygon {
        match *self {
            Leaf::Vertex => TurtlePolygon::Vertex,
            Leaf::Grow(length, _, _) => TurtlePolygon::Forward(length),
            Leaf::MainApex(_, _) => TurtlePolygon::NoOp,
            Leaf::SideApex(_) => TurtlePolygon::NoOp,
            Leaf::AnglePos => TurtlePolygon::Left,
            Leaf::AngleNeg => TurtlePolygon::Right,
            Leaf::Save => TurtlePolygon::Push,
            Leaf::Load => TurtlePolygon::Pop,
            Leaf::Pile => TurtlePolygon::NewPolygon,
            Leaf::Depile => TurtlePolygon::ClosePolygon,
        }
    }

    fn to_turtle(&self) -> (command: TurtlePolygon) {
        match *self {
            Leaf::Vertex => TurtlePolygon::Vertex,
            Leaf::Grow(length, _, _) => TurtlePolygon::Forward(length),
            Leaf::MainApex(_, _) => TurtlePolygon::NoOp,
            Leaf::SideApex(_) => TurtlePolygon::NoOp,
            Leaf::AnglePos => TurtlePolygon::Left,
            Leaf::AngleNeg => TurtlePolygon::Right,
            Leaf::Save => TurtlePolygon::Push,
            Leaf::Load => TurtlePolygon::Pop,
            Leaf::Pile => TurtlePolygon::NewPolygon,
            Leaf::Depile => TurtlePolygon::ClosePolygon,
        }
    }
}

} // verus!
