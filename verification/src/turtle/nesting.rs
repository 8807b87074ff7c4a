//! When a sequence of commands can be carried out: each stack must hold
//! something whenever a command takes from it.

use crate::turtle::polygon::{Params, Turtle, TurtlePolygon};
use vstd::prelude::*;

verus! {

/// By how much one command raises the number of saved states.
pub open spec fn save_change(command: TurtlePolygon) -> int {
    match command {
        TurtlePolygon::Push => 1,
        TurtlePolygon::Pop => -1,
        _ => 0,
    }
}

/// By how much one command raises the number of polygons set aside.
pub open spec fn open_change(command: TurtlePolygon) -> int {
    match command {
        TurtlePolygon::NewPolygon => 1,
        TurtlePolygon::ClosePolygon => -1,
        _ => 0,
    }
}

/// How many more states the commands save than they restore.
pub open spec fn saves(commands: Seq<TurtlePolygon>) -> int
    decreases commands.len(),
{
    if commands.len() == 0 {
        0
    } else {
        saves(commands.drop_last()) + save_change(commands.last())
    }
}

/// How many more polygons the commands open than they close.
pub open spec fn opens(commands: Seq<TurtlePolygon>) -> int
    decreases commands.len(),
{
    if commands.len() == 0 {
        0
    } else {
        opens(commands.drop_last()) + open_change(commands.last())
    }
}

/// Whether, at every point of the sequence, no more states have been
/// restored than saved and no more polygons closed than opened.
pub open spec fn well_nested(commands: Seq<TurtlePolygon>) -> bool {
    forall|n: int|
        0 <= n <= commands.len() ==> saves(#[trigger] commands.take(n)) >= 0 && opens(
            commands.take(n),
        ) >= 0
}

/// Whether the sequence is well nested and leaves nothing saved and nothing
/// set aside.
pub open spec fn balanced(commands: Seq<TurtlePolygon>) -> bool {
    &&& well_nested(commands)
    &&& saves(commands) == 0
    &&& opens(commands) == 0
}

/// The counts of a single command are its changes.
pub proof fn lemma_counts_of_one(command: TurtlePolygon)
    ensures
        saves(seq![command]) == save_change(command),
        opens(seq![command]) == open_change(command),
{
    let one = seq![command];
    assert(one.drop_last() == Seq::<TurtlePolygon>::empty());
    assert(saves(one) == saves(one.drop_last()) + save_change(one.last()));
    assert(opens(one) == opens(one.drop_last()) + open_change(one.last()));
}

/// The counts of two sequences in a row add up.
pub proof fn lemma_counts_add_up(first: Seq<TurtlePolygon>, second: Seq<TurtlePolygon>)
    ensures
        saves(first + second) == saves(first) + saves(second),
        opens(first + second) == opens(first) + opens(second),
    decreases second.len(),
{
    if second.len() == 0 {
        assert(first + second == first);
    } else {
        assert((first + second).drop_last() == first + second.drop_last());
        lemma_counts_add_up(first, second.drop_last());
    }
}

/// A sequence is well nested where all but its last command are, and its
/// counts are not negative.
pub proof fn lemma_well_nested_unfolds(commands: Seq<TurtlePolygon>)
    requires
        commands.len() > 0,
    ensures
        well_nested(commands) <==> well_nested(commands.drop_last()) && saves(commands) >= 0
            && opens(commands) >= 0,
{
    let rest = commands.drop_last();
    assert(commands.take(commands.len() as int) == commands);
    if well_nested(commands) {
        assert forall|n: int| 0 <= n <= rest.len() implies saves(#[trigger] rest.take(n)) >= 0
            && opens(rest.take(n)) >= 0 by {
            assert(rest.take(n) == commands.take(n));
        }
    }
    if well_nested(rest) && saves(commands) >= 0 && opens(commands) >= 0 {
        assert forall|n: int| 0 <= n <= commands.len() implies saves(
            #[trigger] commands.take(n),
        ) >= 0 && opens(commands.take(n)) >= 0 by {
            if n < commands.len() {
                assert(rest.take(n) == commands.take(n));
            }
        }
    }
}

/// While the turtle can carry the commands out, its two stacks grow and
/// shrink by what the commands save and open.
pub proof fn lemma_run_tracks_counts(turtle: Turtle, commands: Seq<TurtlePolygon>, params: Params)
    requires
        turtle.run(commands, params) is Some,
    ensures
        turtle.run(commands, params)->Some_0.states.len() == turtle.states.len() + saves(commands),
        turtle.run(commands, params)->Some_0.saved_points.len() == turtle.saved_points.len()
            + opens(commands),
    decreases commands.len(),
{
    if commands.len() > 0 {
        lemma_run_tracks_counts(turtle, commands.drop_last(), params);
    }
}

/// A turtle that starts with empty stacks can carry out exactly the well
/// nested sequences.
pub proof fn lemma_runs_iff_well_nested(
    turtle: Turtle,
    commands: Seq<TurtlePolygon>,
    params: Params,
)
    requires
        turtle.states.len() == 0,
        turtle.saved_points.len() == 0,
    ensures
        turtle.run(commands, params) is Some <==> well_nested(commands),
    decreases commands.len(),
{
    if commands.len() == 0 {
        assert forall|n: int| 0 <= n <= commands.len() implies saves(
            #[trigger] commands.take(n),
        ) >= 0 && opens(commands.take(n)) >= 0 by {
            assert(commands.take(n) == commands);
        }
    } else {
        let rest = commands.drop_last();
        lemma_runs_iff_well_nested(turtle, rest, params);
        lemma_well_nested_unfolds(commands);
        if turtle.run(rest, params) is Some {
            lemma_run_tracks_counts(turtle, rest, params);
            if turtle.run(commands, params) is Some {
                lemma_run_tracks_counts(turtle, commands, params);
            }
        }
    }
}

/// A balanced sequence never asks a stack for what it does not hold: the
/// turtle carries it out, and ends with both stacks empty.
pub proof fn lemma_balanced_runs(commands: Seq<TurtlePolygon>, params: Params)
    requires
        balanced(commands),
    ensures
        Turtle::start().run(commands, params) matches Some(turtle) && turtle.states.len() == 0
            && turtle.saved_points.len() == 0,
{
    lemma_runs_iff_well_nested(Turtle::start(), commands, params);
    lemma_run_tracks_counts(Turtle::start(), commands, params);
}

/// A sequence that restores more than it saves, or closes more than it
/// opens, cannot be carried out.
pub proof fn lemma_deficit_fails(commands: Seq<TurtlePolygon>, params: Params)
    requires
        saves(commands) < 0 || opens(commands) < 0,
    ensures
        Turtle::start().run(commands, params) is None,
{
    lemma_runs_iff_well_nested(Turtle::start(), commands, params);
    assert(commands.take(commands.len() as int) == commands);
}

/// A balanced sequence from which one opening command is taken out, a
/// `Push` or a `NewPolygon`, cannot be carried out any more.
pub proof fn lemma_missing_opener_fails(commands: Seq<TurtlePolygon>, at: int, params: Params)
    requires
        balanced(commands),
        0 <= at < commands.len(),
        commands[at] == TurtlePolygon::Push || commands[at] == TurtlePolygon::NewPolygon,
    ensures
        Turtle::start().run(commands.remove(at), params) is None,
{
    let before = commands.take(at);
    let after = commands.skip(at + 1);
    let one = seq![commands[at]];
    assert(commands == before + one + after);
    assert(commands.remove(at) == before + after);
    lemma_counts_add_up(before, one);
    lemma_counts_add_up(before + one, after);
    lemma_counts_add_up(before, after);
    lemma_counts_of_one(commands[at]);
    lemma_deficit_fails(commands.remove(at), params);
}

/// A balanced sequence from which one closing command is taken out, a
/// `Pop` or a `ClosePolygon`, can still be carried out: what was opened and
/// never closed is left on its stack.
pub proof fn lemma_missing_closer_runs(commands: Seq<TurtlePolygon>, at: int, params: Params)
    requires
        balanced(commands),
        0 <= at < commands.len(),
        commands[at] == TurtlePolygon::Pop || commands[at] == TurtlePolygon::ClosePolygon,
    ensures
        Turtle::start().run(commands.remove(at), params) is Some,
{
    let short = commands.remove(at);
    let one = seq![commands[at]];
    lemma_counts_of_one(commands[at]);
    assert forall|n: int| 0 <= n <= short.len() implies saves(#[trigger] short.take(n)) >= 0
        && opens(short.take(n)) >= 0 by {
        if n <= at {
            assert(short.take(n) == commands.take(n));
        } else {
            let before = commands.take(at);
            let middle = commands.subrange(at + 1, n + 1);
            assert(commands.take(n + 1) == before + one + middle);
            assert(short.take(n) == before + middle);
            lemma_counts_add_up(before, one);
            lemma_counts_add_up(before + one, middle);
            lemma_counts_add_up(before, middle);
            assert(saves(commands.take(n + 1)) >= 0 && opens(commands.take(n + 1)) >= 0);
        }
    }
    lemma_runs_iff_well_nested(Turtle::start(), short, params);
}

} // verus!
