//! Why the turtle can walk every generation of a leaf: the grammar keeps
//! what it saves and what it opens in balance.

use crate::fixed::{Fixed, SCALE};
use crate::systems::leaf::{
    generation, main_apex_production, production, rewritten, rib, still_growing, Leaf,
    LeafParameters,
};
use crate::turtle::nesting::{
    balanced, lemma_counts_add_up, lemma_well_nested_unfolds, open_change, opens, save_change,
    saves, well_nested,
};
use crate::turtle::polygon::{commands_of, TurtlePolygon, TurtlePolygonInterpretation};
use vstd::prelude::*;

verus! {

/// Whether the symbol can stand where `saved` states are saved and `open`
/// polygons are set aside: a `Load` needs a saved state, a `Depile` a
/// polygon set aside, and so does the tip of a main rib, which closes one
/// when it is rewritten.
pub open spec fn fits(symbol: Leaf, saved: int, open: int) -> bool {
    &&& saved >= 0
    &&& open >= 0
    &&& match symbol {
        Leaf::Load => saved >= 1,
        Leaf::Depile => open >= 1,
        Leaf::MainApex(_, _) => open >= 1,
        _ => true,
    }
}

/// Whether each symbol of the sequence fits where it stands, when the
/// sequence starts with `saved` states saved and `open` polygons set aside.
pub open spec fn sound(symbols: Seq<Leaf>, saved: int, open: int) -> bool
    decreases symbols.len(),
{
    if symbols.len() == 0 {
        true
    } else {
        &&& sound(symbols.drop_last(), saved, open)
        &&& fits(
            symbols.last(),
            saved + saves(commands_of(symbols.drop_last())),
            open + opens(commands_of(symbols.drop_last())),
        )
    }
}

/// The commands of a sequence with one more symbol are the commands of the
/// sequence with one more command.
pub proof fn lemma_commands_of_push(symbols: Seq<Leaf>, last: Leaf)
    ensures
        commands_of(symbols.push(last)) == commands_of(symbols).push(last.action()),
        saves(commands_of(symbols.push(last))) == saves(commands_of(symbols)) + save_change(
            last.action(),
        ),
        opens(commands_of(symbols.push(last))) == opens(commands_of(symbols)) + open_change(
            last.action(),
        ),
{
    let longer = commands_of(symbols.push(last));
    assert(longer == commands_of(symbols).push(last.action()));
    assert(longer.drop_last() == commands_of(symbols));
}

/// The commands of two sequences in a row are their commands in a row.
pub proof fn lemma_commands_of_concat(first: Seq<Leaf>, second: Seq<Leaf>)
    ensures
        commands_of(first + second) == commands_of(first) + commands_of(second),
        saves(commands_of(first + second)) == saves(commands_of(first)) + saves(
            commands_of(second),
        ),
        opens(commands_of(first + second)) == opens(commands_of(first)) + opens(
            commands_of(second),
        ),
{
    assert(commands_of(first + second) == commands_of(first) + commands_of(second));
    lemma_counts_add_up(commands_of(first), commands_of(second));
}

/// A sound sequence stays sound with one more symbol that fits at its end.
pub proof fn lemma_sound_push(symbols: Seq<Leaf>, last: Leaf, saved: int, open: int)
    requires
        sound(symbols, saved, open),
        fits(last, saved + saves(commands_of(symbols)), open + opens(commands_of(symbols))),
    ensures
        sound(symbols.push(last), saved, open),
        saves(commands_of(symbols.push(last))) == saves(commands_of(symbols)) + save_change(
            last.action(),
        ),
        opens(commands_of(symbols.push(last))) == opens(commands_of(symbols)) + open_change(
            last.action(),
        ),
{
    lemma_commands_of_push(symbols, last);
    assert(symbols.push(last).drop_last() == symbols);
}

/// Two sound sequences in a row are sound, where the second is sound from
/// where the first one ends.
pub proof fn lemma_sound_concat(first: Seq<Leaf>, second: Seq<Leaf>, saved: int, open: int)
    requires
        sound(first, saved, open),
        sound(
            second,
            saved + saves(commands_of(first)),
            open + opens(commands_of(first)),
        ),
    ensures
        sound(first + second, saved, open),
    decreases second.len(),
{
    if second.len() == 0 {
        assert(first + second == first);
    } else {
        let rest = second.drop_last();
        lemma_sound_concat(first, rest, saved, open);
        lemma_commands_of_concat(first, rest);
        assert((first + second).drop_last() == first + rest);
    }
}

/// The first half of what the tip of a main rib turns into: the stretch of
/// rib and the side lobe that closes the open polygon.
pub open spec fn closing_half(age: Fixed, direction: bool, parameters: LeafParameters) -> Seq<
    Leaf,
> {
    main_apex_production(age, direction, parameters).take(10)
}

/// The second half of what the tip of a main rib turns into: the side lobe
/// that opens the next polygon, and the new tip.
pub open spec fn opening_half(age: Fixed, direction: bool, parameters: LeafParameters) -> Seq<
    Leaf,
> {
    main_apex_production(age, direction, parameters).skip(10)
}

/// The closing half is sound where a polygon is set aside, and closes it.
pub proof fn lemma_closing_half_is_sound(
    age: Fixed,
    direction: bool,
    parameters: LeafParameters,
    saved: int,
    open: int,
)
    requires
        saved >= 0,
        open >= 1,
    ensures
        sound(closing_half(age, direction, parameters), saved, open),
        saves(commands_of(closing_half(age, direction, parameters))) == 0,
        opens(commands_of(closing_half(age, direction, parameters))) == -1,
{
    let turn = if direction {
        Leaf::AnglePos
    } else {
        Leaf::AngleNeg
    };
    let none = Seq::<Leaf>::empty();
    assert(commands_of(none) == Seq::<TurtlePolygon>::empty());
    let s1 = none.push(Leaf::Vertex);
    lemma_sound_push(none, Leaf::Vertex, saved, open);
    let rib = Leaf::Grow(parameters.main_apex_length, parameters.main_apex_growth_rate, None);
    let s2 = s1.push(rib);
    lemma_sound_push(s1, rib, saved, open);
    let s3 = s2.push(Leaf::Vertex);
    lemma_sound_push(s2, Leaf::Vertex, saved, open);
    let s4 = s3.push(Leaf::Save);
    lemma_sound_push(s3, Leaf::Save, saved, open);
    let s5 = s4.push(turn);
    lemma_sound_push(s4, turn, saved, open);
    let s6 = s5.push(Leaf::SideApex(age));
    lemma_sound_push(s5, Leaf::SideApex(age), saved, open);
    let notch = Leaf::Grow(parameters.notch_length, parameters.notch_growth_rate, Some(age));
    let s7 = s6.push(notch);
    lemma_sound_push(s6, notch, saved, open);
    let s8 = s7.push(Leaf::Vertex);
    lemma_sound_push(s7, Leaf::Vertex, saved, open);
    let s9 = s8.push(Leaf::Depile);
    lemma_sound_push(s8, Leaf::Depile, saved, open);
    let s10 = s9.push(Leaf::Load);
    lemma_sound_push(s9, Leaf::Load, saved, open);
    assert(s10 == closing_half(age, direction, parameters));
}

/// The opening half is sound wherever it stands, and opens a polygon.
pub proof fn lemma_opening_half_is_sound(
    age: Fixed,
    direction: bool,
    parameters: LeafParameters,
    saved: int,
    open: int,
)
    requires
        saved >= 0,
        open >= 0,
    ensures
        sound(opening_half(age, direction, parameters), saved, open),
        saves(commands_of(opening_half(age, direction, parameters))) == 0,
        opens(commands_of(opening_half(age, direction, parameters))) == 1,
{
    let turn = if direction {
        Leaf::AnglePos
    } else {
        Leaf::AngleNeg
    };
    let none = Seq::<Leaf>::empty();
    assert(commands_of(none) == Seq::<TurtlePolygon>::empty());
    let s1 = none.push(Leaf::Save);
    lemma_sound_push(none, Leaf::Save, saved, open);
    let s2 = s1.push(turn);
    lemma_sound_push(s1, turn, saved, open);
    let s3 = s2.push(Leaf::SideApex(age));
    lemma_sound_push(s2, Leaf::SideApex(age), saved, open);
    let s4 = s3.push(Leaf::Pile);
    lemma_sound_push(s3, Leaf::Pile, saved, open);
    let s5 = s4.push(Leaf::Vertex);
    lemma_sound_push(s4, Leaf::Vertex, saved, open);
    let s6 = s5.push(Leaf::Load);
    lemma_sound_push(s5, Leaf::Load, saved, open);
    let tip = Leaf::MainApex(age.sum(Fixed::of(SCALE as int)), direction);
    let s7 = s6.push(tip);
    lemma_sound_push(s6, tip, saved, open);
    assert(s7 == opening_half(age, direction, parameters));
}

/// The production of a symbol that fits is sound where the symbol stood,
/// and saves and opens as much as the symbol did.
pub proof fn lemma_production_is_sound(
    symbol: Leaf,
    parameters: LeafParameters,
    saved: int,
    open: int,
)
    requires
        fits(symbol, saved, open),
    ensures
        sound(production(symbol, parameters), saved, open),
        saves(commands_of(production(symbol, parameters))) == save_change(symbol.action()),
        opens(commands_of(production(symbol, parameters))) == open_change(symbol.action()),
{
    let none = Seq::<Leaf>::empty();
    assert(commands_of(none) == Seq::<TurtlePolygon>::empty());
    let out = production(symbol, parameters);
    match symbol {
        Leaf::MainApex(age, direction) => {
            let first = closing_half(age, direction, parameters);
            let second = opening_half(age, direction, parameters);
            lemma_closing_half_is_sound(age, direction, parameters, saved, open);
            lemma_opening_half_is_sound(age, direction, parameters, saved, open - 1);
            lemma_sound_concat(first, second, saved, open);
            lemma_commands_of_concat(first, second);
            assert(first + second == out);
        },
        Leaf::SideApex(age) => {
            if still_growing(age) {
                let shoot = Leaf::Grow(
                    parameters.side_apex_length,
                    parameters.side_apex_growth_rate,
                    None,
                );
                let tip = Leaf::SideApex(age.difference(parameters.potential_decrement));
                lemma_sound_push(none, shoot, saved, open);
                lemma_sound_push(none.push(shoot), tip, saved, open);
                assert(none.push(shoot).push(tip) == out);
            } else {
                lemma_sound_push(none, symbol, saved, open);
                assert(none.push(symbol) == out);
            }
        },
        _ => {
            lemma_sound_push(none, out[0], saved, open);
            assert(none.push(out[0]) == out);
        },
    }
}

/// Rewriting keeps a sequence sound, and keeps what it saves and opens.
pub proof fn lemma_rewriting_keeps_sound(
    symbols: Seq<Leaf>,
    parameters: LeafParameters,
    saved: int,
    open: int,
)
    requires
        sound(symbols, saved, open),
    ensures
        sound(rewritten(symbols, parameters), saved, open),
        saves(commands_of(rewritten(symbols, parameters))) == saves(commands_of(symbols)),
        opens(commands_of(rewritten(symbols, parameters))) == opens(commands_of(symbols)),
    decreases symbols.len(),
{
    if symbols.len() == 0 {
        assert(commands_of(symbols) == commands_of(rewritten(symbols, parameters)));
    } else {
        let rest = symbols.drop_last();
        let last = symbols.last();
        lemma_rewriting_keeps_sound(rest, parameters, saved, open);
        lemma_production_is_sound(
            last,
            parameters,
            saved + saves(commands_of(rest)),
            open + opens(commands_of(rest)),
        );
        lemma_sound_concat(
            rewritten(rest, parameters),
            production(last, parameters),
            saved,
            open,
        );
        lemma_commands_of_concat(rewritten(rest, parameters), production(last, parameters));
        assert(symbols == rest.push(last));
        lemma_commands_of_push(rest, last);
    }
}

/// The turtle can walk a sequence that is sound from empty stacks.
pub proof fn lemma_sound_is_well_nested(symbols: Seq<Leaf>)
    requires
        sound(symbols, 0, 0),
    ensures
        well_nested(commands_of(symbols)),
    decreases symbols.len(),
{
    let commands = commands_of(symbols);
    if symbols.len() == 0 {
        assert forall|n: int| 0 <= n <= commands.len() implies saves(
            #[trigger] commands.take(n),
        ) >= 0 && opens(commands.take(n)) >= 0 by {
            assert(commands.take(n) == commands);
        }
    } else {
        let rest = symbols.drop_last();
        lemma_sound_is_well_nested(rest);
        assert(symbols == rest.push(symbols.last()));
        lemma_commands_of_push(rest, symbols.last());
        assert(commands.drop_last() == commands_of(rest));
        assert(commands_of(rest).take(commands_of(rest).len() as int) == commands_of(rest));
        lemma_well_nested_unfolds(commands);
    }
}

/// One rib of the starting sequence is sound wherever it stands, and leaves
/// both stacks as they were.
pub proof fn lemma_rib_is_sound(direction: bool, saved: int, open: int)
    requires
        saved >= 0,
        open >= 0,
    ensures
        sound(rib(direction), saved, open),
        saves(commands_of(rib(direction))) == 0,
        opens(commands_of(rib(direction))) == 0,
{
    let none = Seq::<Leaf>::empty();
    assert(commands_of(none) == Seq::<TurtlePolygon>::empty());
    let out = rib(direction);
    let s1 = none.push(out[0]);
    lemma_sound_push(none, out[0], saved, open);
    let s2 = s1.push(out[1]);
    lemma_sound_push(s1, out[1], saved, open);
    let s3 = s2.push(out[2]);
    lemma_sound_push(s2, out[2], saved, open);
    let s4 = s3.push(out[3]);
    lemma_sound_push(s3, out[3], saved, open);
    let s5 = s4.push(out[4]);
    lemma_sound_push(s4, out[4], saved, open);
    let s6 = s5.push(out[5]);
    lemma_sound_push(s5, out[5], saved, open);
    assert(s6 == out);
}

/// Every generation of a leaf is sound from empty stacks and leaves both
/// stacks empty.
pub proof fn lemma_generations_are_sound(count: nat, parameters: LeafParameters)
    ensures
        sound(generation(count, parameters), 0, 0),
        saves(commands_of(generation(count, parameters))) == 0,
        opens(commands_of(generation(count, parameters))) == 0,
    decreases count,
{
    if count == 0 {
        lemma_rib_is_sound(true, 0, 0);
        lemma_rib_is_sound(false, 0, 0);
        lemma_sound_concat(rib(true), rib(false), 0, 0);
        lemma_commands_of_concat(rib(true), rib(false));
    } else {
        lemma_generations_are_sound((count - 1) as nat, parameters);
        lemma_rewriting_keeps_sound(generation((count - 1) as nat, parameters), parameters, 0, 0);
    }
}

/// Every generation of a leaf is balanced: the turtle can walk it, and ends
/// with nothing saved and nothing set aside.
pub proof fn lemma_generations_are_balanced(count: nat, parameters: LeafParameters)
    ensures
        balanced(commands_of(generation(count, parameters))),
{
    lemma_generations_are_sound(count, parameters);
    lemma_sound_is_well_nested(generation(count, parameters));
}

} // verus!
