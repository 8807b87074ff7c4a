//! A rewriting engine over any alphabet.
//!
//! The engine owns a sequence of symbols, a production rule and the constants
//! that the rule reads. Each step hands back the sequence as it stands and
//! replaces it by the productions of its symbols, joined in order.

pub mod balance;
pub mod leaf;

use vstd::prelude::*;

verus! {

/// The pieces joined end to end, in order.
pub open spec fn joined<T>(pieces: Seq<Vec<T>>) -> Seq<T>
    decreases pieces.len(),
{
    if pieces.len() == 0 {
        Seq::empty()
    } else {
        joined(pieces.drop_last()) + pieces.last()@
    }
}

/// Whether `pieces` holds, symbol by symbol, a production of `before`.
pub open spec fn produces<T, F, P>(rules: F, constants: P, before: Seq<T>, pieces: Seq<Vec<T>>) -> bool where
    F: FnMut(T, &P) -> Vec<T>,
 {
    &&& pieces.len() == before.len()
    &&& forall|i: int|
        0 <= i < before.len() ==> call_ensures(rules, (before[i], &constants), #[trigger] pieces[i])
}

/// Whether one step of rewriting can turn `before` into `after`.
pub open spec fn rewrites_to<T, F, P>(rules: F, constants: P, before: Seq<T>, after: Seq<T>) -> bool where
    F: FnMut(T, &P) -> Vec<T>,
 {
    exists|pieces: Seq<Vec<T>>|
        {
            &&& #[trigger] produces(rules, constants, before, pieces)
            &&& after == joined(pieces)
        }
}

/// Pieces that each hold a symbol or more are, joined, at least as many as
/// they are pieces.
pub proof fn lemma_joined_is_no_shorter<T>(pieces: Seq<Vec<T>>)
    requires
        forall|i: int| 0 <= i < pieces.len() ==> (#[trigger] pieces[i])@.len() >= 1,
    ensures
        joined(pieces).len() >= pieces.len(),
    decreases pieces.len(),
{
    if pieces.len() > 0 {
        assert forall|i: int| 0 <= i < pieces.drop_last().len() implies (
        #[trigger] pieces.drop_last()[i])@.len() >= 1 by {
            assert(pieces.drop_last()[i] == pieces[i]);
        }
        lemma_joined_is_no_shorter(pieces.drop_last());
        assert(pieces.last() == pieces[pieces.len() - 1]);
    }
}

/// Under a rule that never hands back an empty production, a step of
/// rewriting never shortens the sequence.
pub proof fn lemma_rewriting_never_shrinks<T, F, P>(
    rules: F,
    constants: P,
    before: Seq<T>,
    after: Seq<T>,
) where F: FnMut(T, &P) -> Vec<T>
    requires
        forall|symbol: T, output: Vec<T>| #[trigger]
            call_ensures(rules, (symbol, &constants), output) ==> output@.len() >= 1,
        rewrites_to(rules, constants, before, after),
    ensures
        after.len() >= before.len(),
{
    let pieces = choose|pieces: Seq<Vec<T>>|
        {
            &&& #[trigger] produces(rules, constants, before, pieces)
            &&& after == joined(pieces)
        };
    lemma_joined_is_no_shorter(pieces);
}

/// Whether `steps` steps of rewriting can turn `start` into `end`.
pub open spec fn evolves<T, F, P>(rules: F, constants: P, start: Seq<T>, steps: nat, end: Seq<T>) -> bool where
    F: FnMut(T, &P) -> Vec<T>,

    decreases steps,
{
    if steps == 0 {
        end == start
    } else {
        exists|middle: Seq<T>|
            {
                &&& evolves(rules, constants, start, (steps - 1) as nat, middle)
                &&& #[trigger] rewrites_to(rules, constants, middle, end)
            }
    }
}

/// A sequence reached in some steps, rewritten once, is reached in one step
/// more.
pub proof fn lemma_evolves_once_more<T, F, P>(
    rules: F,
    constants: P,
    start: Seq<T>,
    steps: nat,
    middle: Seq<T>,
    end: Seq<T>,
) where F: FnMut(T, &P) -> Vec<T>
    requires
        evolves(rules, constants, start, steps, middle),
        rewrites_to(rules, constants, middle, end),
    ensures
        evolves(rules, constants, start, steps + 1, end),
{
    assert(((steps + 1) - 1) as nat == steps);
}

/// In no step at all a sequence stays as it is.
pub proof fn lemma_evolves_no_step<T, F, P>(rules: F, constants: P, start: Seq<T>, end: Seq<T>) where
    F: FnMut(T, &P) -> Vec<T>,

    ensures
        evolves(rules, constants, start, 0, end) <==> end == start,
{
}

/// A sequence reached in one step or more was rewritten from one reached
/// in one step less.
pub proof fn lemma_evolves_last_step<T, F, P>(
    rules: F,
    constants: P,
    start: Seq<T>,
    steps: nat,
    end: Seq<T>,
) where F: FnMut(T, &P) -> Vec<T>
    requires
        steps > 0,
        evolves(rules, constants, start, steps, end),
    ensures
        exists|middle: Seq<T>|
            {
                &&& evolves(rules, constants, start, (steps - 1) as nat, middle)
                &&& #[trigger] rewrites_to(rules, constants, middle, end)
            },
{
}

/// Whether `copy` holds, symbol by symbol, a clone of `symbols`.
pub open spec fn clones<T: Clone>(symbols: Seq<T>, copy: Seq<T>) -> bool {
    &&& copy.len() == symbols.len()
    &&& forall|i: int| 0 <= i < copy.len() ==> cloned(symbols[i], #[trigger] copy[i])
}

/// A rewriting system: a sequence of symbols, the rule that rewrites a
/// symbol, and the constants that the rule reads.
#[verifier::reject_recursive_types(T)]
#[verifier::reject_recursive_types(P)]
pub struct LSystem<T, F, P> where F: FnMut(T, &P) -> Vec<T> {
    current: Vec<T>,
    rules: F,
    constants: P,
}

impl<T, F, P> LSystem<T, F, P> where F: FnMut(T, &P) -> Vec<T> {
    /// The sequence that the next step hands back.
    pub closed spec fn sequence(&self) -> Seq<T> {
        self.current@
    }

    /// The production rule.
    pub closed spec fn rules(&self) -> F {
        self.rules
    }

    /// The constants handed to the rule.
    pub closed spec fn constants(&self) -> P {
        self.constants
    }

    /// An engine that starts from `start`.
    pub fn new(start: Vec<T>, rules: F, constants: P) -> (system: LSystem<T, F, P>)
        ensures
            system.sequence() == start@,
            system.rules() == rules,
            system.constants() == constants,
    {
        LSystem { current: start, rules, constants }
    }
}

impl<T, F, P> LSystem<T, F, P> where T: Clone, F: FnMut(T, &P) -> Vec<T> {
    /// Hands back a copy of the current sequence and rewrites the sequence
    /// once: each symbol, in order, is replaced by what the rule produces for
    /// it.
    pub fn next(&mut self) -> (generation: Option<Vec<T>>)
        requires
            forall|i: int|
                0 <= i < old(self).sequence().len() ==> call_requires(
                    old(self).rules(),
                    (#[trigger] old(self).sequence()[i], &old(self).constants()),
                ),
        ensures
            generation matches Some(copy) && clones(old(self).sequence(), copy@),
            rewrites_to(
                old(self).rules(),
                old(self).constants(),
                old(self).sequence(),
                final(self).sequence(),
            ),
            final(self).rules() == old(self).rules(),
            final(self).constants() == old(self).constants(),
    {
        let copy = self.current.clone();
        let mut before: Vec<T> = Vec::new();
        std::mem::swap(&mut self.current, &mut before);
        let ghost symbols = before@;
        let ghost mut pieces: Seq<Vec<T>> = Seq::empty();
        let mut after: Vec<T> = Vec::new();
        assert forall|i: int| 0 <= i < symbols.len() implies call_requires(
            self.rules,
            (#[trigger] symbols[i], &self.constants),
        ) by {
            assert(symbols[i] == old(self).sequence()[i]);
        }
        for symbol in it: before
            invariant
                self.rules == old(self).rules,
                self.constants == old(self).constants,
                it.seq() == symbols,
                symbols == old(self).sequence(),
                forall|i: int|
                    0 <= i < symbols.len() ==> call_requires(
                        self.rules,
                        (#[trigger] symbols[i], &self.constants),
                    ),
                produces(self.rules, self.constants, symbols.take(it.index() as int), pieces),
                after@ == joined(pieces),
        {
            let mut piece = (self.rules)(symbol, &self.constants);
            proof {
                let grown = pieces.push(piece);
                assert(grown.drop_last() == pieces);
                assert(symbols.take(it.index() + 1).drop_last() == symbols.take(it.index() as int));
                pieces = grown;
            }
            after.append(&mut piece);
        }
        self.current = after;
        proof {
            assert(symbols.take(symbols.len() as int) == symbols);
        }
        Some(copy)
    }

    /// Rewrites the sequence `n` times, hands back a copy of what has come
    /// of it, and rewrites it once more.
    pub fn nth(&mut self, n: usize) -> (generation: Option<Vec<T>>)
        requires
            forall|symbol: T| #[trigger]
                call_requires(old(self).rules(), (symbol, &old(self).constants())),
        ensures
            generation matches Some(copy) && exists|reached: Seq<T>|
                {
                    &&& #[trigger] evolves(
                        old(self).rules(),
                        old(self).constants(),
                        old(self).sequence(),
                        n as nat,
                        reached,
                    )
                    &&& clones(reached, copy@)
                    &&& rewrites_to(
                        old(self).rules(),
                        old(self).constants(),
                        reached,
                        final(self).sequence(),
                    )
                },
            final(self).rules() == old(self).rules(),
            final(self).constants() == old(self).constants(),
    {
        let mut done: usize = 0;
        while done < n
            invariant
                done <= n,
                self.rules() == old(self).rules(),
                self.constants() == old(self).constants(),
                forall|symbol: T| #[trigger]
                    call_requires(self.rules(), (symbol, &self.constants())),
                evolves(
                    self.rules(),
                    self.constants(),
                    old(self).sequence(),
                    done as nat,
                    self.sequence(),
                ),
            decreases n - done,
        {
            let ghost middle = self.sequence();
            let _ = self.next();
            done += 1;
            proof {
                lemma_evolves_once_more(
                    self.rules(),
                    self.constants(),
                    old(self).sequence(),
                    (done - 1) as nat,
                    middle,
                    self.sequence(),
                );
            }
        }
        self.next()
    }
}

} // verus!
