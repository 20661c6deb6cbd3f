//! The pool of dice a player holds, which shrinks as grim outcomes come up.

use crate::outcome::Roll;
use crate::roller::{all_die_faces, from_die, outcomes, Rolls};
use crate::source::{drawn_since, FaceSource, ThreadSource};
use vstd::prelude::*;

verus! {

/// How many of `rolls` are grim.
pub open spec fn grims(rolls: Seq<Roll>) -> nat
    decreases rolls.len(),
{
    if rolls.len() == 0 {
        0
    } else {
        grims(rolls.drop_last()) + if rolls.last() is Grim {
            1nat
        } else {
            0nat
        }
    }
}

/// No more outcomes are grim than there are outcomes.
pub proof fn lemma_grims_bounded(rolls: Seq<Roll>)
    ensures
        grims(rolls) <= rolls.len(),
    decreases rolls.len(),
{
    if rolls.len() > 0 {
        lemma_grims_bounded(rolls.drop_last());
    }
}

/// A counted collection of dice that are still available to roll.
pub struct Pool {
    dice: u8,
}

impl View for Pool {
    type V = nat;

    /// The number of dice in the pool.
    closed spec fn view(&self) -> nat {
        self.dice as nat
    }
}

impl Pool {
    /// A pool that holds exactly `dice` dice.
    pub fn new(dice: u8) -> (pool: Self)
        ensures
            pool@ == dice,
    {
        Self { dice }
    }

    /// The number of dice currently in the pool.
    pub fn dice(&self) -> (count: u8)
        ensures
            count == self@,
    {
        self.dice
    }

    /// Rolls every die of the pool with the random number generator of the
    /// calling thread, and takes one die out of the pool for each grim
    /// outcome. The outcomes come back in the order in which they were
    /// rolled.
    pub fn roll(&mut self, rolls: &Rolls) -> (results: Vec<Roll>)
        ensures
            results@.len() == old(self)@,
            forall|i: int| 0 <= i < results@.len() ==> from_die(#[trigger] results@[i]),
            final(self)@ == old(self)@ - grims(results@),
            old(self)@ == 0 ==> results@.len() == 0 && final(self)@ == 0,
    {
        let mut source = ThreadSource::new();
        self.roll_rng(&mut source, rolls)
    }

    /// Rolls every die of the pool with faces drawn from `source`, and takes
    /// one die out of the pool for each grim outcome, as soon as it comes up.
    /// As many dice are rolled as the pool held when the call began, and
    /// their outcomes come back in the order in which they were rolled.
    pub fn roll_rng<S: FaceSource>(&mut self, source: &mut S, rolls: &Rolls) -> (results: Vec<Roll>)
        ensures
            old(source).drawn().is_prefix_of(final(source).drawn()),
            drawn_since(old(source).drawn(), final(source).drawn()).len() == old(self)@,
            all_die_faces(drawn_since(old(source).drawn(), final(source).drawn())),
            results@ == outcomes(drawn_since(old(source).drawn(), final(source).drawn())),
            forall|i: int| 0 <= i < results@.len() ==> from_die(#[trigger] results@[i]),
            final(self)@ == old(self)@ - grims(results@),
            old(self)@ == 0 ==> results@.len() == 0 && final(self)@ == 0,
    {
        let ghost before = source.drawn();
        let num_dice: u8 = self.dice;
        let mut rolled: u8 = 0;
        let mut results: Vec<Roll> = Vec::new();
        while rolled < num_dice
            invariant
                rolled <= num_dice,
                num_dice == old(self)@,
                results@.len() == rolled,
                before.is_prefix_of(source.drawn()),
                drawn_since(before, source.drawn()).len() == rolled,
                all_die_faces(drawn_since(before, source.drawn())),
                results@ == outcomes(drawn_since(before, source.drawn())),
                forall|i: int| 0 <= i < results@.len() ==> from_die(#[trigger] results@[i]),
                grims(results@) <= rolled,
                self@ == num_dice - grims(results@),
            decreases num_dice - rolled,
        {
            let ghost earlier = drawn_since(before, source.drawn());
            let ghost rolled_before = results@;
            let roll = rolls.sample(source);
            if roll.is_grim() {
                self.dice -= 1;
            }
            results.push(roll);
            rolled += 1;
            proof {
                let face = source.drawn().last();
                assert(drawn_since(before, source.drawn()) =~= earlier.push(face));
                assert(results@ =~= outcomes(earlier.push(face)));
                assert(results@.drop_last() =~= rolled_before);
            }
        }
        results
    }
}

} // verus!
