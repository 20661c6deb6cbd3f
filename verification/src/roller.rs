//! The die roller: it classifies faces and resolves a number of dice into one
//! outcome.

use crate::outcome::Roll;
use crate::source::{drawn_since, FaceSource};
use vstd::prelude::*;

verus! {

/// Whether `face` is one of the six faces of a die.
pub open spec fn is_die_face(face: u8) -> bool {
    1 <= face <= 6
}

/// Whether every one of `faces` is a face of a die.
pub open spec fn all_die_faces(faces: Seq<u8>) -> bool {
    forall|i: int| 0 <= i < faces.len() ==> is_die_face(#[trigger] faces[i])
}

/// The outcome that a die showing `face` comes to: grim for 1 to 3, messy for
/// 4 and 5, perfect for 6.
pub open spec fn outcome_of(face: u8) -> Roll {
    if face <= 3 {
        Roll::Grim(face)
    } else if face <= 5 {
        Roll::Messy(face)
    } else {
        Roll::Perfect(face)
    }
}

/// Whether a die can come to `roll`: whether `roll` is the outcome of one of
/// the six faces.
pub open spec fn from_die(roll: Roll) -> bool {
    match roll {
        Roll::Grim(face) => 1 <= face <= 3,
        Roll::Messy(face) => 4 <= face <= 5,
        Roll::Perfect(face) => face == 6,
        _ => false,
    }
}

/// The outcomes of `faces`, in the same order.
pub open spec fn outcomes(faces: Seq<u8>) -> Seq<Roll> {
    Seq::new(faces.len(), |i: int| outcome_of(faces[i]))
}

/// How many of `rolls` are perfect.
pub open spec fn perfects(rolls: Seq<Roll>) -> nat
    decreases rolls.len(),
{
    if rolls.len() == 0 {
        0
    } else {
        perfects(rolls.drop_last()) + if rolls.last() is Perfect {
            1nat
        } else {
            0nat
        }
    }
}

/// The best outcome among `seed` and `rolls`.
pub open spec fn best_of(seed: Roll, rolls: Seq<Roll>) -> Roll
    decreases rolls.len(),
{
    if rolls.len() == 0 {
        seed
    } else {
        best_of(seed, rolls.drop_last()).max_of(rolls.last())
    }
}

/// Whether resolving `dice` dice, having drawn exactly `rolls`, gives `result`.
///
/// With no dice, two dice are drawn and the worse counts. Otherwise the dice
/// are drawn one by one. Drawing ends with the second perfect outcome, and
/// the result is critical; if there is no second one, all `dice` dice are
/// drawn and the result is the best of them, or `Grim(1)` if that is better.
pub open spec fn resolves(rolls: Seq<Roll>, dice: nat, result: Roll) -> bool {
    if dice == 0 {
        rolls.len() == 2 && result == rolls[0].min_of(rolls[1])
    } else if perfects(rolls) <= 1 {
        rolls.len() == dice && result == best_of(Roll::Grim(1), rolls)
    } else {
        &&& rolls.len() <= dice
        &&& rolls.last() is Perfect
        &&& perfects(rolls.drop_last()) == 1
        &&& result == Roll::Critical
    }
}

/// A six-sided die: the range of faces it shows, each equally likely.
pub struct Rolls {
    lowest: u8,
    highest: u8,
}

impl Rolls {
    #[verifier::type_invariant]
    spec fn six_sided(self) -> bool {
        self.lowest == 1 && self.highest == 6
    }

    /// The lowest face of the die.
    pub closed spec fn lowest(self) -> u8 {
        self.lowest
    }

    /// The highest face of the die.
    pub closed spec fn highest(self) -> u8 {
        self.highest
    }

    /// A die with the faces 1 to 6.
    pub fn new() -> (die: Self)
        ensures
            die.lowest() == 1,
            die.highest() == 6,
    {
        Self { lowest: 1, highest: 6 }
    }

    /// The outcome of a die that shows `face`.
    pub fn classify(face: u8) -> (roll: Roll)
        requires
            is_die_face(face),
        ensures
            roll == outcome_of(face),
            face <= 3 ==> roll is Grim,
            4 <= face <= 5 ==> roll is Messy,
            face == 6 ==> roll is Perfect,
            roll.shown() == face,
    {
        if face <= 3 {
            Roll::Grim(face)
        } else if face <= 5 {
            Roll::Messy(face)
        } else {
            Roll::Perfect(face)
        }
    }

    /// Rolls one die: draws one face from `source` and classifies it.
    pub fn sample<S: FaceSource>(&self, source: &mut S) -> (roll: Roll)
        ensures
            final(source).drawn().len() == old(source).drawn().len() + 1,
            final(source).drawn() == old(source).drawn().push(final(source).drawn().last()),
            is_die_face(final(source).drawn().last()),
            roll == outcome_of(final(source).drawn().last()),
    {
        proof {
            use_type_invariant(self);
        }
        let face: u8 = source.draw(self.lowest, self.highest);
        Self::classify(face)
    }

    /// Rolls `num_dice` dice one after the other and gives their outcomes in
    /// the order in which they were rolled.
    pub fn roll_n<S: FaceSource>(&self, source: &mut S, num_dice: usize) -> (rolls: Vec<Roll>)
        ensures
            old(source).drawn().is_prefix_of(final(source).drawn()),
            drawn_since(old(source).drawn(), final(source).drawn()).len() == num_dice,
            all_die_faces(drawn_since(old(source).drawn(), final(source).drawn())),
            rolls@ == outcomes(drawn_since(old(source).drawn(), final(source).drawn())),
    {
        let ghost before = source.drawn();
        let mut rolls: Vec<Roll> = Vec::new();
        while rolls.len() < num_dice
            invariant
                rolls.len() <= num_dice,
                before.is_prefix_of(source.drawn()),
                drawn_since(before, source.drawn()).len() == rolls.len(),
                all_die_faces(drawn_since(before, source.drawn())),
                rolls@ == outcomes(drawn_since(before, source.drawn())),
            decreases num_dice - rolls.len(),
        {
            let ghost earlier = drawn_since(before, source.drawn());
            let roll = self.sample(source);
            rolls.push(roll);
            proof {
                let face = source.drawn().last();
                assert(drawn_since(before, source.drawn()) =~= earlier.push(face));
                assert(rolls@ =~= outcomes(earlier.push(face)));
            }
        }
        rolls
    }

    /// Resolves `num_dice` dice into one outcome.
    ///
    /// With no dice, two are rolled and the worse outcome counts. Otherwise
    /// the dice are rolled one by one: the second perfect outcome ends the
    /// rolling at once with a critical result, and failing that the best
    /// outcome rolled is the result.
    pub fn sample_pool<S: FaceSource>(&self, source: &mut S, num_dice: usize) -> (result: Roll)
        ensures
            old(source).drawn().is_prefix_of(final(source).drawn()),
            all_die_faces(drawn_since(old(source).drawn(), final(source).drawn())),
            resolves(
                outcomes(drawn_since(old(source).drawn(), final(source).drawn())),
                num_dice as nat,
                result,
            ),
            result is Critical || from_die(result),
            result is Critical ==> num_dice >= 2,
    {
        let ghost before = source.drawn();
        if num_dice == 0 {
            let pair = self.roll_n(source, 2);
            return pair[0].lower(pair[1]);
        }
        let mut current_max = Roll::Grim(1);
        let mut rolled: usize = 0;
        while rolled < num_dice
            invariant
                rolled <= num_dice,
                before == old(source).drawn(),
                before.is_prefix_of(source.drawn()),
                from_die(current_max),
                drawn_since(before, source.drawn()).len() == rolled,
                all_die_faces(drawn_since(before, source.drawn())),
                perfects(outcomes(drawn_since(before, source.drawn()))) <= 1,
                current_max is Perfect <==> perfects(
                    outcomes(drawn_since(before, source.drawn())),
                ) == 1,
                current_max == best_of(
                    Roll::Grim(1),
                    outcomes(drawn_since(before, source.drawn())),
                ),
            decreases num_dice - rolled,
        {
            let ghost earlier = drawn_since(before, source.drawn());
            let roll = self.sample(source);
            proof {
                let face = source.drawn().last();
                let now = drawn_since(before, source.drawn());
                assert(now =~= earlier.push(face));
                assert(outcomes(now) =~= outcomes(earlier).push(roll));
                assert(outcomes(now).drop_last() =~= outcomes(earlier));
            }
            if current_max.is_perfect() && roll.is_perfect() {
                return Roll::Critical;
            }
            current_max = current_max.higher(roll);
            rolled += 1;
        }
        current_max
    }
}

/// The best of a seed and some outcomes is no worse than the seed or any of
/// the outcomes, and it is the seed or one of the outcomes.
pub proof fn lemma_best_of_is_maximum(seed: Roll, rolls: Seq<Roll>)
    ensures
        !best_of(seed, rolls).below(seed),
        forall|i: int| 0 <= i < rolls.len() ==> !best_of(seed, rolls).below(#[trigger] rolls[i]),
        best_of(seed, rolls) == seed || exists|i: int|
            0 <= i < rolls.len() && #[trigger] rolls[i] == best_of(seed, rolls),
    decreases rolls.len(),
{
    if rolls.len() > 0 {
        let earlier = rolls.drop_last();
        lemma_best_of_is_maximum(seed, earlier);
        let before = best_of(seed, earlier);
        let best = best_of(seed, rolls);
        assert forall|i: int| 0 <= i < rolls.len() implies !best.below(#[trigger] rolls[i]) by {
            if i < earlier.len() {
                assert(earlier[i] == rolls[i]);
            }
        }
        if best != seed {
            if best == rolls.last() {
                assert(rolls[rolls.len() - 1] == best);
            } else {
                let i = choose|i: int| 0 <= i < earlier.len() && #[trigger] earlier[i] == before;
                assert(rolls[i] == best);
            }
        }
    }
}

/// The first so many of some outcomes hold no more perfect ones than all of
/// them do.
pub proof fn lemma_perfects_of_prefix(rolls: Seq<Roll>, count: int)
    requires
        0 <= count <= rolls.len(),
    ensures
        perfects(rolls.take(count)) <= perfects(rolls),
    decreases rolls.len(),
{
    if count == rolls.len() {
        assert(rolls.take(count) =~= rolls);
    } else {
        assert(rolls.drop_last().take(count) =~= rolls.take(count));
        lemma_perfects_of_prefix(rolls.drop_last(), count);
    }
}

/// How a resolution ends is settled by the outcomes themselves: if two runs
/// of the same number of dice meet the same outcomes in the same order, they
/// take equally many of them and come to the same result.
pub proof fn lemma_resolution_determined(
    supply: Seq<Roll>,
    dice: nat,
    taken: int,
    result: Roll,
    other_taken: int,
    other_result: Roll,
)
    requires
        0 <= taken <= supply.len(),
        0 <= other_taken <= supply.len(),
        resolves(supply.take(taken), dice, result),
        resolves(supply.take(other_taken), dice, other_result),
    ensures
        taken == other_taken,
        result == other_result,
    decreases
            if taken <= other_taken {
                0nat
            } else {
                1nat
            },
{
    if taken > other_taken {
        lemma_resolution_determined(supply, dice, other_taken, other_result, taken, result);
    } else if dice > 0 && taken < other_taken {
        let short = supply.take(taken);
        let long = supply.take(other_taken);
        assert(long.drop_last() =~= supply.take(other_taken - 1));
        assert(supply.take(other_taken - 1).take(taken) =~= short);
        assert(long.take(taken) =~= short);
        lemma_perfects_of_prefix(supply.take(other_taken - 1), taken);
        lemma_perfects_of_prefix(long, taken);
    }
}

/// Where the second perfect outcome comes up among the dice to be rolled,
/// the result is critical and nothing is drawn after it.
pub proof fn lemma_stops_at_second_perfect(
    supply: Seq<Roll>,
    dice: nat,
    taken: int,
    result: Roll,
    second: int,
)
    requires
        0 <= taken <= supply.len(),
        resolves(supply.take(taken), dice, result),
        0 <= second < dice,
        second < supply.len(),
        supply[second] is Perfect,
        perfects(supply.take(second)) == 1,
    ensures
        taken == second + 1,
        result == Roll::Critical,
{
    let ending = supply.take(second + 1);
    assert(ending.drop_last() =~= supply.take(second));
    assert(ending.last() == supply[second]);
    assert(resolves(ending, dice, Roll::Critical));
    lemma_resolution_determined(supply, dice, taken, result, second + 1, Roll::Critical);
}

/// A resolution without dice draws exactly two outcomes and comes to the
/// worse of them: it is one of the two, and neither of them ranks below it.
pub proof fn lemma_no_dice_keeps_the_worse(rolls: Seq<Roll>, result: Roll)
    requires
        resolves(rolls, 0, result),
    ensures
        rolls.len() == 2,
        result == rolls[0] || result == rolls[1],
        !rolls[0].below(result),
        !rolls[1].below(result),
{
}

/// Outcomes none of which is perfect hold no perfect one.
pub proof fn lemma_no_perfects(rolls: Seq<Roll>)
    requires
        forall|i: int| 0 <= i < rolls.len() ==> !(#[trigger] rolls[i] is Perfect),
    ensures
        perfects(rolls) == 0,
    decreases rolls.len(),
{
    if rolls.len() > 0 {
        assert(rolls.last() == rolls[rolls.len() - 1]);
        assert forall|i: int| 0 <= i < rolls.drop_last().len() implies !(
        #[trigger] rolls.drop_last()[i] is Perfect) by {
            assert(rolls.drop_last()[i] == rolls[i]);
        }
        lemma_no_perfects(rolls.drop_last());
    }
}

/// When every die of a resolution comes up grim, the result is the best of
/// those grim outcomes: it is one of them, none of them is better, and it is
/// not below `Grim(1)`.
pub proof fn lemma_all_grim(faces: Seq<u8>, dice: nat, result: Roll)
    requires
        dice > 0,
        all_die_faces(faces),
        forall|i: int| 0 <= i < faces.len() ==> #[trigger] faces[i] <= 3,
        resolves(outcomes(faces), dice, result),
    ensures
        faces.len() == dice,
        result is Grim,
        exists|i: int| 0 <= i < faces.len() && outcomes(faces)[i] == result,
        forall|i: int| 0 <= i < faces.len() ==> !result.below(#[trigger] outcomes(faces)[i]),
        !result.below(Roll::Grim(1)),
{
    let rolls = outcomes(faces);
    lemma_no_perfects(rolls);
    lemma_best_of_is_maximum(Roll::Grim(1), rolls);
    if result == Roll::Grim(1) {
        assert(!result.below(rolls[0]));
        assert(is_die_face(faces[0]));
        assert(rolls[0] == result);
    } else {
        let i = choose|i: int| 0 <= i < rolls.len() && #[trigger] rolls[i] == result;
        assert(outcomes(faces)[i] == result);
    }
}

/// A resolution of one die or more is critical exactly when two of the
/// outcomes drawn are perfect, and then the last one drawn is the second of
/// them. More than two are never drawn.
pub proof fn lemma_critical_on_two_perfects(faces: Seq<u8>, dice: nat, result: Roll)
    requires
        dice > 0,
        all_die_faces(faces),
        resolves(outcomes(faces), dice, result),
    ensures
        perfects(outcomes(faces)) <= 2,
        result is Critical <==> perfects(outcomes(faces)) == 2,
        result is Critical ==> faces.len() >= 2 && faces.last() == 6,
        !(result is Critical) ==> faces.len() == dice,
{
    let rolls = outcomes(faces);
    if perfects(rolls) <= 1 {
        lemma_best_of_is_maximum(Roll::Grim(1), rolls);
        if result != Roll::Grim(1) {
            let i = choose|i: int| 0 <= i < rolls.len() && #[trigger] rolls[i] == result;
            assert(is_die_face(faces[i]));
        }
    } else {
        assert(rolls.len() > 0);
        assert(rolls.last() == outcome_of(faces.last()));
        assert(is_die_face(faces[faces.len() - 1]));
        if faces.len() < 2 {
            assert(rolls.drop_last().len() == 0);
        }
    }
}

} // verus!
