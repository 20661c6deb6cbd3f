//! The outcome of a die, and the order in which outcomes rank.

use core::cmp::Ordering;
use vstd::prelude::*;
use vstd::std_specs::cmp::PartialOrdSpecImpl;

verus! {

/// What a die came to. The variants rank from worst to best in the order
/// they are written; two outcomes of one variant rank by the face they carry.
#[derive(Debug, Clone, Copy, PartialEq, Eq, Structural, Ord)]
pub enum Roll {
    /// A tier below every outcome of an ordinary die. No die of six faces
    /// comes to it.
    Disaster(u8),
    /// A face of 1, 2 or 3. The only outcome that costs a pool a die.
    Grim(u8),
    /// A face of 4 or 5.
    Messy(u8),
    /// A face of 6.
    Perfect(u8),
    /// Two perfect outcomes in one resolution. It carries no face.
    Critical,
}

/// The character that stands for the digit `digit`.
pub open spec fn digit_char(digit: nat) -> char {
    if digit == 0 {
        '0'
    } else if digit == 1 {
        '1'
    } else if digit == 2 {
        '2'
    } else if digit == 3 {
        '3'
    } else if digit == 4 {
        '4'
    } else if digit == 5 {
        '5'
    } else if digit == 6 {
        '6'
    } else if digit == 7 {
        '7'
    } else if digit == 8 {
        '8'
    } else {
        '9'
    }
}

/// The number `number` written in decimal, without leading zeros.
pub open spec fn decimal(number: nat) -> Seq<char>
    decreases number,
{
    if number < 10 {
        seq![digit_char(number)]
    } else {
        decimal(number / 10).push(digit_char(number % 10))
    }
}

fn digit_text(digit: u8) -> (text: &'static str)
    requires
        digit < 10,
    ensures
        text@ == seq![digit_char(digit as nat)],
{
    proof {
        reveal_strlit("0");
        reveal_strlit("1");
        reveal_strlit("2");
        reveal_strlit("3");
        reveal_strlit("4");
        reveal_strlit("5");
        reveal_strlit("6");
        reveal_strlit("7");
        reveal_strlit("8");
        reveal_strlit("9");
    }
    let text = match digit {
        0 => "0",
        1 => "1",
        2 => "2",
        3 => "3",
        4 => "4",
        5 => "5",
        6 => "6",
        7 => "7",
        8 => "8",
        _ => "9",
    };
    assert(text@ =~= seq![digit_char(digit as nat)]);
    text
}

impl Roll {
    /// The position of the outcome's tier, counted from the worst.
    pub open spec fn rank(self) -> int {
        match self {
            Roll::Disaster(_) => 0,
            Roll::Grim(_) => 1,
            Roll::Messy(_) => 2,
            Roll::Perfect(_) => 3,
            Roll::Critical => 4,
        }
    }

    /// The face by which outcomes of one tier are told apart: the face the
    /// outcome carries, and 0 for `Critical`, which carries none.
    pub open spec fn pips(self) -> int {
        match self {
            Roll::Disaster(face) => face as int,
            Roll::Grim(face) => face as int,
            Roll::Messy(face) => face as int,
            Roll::Perfect(face) => face as int,
            Roll::Critical => 0,
        }
    }

    /// `self` ranks strictly below `other`: its tier is lower, or the tiers
    /// agree and its face is smaller.
    pub open spec fn below(self, other: Roll) -> bool {
        self.rank() < other.rank() || (self.rank() == other.rank() && self.pips() < other.pips())
    }

    /// The better of two outcomes.
    pub open spec fn max_of(self, other: Roll) -> Roll {
        if self.below(other) {
            other
        } else {
            self
        }
    }

    /// The worse of two outcomes.
    pub open spec fn min_of(self, other: Roll) -> Roll {
        if other.below(self) {
            other
        } else {
            self
        }
    }

    /// The number that stands for the outcome when it is displayed: its face,
    /// and 6 for `Critical`.
    pub open spec fn shown(self) -> u8 {
        match self {
            Roll::Disaster(face) => face,
            Roll::Grim(face) => face,
            Roll::Messy(face) => face,
            Roll::Perfect(face) => face,
            Roll::Critical => 6,
        }
    }

    /// Whether the outcome is of the grim tier.
    pub fn is_grim(self) -> (grim: bool)
        ensures
            grim <==> self is Grim,
    {
        match self {
            Roll::Grim(_) => true,
            _ => false,
        }
    }

    /// Whether the outcome is of the perfect tier.
    pub fn is_perfect(self) -> (perfect: bool)
        ensures
            perfect <==> self is Perfect,
    {
        match self {
            Roll::Perfect(_) => true,
            _ => false,
        }
    }

    /// The number to display for the outcome.
    pub fn face(self) -> (face: u8)
        ensures
            face == self.shown(),
    {
        match self {
            Roll::Disaster(face) => face,
            Roll::Grim(face) => face,
            Roll::Messy(face) => face,
            Roll::Perfect(face) => face,
            Roll::Critical => 6,
        }
    }

    /// The outcome as it is displayed: the decimal digits of its face, so
    /// that a critical outcome reads like a face of 6.
    pub fn to_string(&self) -> (text: String)
        ensures
            text@ == decimal(self.shown() as nat),
            *self is Critical ==> text@ == seq!['6'],
    {
        let number: u8 = self.face();
        let mut text = String::new();
        if number >= 100 {
            text.append(digit_text(number / 100));
        }
        if number >= 10 {
            text.append(digit_text((number / 10) % 10));
        }
        text.append(digit_text(number % 10));
        proof {
            reveal_with_fuel(decimal, 3);
            assert(text@ =~= decimal(number as nat));
        }
        text
    }

    fn tier(self) -> (tier: u8)
        ensures
            tier == self.rank(),
    {
        match self {
            Roll::Disaster(_) => 0,
            Roll::Grim(_) => 1,
            Roll::Messy(_) => 2,
            Roll::Perfect(_) => 3,
            Roll::Critical => 4,
        }
    }

    fn tie_breaker(self) -> (pips: u8)
        ensures
            pips == self.pips(),
    {
        match self {
            Roll::Disaster(face) => face,
            Roll::Grim(face) => face,
            Roll::Messy(face) => face,
            Roll::Perfect(face) => face,
            Roll::Critical => 0,
        }
    }

    /// Whether `self` ranks strictly below `other`.
    pub fn precedes(self, other: Roll) -> (less: bool)
        ensures
            less == self.below(other),
    {
        let mine: u8 = self.tier();
        let theirs: u8 = other.tier();
        mine < theirs || (mine == theirs && self.tie_breaker() < other.tie_breaker())
    }

    /// The better of `self` and `other`.
    pub fn higher(self, other: Roll) -> (best: Roll)
        ensures
            best == self.max_of(other),
    {
        if self.precedes(other) {
            other
        } else {
            self
        }
    }

    /// The worse of `self` and `other`.
    pub fn lower(self, other: Roll) -> (worst: Roll)
        ensures
            worst == self.min_of(other),
    {
        if other.precedes(self) {
            other
        } else {
            self
        }
    }
}

impl PartialOrd for Roll {
    fn partial_cmp(&self, other: &Self) -> (order: Option<Ordering>) {
        if self.precedes(*other) {
            Some(Ordering::Less)
        } else if other.precedes(*self) {
            Some(Ordering::Greater)
        } else {
            Some(Ordering::Equal)
        }
    }
}

impl PartialOrdSpecImpl for Roll {
    open spec fn obeys_partial_cmp_spec() -> bool {
        true
    }

    open spec fn partial_cmp_spec(&self, other: &Self) -> Option<Ordering> {
        if self.below(*other) {
            Some(Ordering::Less)
        } else if other.below(*self) {
            Some(Ordering::Greater)
        } else {
            Some(Ordering::Equal)
        }
    }
}

/// Of two outcomes exactly one holds: the first ranks below the second, they
/// are the same outcome, or the second ranks below the first.
pub proof fn lemma_order_total(a: Roll, b: Roll)
    ensures
        a.below(b) || a == b || b.below(a),
        !(a.below(b) && a == b),
        !(a.below(b) && b.below(a)),
        !(a == b && b.below(a)),
{
}

/// Ranking below is transitive.
pub proof fn lemma_order_transitive(a: Roll, b: Roll, c: Roll)
    requires
        a.below(b),
        b.below(c),
    ensures
        a.below(c),
{
}

/// The tiers ascend whatever faces the outcomes carry.
pub proof fn lemma_tiers_ascend(disaster: u8, grim: u8, messy: u8, perfect: u8)
    ensures
        Roll::Disaster(disaster).below(Roll::Grim(grim)),
        Roll::Grim(grim).below(Roll::Messy(messy)),
        Roll::Messy(messy).below(Roll::Perfect(perfect)),
        Roll::Perfect(perfect).below(Roll::Critical),
{
}

} // verus!
