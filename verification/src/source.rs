//! Where die faces come from.

use rand::rngs::ThreadRng;
use rand_distr::{Distribution, Uniform};
use vstd::prelude::*;

verus! {

/// A source of integers in a closed range, each as likely as any other.
///
/// A source keeps a record of what it has handed out, so that whoever draws
/// from it can say what was made of exactly those draws.
pub trait FaceSource {
    /// Every value the source has handed out so far, oldest first.
    spec fn drawn(&self) -> Seq<u8>;

    /// Hands out the next value, which lies between `low` and `high`.
    fn draw(&mut self, low: u8, high: u8) -> (face: u8)
        requires
            low <= high,
        ensures
            low <= face <= high,
            final(self).drawn() == old(self).drawn().push(face),
    ;
}

/// The values that a source has handed out since its record read `before`,
/// given that it now reads `after`.
pub open spec fn drawn_since(before: Seq<u8>, after: Seq<u8>) -> Seq<u8> {
    after.skip(before.len() as int)
}

/// `rand::rngs::ThreadRng`, the handle on a thread's random number
/// generator. It is carried through as it is: nothing is known of what is
/// inside.
#[verifier::external_type_specification]
#[verifier::external_body]
pub struct ExThreadRng(ThreadRng);

/// `rand::thread_rng` hands out the generator of the calling thread, which
/// the operating system seeds. Nothing is claimed of the generator. The call
/// panics where the operating system has no seed to give.
pub assume_specification[ rand::thread_rng ]() -> (generator: ThreadRng)
;

/// Builds `Uniform::new_inclusive(low, high)` and takes one value from it with
/// `Distribution::sample`. The constructor panics where `low > high`, which
/// the precondition rules out; the value sampled is `low` plus an offset
/// smaller than the width of the range, so it lies between `low` and `high`.
#[verifier::external_body]
fn sample_inclusive(generator: &mut ThreadRng, low: u8, high: u8) -> (value: u8)
    requires
        low <= high,
    ensures
        low <= value <= high,
{
    Uniform::new_inclusive(low, high).sample(generator)
}

/// Faces drawn from the random number generator of the calling thread.
pub struct ThreadSource {
    generator: ThreadRng,
    record: Ghost<Seq<u8>>,
}

impl ThreadSource {
    /// A source on the calling thread's generator that has handed out
    /// nothing yet.
    pub fn new() -> (source: Self)
        ensures
            source.drawn() == Seq::<u8>::empty(),
    {
        Self { generator: rand::thread_rng(), record: Ghost(Seq::empty()) }
    }
}

impl FaceSource for ThreadSource {
    closed spec fn drawn(&self) -> Seq<u8> {
        self.record@
    }

    fn draw(&mut self, low: u8, high: u8) -> (face: u8) {
        let face: u8 = sample_inclusive(&mut self.generator, low, high);
        proof {
            self.record@ = self.record@.push(face);
        }
        face
    }
}

/// The value between `low` and `high` that is nearest to `value`.
pub open spec fn nearest_within(value: u8, low: u8, high: u8) -> u8 {
    if value < low {
        low
    } else if value > high {
        high
    } else {
        value
    }
}

/// A source that hands out a recorded list of faces in order, in place of
/// chance. A recorded face outside the range asked for is replaced by the
/// nearest bound of the range, and once the list is used up every draw is the
/// lowest value asked for.
pub struct Replay {
    pending: Vec<u8>,
    record: Ghost<Seq<u8>>,
}

impl View for Replay {
    type V = Seq<u8>;

    /// The recorded faces not handed out yet, next first.
    closed spec fn view(&self) -> Seq<u8> {
        self.pending@
    }
}

impl Replay {
    /// A source that will hand out `faces` from first to last.
    pub fn new(faces: Vec<u8>) -> (source: Self)
        ensures
            source@ == faces@,
            source.drawn() == Seq::<u8>::empty(),
    {
        Self { pending: faces, record: Ghost(Seq::empty()) }
    }

    /// How many recorded faces are still to be handed out.
    pub fn remaining(&self) -> (count: usize)
        ensures
            count == self@.len(),
    {
        self.pending.len()
    }

    /// What the next draw between `low` and `high` hands out.
    pub open spec fn next_up(self, low: u8, high: u8) -> u8 {
        if self@.len() > 0 {
            nearest_within(self@[0], low, high)
        } else {
            low
        }
    }
}

impl FaceSource for Replay {
    closed spec fn drawn(&self) -> Seq<u8> {
        self.record@
    }

    fn draw(&mut self, low: u8, high: u8) -> (face: u8)
        ensures
            face == old(self).next_up(low, high),
            final(self)@ == if old(self)@.len() > 0 {
                old(self)@.skip(1)
            } else {
                old(self)@
            },
    {
        let face: u8 = if self.pending.len() > 0 {
            let recorded: u8 = self.pending.remove(0);
            if recorded < low {
                low
            } else if recorded > high {
                high
            } else {
                recorded
            }
        } else {
            low
        };
        proof {
            self.record@ = self.record@.push(face);
        }
        face
    }
}

} // verus!
