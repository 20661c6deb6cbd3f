//! Dice-pool resolution for a tabletop game.
//!
//! Six-sided dice are drawn from a [`FaceSource`], each face is classified
//! into a [`Roll`], and a [`Pool`] of dice shrinks as grim outcomes come up.

pub mod outcome;
pub mod pool;
pub mod roller;
pub mod source;

pub use outcome::Roll;
pub use pool::Pool;
pub use roller::Rolls;
pub use source::{FaceSource, Replay, ThreadSource};
