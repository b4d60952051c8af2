//! The operations that every trainable environment offers.

use vstd::prelude::*;

verus! {

/// A reward as an exact fraction `numer / denom`.
#[derive(Debug, Clone, Copy, PartialEq, Eq, Structural)]
pub struct Reward {
    pub numer: i64,
    pub denom: u128,
}

/// Why an environment could not be built or reset.
#[derive(Debug, Clone, Copy, PartialEq, Eq, Structural)]
pub enum EnvError {
    /// A zero width, height or step budget.
    InvalidConfig,
    /// A grid whose observation encoding does not fit in `usize`.
    GridTooLarge,
    /// No cell lies within the requested distance.
    NoCandidate,
    /// The operating system gave no entropy to seed the random source.
    EntropyUnavailable,
}

impl EnvError {
    pub open spec fn message_spec(self) -> Seq<char> {
        match self {
            EnvError::InvalidConfig => "width, height and max_steps must be positive"@,
            EnvError::GridTooLarge => "grid too large to encode"@,
            EnvError::NoCandidate => "no valid positions found"@,
            EnvError::EntropyUnavailable => "no entropy to seed the random source"@,
        }
    }

    /// A human-readable description of the failure.
    pub fn message(&self) -> (r: &'static str)
        ensures
            r@ == self.message_spec(),
    {
        match self {
            EnvError::InvalidConfig => "width, height and max_steps must be positive",
            EnvError::GridTooLarge => "grid too large to encode",
            EnvError::NoCandidate => "no valid positions found",
            EnvError::EntropyUnavailable => "no entropy to seed the random source",
        }
    }
}

/// An environment that a training loop can drive: it is reset, observed,
/// stepped with actions and rewarded.
pub trait Env {
    /// The environment's internal invariant.
    spec fn inv(&self) -> bool;

    /// The number of distinct actions.
    spec fn action_count(&self) -> nat;

    /// The current curriculum difficulty.
    spec fn difficulty_level(&self) -> nat;

    /// Number of distinct actions.
    fn num_actions(&self) -> (r: usize)
        ensures
            r == self.action_count(),
    ;

    /// The factorized shape of an observation.
    fn obs_shape(&self) -> (r: Vec<usize>)
        requires
            self.inv(),
    ;

    /// Sets the curriculum difficulty, clamped into the environment's range.
    fn set_difficulty(&mut self, difficulty: usize)
        requires
            old(self).inv(),
        ensures
            final(self).inv(),
    ;

    fn get_difficulty(&self) -> (r: usize)
        ensures
            r == self.difficulty_level(),
    ;

    /// Overwrites the positions from a flat board of cell codes.
    fn set_state(&mut self, board: Vec<i64>)
        requires
            old(self).inv(),
        ensures
            final(self).inv(),
    ;

    /// The flat board of cell codes.
    fn get_state(&self) -> (r: Vec<usize>)
        requires
            self.inv(),
    ;

    /// Starts a new episode.
    fn reset(&mut self) -> (r: Result<(), EnvError>)
        requires
            old(self).inv(),
        ensures
            final(self).inv(),
    ;

    /// Applies one action; an illegal or unknown action leaves the position as it is.
    fn step(&mut self, action: usize)
        requires
            old(self).inv(),
        ensures
            final(self).inv(),
    ;

    /// One flag per action: whether it is legal now.
    fn masks(&self) -> (r: Vec<bool>)
        requires
            self.inv(),
        ensures
            r@.len() == self.action_count(),
    ;

    /// Whether the episode is over.
    fn is_final(&self) -> (r: bool)
        requires
            self.inv(),
    ;

    /// The reward of the current state.
    fn reward(&self) -> (r: Reward)
        requires
            self.inv(),
        ensures
            r.denom > 0,
    ;

    /// The observation of the current state.
    fn observe(&self) -> (r: Vec<usize>)
        requires
            self.inv(),
    ;
}

} // verus!
