//! The stages of a game, passed through once and in order.

use vstd::prelude::*;

verus! {

/// Where the game stands. Gameplay runs in `InGame` only.
#[derive(Clone, Copy, Debug, PartialEq, Eq, Structural)]
pub enum GameState {
    Loading,
    GameInit,
    InGame,
}

impl GameState {
    /// The place of a stage in the order of stages.
    pub open spec fn rank(self) -> nat {
        match self {
            GameState::Loading => 0,
            GameState::GameInit => 1,
            GameState::InGame => 2,
        }
    }

    pub open spec fn spec_next(self) -> GameState {
        match self {
            GameState::Loading => GameState::GameInit,
            GameState::GameInit => GameState::InGame,
            GameState::InGame => GameState::InGame,
        }
    }

    /// The stage that follows; the last stage follows itself.
    #[verifier::when_used_as_spec(spec_next)]
    pub fn next(self) -> (s: GameState)
        ensures
            s == self.spec_next(),
    {
        match self {
            GameState::Loading => GameState::GameInit,
            GameState::GameInit => GameState::InGame,
            GameState::InGame => GameState::InGame,
        }
    }

    pub open spec fn spec_in_game(self) -> bool {
        self == GameState::InGame
    }

    /// Whether gameplay runs in this stage.
    #[verifier::when_used_as_spec(spec_in_game)]
    pub fn in_game(self) -> (b: bool)
        ensures
            b == self.spec_in_game(),
    {
        match self {
            GameState::InGame => true,
            _ => false,
        }
    }
}

impl Default for GameState {
    fn default() -> (s: GameState)
        ensures
            s == GameState::Loading,
    {
        GameState::Loading
    }
}

/// The stages are passed through in order: no step leads back, and each
/// step before the last leads one stage further.
pub proof fn lemma_state_never_goes_back(s: GameState)
    ensures
        s.next().rank() >= s.rank(),
        s != GameState::InGame ==> s.next().rank() == s.rank() + 1,
        s == GameState::InGame ==> s.next() == s,
{
}

} // verus!
