use vstd::prelude::*;

verus! {

/// The phases of the game.
#[derive(Clone, Copy, Debug, PartialEq, Eq, Structural, Hash)]
pub enum AppState {
    Setup,
    MainMenu,
    InGame,
    GameOver,
}

/// Gameplay systems run only while the game is in progress.
pub fn playing(state: AppState) -> (r: bool)
    ensures
        r == (state == AppState::InGame),
{
    state == AppState::InGame
}

/// Removes every entity of one kind, as when the game leaves a phase.
pub fn entity_cleanup<T>(entities: &mut Vec<T>)
    ensures
        final(entities)@.len() == 0,
{
    entities.clear();
}

} // verus!
