//! The encounter's configuration.

use crate::matomenos::{ActionState, CurrentSpawn};
use vstd::prelude::*;

verus! {

/// The largest party the encounter is set up for.
pub const MAX_PLAYERS: usize = 5;

/// The party size; two units appear per player.
#[derive(Clone, Copy, Debug, PartialEq, Eq, Structural)]
pub struct Config {
    pub players: usize,
}

impl Config {
    /// Whether the party size lies in `1..=5`.
    pub open spec fn wf(&self) -> bool {
        1 <= self.players <= MAX_PLAYERS
    }

    /// The number of spawn points to sample: two per player.
    pub fn spawn_count(&self) -> (r: usize)
        requires
            self.wf(),
        ensures
            r == 2 * self.players,
    {
        2 * self.players
    }
}

impl Default for Config {
    /// A single player.
    fn default() -> (r: Config)
        ensures
            r.players == 1,
    {
        Config { players: 1 }
    }
}

/// The application's screens: assets loading, the main menu, the arena
/// without an encounter, and the arena during an encounter.
#[derive(Clone, Copy, Debug, PartialEq, Eq, Structural)]
pub enum GameState {
    Loading,
    Playing,
    Spawned,
    Menu,
}

/// A lifecycle button of the configuration panel.
#[derive(Clone, Copy, Debug, PartialEq, Eq, Structural)]
pub enum Command {
    Spawn,
    Rerun,
    Reset,
}

/// Applies a lifecycle button. In the arena, `Spawn` enters an encounter.
/// During one, `Reset` leaves it and forgets the spawn points, while `Rerun`
/// leaves it and keeps them for the next one. Any other button or screen
/// changes nothing.
pub fn config_command(state: GameState, command: Command, current: &mut CurrentSpawn) -> (r:
    GameState)
    requires
        old(current).wf(),
    ensures
        final(current).wf(),
        state == GameState::Playing && command == Command::Spawn ==> r == GameState::Spawned
            && *final(current) == *old(current),
        state == GameState::Spawned && command != Command::Spawn ==> r == GameState::Playing
            && final(current).state == ActionState::NotSpawned && final(current).nylos@.len()
            == 0 && final(current).spawn_delay_ms == 0 && final(current).leaks == 0
            && !final(current).rerun,
        state == GameState::Spawned && command == Command::Reset ==> final(current).spawns@.len()
            == 0,
        state == GameState::Spawned && command == Command::Rerun ==> final(current).spawns@
            == old(current).spawns@,
        !(state == GameState::Playing && command == Command::Spawn) && !(state
            == GameState::Spawned && command != Command::Spawn) ==> r == state && *final(current)
            == *old(current),
{
    match (state, command) {
        (GameState::Playing, Command::Spawn) => GameState::Spawned,
        (GameState::Spawned, Command::Reset) => {
            current.rerun = false;
            current.reset();
            GameState::Playing
        },
        (GameState::Spawned, Command::Rerun) => {
            current.rerun = true;
            current.reset();
            GameState::Playing
        },
        _ => state,
    }
}

} // verus!
