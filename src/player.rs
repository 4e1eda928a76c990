//! The player's attack cooldown.

use vstd::prelude::*;

verus! {

/// Ticks the player must wait after an area freeze before the next one.
pub const FREEZE_COOLDOWN: u32 = 5;

/// The player: how many fixed ticks remain before the next attack.
#[derive(Clone, Copy, Debug, PartialEq, Eq, Structural)]
pub struct Player {
    pub attack_delay: u32,
}

impl Player {
    /// A player ready to attack.
    pub fn new() -> (r: Player)
        ensures
            r.attack_delay == 0,
    {
        Player { attack_delay: 0 }
    }
}

/// Runs once per fixed tick: the cooldown goes down by one, never below zero.
pub fn attack_delay(player: &mut Player)
    ensures
        final(player).attack_delay == if old(player).attack_delay == 0 {
            0
        } else {
            old(player).attack_delay - 1
        },
{
    if player.attack_delay > 0 {
        player.attack_delay = player.attack_delay - 1;
    }
}

} // verus!
