//! The rhythm of the game: when a tick is due, and what a tick is spent on.

use vstd::prelude::*;

verus! {

/// Ticks in a second.
pub const UPDATES_PER_SECOND: u64 = 30;

/// The least time between two ticks, in milliseconds.
pub const MILLIS_PER_UPDATE: u64 = 1000 / UPDATES_PER_SECOND;

/// What the game is showing.
#[derive(Clone, Copy, Debug, PartialEq, Eq, Structural)]
pub enum Stage {
    /// The menu, before the game.
    Menu,
    /// The game itself.
    Playing,
    /// The end, after a guard has caught the player.
    Over,
}

/// The stage after a tick. The menu gives way to the game when it closes.
/// The game ends at the start of the tick after one in which a guard caught
/// the player, and the end is not left by itself.
pub open spec fn stage_after(stage: Stage, menu_open: bool, caught: bool) -> Stage {
    match stage {
        Stage::Menu => if menu_open {
            Stage::Menu
        } else {
            Stage::Playing
        },
        Stage::Playing => if caught {
            Stage::Over
        } else {
            Stage::Playing
        },
        Stage::Over => Stage::Over,
    }
}

/// Whether a tick is due, `elapsed_millis` after the last one.
pub fn update_due(elapsed_millis: u64) -> (due: bool)
    ensures
        due == (elapsed_millis >= MILLIS_PER_UPDATE),
        MILLIS_PER_UPDATE == 33,
{
    elapsed_millis >= MILLIS_PER_UPDATE
}

/// The stage after a tick: `menu_open` says whether the menu wants to stay,
/// `caught` whether a guard caught the player in the tick before.
pub fn next_stage(stage: Stage, menu_open: bool, caught: bool) -> (next: Stage)
    ensures
        next == stage_after(stage, menu_open, caught),
{
    match stage {
        Stage::Menu => if menu_open {
            Stage::Menu
        } else {
            Stage::Playing
        },
        Stage::Playing => if caught {
            Stage::Over
        } else {
            Stage::Playing
        },
        Stage::Over => Stage::Over,
    }
}

} // verus!
