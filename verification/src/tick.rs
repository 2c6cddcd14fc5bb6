//! The per-tick driver.
//!
//! One tick = one call with an elapsed-time delta and a sampled input
//! direction. Systems run in a fixed deterministic order: AI decision,
//! player input and push resolution, interpolation, button update, gate
//! update, then the win/loss evaluation, whose result is the level-exit
//! signal. When victory and gameover would both hold on the same tick,
//! victory is reported: reaching a goal is not undone by being caught on it.

use vstd::prelude::*;

use crate::buttons::{buttons_rel, check_button_presses, gates_rel, open_and_close_gates};
use crate::geom::DT_LIMIT;
use crate::motion::{move_rel, move_towards_destinations};
use crate::push::{player_controls, push_rel, Dir};
use crate::tracker::{track_player, tracker_rel};
use crate::victory::{
    determine_gameover_from_hazard, determine_victory_from_goal, spec_gameover, spec_victory,
};
use crate::world::World;

verus! {

/// The level-exit signal an outer session manager consumes.
#[derive(Clone, Copy, PartialEq, Eq, Structural, Debug)]
pub enum LevelExit {
    Continue,
    Victory,
    Gameover,
}

/// Run one simulation tick of `dt` milliseconds with the sampled input:
/// AI, input/push, interpolation, buttons, gates, then win/loss.
pub fn advance_tick(w: &mut World, dt: i64, input: Option<Dir>) -> (r: LevelExit)
    requires
        old(w).wf(),
        0 <= dt <= DT_LIMIT,
    ensures
        final(w).wf(),
        exists|w1: World, w2: World, w3: World, w4: World|
            {
                &&& #[trigger] tracker_rel(*old(w), w1)
                &&& #[trigger] push_rel(w1, w2, input)
                &&& #[trigger] move_rel(w2, w3, dt as int)
                &&& #[trigger] buttons_rel(w3, w4)
                &&& gates_rel(w4, *final(w))
            },
        (r == LevelExit::Victory) == spec_victory(*final(w)),
        (r == LevelExit::Gameover) == (!spec_victory(*final(w)) && spec_gameover(*final(w))),
        (r == LevelExit::Continue) == (!spec_victory(*final(w)) && !spec_gameover(*final(w))),
{
    track_player(w);
    let ghost g1 = *w;
    player_controls(w, input);
    let ghost g2 = *w;
    move_towards_destinations(w, dt);
    let ghost g3 = *w;
    check_button_presses(w);
    let ghost g4 = *w;
    open_and_close_gates(w);
    proof {
        assert(tracker_rel(*old(w), g1) && push_rel(g1, g2, input) && move_rel(g2, g3, dt as int)
            && buttons_rel(g3, g4) && gates_rel(g4, *w));
    }
    let won = determine_victory_from_goal(w);
    let lost = determine_gameover_from_hazard(w);
    if won {
        LevelExit::Victory
    } else if lost {
        LevelExit::Gameover
    } else {
        LevelExit::Continue
    }
}

} // verus!
