//! Win/loss evaluation: pure per-tick contact checks.
//!
//! After all movement, AI and button/gate resolution, victory holds exactly
//! when the player's position equals some goal's position, and gameover
//! exactly when it equals some hazard's position. Both are read-only and
//! computed unconditionally; either, both, or neither may hold on a tick.

use vstd::prelude::*;

use crate::world::World;

verus! {

/// The player stands exactly on some goal's position.
pub open spec fn spec_victory(w: World) -> bool {
    exists|g: int|
        0 <= g < w.n() && w.is_goal@[g] && w.positions@[g] is Some && w.positions@[g]
            == w.positions@[w.player_id()]
}

/// The player stands exactly on some hazard's position.
pub open spec fn spec_gameover(w: World) -> bool {
    exists|h: int|
        0 <= h < w.n() && w.is_hazard@[h] && w.positions@[h] is Some && w.positions@[h]
            == w.positions@[w.player_id()]
}

/// Whether the player's position exactly equals some goal's position.
pub fn determine_victory_from_goal(w: &World) -> (r: bool)
    requires
        w.wf(),
    ensures
        r == spec_victory(*w),
{
    let pid = w.find_player();
    proof {
        assert(w.ent_wf(pid as int));
    }
    let pp = match w.positions[pid] {
        Some(p) => p,
        None => {
            proof {
                assert(false);
            }
            vstd::pervasive::unreached()
        },
    };
    let n = w.num_entities();
    let mut g: usize = 0;
    while g < n
        invariant
            w.wf(),
            n == w.n(),
            0 <= g <= n,
            pid as int == w.player_id(),
            w.positions@[pid as int] == Option::Some(pp),
            forall|k: int|
                0 <= k < g ==> !(w.is_goal@[k] && w.positions@[k] is Some && w.positions@[k]
                    == w.positions@[w.player_id()]),
        decreases n - g,
    {
        if w.is_goal[g] {
            match w.positions[g] {
                Some(q) => {
                    if q.x == pp.x && q.y == pp.y {
                        return true;
                    }
                },
                None => {},
            }
        }
        g += 1;
    }
    false
}

/// Whether the player's position exactly equals some hazard's position.
pub fn determine_gameover_from_hazard(w: &World) -> (r: bool)
    requires
        w.wf(),
    ensures
        r == spec_gameover(*w),
{
    let pid = w.find_player();
    proof {
        assert(w.ent_wf(pid as int));
    }
    let pp = match w.positions[pid] {
        Some(p) => p,
        None => {
            proof {
                assert(false);
            }
            vstd::pervasive::unreached()
        },
    };
    let n = w.num_entities();
    let mut h: usize = 0;
    while h < n
        invariant
            w.wf(),
            n == w.n(),
            0 <= h <= n,
            pid as int == w.player_id(),
            w.positions@[pid as int] == Option::Some(pp),
            forall|k: int|
                0 <= k < h ==> !(w.is_hazard@[k] && w.positions@[k] is Some && w.positions@[k]
                    == w.positions@[w.player_id()]),
        decreases n - h,
    {
        if w.is_hazard[h] {
            match w.positions[h] {
                Some(q) => {
                    if q.x == pp.x && q.y == pp.y {
                        return true;
                    }
                },
                None => {},
            }
        }
        h += 1;
    }
    false
}

} // verus!
