//! Hazard AI: patrol plus proximity-triggered chase.
//!
//! Every tick, each idle entity carrying a tracker re-decides its mode from
//! the squared Euclidean distance to the player: within the threshold it
//! chases (targets the player's current position, waypoint index untouched),
//! otherwise it patrols (targets the current waypoint, first advancing the
//! index — wrapping modulo the path length — when it stands on it). The
//! decision sets a destination slide at the entity's own speed; losing
//! proximity resumes patrol from the current, not a reset, waypoint index.

use vstd::prelude::*;

use crate::geom::{spec_dir_toward, Vec2};
use crate::world::{Dest, Motion, Tracker, World};

verus! {

/// The player's position (meaningful under `World::wf`).
pub open spec fn spec_player_pos(w: World) -> Vec2 {
    match w.positions@[w.player_id()] {
        Option::Some(p) => p,
        Option::None => Vec2 { x: 0, y: 0 },
    }
}

/// How one AI tick changes a single entity, given the player position `pp`:
/// an idle tracker re-targets as the patrol/chase decision says; every other
/// entity keeps its motion and tracker.
pub open spec fn tracked_ent(w0: World, w1: World, pp: Vec2, i: int) -> bool {
    match (w0.trackers@[i], w0.positions@[i], w0.motions@[i]) {
        (Option::Some(t), Option::Some(p), Option::Some(m)) => if w0.idle(i) {
            let chase = Vec2::spec_dist2(p, pp) <= t.threshold2;
            let idx2 = if chase {
                t.waypoint as int
            } else if p == w0.patrol@[t.waypoint as int] {
                if t.waypoint + 1 == w0.patrol@.len() {
                    0
                } else {
                    t.waypoint + 1
                }
            } else {
                t.waypoint as int
            };
            let target = if chase {
                pp
            } else {
                w0.patrol@[idx2]
            };
            &&& w1.trackers@[i] == Option::Some(
                Tracker { waypoint: idx2 as usize, threshold2: t.threshold2 },
            )
            &&& w1.motions@[i] == Option::Some(
                Motion {
                    dest: if target == p {
                        Option::None
                    } else {
                        Option::Some(Dest { target, dir: spec_dir_toward(p, target) })
                    },
                    speed: m.speed,
                },
            )
        } else {
            w1.trackers@[i] == w0.trackers@[i] && w1.motions@[i] == w0.motions@[i]
        },
        _ => w1.trackers@[i] == w0.trackers@[i] && w1.motions@[i] == w0.motions@[i],
    }
}

/// The full effect of one AI tick: every entity re-targets as `tracked_ent`
/// says and every other component container is untouched.
pub open spec fn tracker_rel(w0: World, w1: World) -> bool {
    &&& w1.n() == w0.n()
    &&& w1.motions@.len() == w0.motions@.len()
    &&& w1.trackers@.len() == w0.trackers@.len()
    &&& w1.positions == w0.positions
    &&& w1.collisions == w0.collisions
    &&& w1.is_player == w0.is_player
    &&& w1.is_hazard == w0.is_hazard
    &&& w1.is_goal == w0.is_goal
    &&& w1.buttons == w0.buttons
    &&& w1.gates == w0.gates
    &&& w1.sprites == w0.sprites
    &&& w1.patrol == w0.patrol
    &&& w1.links == w0.links
    &&& forall|i: int|
        0 <= i < w0.n() ==> #[trigger] tracked_ent(w0, w1, spec_player_pos(w0), i)
}

/// Run the patrol/chase decision for every idle tracker-carrying entity.
pub fn track_player(w: &mut World)
    requires
        old(w).wf(),
    ensures
        final(w).wf(),
        tracker_rel(*old(w), *final(w)),
{
    let pid = w.find_player();
    proof {
        assert(w.ent_wf(pid as int));
    }
    let pp = match w.positions[pid] {
        Some(p) => p,
        None => {
            proof {
                assert(false);
            }
            vstd::pervasive::unreached()
        },
    };
    let n = w.num_entities();
    let mut i: usize = 0;
    while i < n
        invariant
            w.wf_store(),
            n == w.n(),
            n == old(w).n(),
            0 <= i <= n,
            w.motions@.len() == n,
            w.trackers@.len() == n,
            w.positions == old(w).positions,
            w.collisions == old(w).collisions,
            w.is_player == old(w).is_player,
            w.is_hazard == old(w).is_hazard,
            w.is_goal == old(w).is_goal,
            w.buttons == old(w).buttons,
            w.gates == old(w).gates,
            w.sprites == old(w).sprites,
            w.patrol == old(w).patrol,
            w.links == old(w).links,
            pp == spec_player_pos(*old(w)),
            pp.in_limit(),
            forall|j: int| 0 <= j < i ==> #[trigger] tracked_ent(*old(w), *w, pp, j),
            forall|j: int|
                i <= j < n ==> w.trackers@[j] == old(w).trackers@[j] && w.motions@[j] == old(
                    w,
                ).motions@[j],
        decreases n - i,
    {
        let ghost w0 = *w;
        let tr = w.trackers[i];
        let mo = w.motions[i];
        let po = w.positions[i];
        match (tr, po, mo) {
            (Some(t), Some(p), Some(m)) => {
                if m.dest.is_none() {
                    proof {
                        assert(w.ent_wf(i as int));
                    }
                    let d2 = Vec2::dist2(p, pp);
                    let chase = d2 <= t.threshold2;
                    let wl = w.patrol.len();
                    let idx2: usize = if chase {
                        t.waypoint
                    } else if p == self_patrol_at(w, t.waypoint) {
                        if t.waypoint == wl - 1 {
                            0
                        } else {
                            t.waypoint + 1
                        }
                    } else {
                        t.waypoint
                    };
                    let target = if chase {
                        pp
                    } else {
                        self_patrol_at(w, idx2)
                    };
                    w.set_tracker_state(i, Tracker { waypoint: idx2, threshold2: t.threshold2 });
                    if target.x == p.x && target.y == p.y {
                        w.set_motion_full(i, Motion { dest: None, speed: m.speed });
                    } else {
                        let dir = crate::geom::dir_toward(p, target);
                        w.set_motion_full(
                            i,
                            Motion { dest: Some(Dest { target, dir }), speed: m.speed },
                        );
                    }
                    proof {
                        assert(tracked_ent(*old(w), *w, pp, i as int));
                    }
                } else {
                    proof {
                        assert(tracked_ent(*old(w), *w, pp, i as int));
                    }
                }
            },
            _ => {
                proof {
                    assert(tracked_ent(*old(w), *w, pp, i as int));
                }
            },
        }
        proof {
            assert forall|j: int| 0 <= j < i + 1 implies #[trigger] tracked_ent(
                *old(w),
                *w,
                pp,
                j,
            ) by {
                if j < i as int {
                    assert(tracked_ent(*old(w), w0, pp, j));
                    assert(w.trackers@[j] == w0.trackers@[j]);
                    assert(w.motions@[j] == w0.motions@[j]);
                }
            }
        }
        i += 1;
    }
    proof {
        let e = old(w).player_id();
        assert(0 <= e < w.n() && w.is_player@[e] && (forall|j: int|
            0 <= j < w.n() && w.is_player@[j] ==> j == e));
    }
}

/// Read a patrol waypoint.
fn self_patrol_at(w: &World, k: usize) -> (r: Vec2)
    requires
        k < w.patrol@.len(),
    ensures
        r == w.patrol@[k as int],
{
    w.patrol[k]
}

} // verus!
