//! Movement: grid-destination interpolated motion.
//!
//! Per entity the state machine is Idle (no destination) or Moving
//! (destination set). A tick advances every moving entity independently:
//! each axis moves toward the target by at most `speed * dt / MS_PER_S`
//! subtile units and snaps exactly onto the target when the remaining
//! distance is within that step, so a slide never overshoots. When both axes
//! have arrived the destination is cleared (Moving -> Idle). The
//! Idle -> Moving transition is made elsewhere (input or AI), never here.

use vstd::prelude::*;

use crate::geom::{Vec2, DT_LIMIT, MS_PER_S};
use crate::world::{Dest, Motion, World};

verus! {

/// Distance, in subtile units, an entity of the given speed (subtiles per
/// second) covers in `dt` milliseconds.
pub open spec fn spec_step_dist(speed: int, dt: int) -> int {
    speed * dt / MS_PER_S as int
}

/// One axis of a slide: move `p` toward `t` by at most `step`, snapping to
/// `t` exactly when the remaining distance is within `step`.
pub open spec fn spec_axis_step(p: int, t: int, step: int) -> int {
    if t >= p {
        if t - p <= step {
            t
        } else {
            p + step
        }
    } else {
        if p - t <= step {
            t
        } else {
            p - step
        }
    }
}

/// One interpolation step of a whole position toward a target.
pub open spec fn spec_step_toward(p: Vec2, t: Vec2, step: int) -> Vec2 {
    Vec2 {
        x: spec_axis_step(p.x as int, t.x as int, step) as i64,
        y: spec_axis_step(p.y as int, t.y as int, step) as i64,
    }
}

/// A slide never overshoots and arrives exactly when the remaining distance
/// on the axis is within the step: the stepped coordinate stays between the
/// old coordinate and the target, reaches the target if and only if the
/// remaining distance is at most `step`, and otherwise strictly approaches
/// it.
pub proof fn lemma_axis_step_no_overshoot(p: int, t: int, step: int)
    requires
        step >= 0,
    ensures
        p <= t ==> p <= spec_axis_step(p, t, step) <= t,
        t <= p ==> t <= spec_axis_step(p, t, step) <= p,
        spec_axis_step(p, t, step) == t <==> abs_diff(p, t) <= step,
        abs_diff(p, t) > step ==> abs_diff(spec_axis_step(p, t, step), t) == abs_diff(p, t)
            - step,
{
}

/// The absolute difference of two coordinates.
pub open spec fn abs_diff(a: int, b: int) -> int {
    if a >= b {
        a - b
    } else {
        b - a
    }
}

/// How one tick of interpolation changes a single entity: a moving entity
/// with a position steps toward its target and goes idle on arrival; every
/// other entity keeps its position and motion.
pub open spec fn moved_ent(w0: World, w1: World, dt: int, i: int) -> bool {
    match (w0.motions@[i], w0.positions@[i]) {
        (Option::Some(m), Option::Some(p)) => match m.dest {
            Option::Some(d) => {
                let p2 = spec_step_toward(p, d.target, spec_step_dist(m.speed as int, dt));
                &&& w1.positions@[i] == Option::Some(p2)
                &&& w1.motions@[i] == Option::Some(
                    Motion {
                        dest: if p2 == d.target {
                            Option::None
                        } else {
                            Option::Some(d)
                        },
                        speed: m.speed,
                    },
                )
            },
            Option::None => w1.positions@[i] == w0.positions@[i] && w1.motions@[i]
                == w0.motions@[i],
        },
        _ => w1.positions@[i] == w0.positions@[i] && w1.motions@[i] == w0.motions@[i],
    }
}

/// The full effect of one interpolation tick: every entity moves as
/// `moved_ent` says and every other component container is untouched.
pub open spec fn move_rel(w0: World, w1: World, dt: int) -> bool {
    &&& w1.n() == w0.n()
    &&& w1.motions@.len() == w0.motions@.len()
    &&& w1.collisions == w0.collisions
    &&& w1.is_player == w0.is_player
    &&& w1.is_hazard == w0.is_hazard
    &&& w1.is_goal == w0.is_goal
    &&& w1.trackers == w0.trackers
    &&& w1.buttons == w0.buttons
    &&& w1.gates == w0.gates
    &&& w1.sprites == w0.sprites
    &&& w1.patrol == w0.patrol
    &&& w1.links == w0.links
    &&& forall|i: int| 0 <= i < w0.n() ==> #[trigger] moved_ent(w0, w1, dt, i)
}

/// One axis of a slide (executable form of `spec_axis_step`).
fn axis_step(p: i64, t: i64, step: i64) -> (r: i64)
    requires
        -1_000_000_000 <= p <= 1_000_000_000,
        -1_000_000_000 <= t <= 1_000_000_000,
        0 <= step <= 100_000_000_000,
    ensures
        r == spec_axis_step(p as int, t as int, step as int),
        p <= t ==> p <= r <= t,
        t <= p ==> t <= r <= p,
{
    if t >= p {
        if t - p <= step {
            t
        } else {
            p + step
        }
    } else {
        if p - t <= step {
            t
        } else {
            p - step
        }
    }
}

/// Advance every moving entity toward its destination for a tick of `dt`
/// milliseconds, snapping to the target (and going idle) on arrival and
/// never overshooting.
pub fn move_towards_destinations(w: &mut World, dt: i64)
    requires
        old(w).wf(),
        0 <= dt <= DT_LIMIT,
    ensures
        final(w).wf(),
        move_rel(*old(w), *final(w), dt as int),
{
    let n = w.num_entities();
    let mut i: usize = 0;
    while i < n
        invariant
            w.wf_store(),
            n == w.n(),
            n == old(w).n(),
            0 <= i <= n,
            w.motions@.len() == n,
            w.collisions == old(w).collisions,
            w.is_player == old(w).is_player,
            w.is_hazard == old(w).is_hazard,
            w.is_goal == old(w).is_goal,
            w.trackers == old(w).trackers,
            w.buttons == old(w).buttons,
            w.gates == old(w).gates,
            w.sprites == old(w).sprites,
            w.patrol == old(w).patrol,
            w.links == old(w).links,
            0 <= dt <= DT_LIMIT,
            forall|j: int| 0 <= j < i ==> #[trigger] moved_ent(*old(w), *w, dt as int, j),
            forall|j: int|
                i <= j < n ==> w.positions@[j] == old(w).positions@[j] && w.motions@[j] == old(
                    w,
                ).motions@[j],
        decreases n - i,
    {
        let ghost w0 = *w;
        let mo = w.motions[i];
        let po = w.positions[i];
        match (mo, po) {
            (Some(m), Some(p)) => {
                match m.dest {
                    Some(d) => {
                        proof {
                            assert(w.ent_wf(i as int));
                            assert(0 <= m.speed as int * dt as int <= 86_400_000_000_000) by (nonlinear_arith)
                                requires
                                    1 <= m.speed as int <= 1_000_000,
                                    0 <= dt as int <= 86_400_000,
                            ;
                        }
                        let step: i64 = m.speed * dt / MS_PER_S;
                        let nx = axis_step(p.x, d.target.x, step);
                        let ny = axis_step(p.y, d.target.y, step);
                        let p2 = Vec2 { x: nx, y: ny };
                        w.set_position(i, p2);
                        if nx == d.target.x && ny == d.target.y {
                            w.set_motion_full(i, Motion { dest: None, speed: m.speed });
                        } else {
                            w.set_motion_full(i, Motion { dest: Some(d), speed: m.speed });
                        }
                        proof {
                            assert(moved_ent(*old(w), *w, dt as int, i as int));
                        }
                    },
                    None => {
                        proof {
                            assert(moved_ent(*old(w), *w, dt as int, i as int));
                        }
                    },
                }
            },
            _ => {
                proof {
                    assert(moved_ent(*old(w), *w, dt as int, i as int));
                }
            },
        }
        proof {
            assert forall|j: int| 0 <= j < i + 1 implies #[trigger] moved_ent(
                *old(w),
                *w,
                dt as int,
                j,
            ) by {
                if j < i as int {
                    assert(moved_ent(*old(w), w0, dt as int, j));
                    assert(w.positions@[j] == w0.positions@[j]);
                    assert(w.motions@[j] == w0.motions@[j]);
                }
            }
        }
        i += 1;
    }
    proof {
        let e = old(w).player_id();
        assert(0 <= e < w.n() && w.is_player@[e] && (forall|j: int|
            0 <= j < w.n() && w.is_player@[j] ==> j == e));
    }
}


/// One interpolation tick never overshoots: a moving entity's new position
/// stays, on each axis, between its old position and its target; it arrives
/// exactly (and goes idle) precisely when the remaining distance on both
/// axes is within the distance covered this tick.
pub proof fn lemma_tick_never_overshoots(w0: World, w1: World, dt: int, i: int, m: Motion, d: Dest, p: Vec2)
    requires
        move_rel(w0, w1, dt),
        0 <= i < w0.n(),
        w0.motions@[i] == Option::Some(m),
        m.dest == Option::Some(d),
        w0.positions@[i] == Option::Some(p),
        dt >= 0,
        m.speed >= 1,
    ensures
        w1.positions@[i] matches Option::Some(q) && {
            let step = spec_step_dist(m.speed as int, dt);
            &&& (p.x <= d.target.x ==> p.x <= q.x <= d.target.x)
            &&& (d.target.x <= p.x ==> d.target.x <= q.x <= p.x)
            &&& (p.y <= d.target.y ==> p.y <= q.y <= d.target.y)
            &&& (d.target.y <= p.y ==> d.target.y <= q.y <= p.y)
            &&& (q == d.target <==> abs_diff(p.x as int, d.target.x as int) <= step && abs_diff(
                p.y as int,
                d.target.y as int,
            ) <= step)
            &&& w1.motions@[i] == Option::Some(
                Motion {
                    dest: if q == d.target {
                        Option::None::<Dest>
                    } else {
                        Option::Some(d)
                    },
                    speed: m.speed,
                },
            )
        },
{
    assert(moved_ent(w0, w1, dt, i));
    let step = spec_step_dist(m.speed as int, dt);
    assert(step >= 0) by {
        assert(m.speed as int * dt >= 0) by (nonlinear_arith)
            requires
                m.speed as int >= 1,
                dt >= 0,
        ;
    }
    lemma_axis_step_no_overshoot(p.x as int, d.target.x as int, step);
    lemma_axis_step_no_overshoot(p.y as int, d.target.y as int, step);
}

} // verus!
