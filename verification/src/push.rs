//! Player control and push-chain resolution.
//!
//! Each tick, if the player is idle and a nonzero input direction was
//! sampled, the tile one step in that direction is inspected. A blocking
//! occupant (`Obstacle` or `BlocksPush`) refuses the move. A `Pushable`
//! occupant starts a push chain: successive tiles along the direction are
//! inspected until one is free (every chained pushable and the player then
//! simultaneously receive a one-tile slide) or blocked (the entire push,
//! including the player's own move, is refused). The world boundary at
//! `POS_LIMIT` refuses like an obstacle. One input resolves at most one
//! chain; a `None` input leaves every motion untouched.

use vstd::prelude::*;

use crate::geom::{is_unit_dir, Vec2, SCALE};
use crate::world::{Collision, Dest, Motion, World};

verus! {

/// A sampled 4-directional input.
#[derive(Clone, Copy, PartialEq, Eq, Structural, Debug)]
pub enum Dir {
    Up,
    Down,
    Left,
    Right,
}

/// The unit tile vector of an input direction.
pub open spec fn spec_delta(d: Dir) -> Vec2 {
    match d {
        Dir::Up => Vec2 { x: 0 as i64, y: 1 as i64 },
        Dir::Down => Vec2 { x: 0 as i64, y: (-1) as i64 },
        Dir::Left => Vec2 { x: (-1) as i64, y: 0 as i64 },
        Dir::Right => Vec2 { x: 1 as i64, y: 0 as i64 },
    }
}

/// The unit tile vector of an input direction.
pub fn delta(d: Dir) -> (r: Vec2)
    ensures
        r == spec_delta(d),
        is_unit_dir(r),
        r.x != 0 || r.y != 0,
{
    match d {
        Dir::Up => Vec2 { x: 0, y: 1 },
        Dir::Down => Vec2 { x: 0, y: -1 },
        Dir::Left => Vec2 { x: -1, y: 0 },
        Dir::Right => Vec2 { x: 1, y: 0 },
    }
}

/// The position one tile from `t` along the unit direction `d`.
pub open spec fn spec_tile_shift(t: Vec2, d: Vec2) -> Vec2 {
    Vec2 { x: (t.x + d.x * SCALE) as i64, y: (t.y + d.y * SCALE) as i64 }
}

/// Some entity standing exactly on `t` blocks a push (`Obstacle` or
/// `BlocksPush`).
pub open spec fn spec_blocker_at(w: World, t: Vec2) -> bool {
    exists|j: int|
        0 <= j < w.n() && w.positions@[j] == Option::Some(t) && (w.collisions@[j] == Option::Some(
            Collision::Obstacle,
        ) || w.collisions@[j] == Option::Some(Collision::BlocksPush))
}

/// Some pushable entity stands exactly on `t`.
pub open spec fn spec_pushable_at(w: World, t: Vec2) -> bool {
    exists|j: int|
        0 <= j < w.n() && w.positions@[j] == Option::Some(t) && w.collisions@[j] == Option::Some(
            Collision::Pushable,
        )
}

/// The pushable entities standing exactly on `t`.
pub open spec fn spec_pushables_at(w: World, t: Vec2) -> Set<int> {
    Set::new(
        |j: int|
            0 <= j < w.n() && w.positions@[j] == Option::Some(t) && w.collisions@[j]
                == Option::Some(Collision::Pushable),
    )
}

/// Push-chain budget, in tiles: more than enough steps to walk from any
/// in-limit position past the world boundary, so running out only coincides
/// with a refusal the boundary would give anyway.
pub const CHAIN_FUEL: u64 = 2_000_002;

/// The push chain starting at tile `t` along direction `d`: `None` when the
/// chain is refused (a blocker, the world boundary, or fuel exhaustion),
/// otherwise the set of pushable entities that must slide one tile.
pub open spec fn spec_chain(w: World, t: Vec2, d: Vec2, fuel: nat) -> Option<Set<int>>
    decreases fuel,
{
    if !t.in_limit() {
        Option::None
    } else if spec_blocker_at(w, t) {
        Option::None
    } else if spec_pushable_at(w, t) {
        if fuel == 0 {
            Option::None
        } else {
            match spec_chain(w, spec_tile_shift(t, d), d, (fuel - 1) as nat) {
                Option::Some(s) => Option::Some(s.union(spec_pushables_at(w, t))),
                Option::None => Option::None,
            }
        }
    } else {
        Option::Some(Set::empty())
    }
}

/// `e` occurs among the first `upto` elements of `v`.
pub open spec fn seq_has_upto(v: Seq<usize>, e: int, upto: int) -> bool {
    exists|k: int| 0 <= k < upto && v[k] == e
}

/// `e` occurs in `v`.
pub open spec fn seq_has(v: Seq<usize>, e: int) -> bool {
    seq_has_upto(v, e, v.len() as int)
}

/// Entity `i`'s motion became the one-tile push slide along `dv`.
pub open spec fn chain_moved(w0: World, w1: World, dv: Vec2, i: int) -> bool {
    match (w0.positions@[i], w0.motions@[i]) {
        (Option::Some(p), Option::Some(m)) => w1.motions@[i] == Option::Some(
            Motion { dest: Option::Some(Dest { target: spec_tile_shift(p, dv), dir: dv }), speed: m.speed },
        ),
        _ => w1.motions@[i] == w0.motions@[i],
    }
}

/// How a resolved push changes a single entity: the player slides one tile
/// along `dv`, every chained pushable slides one tile along `dv`, everything
/// else keeps its motion.
pub open spec fn pushed_ent(w0: World, w1: World, dv: Vec2, s: Set<int>, i: int) -> bool {
    if i == w0.player_id() {
        match w0.motions@[i] {
            Option::Some(m) => w1.motions@[i] == Option::Some(
                Motion {
                    dest: Option::Some(
                        Dest {
                            target: spec_tile_shift(crate::tracker::spec_player_pos(w0), dv),
                            dir: dv,
                        },
                    ),
                    speed: m.speed,
                },
            ),
            Option::None => w1.motions@[i] == w0.motions@[i],
        }
    } else if s.contains(i) {
        chain_moved(w0, w1, dv, i)
    } else {
        w1.motions@[i] == w0.motions@[i]
    }
}

/// The full effect of one input tick: with no input, a moving player, or a
/// refused chain nothing changes; with a clear chain the player and every
/// chained pushable receive their one-tile slides. Only motions change.
pub open spec fn push_rel(w0: World, w1: World, input: Option<Dir>) -> bool {
    &&& w1.n() == w0.n()
    &&& w1.motions@.len() == w0.motions@.len()
    &&& w1.positions == w0.positions
    &&& w1.collisions == w0.collisions
    &&& w1.is_player == w0.is_player
    &&& w1.is_hazard == w0.is_hazard
    &&& w1.is_goal == w0.is_goal
    &&& w1.trackers == w0.trackers
    &&& w1.buttons == w0.buttons
    &&& w1.gates == w0.gates
    &&& w1.sprites == w0.sprites
    &&& w1.patrol == w0.patrol
    &&& w1.links == w0.links
    &&& match input {
        Option::Some(dir) => if w0.idle(w0.player_id()) {
            match spec_chain(
                w0,
                spec_tile_shift(crate::tracker::spec_player_pos(w0), spec_delta(dir)),
                spec_delta(dir),
                CHAIN_FUEL as nat,
            ) {
                Option::Some(s) => forall|i: int|
                    0 <= i < w0.n() ==> #[trigger] pushed_ent(w0, w1, spec_delta(dir), s, i),
                Option::None => w1.motions == w0.motions,
            }
        } else {
            w1.motions == w0.motions
        },
        Option::None => w1.motions == w0.motions,
    }
}

/// Some entity on `t` has `Obstacle` or `BlocksPush` collision.
fn blocker_at(w: &World, t: Vec2) -> (r: bool)
    requires
        w.wf_store(),
    ensures
        r == spec_blocker_at(*w, t),
{
    let n = w.num_entities();
    let mut j: usize = 0;
    while j < n
        invariant
            w.wf_store(),
            n == w.n(),
            0 <= j <= n,
            forall|k: int|
                0 <= k < j ==> !(w.positions@[k] == Option::Some(t) && (w.collisions@[k]
                    == Option::Some(Collision::Obstacle) || w.collisions@[k] == Option::Some(
                    Collision::BlocksPush,
                ))),
        decreases n - j,
    {
        let blocking = match w.collisions[j] {
            Some(Collision::Obstacle) => true,
            Some(Collision::BlocksPush) => true,
            _ => false,
        };
        if blocking {
            match w.positions[j] {
                Some(q) => {
                    if q.x == t.x && q.y == t.y {
                        return true;
                    }
                },
                None => {},
            }
        }
        j += 1;
    }
    false
}

/// The pushable entities standing exactly on `t`, in ascending id order.
fn pushables_at(w: &World, t: Vec2) -> (r: Vec<usize>)
    requires
        w.wf_store(),
    ensures
        forall|e: int| #[trigger] spec_pushables_at(*w, t).contains(e) <==> seq_has(r@, e),
        forall|k: int|
            0 <= k < r@.len() ==> spec_pushables_at(*w, t).contains(#[trigger] r@[k] as int),
        r@.len() == 0 <==> !spec_pushable_at(*w, t),
{
    let n = w.num_entities();
    let mut out: Vec<usize> = Vec::new();
    let mut j: usize = 0;
    while j < n
        invariant
            w.wf_store(),
            n == w.n(),
            0 <= j <= n,
            forall|e: int|
                #[trigger] seq_has(out@, e) <==> 0 <= e < j && w.positions@[e] == Option::Some(t)
                    && w.collisions@[e] == Option::Some(Collision::Pushable),
            forall|k: int| 0 <= k < out@.len() ==> 0 <= #[trigger] out@[k] < n,
        decreases n - j,
    {
        let pushable = match w.collisions[j] {
            Some(Collision::Pushable) => true,
            _ => false,
        };
        let ghost out0 = out@;
        let mut added = false;
        if pushable {
            match w.positions[j] {
                Some(q) => {
                    if q.x == t.x && q.y == t.y {
                        out.push(j);
                        added = true;
                    }
                },
                None => {},
            }
        }
        proof {
            assert forall|e: int| #[trigger] seq_has(out@, e) implies (0 <= e < j + 1
                && w.positions@[e] == Option::Some(t) && w.collisions@[e] == Option::Some(
                Collision::Pushable,
            )) by {
                let k = choose|k: int| 0 <= k < out@.len() && out@[k] == e;
                if k < out0.len() {
                    assert(seq_has(out0, e));
                }
            }
            assert forall|e: int|
                0 <= e < j + 1 && w.positions@[e] == Option::Some(t) && w.collisions@[e]
                    == Option::Some(Collision::Pushable) implies #[trigger] seq_has(out@, e) by {
                if e < j as int {
                    assert(seq_has(out0, e));
                    let k = choose|k: int| 0 <= k < out0.len() && out0[k] == e;
                    assert(out@[k] == e);
                } else {
                    assert(out@[out@.len() - 1] == e);
                }
            }
        }
        j += 1;
    }
    proof {
        assert forall|e: int| #[trigger] spec_pushables_at(*w, t).contains(e) implies seq_has(
            out@,
            e,
        ) by {}
        assert forall|k: int| 0 <= k < out@.len() implies spec_pushables_at(*w, t).contains(
            #[trigger] out@[k] as int,
        ) by {
            assert(seq_has(out@, out@[k] as int));
        }
        if out@.len() > 0 {
            assert(seq_has(out@, out@[0] as int));
        }
        if spec_pushable_at(*w, t) {
            let e = choose|e: int|
                0 <= e < w.n() && w.positions@[e] == Option::Some(t) && w.collisions@[e]
                    == Option::Some(Collision::Pushable);
            assert(seq_has(out@, e));
        }
    }
    out
}

/// Resolve the push chain from tile `t` along `d`: the chained pushable
/// entities when the chain ends in free space, `None` when it is refused.
fn find_chain(w: &World, t: Vec2, d: Vec2, fuel: u64) -> (r: Option<Vec<usize>>)
    requires
        w.wf_store(),
        is_unit_dir(d),
    ensures
        r is Some <==> spec_chain(*w, t, d, fuel as nat) is Some,
        r matches Option::Some(v) ==> (spec_chain(*w, t, d, fuel as nat) matches Option::Some(s)
            && (forall|e: int| #[trigger] s.contains(e) <==> seq_has(v@, e)) && (forall|k: int|
            0 <= k < v@.len() ==> s.contains(#[trigger] v@[k] as int)) && (forall|e: int|
            s.contains(e) ==> 0 <= e < w.n() && (w.positions@[e] matches Option::Some(p)
                && p.in_limit() && spec_tile_shift(p, d).in_limit() && w.collisions@[e]
                == Option::Some(Collision::Pushable)))),
    decreases fuel,
{
    if !(t.x >= -crate::geom::POS_LIMIT && t.x <= crate::geom::POS_LIMIT && t.y
        >= -crate::geom::POS_LIMIT && t.y <= crate::geom::POS_LIMIT) {
        return None;
    }
    if blocker_at(w, t) {
        return None;
    }
    let here = pushables_at(w, t);
    if here.len() == 0 {
        return Some(Vec::new());
    }
    if fuel == 0 {
        return None;
    }
    let t2 = Vec2 { x: t.x + d.x * SCALE, y: t.y + d.y * SCALE };
    match find_chain(w, t2, d, fuel - 1) {
        Some(mut v) => {
            proof {
                assert(spec_chain(*w, t2, d, (fuel - 1) as nat) is Some);
            }
            let ghost v0 = v@;
            let ghost srec = spec_chain(*w, t2, d, (fuel - 1) as nat)->Some_0;
            let mut k: usize = 0;
            let hlen = here.len();
            while k < hlen
                invariant
                    hlen == here@.len(),
                    0 <= k <= hlen,
                    v@ == v0 + here@.subrange(0, k as int),
                decreases hlen - k,
            {
                let e = here[k];
                v.push(e);
                proof {
                    assert(v@ =~= v0 + here@.subrange(0, k as int + 1));
                }
                k += 1;
            }
            proof {
                assert(v@ == v0 + here@);
                let s = srec.union(spec_pushables_at(*w, t));
                assert(spec_chain(*w, t, d, fuel as nat) == Option::Some(s));
                assert forall|e: int| #[trigger] s.contains(e) implies seq_has(v@, e) by {
                    if srec.contains(e) {
                        assert(seq_has(v0, e));
                        let kk = choose|kk: int| 0 <= kk < v0.len() && v0[kk] == e;
                        assert(v@[kk] == e);
                    } else {
                        assert(spec_pushables_at(*w, t).contains(e));
                        assert(seq_has(here@, e));
                        let kk = choose|kk: int| 0 <= kk < here@.len() && here@[kk] == e;
                        assert(v@[v0.len() + kk] == e);
                    }
                }
                assert forall|e: int| seq_has(v@, e) implies #[trigger] s.contains(e) by {
                    let kk = choose|kk: int| 0 <= kk < v@.len() && v@[kk] == e;
                    if kk < v0.len() {
                        assert(seq_has(v0, e));
                    } else {
                        assert(here@[kk - v0.len()] == e);
                        assert(seq_has(here@, e));
                    }
                }
                assert forall|e: int| s.contains(e) implies 0 <= e < w.n()
                    && (w.positions@[e] matches Option::Some(p) && p.in_limit()
                    && spec_tile_shift(p, d).in_limit() && w.collisions@[e] == Option::Some(
                    Collision::Pushable,
                )) by {
                    if spec_pushables_at(*w, t).contains(e) && !srec.contains(e) {
                        assert(w.positions@[e] == Option::Some(t));
                        assert(w.ent_wf(e));
                        assert(spec_chain(*w, t2, d, (fuel - 1) as nat) is Some);
                        assert(t2.in_limit());
                    }
                }
            }
            Some(v)
        },
        None => None,
    }
}

/// Sample the input and resolve the player's move, including any push
/// chain, refusing it when the chain ends in a blocker or the boundary.
pub fn player_controls(w: &mut World, input: Option<Dir>)
    requires
        old(w).wf(),
    ensures
        final(w).wf(),
        push_rel(*old(w), *final(w), input),
{
    let dir = match input {
        Some(d) => d,
        None => {
            return ;
        },
    };
    let pid = w.find_player();
    if !w.is_idle(pid) {
        return ;
    }
    proof {
        assert(w.ent_wf(pid as int));
    }
    let pp = match w.positions[pid] {
        Some(p) => p,
        None => {
            proof {
                assert(false);
            }
            vstd::pervasive::unreached()
        },
    };
    let dv = delta(dir);
    let t1 = Vec2 { x: pp.x + dv.x * SCALE, y: pp.y + dv.y * SCALE };
    let chain = match find_chain(w, t1, dv, CHAIN_FUEL) {
        Some(v) => v,
        None => {
            return ;
        },
    };
    let ghost s = spec_chain(*old(w), t1, dv, CHAIN_FUEL as nat)->Some_0;
    let clen = chain.len();
    let mut k: usize = 0;
    while k < clen
        invariant
            old(w).wf(),
            w.wf_store(),
            clen == chain@.len(),
            0 <= k <= clen,
            pid as int == old(w).player_id(),
            0 <= pid < w.n(),
            dv == spec_delta(dir),
            input == Option::Some(dir),
            old(w).idle(pid as int),
            t1 == spec_tile_shift(crate::tracker::spec_player_pos(*old(w)), dv),
            t1.in_limit(),
            spec_chain(*old(w), t1, dv, CHAIN_FUEL as nat) == Option::Some(s),
            w.n() == old(w).n(),
            w.motions@.len() == old(w).motions@.len(),
            w.positions == old(w).positions,
            w.collisions == old(w).collisions,
            w.is_player == old(w).is_player,
            w.is_hazard == old(w).is_hazard,
            w.is_goal == old(w).is_goal,
            w.trackers == old(w).trackers,
            w.buttons == old(w).buttons,
            w.gates == old(w).gates,
            w.sprites == old(w).sprites,
            w.patrol == old(w).patrol,
            w.links == old(w).links,
            is_unit_dir(dv),
            forall|e: int| #[trigger] s.contains(e) <==> seq_has(chain@, e),
            forall|kk: int| 0 <= kk < clen ==> s.contains(#[trigger] chain@[kk] as int),
            forall|e: int|
                s.contains(e) ==> 0 <= e < w.n() && (old(w).positions@[e] matches Option::Some(p)
                    && p.in_limit() && spec_tile_shift(p, dv).in_limit() && old(w).collisions@[e]
                    == Option::Some(Collision::Pushable)),
            forall|i: int|
                #![trigger w.motions@[i]]
                0 <= i < w.n() ==> if seq_has_upto(chain@, i, k as int) {
                    chain_moved(*old(w), *w, dv, i)
                } else {
                    w.motions@[i] == old(w).motions@[i]
                },
        decreases clen - k,
    {
        let ghost wpre = *w;
        let e = chain[k];
        proof {
            assert(s.contains(chain@[k as int] as int));
            assert(old(w).ent_wf(e as int));
            assert(w.ent_wf(e as int));
            if seq_has_upto(chain@, e as int, k as int) {
                assert(chain_moved(*old(w), wpre, dv, e as int));
            } else {
                assert(wpre.motions@[e as int] == old(w).motions@[e as int]);
            }
        }
        let ep = match w.positions[e] {
            Some(p) => p,
            None => {
                proof {
                    assert(false);
                }
                vstd::pervasive::unreached()
            },
        };
        let em = match w.motions[e] {
            Some(m) => m,
            None => {
                proof {
                    assert(w.ent_wf(e as int));
                    assert(false);
                }
                vstd::pervasive::unreached()
            },
        };
        let target = Vec2 { x: ep.x + dv.x * SCALE, y: ep.y + dv.y * SCALE };
        proof {
            assert(old(w).positions@[e as int] == Option::Some(ep));
            assert(spec_tile_shift(ep, dv).in_limit());
        }
        w.set_motion_full(e, Motion { dest: Some(Dest { target, dir: dv }), speed: em.speed });
        proof {
            assert(chain_moved(*old(w), *w, dv, e as int));
            assert forall|i: int|
                #![trigger w.motions@[i]]
                0 <= i < w.n() implies (if seq_has_upto(chain@, i, k as int + 1) {
                chain_moved(*old(w), *w, dv, i)
            } else {
                w.motions@[i] == old(w).motions@[i]
            }) by {
                assert(wpre.motions@[i] == wpre.motions@[i]);
                if i != e as int {
                    assert(w.motions@[i] == wpre.motions@[i]);
                    if seq_has_upto(chain@, i, k as int + 1) {
                        let kk = choose|kk: int| 0 <= kk < k + 1 && chain@[kk] == i;
                        assert(kk < k as int);
                        assert(seq_has_upto(chain@, i, k as int));
                        assert(chain_moved(*old(w), wpre, dv, i));
                    }
                } else {
                    if seq_has_upto(chain@, i, k as int + 1) {
                    } else {
                        assert(chain@[k as int] == i);
                        assert(false);
                    }
                }
            }
        }
        k += 1;
    }
    proof {
        assert(w.ent_wf(pid as int));
        assert(old(w).ent_wf(pid as int));
        assert(spec_chain(*old(w), t1, dv, CHAIN_FUEL as nat) is Some);
        assert(t1.in_limit());
        if seq_has_upto(chain@, pid as int, clen as int) {
            assert(chain_moved(*old(w), *w, dv, pid as int));
        } else {
            assert(w.motions@[pid as int] == old(w).motions@[pid as int]);
        }
    }
    let ghost wmid = *w;
    let pm = match w.motions[pid] {
        Some(m) => m,
        None => {
            proof {
                assert(false);
            }
            vstd::pervasive::unreached()
        },
    };
    proof {
        assert(old(w).motions@[pid as int] is Some);
        assert(pm.speed == old(w).motions@[pid as int]->Some_0.speed);
    }
    w.set_motion_full(pid, Motion { dest: Some(Dest { target: t1, dir: dv }), speed: pm.speed });
    proof {
        assert(w.motions@[pid as int] == Option::Some(
            Motion {
                dest: Option::Some(Dest { target: t1, dir: dv }),
                speed: old(w).motions@[pid as int]->Some_0.speed,
            },
        ));
        assert forall|i: int| 0 <= i < old(w).n() implies #[trigger] pushed_ent(
            *old(w),
            *w,
            dv,
            s,
            i,
        ) by {
            if i == old(w).player_id() {
            } else {
                assert(w.motions@[i] == wmid.motions@[i]);
                if s.contains(i) {
                    assert(seq_has_upto(chain@, i, clen as int));
                    assert(chain_moved(*old(w), wmid, dv, i));
                } else {
                    assert(wmid.motions@[i] == old(w).motions@[i]);
                }
            }
        }
        let e = old(w).player_id();
        assert(0 <= e < w.n() && w.is_player@[e] && (forall|j: int|
            0 <= j < w.n() && w.is_player@[j] ==> j == e));
    }
}

} // verus!
