//! Spawning the initial world of a level.
//!
//! Level data is consumed once at level entry to create the world's
//! entities: the player, the hazard with its tracker and patrol path, a
//! background and a goal entity per door, the styled walls, the pushable
//! blocks, the buttons and the gates, then the button-to-gate links. Entity
//! ids are assigned in that order, so every entity's components are pinned
//! by its position in the layout.

use vstd::prelude::*;

use crate::geom::Vec2;
use crate::level::{Level, Wall};
use crate::world::{
    Collision, Link, Motion, Sprite, Tracker, World, ACTOR_LAYER, BG_LAYER, OBJECT_LAYER,
};

verus! {

/// Speed of the player, in subtile units per second (4 tiles/s).
pub const PLAYER_SPEED: i64 = 4000;

/// Speed of the hazard, in subtile units per second (4 tiles/s).
pub const STALKER_SPEED: i64 = 4000;

/// Speed of a pushable block, in subtile units per second (4 tiles/s).
pub const PUSH_SPEED: i64 = 4000;

/// Squared chase threshold of the hazard, in subtile units (0.05 tiles).
pub const STALKER_THRESHOLD2: i64 = 2500;

/// Add one entity with exactly the given components.
fn push_entity(
    w: &mut World,
    pos: Option<Vec2>,
    speed: Option<i64>,
    col: Option<Collision>,
    pl: bool,
    hz: bool,
    gl: bool,
    tr2: Option<i64>,
    bt: Option<bool>,
    gt: Option<bool>,
    sp: Option<Sprite>,
) -> (e: usize)
    requires
        old(w).wf_store(),
        pos matches Option::Some(p) ==> p.in_limit(),
        speed matches Option::Some(s) ==> 1 <= s <= crate::geom::SPEED_LIMIT,
        pl ==> pos is Some && speed is Some,
        col == Option::Some(Collision::Pushable) ==> pos is Some && speed is Some,
        tr2 matches Option::Some(t) ==> pos is Some && speed is Some && old(w).patrol@.len() >= 1
            && 0 <= t,
        bt is Some ==> pos is Some,
        gt is Some ==> pos is Some,
    ensures
        e == old(w).n(),
        final(w).n() == old(w).n() + 1,
        final(w).positions@ == old(w).positions@.push(pos),
        final(w).motions@ == old(w).motions@.push(
            match speed {
                Option::Some(s) => Option::Some(Motion { dest: Option::None, speed: s }),
                Option::None => Option::None,
            },
        ),
        final(w).collisions@ == old(w).collisions@.push(col),
        final(w).is_player@ == old(w).is_player@.push(pl),
        final(w).is_hazard@ == old(w).is_hazard@.push(hz),
        final(w).is_goal@ == old(w).is_goal@.push(gl),
        final(w).trackers@ == old(w).trackers@.push(
            match tr2 {
                Option::Some(t) => Option::Some(Tracker { waypoint: 0, threshold2: t }),
                Option::None => Option::None,
            },
        ),
        final(w).buttons@ == old(w).buttons@.push(
            match bt {
                Option::Some(_) => Option::Some(false),
                Option::None => Option::None,
            },
        ),
        final(w).gates@ == old(w).gates@.push(
            match gt {
                Option::Some(_) => Option::Some(false),
                Option::None => Option::None,
            },
        ),
        final(w).sprites@ == old(w).sprites@.push(sp),
        final(w).patrol == old(w).patrol,
        final(w).links == old(w).links,
        final(w).wf_store(),
{
    let e = w.create();
    match pos {
        Some(p) => w.set_position(e, p),
        None => {},
    }
    match speed {
        Some(s) => w.set_motion(e, s),
        None => {},
    }
    match col {
        Some(c) => w.set_collision(e, c),
        None => {},
    }
    if pl {
        w.set_player(e);
    }
    if hz {
        w.set_hazard(e);
    }
    if gl {
        w.set_goal(e);
    }
    match tr2 {
        Some(t) => w.set_tracker(e, t),
        None => {},
    }
    match bt {
        Some(_) => w.set_button(e),
        None => {},
    }
    match gt {
        Some(_) => w.set_gate(e),
        None => {},
    }
    match sp {
        Some(s) => w.set_sprite(e, s),
        None => {},
    }
    proof {
        assert(w.positions@ =~= old(w).positions@.push(pos));
        assert(w.motions@ =~= old(w).motions@.push(
            match speed {
                Option::Some(s) => Option::Some(Motion { dest: Option::None, speed: s }),
                Option::None => Option::None,
            },
        ));
        assert(w.collisions@ =~= old(w).collisions@.push(col));
        assert(w.is_player@ =~= old(w).is_player@.push(pl));
        assert(w.is_hazard@ =~= old(w).is_hazard@.push(hz));
        assert(w.is_goal@ =~= old(w).is_goal@.push(gl));
        assert(w.trackers@ =~= old(w).trackers@.push(
            match tr2 {
                Option::Some(t) => Option::Some(Tracker { waypoint: 0, threshold2: t }),
                Option::None => Option::None,
            },
        ));
        assert(w.buttons@ =~= old(w).buttons@.push(
            match bt {
                Option::Some(_) => Option::Some(false),
                Option::None => Option::None,
            },
        ));
        assert(w.gates@ =~= old(w).gates@.push(
            match gt {
                Option::Some(_) => Option::Some(false),
                Option::None => Option::None,
            },
        ));
        assert(w.sprites@ =~= old(w).sprites@.push(sp));
    }
    e
}


/// The player entity: its start position, an idle motion, the player
/// marker, and the actor-layer sprite.
pub open spec fn player_ent(w: World, l: Level) -> bool {
    &&& w.positions@[0] == Option::Some(l.player_pos)
    &&& w.motions@[0] == Option::Some(Motion { dest: Option::None, speed: PLAYER_SPEED as i64 })
    &&& w.collisions@[0] is None
    &&& w.is_player@[0]
    &&& !w.is_hazard@[0]
    &&& !w.is_goal@[0]
    &&& w.trackers@[0] is None
    &&& w.buttons@[0] is None
    &&& w.gates@[0] is None
    &&& w.sprites@[0] == Option::Some(Sprite { rx: 0, ry: 0, layer: ACTOR_LAYER as i64 })
}

/// The hazard entity: its start position, an idle motion, `BlocksPush`
/// collision, the hazard marker, a tracker at waypoint 0, and its sprite.
pub open spec fn stalker_ent(w: World, l: Level) -> bool {
    &&& w.positions@[1] == Option::Some(l.stalker_pos)
    &&& w.motions@[1] == Option::Some(Motion { dest: Option::None, speed: STALKER_SPEED as i64 })
    &&& w.collisions@[1] == Option::Some(Collision::BlocksPush)
    &&& !w.is_player@[1]
    &&& w.is_hazard@[1]
    &&& !w.is_goal@[1]
    &&& w.trackers@[1] == Option::Some(
        Tracker { waypoint: 0, threshold2: STALKER_THRESHOLD2 as i64 },
    )
    &&& w.buttons@[1] is None
    &&& w.gates@[1] is None
    &&& w.sprites@[1] == Option::Some(Sprite { rx: 0, ry: 1, layer: ACTOR_LAYER as i64 })
}

/// A door's background entity at id `i`: a position and a sprite only.
pub open spec fn door_bg_ent(w: World, i: int, p: Vec2) -> bool {
    &&& w.positions@[i] == Option::Some(p)
    &&& w.motions@[i] is None
    &&& w.collisions@[i] is None
    &&& !w.is_player@[i]
    &&& !w.is_hazard@[i]
    &&& !w.is_goal@[i]
    &&& w.trackers@[i] is None
    &&& w.buttons@[i] is None
    &&& w.gates@[i] is None
    &&& w.sprites@[i] == Option::Some(Sprite { rx: 1, ry: 2, layer: BG_LAYER as i64 })
}

/// A door's goal entity at id `i`: the goal marker, solid to pushes.
pub open spec fn goal_ent(w: World, i: int, p: Vec2) -> bool {
    &&& w.positions@[i] == Option::Some(p)
    &&& w.motions@[i] is None
    &&& w.collisions@[i] == Option::Some(Collision::BlocksPush)
    &&& !w.is_player@[i]
    &&& !w.is_hazard@[i]
    &&& w.is_goal@[i]
    &&& w.trackers@[i] is None
    &&& w.buttons@[i] is None
    &&& w.gates@[i] is None
    &&& w.sprites@[i] == Option::Some(Sprite { rx: 0, ry: 3, layer: OBJECT_LAYER as i64 })
}

/// A wall entity at id `i`: an obstacle with a style-tagged sprite.
pub open spec fn wall_ent(w: World, i: int, wl: Wall) -> bool {
    &&& w.positions@[i] == Option::Some(wl.pos)
    &&& w.motions@[i] is None
    &&& w.collisions@[i] == Option::Some(Collision::Obstacle)
    &&& !w.is_player@[i]
    &&& !w.is_hazard@[i]
    &&& !w.is_goal@[i]
    &&& w.trackers@[i] is None
    &&& w.buttons@[i] is None
    &&& w.gates@[i] is None
    &&& w.sprites@[i] == Option::Some(Sprite { rx: wl.style as i64, ry: 2, layer: BG_LAYER as i64 })
}

/// A pushable-block entity at id `i`: pushable, with an idle motion.
pub open spec fn push_block_ent(w: World, i: int, p: Vec2) -> bool {
    &&& w.positions@[i] == Option::Some(p)
    &&& w.motions@[i] == Option::Some(Motion { dest: Option::None, speed: PUSH_SPEED as i64 })
    &&& w.collisions@[i] == Option::Some(Collision::Pushable)
    &&& !w.is_player@[i]
    &&& !w.is_hazard@[i]
    &&& !w.is_goal@[i]
    &&& w.trackers@[i] is None
    &&& w.buttons@[i] is None
    &&& w.gates@[i] is None
    &&& w.sprites@[i] == Option::Some(Sprite { rx: 1, ry: 3, layer: OBJECT_LAYER as i64 })
}

/// A button entity at id `i`: an unpressed pressure plate.
pub open spec fn button_ent(w: World, i: int, p: Vec2) -> bool {
    &&& w.positions@[i] == Option::Some(p)
    &&& w.motions@[i] is None
    &&& w.collisions@[i] is None
    &&& !w.is_player@[i]
    &&& !w.is_hazard@[i]
    &&& !w.is_goal@[i]
    &&& w.trackers@[i] is None
    &&& w.buttons@[i] == Option::Some(false)
    &&& w.gates@[i] is None
    &&& w.sprites@[i] == Option::Some(Sprite { rx: 2, ry: 3, layer: BG_LAYER as i64 })
}

/// A gate entity at id `i`: initially closed, an obstacle.
pub open spec fn gate_ent(w: World, i: int, p: Vec2) -> bool {
    &&& w.positions@[i] == Option::Some(p)
    &&& w.motions@[i] is None
    &&& w.collisions@[i] == Option::Some(Collision::Obstacle)
    &&& !w.is_player@[i]
    &&& !w.is_hazard@[i]
    &&& !w.is_goal@[i]
    &&& w.trackers@[i] is None
    &&& w.buttons@[i] is None
    &&& w.gates@[i] == Option::Some(false)
    &&& w.sprites@[i] == Option::Some(Sprite { rx: 0, ry: 4, layer: BG_LAYER as i64 })
}

/// The whole spawned layout: entity ids run player, hazard, per-door
/// background and goal pairs, walls, pushable blocks, buttons, gates; the
/// patrol path is the level's, and the links map the level's button and
/// gate ordinals onto the spawned entity ids.
pub open spec fn spawned(w: World, l: Level) -> bool {
    let nd = l.doors@.len() as int;
    let nw = l.blocks@.len() as int;
    let np = l.push_blocks@.len() as int;
    let nb = l.buttons@.len() as int;
    let ng = l.gates@.len() as int;
    let bw = 2 + 2 * nd;
    let bp = bw + nw;
    let bb = bp + np;
    let bg = bb + nb;
    &&& w.n() == bg + ng
    &&& w.patrol@ == l.initial_stalker_path@
    &&& player_ent(w, l)
    &&& stalker_ent(w, l)
    &&& (forall|k: int|
        0 <= k < nd ==> door_bg_ent(w, 2 + 2 * k, #[trigger] l.doors@[k]) && goal_ent(
            w,
            3 + 2 * k,
            l.doors@[k],
        ))
    &&& (forall|k: int| 0 <= k < nw ==> wall_ent(w, bw + k, #[trigger] l.blocks@[k]))
    &&& (forall|k: int| 0 <= k < np ==> push_block_ent(w, bp + k, #[trigger] l.push_blocks@[k]))
    &&& (forall|k: int| 0 <= k < nb ==> button_ent(w, bb + k, #[trigger] l.buttons@[k]))
    &&& (forall|k: int| 0 <= k < ng ==> gate_ent(w, bg + k, #[trigger] l.gates@[k]))
    &&& w.links@.len() == l.links@.len()
    &&& (forall|k: int|
        0 <= k < l.links@.len() ==> #[trigger] w.links@[k] == (Link {
            button: (bb + l.links@[k].0) as usize,
            gate: (bg + l.links@[k].1) as usize,
        }))
}

/// Spawn the initial world of a level.
pub fn spawn_level(level: &Level) -> (w: World)
    requires
        level.wf(),
        level.doors@.len() <= 1_000_000,
        level.blocks@.len() <= 1_000_000,
        level.push_blocks@.len() <= 1_000_000,
        level.buttons@.len() <= 1_000_000,
        level.gates@.len() <= 1_000_000,
    ensures
        w.wf(),
        spawned(w, *level),
{
    let ghost l = *level;
    let nd = level.doors.len();
    let nw = level.blocks.len();
    let np = level.push_blocks.len();
    let nb = level.buttons.len();
    let ng = level.gates.len();
    let mut w = World::new();
    let mut patrol: Vec<Vec2> = Vec::new();
    let pl = level.initial_stalker_path.len();
    let mut k: usize = 0;
    while k < pl
        invariant
            pl == level.initial_stalker_path@.len(),
            level.wf(),
            0 <= k <= pl,
            patrol@ == level.initial_stalker_path@.subrange(0, k as int),
        decreases pl - k,
    {
        patrol.push(level.initial_stalker_path[k]);
        proof {
            assert(patrol@ =~= level.initial_stalker_path@.subrange(0, k as int + 1));
        }
        k += 1;
    }
    proof {
        assert(patrol@ =~= level.initial_stalker_path@);
    }
    w.set_patrol(patrol);
    push_entity(
        &mut w,
        Some(level.player_pos),
        Some(PLAYER_SPEED),
        None,
        true,
        false,
        false,
        None,
        None,
        None,
        Some(Sprite { rx: 0, ry: 0, layer: ACTOR_LAYER }),
    );
    push_entity(
        &mut w,
        Some(level.stalker_pos),
        Some(STALKER_SPEED),
        Some(Collision::BlocksPush),
        false,
        true,
        false,
        Some(STALKER_THRESHOLD2),
        None,
        None,
        Some(Sprite { rx: 0, ry: 1, layer: ACTOR_LAYER }),
    );
    let mut k: usize = 0;
    while k < nd
        invariant
            nd == l.doors@.len(),
            l == *level,
            l.wf(),
            0 <= k <= nd,
            w.wf_store(),
            w.n() == 2 + 2 * k,
            w.patrol@ == l.initial_stalker_path@,
            w.links@.len() == 0,
            player_ent(w, l),
            stalker_ent(w, l),
            forall|j: int|
                0 <= j < k ==> door_bg_ent(w, 2 + 2 * j, #[trigger] l.doors@[j]) && goal_ent(
                    w,
                    3 + 2 * j,
                    l.doors@[j],
                ),
        decreases nd - k,
    {
        let ghost w0 = w;
        let d = level.doors[k];
        push_entity(
            &mut w,
            Some(d),
            None,
            None,
            false,
            false,
            false,
            None,
            None,
            None,
            Some(Sprite { rx: 1, ry: 2, layer: BG_LAYER }),
        );
        push_entity(
            &mut w,
            Some(d),
            None,
            Some(Collision::BlocksPush),
            false,
            false,
            true,
            None,
            None,
            None,
            Some(Sprite { rx: 0, ry: 3, layer: OBJECT_LAYER }),
        );
        proof {
            assert(door_bg_ent(w, 2 + 2 * k, l.doors@[k as int]));
            assert(goal_ent(w, 3 + 2 * k, l.doors@[k as int]));
            assert forall|j: int| 0 <= j < k + 1 implies door_bg_ent(
                w,
                2 + 2 * j,
                #[trigger] l.doors@[j],
            ) && goal_ent(w, 3 + 2 * j, l.doors@[j]) by {
                if j < k as int {
                    assert(door_bg_ent(w0, 2 + 2 * j, l.doors@[j]));
                    assert(goal_ent(w0, 3 + 2 * j, l.doors@[j]));
                }
            }
        }
        k += 1;
    }
    let ghost bw = 2 + 2 * nd as int;
    let mut k: usize = 0;
    while k < nw
        invariant
            nd == l.doors@.len(),
            nw == l.blocks@.len(),
            bw == 2 + 2 * nd as int,
            l == *level,
            l.wf(),
            0 <= k <= nw,
            w.wf_store(),
            w.n() == bw + k,
            w.patrol@ == l.initial_stalker_path@,
            w.links@.len() == 0,
            player_ent(w, l),
            stalker_ent(w, l),
            forall|j: int|
                0 <= j < nd ==> door_bg_ent(w, 2 + 2 * j, #[trigger] l.doors@[j]) && goal_ent(
                    w,
                    3 + 2 * j,
                    l.doors@[j],
                ),
            forall|j: int| 0 <= j < k ==> wall_ent(w, bw + j, #[trigger] l.blocks@[j]),
        decreases nw - k,
    {
        let ghost w0 = w;
        let wl = level.blocks[k];
        push_entity(
            &mut w,
            Some(wl.pos),
            None,
            Some(Collision::Obstacle),
            false,
            false,
            false,
            None,
            None,
            None,
            Some(Sprite { rx: wl.style as i64, ry: 2, layer: BG_LAYER }),
        );
        proof {
            assert(wall_ent(w, bw + k, l.blocks@[k as int]));
            assert forall|j: int| 0 <= j < nd implies door_bg_ent(
                w,
                2 + 2 * j,
                #[trigger] l.doors@[j],
            ) && goal_ent(w, 3 + 2 * j, l.doors@[j]) by {
                assert(door_bg_ent(w0, 2 + 2 * j, l.doors@[j]));
                assert(goal_ent(w0, 3 + 2 * j, l.doors@[j]));
            }
            assert forall|j: int| 0 <= j < k + 1 implies wall_ent(
                w,
                bw + j,
                #[trigger] l.blocks@[j],
            ) by {
                if j < k as int {
                    assert(wall_ent(w0, bw + j, l.blocks@[j]));
                }
            }
        }
        k += 1;
    }
    let ghost bp = bw + nw as int;
    let mut k: usize = 0;
    while k < np
        invariant
            nd == l.doors@.len(),
            nw == l.blocks@.len(),
            np == l.push_blocks@.len(),
            bw == 2 + 2 * nd as int,
            bp == bw + nw as int,
            l == *level,
            l.wf(),
            0 <= k <= np,
            w.wf_store(),
            w.n() == bp + k,
            w.patrol@ == l.initial_stalker_path@,
            w.links@.len() == 0,
            player_ent(w, l),
            stalker_ent(w, l),
            forall|j: int|
                0 <= j < nd ==> door_bg_ent(w, 2 + 2 * j, #[trigger] l.doors@[j]) && goal_ent(
                    w,
                    3 + 2 * j,
                    l.doors@[j],
                ),
            forall|j: int| 0 <= j < nw ==> wall_ent(w, bw + j, #[trigger] l.blocks@[j]),
            forall|j: int| 0 <= j < k ==> push_block_ent(w, bp + j, #[trigger] l.push_blocks@[j]),
        decreases np - k,
    {
        let ghost w0 = w;
        let p = level.push_blocks[k];
        push_entity(
            &mut w,
            Some(p),
            Some(PUSH_SPEED),
            Some(Collision::Pushable),
            false,
            false,
            false,
            None,
            None,
            None,
            Some(Sprite { rx: 1, ry: 3, layer: OBJECT_LAYER }),
        );
        proof {
            assert(push_block_ent(w, bp + k, l.push_blocks@[k as int]));
            assert forall|j: int| 0 <= j < nd implies door_bg_ent(
                w,
                2 + 2 * j,
                #[trigger] l.doors@[j],
            ) && goal_ent(w, 3 + 2 * j, l.doors@[j]) by {
                assert(door_bg_ent(w0, 2 + 2 * j, l.doors@[j]));
                assert(goal_ent(w0, 3 + 2 * j, l.doors@[j]));
            }
            assert forall|j: int| 0 <= j < nw implies wall_ent(
                w,
                bw + j,
                #[trigger] l.blocks@[j],
            ) by {
                assert(wall_ent(w0, bw + j, l.blocks@[j]));
            }
            assert forall|j: int| 0 <= j < k + 1 implies push_block_ent(
                w,
                bp + j,
                #[trigger] l.push_blocks@[j],
            ) by {
                if j < k as int {
                    assert(push_block_ent(w0, bp + j, l.push_blocks@[j]));
                }
            }
        }
        k += 1;
    }
    let ghost bb = bp + np as int;
    let mut k: usize = 0;
    while k < nb
        invariant
            nd == l.doors@.len(),
            nw == l.blocks@.len(),
            np == l.push_blocks@.len(),
            nb == l.buttons@.len(),
            bw == 2 + 2 * nd as int,
            bp == bw + nw as int,
            bb == bp + np as int,
            l == *level,
            l.wf(),
            0 <= k <= nb,
            w.wf_store(),
            w.n() == bb + k,
            w.patrol@ == l.initial_stalker_path@,
            w.links@.len() == 0,
            player_ent(w, l),
            stalker_ent(w, l),
            forall|j: int|
                0 <= j < nd ==> door_bg_ent(w, 2 + 2 * j, #[trigger] l.doors@[j]) && goal_ent(
                    w,
                    3 + 2 * j,
                    l.doors@[j],
                ),
            forall|j: int| 0 <= j < nw ==> wall_ent(w, bw + j, #[trigger] l.blocks@[j]),
            forall|j: int| 0 <= j < np ==> push_block_ent(w, bp + j, #[trigger] l.push_blocks@[j]),
            forall|j: int| 0 <= j < k ==> button_ent(w, bb + j, #[trigger] l.buttons@[j]),
        decreases nb - k,
    {
        let ghost w0 = w;
        let p = level.buttons[k];
        push_entity(
            &mut w,
            Some(p),
            None,
            None,
            false,
            false,
            false,
            None,
            Some(false),
            None,
            Some(Sprite { rx: 2, ry: 3, layer: BG_LAYER }),
        );
        proof {
            assert(button_ent(w, bb + k, l.buttons@[k as int]));
            assert forall|j: int| 0 <= j < nd implies door_bg_ent(
                w,
                2 + 2 * j,
                #[trigger] l.doors@[j],
            ) && goal_ent(w, 3 + 2 * j, l.doors@[j]) by {
                assert(door_bg_ent(w0, 2 + 2 * j, l.doors@[j]));
                assert(goal_ent(w0, 3 + 2 * j, l.doors@[j]));
            }
            assert forall|j: int| 0 <= j < nw implies wall_ent(
                w,
                bw + j,
                #[trigger] l.blocks@[j],
            ) by {
                assert(wall_ent(w0, bw + j, l.blocks@[j]));
            }
            assert forall|j: int| 0 <= j < np implies push_block_ent(
                w,
                bp + j,
                #[trigger] l.push_blocks@[j],
            ) by {
                assert(push_block_ent(w0, bp + j, l.push_blocks@[j]));
            }
            assert forall|j: int| 0 <= j < k + 1 implies button_ent(
                w,
                bb + j,
                #[trigger] l.buttons@[j],
            ) by {
                if j < k as int {
                    assert(button_ent(w0, bb + j, l.buttons@[j]));
                }
            }
        }
        k += 1;
    }
    let ghost bg = bb + nb as int;
    let mut k: usize = 0;
    while k < ng
        invariant
            nd == l.doors@.len(),
            nw == l.blocks@.len(),
            np == l.push_blocks@.len(),
            nb == l.buttons@.len(),
            ng == l.gates@.len(),
            bw == 2 + 2 * nd as int,
            bp == bw + nw as int,
            bb == bp + np as int,
            bg == bb + nb as int,
            l == *level,
            l.wf(),
            0 <= k <= ng,
            w.wf_store(),
            w.n() == bg + k,
            w.patrol@ == l.initial_stalker_path@,
            w.links@.len() == 0,
            player_ent(w, l),
            stalker_ent(w, l),
            forall|j: int|
                0 <= j < nd ==> door_bg_ent(w, 2 + 2 * j, #[trigger] l.doors@[j]) && goal_ent(
                    w,
                    3 + 2 * j,
                    l.doors@[j],
                ),
            forall|j: int| 0 <= j < nw ==> wall_ent(w, bw + j, #[trigger] l.blocks@[j]),
            forall|j: int| 0 <= j < np ==> push_block_ent(w, bp + j, #[trigger] l.push_blocks@[j]),
            forall|j: int| 0 <= j < nb ==> button_ent(w, bb + j, #[trigger] l.buttons@[j]),
            forall|j: int| 0 <= j < k ==> gate_ent(w, bg + j, #[trigger] l.gates@[j]),
        decreases ng - k,
    {
        let ghost w0 = w;
        let p = level.gates[k];
        push_entity(
            &mut w,
            Some(p),
            None,
            Some(Collision::Obstacle),
            false,
            false,
            false,
            None,
            None,
            Some(false),
            Some(Sprite { rx: 0, ry: 4, layer: BG_LAYER }),
        );
        proof {
            assert(gate_ent(w, bg + k, l.gates@[k as int]));
            assert forall|j: int| 0 <= j < nd implies door_bg_ent(
                w,
                2 + 2 * j,
                #[trigger] l.doors@[j],
            ) && goal_ent(w, 3 + 2 * j, l.doors@[j]) by {
                assert(door_bg_ent(w0, 2 + 2 * j, l.doors@[j]));
                assert(goal_ent(w0, 3 + 2 * j, l.doors@[j]));
            }
            assert forall|j: int| 0 <= j < nw implies wall_ent(
                w,
                bw + j,
                #[trigger] l.blocks@[j],
            ) by {
                assert(wall_ent(w0, bw + j, l.blocks@[j]));
            }
            assert forall|j: int| 0 <= j < np implies push_block_ent(
                w,
                bp + j,
                #[trigger] l.push_blocks@[j],
            ) by {
                assert(push_block_ent(w0, bp + j, l.push_blocks@[j]));
            }
            assert forall|j: int| 0 <= j < nb implies button_ent(
                w,
                bb + j,
                #[trigger] l.buttons@[j],
            ) by {
                assert(button_ent(w0, bb + j, l.buttons@[j]));
            }
            assert forall|j: int| 0 <= j < k + 1 implies gate_ent(
                w,
                bg + j,
                #[trigger] l.gates@[j],
            ) by {
                if j < k as int {
                    assert(gate_ent(w0, bg + j, l.gates@[j]));
                }
            }
        }
        k += 1;
    }
    let base_b = 2 + 2 * nd + nw + np;
    let base_g = base_b + nb;
    let ll = level.links.len();
    let mut k: usize = 0;
    while k < ll
        invariant
            nd == l.doors@.len(),
            nw == l.blocks@.len(),
            np == l.push_blocks@.len(),
            nb == l.buttons@.len(),
            ng == l.gates@.len(),
            bw == 2 + 2 * nd as int,
            bp == bw + nw as int,
            bb == bp + np as int,
            bg == bb + nb as int,
            base_b as int == bb,
            base_g as int == bg,
            nd <= 1_000_000,
            nw <= 1_000_000,
            np <= 1_000_000,
            nb <= 1_000_000,
            ng <= 1_000_000,
            ll == l.links@.len(),
            l == *level,
            l.wf(),
            0 <= k <= ll,
            w.wf_store(),
            w.n() == bg + ng as int,
            w.patrol@ == l.initial_stalker_path@,
            player_ent(w, l),
            stalker_ent(w, l),
            forall|j: int|
                0 <= j < nd ==> door_bg_ent(w, 2 + 2 * j, #[trigger] l.doors@[j]) && goal_ent(
                    w,
                    3 + 2 * j,
                    l.doors@[j],
                ),
            forall|j: int| 0 <= j < nw ==> wall_ent(w, bw + j, #[trigger] l.blocks@[j]),
            forall|j: int| 0 <= j < np ==> push_block_ent(w, bp + j, #[trigger] l.push_blocks@[j]),
            forall|j: int| 0 <= j < nb ==> button_ent(w, bb + j, #[trigger] l.buttons@[j]),
            forall|j: int| 0 <= j < ng ==> gate_ent(w, bg + j, #[trigger] l.gates@[j]),
            w.links@.len() == k,
            forall|j: int|
                0 <= j < k ==> #[trigger] w.links@[j] == (Link {
                    button: (bb + l.links@[j].0) as usize,
                    gate: (bg + l.links@[j].1) as usize,
                }),
        decreases ll - k,
    {
        let ghost w0 = w;
        let pair = level.links[k];
        proof {
            assert((#[trigger] l.links@[k as int]).0 < nb && l.links@[k as int].1 < ng);
        }
        w.add_link(base_b + pair.0, base_g + pair.1);
        proof {
            assert(player_ent(w, l) && stalker_ent(w, l));
            assert forall|j: int| 0 <= j < nd implies door_bg_ent(
                w,
                2 + 2 * j,
                #[trigger] l.doors@[j],
            ) && goal_ent(w, 3 + 2 * j, l.doors@[j]) by {
                assert(door_bg_ent(w0, 2 + 2 * j, l.doors@[j]));
                assert(goal_ent(w0, 3 + 2 * j, l.doors@[j]));
            }
            assert forall|j: int| 0 <= j < nw implies wall_ent(
                w,
                bw + j,
                #[trigger] l.blocks@[j],
            ) by {
                assert(wall_ent(w0, bw + j, l.blocks@[j]));
            }
            assert forall|j: int| 0 <= j < np implies push_block_ent(
                w,
                bp + j,
                #[trigger] l.push_blocks@[j],
            ) by {
                assert(push_block_ent(w0, bp + j, l.push_blocks@[j]));
            }
            assert forall|j: int| 0 <= j < nb implies button_ent(
                w,
                bb + j,
                #[trigger] l.buttons@[j],
            ) by {
                assert(button_ent(w0, bb + j, l.buttons@[j]));
            }
            assert forall|j: int| 0 <= j < ng implies gate_ent(
                w,
                bg + j,
                #[trigger] l.gates@[j],
            ) by {
                assert(gate_ent(w0, bg + j, l.gates@[j]));
            }
        }
        k += 1;
    }
    proof {
        assert(w.has_unique_player()) by {
            assert(w.is_player@[0]);
            assert(forall|j: int| 0 <= j < w.n() && w.is_player@[j] ==> j == 0) by {
                assert forall|j: int| 0 <= j < w.n() && w.is_player@[j] implies j == 0 by {
                    if 1 <= j < 2 + 2 * nd as int + nw as int + np as int + nb as int + ng as int {
                        if j == 1 {
                            assert(!w.is_player@[1]);
                        } else if j < bw {
                            let d = (j - 2) / 2;
                            if (j - 2) % 2 == 0 {
                                assert(door_bg_ent(w, 2 + 2 * d, l.doors@[d]));
                            } else {
                                assert(goal_ent(w, 3 + 2 * d, l.doors@[d]));
                            }
                        } else if j < bp {
                            assert(wall_ent(w, j, l.blocks@[j - bw]));
                        } else if j < bb {
                            assert(push_block_ent(w, j, l.push_blocks@[j - bp]));
                        } else if j < bg {
                            assert(button_ent(w, j, l.buttons@[j - bb]));
                        } else {
                            assert(gate_ent(w, j, l.gates@[j - bg]));
                        }
                    }
                }
            }
        }
    }
    w
}

} // verus!
