//! The entity-component world.
//!
//! Entities are stable indices into typed parallel containers: one `Vec` per
//! component kind, all of the same length, where `Some`/`true` at index `e`
//! means entity `e` carries that component. The hazard's patrol path and the
//! button-to-gate association are level data shared by the whole world and
//! are stored once, beside the per-entity containers.

use vstd::prelude::*;

use crate::geom::{is_unit_dir, Vec2, POS_LIMIT, SPEED_LIMIT};

verus! {

/// How an entity interacts with movement into or through its tile.
///
/// `Passable` blocks nothing (an open gate); `Obstacle` blocks entry and
/// blocks pushes; `Pushable` may be displaced by a push; `BlocksPush` blocks
/// being pushed through but does not block entry (hazards stay solid to
/// pushes yet still deal contact damage).
#[derive(Clone, Copy, PartialEq, Eq, Structural, Debug)]
pub enum Collision {
    Passable,
    Obstacle,
    Pushable,
    BlocksPush,
}

/// A destination slide: the target tile position and the unit direction
/// (component-wise sign of `target - position`) the slide follows.
#[derive(Clone, Copy, PartialEq, Eq, Structural, Debug)]
pub struct Dest {
    pub target: Vec2,
    pub dir: Vec2,
}

/// Grid-destination interpolated motion: an optional destination and a speed
/// in subtile units per second. An entity is *idle* when `dest` is `None`
/// and *moving* while it is `Some`.
#[derive(Clone, Copy, PartialEq, Eq, Structural, Debug)]
pub struct Motion {
    pub dest: Option<Dest>,
    pub speed: i64,
}

/// Hazard AI state: the current patrol waypoint index (into the world's
/// patrol path) and the squared chase-proximity threshold in subtile units.
#[derive(Clone, Copy, PartialEq, Eq, Structural, Debug)]
pub struct Tracker {
    pub waypoint: usize,
    pub threshold2: i64,
}

/// What the rendering collaborator reads: an atlas tile index `(rx, ry)` and
/// a render-layer ordinal for back-to-front draw ordering.
#[derive(Clone, Copy, PartialEq, Eq, Structural, Debug)]
pub struct Sprite {
    pub rx: i64,
    pub ry: i64,
    pub layer: i64,
}

/// Background render layer (drawn first).
pub const BG_LAYER: i64 = 0;

/// Object render layer.
pub const OBJECT_LAYER: i64 = 1;

/// Actor render layer (drawn last).
pub const ACTOR_LAYER: i64 = 2;

/// One explicit button-to-gate association: the entity named by `gate`
/// listens to the button entity named by `button`.
#[derive(Clone, Copy, PartialEq, Eq, Structural, Debug)]
pub struct Link {
    pub button: usize,
    pub gate: usize,
}

/// A motion component is well formed when its speed is positive and bounded
/// and any destination has an in-limit target and a unit direction.
pub open spec fn motion_wf(m: Motion) -> bool {
    &&& 1 <= m.speed <= SPEED_LIMIT
    &&& (m.dest matches Option::Some(d) ==> d.target.in_limit() && is_unit_dir(d.dir))
}

/// The entity-component world: typed parallel containers keyed by a stable
/// entity index, plus the level-shared patrol path and button-gate links.
pub struct World {
    pub positions: Vec<Option<Vec2>>,
    pub motions: Vec<Option<Motion>>,
    pub collisions: Vec<Option<Collision>>,
    pub is_player: Vec<bool>,
    pub is_hazard: Vec<bool>,
    pub is_goal: Vec<bool>,
    pub trackers: Vec<Option<Tracker>>,
    pub buttons: Vec<Option<bool>>,
    pub gates: Vec<Option<bool>>,
    pub sprites: Vec<Option<Sprite>>,
    pub patrol: Vec<Vec2>,
    pub links: Vec<Link>,
}

impl World {
    /// Number of entities.
    pub open spec fn n(self) -> int {
        self.positions@.len() as int
    }

    /// Per-entity well-formedness: positions are in limit, motions are well
    /// formed, and every component that a system dereferences through
    /// another (player, pushable, tracker, button, gate) sits on an entity
    /// that also carries what the system needs.
    pub open spec fn ent_wf(self, i: int) -> bool {
        &&& (self.positions@[i] matches Option::Some(p) ==> p.in_limit())
        &&& (self.motions@[i] matches Option::Some(m) ==> motion_wf(m))
        &&& (self.is_player@[i] ==> self.positions@[i] is Some && self.motions@[i] is Some)
        &&& (self.collisions@[i] == Option::Some(Collision::Pushable) ==> self.positions@[i]
            is Some && self.motions@[i] is Some)
        &&& (self.trackers@[i] matches Option::Some(t) ==> self.positions@[i] is Some
            && self.motions@[i] is Some && t.waypoint < self.patrol@.len() && 0 <= t.threshold2)
        &&& (self.buttons@[i] is Some ==> self.positions@[i] is Some)
        &&& (self.gates@[i] is Some ==> self.positions@[i] is Some)
    }

    /// Structural well-formedness of the store: all containers have the same
    /// length, every entity is well formed, the patrol path is in limit and
    /// every link names existing entities.
    pub open spec fn wf_store(self) -> bool {
        &&& self.motions@.len() == self.n()
        &&& self.collisions@.len() == self.n()
        &&& self.is_player@.len() == self.n()
        &&& self.is_hazard@.len() == self.n()
        &&& self.is_goal@.len() == self.n()
        &&& self.trackers@.len() == self.n()
        &&& self.buttons@.len() == self.n()
        &&& self.gates@.len() == self.n()
        &&& self.sprites@.len() == self.n()
        &&& (forall|i: int| 0 <= i < self.n() ==> self.ent_wf(i))
        &&& (forall|i: int| 0 <= i < self.patrol@.len() ==> (#[trigger] self.patrol@[i]).in_limit())
        &&& (forall|i: int|
            0 <= i < self.links@.len() ==> (#[trigger] self.links@[i]).button < self.n()
                && self.links@[i].gate < self.n())
    }

    /// Exactly one entity carries the player marker.
    pub open spec fn has_unique_player(self) -> bool {
        exists|e: int|
            0 <= e < self.n() && self.is_player@[e] && (forall|j: int|
                0 <= j < self.n() && self.is_player@[j] ==> j == e)
    }

    /// The player entity (meaningful under `has_unique_player`).
    pub open spec fn player_id(self) -> int {
        choose|e: int|
            0 <= e < self.n() && self.is_player@[e] && (forall|j: int|
                0 <= j < self.n() && self.is_player@[j] ==> j == e)
    }

    /// A world a tick can run on: a well-formed store with a unique player.
    pub open spec fn wf(self) -> bool {
        self.wf_store() && self.has_unique_player()
    }

    /// Entity `i` is idle: it has no destination slide in progress. An
    /// entity without a motion component never moves and counts as idle.
    pub open spec fn idle(self, i: int) -> bool {
        match self.motions@[i] {
            Option::Some(m) => m.dest is None,
            Option::None => true,
        }
    }

    /// Entity `i` stands exactly on position `t`.
    pub open spec fn occupies(self, i: int, t: Vec2) -> bool {
        self.positions@[i] == Option::Some(t)
    }

    /// An empty world.
    pub fn new() -> (r: World)
        ensures
            r.n() == 0,
            r.patrol@.len() == 0,
            r.links@.len() == 0,
            r.wf_store(),
    {
        World {
            positions: Vec::new(),
            motions: Vec::new(),
            collisions: Vec::new(),
            is_player: Vec::new(),
            is_hazard: Vec::new(),
            is_goal: Vec::new(),
            trackers: Vec::new(),
            buttons: Vec::new(),
            gates: Vec::new(),
            sprites: Vec::new(),
            patrol: Vec::new(),
            links: Vec::new(),
        }
    }

    /// Number of entities.
    pub fn num_entities(&self) -> (r: usize)
        ensures
            r == self.n(),
    {
        self.positions.len()
    }

    /// Create a fresh entity with no components and return its id.
    pub fn create(&mut self) -> (r: usize)
        requires
            old(self).wf_store(),
        ensures
            r == old(self).n(),
            final(self).n() == old(self).n() + 1,
            final(self).positions@ == old(self).positions@.push(Option::None),
            final(self).motions@ == old(self).motions@.push(Option::None),
            final(self).collisions@ == old(self).collisions@.push(Option::None),
            final(self).is_player@ == old(self).is_player@.push(false),
            final(self).is_hazard@ == old(self).is_hazard@.push(false),
            final(self).is_goal@ == old(self).is_goal@.push(false),
            final(self).trackers@ == old(self).trackers@.push(Option::None),
            final(self).buttons@ == old(self).buttons@.push(Option::None),
            final(self).gates@ == old(self).gates@.push(Option::None),
            final(self).sprites@ == old(self).sprites@.push(Option::None),
            final(self).patrol == old(self).patrol,
            final(self).links == old(self).links,
            final(self).wf_store(),
    {
        let id = self.positions.len();
        self.positions.push(None);
        self.motions.push(None);
        self.collisions.push(None);
        self.is_player.push(false);
        self.is_hazard.push(false);
        self.is_goal.push(false);
        self.trackers.push(None);
        self.buttons.push(None);
        self.gates.push(None);
        self.sprites.push(None);
        proof {
            assert forall|i: int| 0 <= i < self.n() implies self.ent_wf(i) by {
                if i < old(self).n() {
                    assert(old(self).ent_wf(i));
                }
            }
        }
        id
    }

    /// Attach (or replace) a position component.
    pub fn set_position(&mut self, e: usize, p: Vec2)
        requires
            old(self).wf_store(),
            e < old(self).n(),
            p.in_limit(),
        ensures
            final(self).positions@ == old(self).positions@.update(e as int, Option::Some(p)),
            final(self).motions == old(self).motions,
            final(self).collisions == old(self).collisions,
            final(self).is_player == old(self).is_player,
            final(self).is_hazard == old(self).is_hazard,
            final(self).is_goal == old(self).is_goal,
            final(self).trackers == old(self).trackers,
            final(self).buttons == old(self).buttons,
            final(self).gates == old(self).gates,
            final(self).sprites == old(self).sprites,
            final(self).patrol == old(self).patrol,
            final(self).links == old(self).links,
            final(self).wf_store(),
    {
        self.positions.set(e, Some(p));
        proof {
            assert forall|i: int| 0 <= i < self.n() implies self.ent_wf(i) by {
                if i < old(self).n() {
                    assert(old(self).ent_wf(i));
                }
            }
        }
    }

    /// Attach an idle motion component with the given speed.
    pub fn set_motion(&mut self, e: usize, speed: i64)
        requires
            old(self).wf_store(),
            e < old(self).n(),
            1 <= speed <= SPEED_LIMIT,
        ensures
            final(self).motions@ == old(self).motions@.update(
                e as int,
                Option::Some(Motion { dest: Option::None, speed }),
            ),
            final(self).positions == old(self).positions,
            final(self).collisions == old(self).collisions,
            final(self).is_player == old(self).is_player,
            final(self).is_hazard == old(self).is_hazard,
            final(self).is_goal == old(self).is_goal,
            final(self).trackers == old(self).trackers,
            final(self).buttons == old(self).buttons,
            final(self).gates == old(self).gates,
            final(self).sprites == old(self).sprites,
            final(self).patrol == old(self).patrol,
            final(self).links == old(self).links,
            final(self).wf_store(),
    {
        self.motions.set(e, Some(Motion { dest: None, speed }));
        proof {
            assert forall|i: int| 0 <= i < self.n() implies self.ent_wf(i) by {
                if i < old(self).n() {
                    assert(old(self).ent_wf(i));
                }
            }
        }
    }

    /// Attach a collision component. A pushable entity must already carry a
    /// position and a motion, since a push displaces it.
    pub fn set_collision(&mut self, e: usize, c: Collision)
        requires
            old(self).wf_store(),
            e < old(self).n(),
            c == Collision::Pushable ==> old(self).positions@[e as int] is Some && old(
                self,
            ).motions@[e as int] is Some,
        ensures
            final(self).collisions@ == old(self).collisions@.update(e as int, Option::Some(c)),
            final(self).positions == old(self).positions,
            final(self).motions == old(self).motions,
            final(self).is_player == old(self).is_player,
            final(self).is_hazard == old(self).is_hazard,
            final(self).is_goal == old(self).is_goal,
            final(self).trackers == old(self).trackers,
            final(self).buttons == old(self).buttons,
            final(self).gates == old(self).gates,
            final(self).sprites == old(self).sprites,
            final(self).patrol == old(self).patrol,
            final(self).links == old(self).links,
            final(self).wf_store(),
    {
        self.collisions.set(e, Some(c));
        proof {
            assert forall|i: int| 0 <= i < self.n() implies self.ent_wf(i) by {
                if i < old(self).n() {
                    assert(old(self).ent_wf(i));
                }
            }
        }
    }

    /// Mark an entity as the player. It must already carry a position and a
    /// motion, since input slides it around.
    pub fn set_player(&mut self, e: usize)
        requires
            old(self).wf_store(),
            e < old(self).n(),
            old(self).positions@[e as int] is Some,
            old(self).motions@[e as int] is Some,
        ensures
            final(self).is_player@ == old(self).is_player@.update(e as int, true),
            final(self).positions == old(self).positions,
            final(self).motions == old(self).motions,
            final(self).collisions == old(self).collisions,
            final(self).is_hazard == old(self).is_hazard,
            final(self).is_goal == old(self).is_goal,
            final(self).trackers == old(self).trackers,
            final(self).buttons == old(self).buttons,
            final(self).gates == old(self).gates,
            final(self).sprites == old(self).sprites,
            final(self).patrol == old(self).patrol,
            final(self).links == old(self).links,
            final(self).wf_store(),
    {
        self.is_player.set(e, true);
        proof {
            assert forall|i: int| 0 <= i < self.n() implies self.ent_wf(i) by {
                if i < old(self).n() {
                    assert(old(self).ent_wf(i));
                }
            }
        }
    }

    /// Mark an entity as a hazard: contact with the player is a loss.
    pub fn set_hazard(&mut self, e: usize)
        requires
            old(self).wf_store(),
            e < old(self).n(),
        ensures
            final(self).is_hazard@ == old(self).is_hazard@.update(e as int, true),
            final(self).positions == old(self).positions,
            final(self).motions == old(self).motions,
            final(self).collisions == old(self).collisions,
            final(self).is_player == old(self).is_player,
            final(self).is_goal == old(self).is_goal,
            final(self).trackers == old(self).trackers,
            final(self).buttons == old(self).buttons,
            final(self).gates == old(self).gates,
            final(self).sprites == old(self).sprites,
            final(self).patrol == old(self).patrol,
            final(self).links == old(self).links,
            final(self).wf_store(),
    {
        self.is_hazard.set(e, true);
        proof {
            assert forall|i: int| 0 <= i < self.n() implies self.ent_wf(i) by {
                if i < old(self).n() {
                    assert(old(self).ent_wf(i));
                }
            }
        }
    }

    /// Mark an entity as a goal: contact with the player is a win.
    pub fn set_goal(&mut self, e: usize)
        requires
            old(self).wf_store(),
            e < old(self).n(),
        ensures
            final(self).is_goal@ == old(self).is_goal@.update(e as int, true),
            final(self).positions == old(self).positions,
            final(self).motions == old(self).motions,
            final(self).collisions == old(self).collisions,
            final(self).is_player == old(self).is_player,
            final(self).is_hazard == old(self).is_hazard,
            final(self).trackers == old(self).trackers,
            final(self).buttons == old(self).buttons,
            final(self).gates == old(self).gates,
            final(self).sprites == old(self).sprites,
            final(self).patrol == old(self).patrol,
            final(self).links == old(self).links,
            final(self).wf_store(),
    {
        self.is_goal.set(e, true);
        proof {
            assert forall|i: int| 0 <= i < self.n() implies self.ent_wf(i) by {
                if i < old(self).n() {
                    assert(old(self).ent_wf(i));
                }
            }
        }
    }

    /// Attach a sprite component.
    pub fn set_sprite(&mut self, e: usize, s: Sprite)
        requires
            old(self).wf_store(),
            e < old(self).n(),
        ensures
            final(self).sprites@ == old(self).sprites@.update(e as int, Option::Some(s)),
            final(self).positions == old(self).positions,
            final(self).motions == old(self).motions,
            final(self).collisions == old(self).collisions,
            final(self).is_player == old(self).is_player,
            final(self).is_hazard == old(self).is_hazard,
            final(self).is_goal == old(self).is_goal,
            final(self).trackers == old(self).trackers,
            final(self).buttons == old(self).buttons,
            final(self).gates == old(self).gates,
            final(self).patrol == old(self).patrol,
            final(self).links == old(self).links,
            final(self).wf_store(),
    {
        self.sprites.set(e, Some(s));
        proof {
            assert forall|i: int| 0 <= i < self.n() implies self.ent_wf(i) by {
                if i < old(self).n() {
                    assert(old(self).ent_wf(i));
                }
            }
        }
    }

    /// Set the world's patrol path. Must be done before any tracker is
    /// attached, since a tracker's waypoint index points into the path.
    pub fn set_patrol(&mut self, path: Vec<Vec2>)
        requires
            old(self).wf_store(),
            forall|i: int| 0 <= i < path@.len() ==> (#[trigger] path@[i]).in_limit(),
            forall|i: int| 0 <= i < old(self).n() ==> old(self).trackers@[i] is None,
        ensures
            final(self).patrol == path,
            final(self).positions == old(self).positions,
            final(self).motions == old(self).motions,
            final(self).collisions == old(self).collisions,
            final(self).is_player == old(self).is_player,
            final(self).is_hazard == old(self).is_hazard,
            final(self).is_goal == old(self).is_goal,
            final(self).trackers == old(self).trackers,
            final(self).buttons == old(self).buttons,
            final(self).gates == old(self).gates,
            final(self).sprites == old(self).sprites,
            final(self).links == old(self).links,
            final(self).wf_store(),
    {
        self.patrol = path;
        proof {
            assert forall|i: int| 0 <= i < self.n() implies self.ent_wf(i) by {
                if i < old(self).n() {
                    assert(old(self).ent_wf(i));
                }
            }
        }
    }

    /// Attach a tracker with the given squared proximity threshold, starting
    /// at the first patrol waypoint.
    pub fn set_tracker(&mut self, e: usize, threshold2: i64)
        requires
            old(self).wf_store(),
            e < old(self).n(),
            0 <= threshold2,
            old(self).positions@[e as int] is Some,
            old(self).motions@[e as int] is Some,
            old(self).patrol@.len() >= 1,
        ensures
            final(self).trackers@ == old(self).trackers@.update(
                e as int,
                Option::Some(Tracker { waypoint: 0, threshold2 }),
            ),
            final(self).positions == old(self).positions,
            final(self).motions == old(self).motions,
            final(self).collisions == old(self).collisions,
            final(self).is_player == old(self).is_player,
            final(self).is_hazard == old(self).is_hazard,
            final(self).is_goal == old(self).is_goal,
            final(self).buttons == old(self).buttons,
            final(self).gates == old(self).gates,
            final(self).sprites == old(self).sprites,
            final(self).patrol == old(self).patrol,
            final(self).links == old(self).links,
            final(self).wf_store(),
    {
        self.trackers.set(e, Some(Tracker { waypoint: 0, threshold2 }));
        proof {
            assert forall|i: int| 0 <= i < self.n() implies self.ent_wf(i) by {
                if i < old(self).n() {
                    assert(old(self).ent_wf(i));
                }
            }
        }
    }

    /// Attach a button component (a pressure plate), initially unpressed.
    pub fn set_button(&mut self, e: usize)
        requires
            old(self).wf_store(),
            e < old(self).n(),
            old(self).positions@[e as int] is Some,
        ensures
            final(self).buttons@ == old(self).buttons@.update(e as int, Option::Some(false)),
            final(self).positions == old(self).positions,
            final(self).motions == old(self).motions,
            final(self).collisions == old(self).collisions,
            final(self).is_player == old(self).is_player,
            final(self).is_hazard == old(self).is_hazard,
            final(self).is_goal == old(self).is_goal,
            final(self).trackers == old(self).trackers,
            final(self).gates == old(self).gates,
            final(self).sprites == old(self).sprites,
            final(self).patrol == old(self).patrol,
            final(self).links == old(self).links,
            final(self).wf_store(),
    {
        self.buttons.set(e, Some(false));
        proof {
            assert forall|i: int| 0 <= i < self.n() implies self.ent_wf(i) by {
                if i < old(self).n() {
                    assert(old(self).ent_wf(i));
                }
            }
        }
    }

    /// Attach a gate component, initially closed.
    pub fn set_gate(&mut self, e: usize)
        requires
            old(self).wf_store(),
            e < old(self).n(),
            old(self).positions@[e as int] is Some,
        ensures
            final(self).gates@ == old(self).gates@.update(e as int, Option::Some(false)),
            final(self).positions == old(self).positions,
            final(self).motions == old(self).motions,
            final(self).collisions == old(self).collisions,
            final(self).is_player == old(self).is_player,
            final(self).is_hazard == old(self).is_hazard,
            final(self).is_goal == old(self).is_goal,
            final(self).trackers == old(self).trackers,
            final(self).buttons == old(self).buttons,
            final(self).sprites == old(self).sprites,
            final(self).patrol == old(self).patrol,
            final(self).links == old(self).links,
            final(self).wf_store(),
    {
        self.gates.set(e, Some(false));
        proof {
            assert forall|i: int| 0 <= i < self.n() implies self.ent_wf(i) by {
                if i < old(self).n() {
                    assert(old(self).ent_wf(i));
                }
            }
        }
    }

    /// Record that gate entity `gate` listens to button entity `button`.
    pub fn add_link(&mut self, button: usize, gate: usize)
        requires
            old(self).wf_store(),
            button < old(self).n(),
            gate < old(self).n(),
        ensures
            final(self).links@ == old(self).links@.push(Link { button, gate }),
            final(self).positions == old(self).positions,
            final(self).motions == old(self).motions,
            final(self).collisions == old(self).collisions,
            final(self).is_player == old(self).is_player,
            final(self).is_hazard == old(self).is_hazard,
            final(self).is_goal == old(self).is_goal,
            final(self).trackers == old(self).trackers,
            final(self).buttons == old(self).buttons,
            final(self).gates == old(self).gates,
            final(self).sprites == old(self).sprites,
            final(self).patrol == old(self).patrol,
            final(self).wf_store(),
    {
        self.links.push(Link { button, gate });
        proof {
            assert forall|i: int| 0 <= i < self.n() implies self.ent_wf(i) by {
                if i < old(self).n() {
                    assert(old(self).ent_wf(i));
                }
            }
        }
    }

    /// Replace an entity's whole motion component.
    pub fn set_motion_full(&mut self, e: usize, m: Motion)
        requires
            old(self).wf_store(),
            e < old(self).n(),
            motion_wf(m),
        ensures
            final(self).motions@ == old(self).motions@.update(e as int, Option::Some(m)),
            final(self).positions == old(self).positions,
            final(self).collisions == old(self).collisions,
            final(self).is_player == old(self).is_player,
            final(self).is_hazard == old(self).is_hazard,
            final(self).is_goal == old(self).is_goal,
            final(self).trackers == old(self).trackers,
            final(self).buttons == old(self).buttons,
            final(self).gates == old(self).gates,
            final(self).sprites == old(self).sprites,
            final(self).patrol == old(self).patrol,
            final(self).links == old(self).links,
            final(self).wf_store(),
    {
        self.motions.set(e, Some(m));
        proof {
            assert forall|i: int| 0 <= i < self.n() implies self.ent_wf(i) by {
                if i < old(self).n() {
                    assert(old(self).ent_wf(i));
                }
            }
        }
    }

    /// Replace an entity's tracker state.
    pub fn set_tracker_state(&mut self, e: usize, t: Tracker)
        requires
            old(self).wf_store(),
            e < old(self).n(),
            old(self).trackers@[e as int] is Some,
            t.waypoint < old(self).patrol@.len(),
            0 <= t.threshold2,
        ensures
            final(self).trackers@ == old(self).trackers@.update(e as int, Option::Some(t)),
            final(self).positions == old(self).positions,
            final(self).motions == old(self).motions,
            final(self).collisions == old(self).collisions,
            final(self).is_player == old(self).is_player,
            final(self).is_hazard == old(self).is_hazard,
            final(self).is_goal == old(self).is_goal,
            final(self).buttons == old(self).buttons,
            final(self).gates == old(self).gates,
            final(self).sprites == old(self).sprites,
            final(self).patrol == old(self).patrol,
            final(self).links == old(self).links,
            final(self).wf_store(),
    {
        self.trackers.set(e, Some(t));
        proof {
            assert forall|i: int| 0 <= i < self.n() implies self.ent_wf(i) by {
                if i < old(self).n() {
                    assert(old(self).ent_wf(i));
                }
            }
        }
    }

    /// Set the pressed state of an entity's button.
    pub fn set_button_pressed(&mut self, e: usize, pressed: bool)
        requires
            old(self).wf_store(),
            e < old(self).n(),
            old(self).buttons@[e as int] is Some,
        ensures
            final(self).buttons@ == old(self).buttons@.update(e as int, Option::Some(pressed)),
            final(self).positions == old(self).positions,
            final(self).motions == old(self).motions,
            final(self).collisions == old(self).collisions,
            final(self).is_player == old(self).is_player,
            final(self).is_hazard == old(self).is_hazard,
            final(self).is_goal == old(self).is_goal,
            final(self).trackers == old(self).trackers,
            final(self).gates == old(self).gates,
            final(self).sprites == old(self).sprites,
            final(self).patrol == old(self).patrol,
            final(self).links == old(self).links,
            final(self).wf_store(),
    {
        self.buttons.set(e, Some(pressed));
        proof {
            assert forall|i: int| 0 <= i < self.n() implies self.ent_wf(i) by {
                if i < old(self).n() {
                    assert(old(self).ent_wf(i));
                }
            }
        }
    }

    /// Set the open state of an entity's gate.
    pub fn set_gate_open(&mut self, e: usize, open: bool)
        requires
            old(self).wf_store(),
            e < old(self).n(),
            old(self).gates@[e as int] is Some,
        ensures
            final(self).gates@ == old(self).gates@.update(e as int, Option::Some(open)),
            final(self).positions == old(self).positions,
            final(self).motions == old(self).motions,
            final(self).collisions == old(self).collisions,
            final(self).is_player == old(self).is_player,
            final(self).is_hazard == old(self).is_hazard,
            final(self).is_goal == old(self).is_goal,
            final(self).trackers == old(self).trackers,
            final(self).buttons == old(self).buttons,
            final(self).sprites == old(self).sprites,
            final(self).patrol == old(self).patrol,
            final(self).links == old(self).links,
            final(self).wf_store(),
    {
        self.gates.set(e, Some(open));
        proof {
            assert forall|i: int| 0 <= i < self.n() implies self.ent_wf(i) by {
                if i < old(self).n() {
                    assert(old(self).ent_wf(i));
                }
            }
        }
    }

    /// The current position of an entity, if it has one.
    pub fn position_of(&self, e: usize) -> (r: Option<Vec2>)
        requires
            e < self.n(),
        ensures
            r == self.positions@[e as int],
    {
        self.positions[e]
    }

    /// The sprite of an entity, if it has one.
    pub fn sprite_of(&self, e: usize) -> (r: Option<Sprite>)
        requires
            self.wf_store(),
            e < self.n(),
        ensures
            r == self.sprites@[e as int],
    {
        self.sprites[e]
    }

    /// The motion component of an entity, if it has one.
    pub fn motion_of(&self, e: usize) -> (r: Option<Motion>)
        requires
            self.wf_store(),
            e < self.n(),
        ensures
            r == self.motions@[e as int],
    {
        self.motions[e]
    }

    /// The collision component of an entity, if it has one.
    pub fn collision_of(&self, e: usize) -> (r: Option<Collision>)
        requires
            self.wf_store(),
            e < self.n(),
        ensures
            r == self.collisions@[e as int],
    {
        self.collisions[e]
    }

    /// The pressed state of an entity's button, if it has one.
    pub fn button_pressed_of(&self, e: usize) -> (r: Option<bool>)
        requires
            self.wf_store(),
            e < self.n(),
        ensures
            r == self.buttons@[e as int],
    {
        self.buttons[e]
    }

    /// The open state of an entity's gate, if it has one.
    pub fn gate_open_of(&self, e: usize) -> (r: Option<bool>)
        requires
            self.wf_store(),
            e < self.n(),
        ensures
            r == self.gates@[e as int],
    {
        self.gates[e]
    }

    /// Whether an entity is idle (no destination slide in progress).
    pub fn is_idle(&self, e: usize) -> (r: bool)
        requires
            self.wf_store(),
            e < self.n(),
        ensures
            r == self.idle(e as int),
    {
        match self.motions[e] {
            Some(m) => m.dest.is_none(),
            None => true,
        }
    }

    /// The id of the unique player entity.
    pub fn find_player(&self) -> (r: usize)
        requires
            self.wf(),
        ensures
            r == self.player_id(),
    {
        let n = self.positions.len();
        let mut i: usize = 0;
        while i < n
            invariant
                self.wf(),
                n == self.n(),
                0 <= i <= n,
                forall|j: int| 0 <= j < i ==> !self.is_player@[j],
            decreases n - i,
        {
            if self.is_player[i] {
                proof {
                    let e = self.player_id();
                    assert(0 <= e < self.n() && self.is_player@[e] && (forall|j: int|
                        0 <= j < self.n() && self.is_player@[j] ==> j == e));
                }
                return i;
            }
            i += 1;
        }
        proof {
            let e = self.player_id();
            assert(0 <= e < self.n() && self.is_player@[e] && (forall|j: int|
                0 <= j < self.n() && self.is_player@[j] ==> j == e));
        }
        vstd::pervasive::unreached()
    }
}

} // verus!
