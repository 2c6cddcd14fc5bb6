//! Buttons (pressure plates) and the gates they drive.
//!
//! Every tick a button is pressed exactly when some pushable entity or the
//! player stands exactly on its tile while idle — mid-slide occupancy does
//! not actuate it. A gate is open exactly when the logical OR of its
//! explicitly linked buttons is pressed; its collision flips between
//! `Passable` (open) and `Obstacle` (closed).

use vstd::prelude::*;

use crate::world::{Collision, World};

verus! {

/// Some pushable entity or the player stands idle exactly on the tile of
/// entity `i`.
pub open spec fn spec_button_occupied(w: World, i: int) -> bool {
    exists|j: int|
        0 <= j < w.n() && (w.is_player@[j] || w.collisions@[j] == Option::Some(
            Collision::Pushable,
        )) && w.idle(j) && w.positions@[j] is Some && w.positions@[j] == w.positions@[i]
}

/// How the button pass changes a single entity: a button's pressed state is
/// recomputed from idle occupancy of its tile, a non-button is untouched.
pub open spec fn pressed_ent(w0: World, w1: World, i: int) -> bool {
    w1.buttons@[i] == (match w0.buttons@[i] {
        Option::Some(_) => Option::Some(spec_button_occupied(w0, i)),
        Option::None => Option::None::<bool>,
    })
}

/// The full effect of the button pass: every button's pressed state is
/// recomputed from idle occupancy of its tile; everything else is untouched.
pub open spec fn buttons_rel(w0: World, w1: World) -> bool {
    &&& w1.n() == w0.n()
    &&& w1.buttons@.len() == w0.buttons@.len()
    &&& w1.positions == w0.positions
    &&& w1.motions == w0.motions
    &&& w1.collisions == w0.collisions
    &&& w1.is_player == w0.is_player
    &&& w1.is_hazard == w0.is_hazard
    &&& w1.is_goal == w0.is_goal
    &&& w1.trackers == w0.trackers
    &&& w1.gates == w0.gates
    &&& w1.sprites == w0.sprites
    &&& w1.patrol == w0.patrol
    &&& w1.links == w0.links
    &&& forall|i: int| 0 <= i < w0.n() ==> #[trigger] pressed_ent(w0, w1, i)
}

/// Entity `i`'s tile is occupied by an idle pushable or the idle player.
fn button_occupied(w: &World, i: usize) -> (r: bool)
    requires
        w.wf_store(),
        i < w.n(),
    ensures
        r == spec_button_occupied(*w, i as int),
{
    let bp = match w.positions[i] {
        Some(p) => p,
        None => {
            return false;
        },
    };
    let n = w.num_entities();
    let mut j: usize = 0;
    while j < n
        invariant
            w.wf_store(),
            n == w.n(),
            0 <= j <= n,
            w.positions@[i as int] == Option::Some(bp),
            forall|k: int|
                0 <= k < j ==> !((w.is_player@[k] || w.collisions@[k] == Option::Some(
                    Collision::Pushable,
                )) && w.idle(k) && w.positions@[k] is Some && w.positions@[k] == w.positions@[
                    i as int
                ]),
        decreases n - j,
    {
        let actor = w.is_player[j] || match w.collisions[j] {
            Some(Collision::Pushable) => true,
            _ => false,
        };
        if actor && w.is_idle(j) {
            match w.positions[j] {
                Some(q) => {
                    if q.x == bp.x && q.y == bp.y {
                        return true;
                    }
                },
                None => {},
            }
        }
        j += 1;
    }
    false
}

/// Recompute every button's pressed state from idle occupancy of its tile.
pub fn check_button_presses(w: &mut World)
    requires
        old(w).wf(),
    ensures
        final(w).wf(),
        buttons_rel(*old(w), *final(w)),
{
    let n = w.num_entities();
    let mut flags: Vec<bool> = Vec::new();
    let mut i: usize = 0;
    while i < n
        invariant
            w == old(w),
            w.wf(),
            n == w.n(),
            0 <= i <= n,
            flags@.len() == i,
            forall|j: int| 0 <= j < i ==> flags@[j] == spec_button_occupied(*old(w), j),
        decreases n - i,
    {
        let f = button_occupied(w, i);
        flags.push(f);
        i += 1;
    }
    let mut i: usize = 0;
    while i < n
        invariant
            w.wf_store(),
            n == w.n(),
            n == old(w).n(),
            0 <= i <= n,
            w.buttons@.len() == n,
            flags@.len() == n,
            w.positions == old(w).positions,
            w.motions == old(w).motions,
            w.collisions == old(w).collisions,
            w.is_player == old(w).is_player,
            w.is_hazard == old(w).is_hazard,
            w.is_goal == old(w).is_goal,
            w.trackers == old(w).trackers,
            w.gates == old(w).gates,
            w.sprites == old(w).sprites,
            w.patrol == old(w).patrol,
            w.links == old(w).links,
            forall|j: int| 0 <= j < n ==> flags@[j] == spec_button_occupied(*old(w), j),
            forall|j: int| 0 <= j < i ==> #[trigger] pressed_ent(*old(w), *w, j),
            forall|j: int| i <= j < n ==> w.buttons@[j] == old(w).buttons@[j],
        decreases n - i,
    {
        let ghost w0 = *w;
        let has_button = w.buttons[i].is_some();
        if has_button {
            let f = flags[i];
            w.set_button_pressed(i, f);
        }
        proof {
            assert forall|j: int| 0 <= j < i + 1 implies #[trigger] pressed_ent(
                *old(w),
                *w,
                j,
            ) by {
                if j < i as int {
                    assert(pressed_ent(*old(w), w0, j));
                    assert(w.buttons@[j] == w0.buttons@[j]);
                }
            }
        }
        i += 1;
    }
    proof {
        let e = old(w).player_id();
        assert(0 <= e < w.n() && w.is_player@[e] && (forall|j: int|
            0 <= j < w.n() && w.is_player@[j] ==> j == e));
    }
}

/// Some link makes gate entity `i` listen to a button that is pressed.
pub open spec fn spec_gate_open(w: World, i: int) -> bool {
    exists|k: int|
        0 <= k < w.links@.len() && (#[trigger] w.links@[k]).gate == i && w.buttons@[w.links@[
            k
        ].button as int] == Option::Some(true)
}

/// How one update of the gates changes a single entity: a gate's open state becomes
/// the OR of its linked buttons and its collision follows it; a non-gate
/// keeps its gate and collision state.
pub open spec fn gated_ent(w0: World, w1: World, i: int) -> bool {
    match w0.gates@[i] {
        Option::Some(_) => w1.gates@[i] == Option::Some(spec_gate_open(w0, i))
            && w1.collisions@[i] == Option::Some(
            if spec_gate_open(w0, i) {
                Collision::Passable
            } else {
                Collision::Obstacle
            },
        ),
        Option::None => w1.gates@[i] == w0.gates@[i] && w1.collisions@[i] == w0.collisions@[i],
    }
}

/// The full effect of one update of the gates: each one's open state is the OR of
/// its linked buttons, and its collision is `Passable` when open, `Obstacle`
/// when closed; everything else is untouched.
pub open spec fn gates_rel(w0: World, w1: World) -> bool {
    &&& w1.n() == w0.n()
    &&& w1.gates@.len() == w0.gates@.len()
    &&& w1.collisions@.len() == w0.collisions@.len()
    &&& w1.positions == w0.positions
    &&& w1.motions == w0.motions
    &&& w1.is_player == w0.is_player
    &&& w1.is_hazard == w0.is_hazard
    &&& w1.is_goal == w0.is_goal
    &&& w1.trackers == w0.trackers
    &&& w1.buttons == w0.buttons
    &&& w1.sprites == w0.sprites
    &&& w1.patrol == w0.patrol
    &&& w1.links == w0.links
    &&& forall|i: int| 0 <= i < w0.n() ==> #[trigger] gated_ent(w0, w1, i)
}

/// Gate entity `i` has a pressed linked button.
fn gate_open_now(w: &World, i: usize) -> (r: bool)
    requires
        w.wf_store(),
        i < w.n(),
    ensures
        r == spec_gate_open(*w, i as int),
{
    let m = w.links.len();
    let mut k: usize = 0;
    while k < m
        invariant
            w.wf_store(),
            m == w.links@.len(),
            0 <= k <= m,
            i < w.n(),
            forall|c: int|
                0 <= c < k ==> !((#[trigger] w.links@[c]).gate == i as int && w.buttons@[w.links@[
                    c
                ].button as int] == Option::Some(true)),
        decreases m - k,
    {
        let l = w.links[k];
        if l.gate == i {
            match w.buttons[l.button] {
                Some(true) => {
                    return true;
                },
                _ => {},
            }
        }
        k += 1;
    }
    false
}

/// Open or close every gate from its linked buttons' pressed state, setting
/// its collision accordingly.
pub fn open_and_close_gates(w: &mut World)
    requires
        old(w).wf(),
    ensures
        final(w).wf(),
        gates_rel(*old(w), *final(w)),
{
    let n = w.num_entities();
    let mut opens: Vec<bool> = Vec::new();
    let mut i: usize = 0;
    while i < n
        invariant
            w == old(w),
            w.wf(),
            n == w.n(),
            0 <= i <= n,
            opens@.len() == i,
            forall|j: int| 0 <= j < i ==> opens@[j] == spec_gate_open(*old(w), j),
        decreases n - i,
    {
        let f = gate_open_now(w, i);
        opens.push(f);
        i += 1;
    }
    let mut i: usize = 0;
    while i < n
        invariant
            w.wf_store(),
            n == w.n(),
            n == old(w).n(),
            0 <= i <= n,
            w.gates@.len() == n,
            w.collisions@.len() == n,
            opens@.len() == n,
            w.positions == old(w).positions,
            w.motions == old(w).motions,
            w.is_player == old(w).is_player,
            w.is_hazard == old(w).is_hazard,
            w.is_goal == old(w).is_goal,
            w.trackers == old(w).trackers,
            w.buttons == old(w).buttons,
            w.sprites == old(w).sprites,
            w.patrol == old(w).patrol,
            w.links == old(w).links,
            forall|j: int| 0 <= j < n ==> opens@[j] == spec_gate_open(*old(w), j),
            forall|j: int| 0 <= j < i ==> #[trigger] gated_ent(*old(w), *w, j),
            forall|j: int|
                i <= j < n ==> w.gates@[j] == old(w).gates@[j] && w.collisions@[j] == old(
                    w,
                ).collisions@[j],
        decreases n - i,
    {
        let ghost w0 = *w;
        let has_gate = w.gates[i].is_some();
        if has_gate {
            let f = opens[i];
            w.set_gate_open(i, f);
            w.set_collision(
                i,
                if f {
                    Collision::Passable
                } else {
                    Collision::Obstacle
                },
            );
        }
        proof {
            assert forall|j: int| 0 <= j < i + 1 implies #[trigger] gated_ent(
                *old(w),
                *w,
                j,
            ) by {
                if j < i as int {
                    assert(gated_ent(*old(w), w0, j));
                    assert(w.gates@[j] == w0.gates@[j]);
                    assert(w.collisions@[j] == w0.collisions@[j]);
                }
            }
        }
        i += 1;
    }
    proof {
        let e = old(w).player_id();
        assert(0 <= e < w.n() && w.is_player@[e] && (forall|j: int|
            0 <= j < w.n() && w.is_player@[j] ==> j == e));
    }
}

/// A gate tracks its buttons' occupancy across one tick's button and gate
/// passes: after `check_button_presses` (relating `w0` to `w1`) and
/// `open_and_close_gates` (relating `w1` to `w2`), a gate entity's collision
/// is `Obstacle` exactly when no linked button entity had its tile occupied
/// by an idle pushable or the idle player in `w0`, and `Passable` exactly
/// when one had.
pub proof fn lemma_gate_follows_buttons(w0: World, w1: World, w2: World, g: int)
    requires
        w0.wf(),
        buttons_rel(w0, w1),
        gates_rel(w1, w2),
        0 <= g < w0.n(),
        w0.gates@[g] is Some,
    ensures
        w2.collisions@[g] == Option::Some(Collision::Passable) <==> exists|k: int|
            0 <= k < w0.links@.len() && (#[trigger] w0.links@[k]).gate == g && w0.buttons@[w0.links@[
                k
            ].button as int] is Some && spec_button_occupied(w0, w0.links@[k].button as int),
        w2.collisions@[g] == Option::Some(Collision::Obstacle) <==> !(exists|k: int|
            0 <= k < w0.links@.len() && (#[trigger] w0.links@[k]).gate == g && w0.buttons@[w0.links@[
                k
            ].button as int] is Some && spec_button_occupied(w0, w0.links@[k].button as int)),
{
    assert(gated_ent(w1, w2, g));
    assert(w1.gates@[g] is Some) by {
        assert(pressed_ent(w0, w1, g));
    }
    if spec_gate_open(w1, g) {
        let k = choose|k: int|
            0 <= k < w1.links@.len() && (#[trigger] w1.links@[k]).gate == g && w1.buttons@[w1.links@[
                k
            ].button as int] == Option::Some(true);
        let b = w1.links@[k].button as int;
        assert(0 <= b < w0.n());
        assert(pressed_ent(w0, w1, b));
        assert(w0.buttons@[b] is Some && spec_button_occupied(w0, b));
        assert(w0.links@[k].gate == g);
    }
    if exists|k: int|
        0 <= k < w0.links@.len() && (#[trigger] w0.links@[k]).gate == g && w0.buttons@[w0.links@[
            k
        ].button as int] is Some && spec_button_occupied(w0, w0.links@[k].button as int) {
        let k = choose|k: int|
            0 <= k < w0.links@.len() && (#[trigger] w0.links@[k]).gate == g && w0.buttons@[w0.links@[
                k
            ].button as int] is Some && spec_button_occupied(w0, w0.links@[k].button as int);
        let b = w0.links@[k].button as int;
        assert(0 <= b < w0.n());
        assert(pressed_ent(w0, w1, b));
        assert(w1.buttons@[b] == Option::Some(true));
        assert(0 <= k < w1.links@.len() && w1.links@[k].gate == g && w1.buttons@[w1.links@[
            k
        ].button as int] == Option::Some(true));
        assert(spec_gate_open(w1, g));
    }
}

} // verus!
