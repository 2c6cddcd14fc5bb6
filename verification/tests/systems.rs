use tilechase::buttons::{check_button_presses, open_and_close_gates};
use tilechase::geom::Vec2;
use tilechase::motion::move_towards_destinations;
use tilechase::push::{player_controls, Dir};
use tilechase::tick::{advance_tick, LevelExit};
use tilechase::tracker::track_player;
use tilechase::victory::{determine_gameover_from_hazard, determine_victory_from_goal};
use tilechase::world::{Collision, Dest, Motion, World};

fn sub(x: i64, y: i64) -> Vec2 {
    Vec2 { x, y }
}

/// A world with just a player at `p` moving at 4 tiles/s.
fn world_with_player(p: Vec2) -> (World, usize) {
    let mut w = World::new();
    let e = w.create();
    w.set_position(e, p);
    w.set_motion(e, 4000);
    w.set_player(e);
    (w, e)
}

#[test]
fn motion_snaps_to_target_without_overshoot() {
    let (mut w, e) = world_with_player(sub(1000, 5000));
    w.set_motion_full(
        e,
        Motion { dest: Some(Dest { target: sub(5000, 5000), dir: sub(1, 0) }), speed: 4000 },
    );
    // speed * dt = 4 tiles while 4 tiles remain: snap exactly, become idle.
    move_towards_destinations(&mut w, 1000);
    assert_eq!(w.position_of(e), Some(sub(5000, 5000)));
    assert!(w.is_idle(e));
}

#[test]
fn motion_advances_partially_while_far() {
    let (mut w, e) = world_with_player(sub(1000, 5000));
    w.set_motion_full(
        e,
        Motion { dest: Some(Dest { target: sub(5000, 5000), dir: sub(1, 0) }), speed: 4000 },
    );
    // 250 ms at 4 tiles/s covers exactly one tile; still moving after.
    move_towards_destinations(&mut w, 250);
    assert_eq!(w.position_of(e), Some(sub(2000, 5000)));
    assert!(!w.is_idle(e));
}

#[test]
fn push_chain_into_empty_space_moves_both() {
    let (mut w, p) = world_with_player(sub(0, 0));
    let b = w.create();
    w.set_position(b, sub(1000, 0));
    w.set_motion(b, 4000);
    w.set_collision(b, Collision::Pushable);
    player_controls(&mut w, Some(Dir::Right));
    assert!(!w.is_idle(p));
    assert!(!w.is_idle(b));
    move_towards_destinations(&mut w, 1000);
    assert_eq!(w.position_of(p), Some(sub(1000, 0)));
    assert_eq!(w.position_of(b), Some(sub(2000, 0)));
}

#[test]
fn push_chain_into_obstacle_is_refused() {
    let (mut w, p) = world_with_player(sub(0, 0));
    let b = w.create();
    w.set_position(b, sub(1000, 0));
    w.set_motion(b, 4000);
    w.set_collision(b, Collision::Pushable);
    let o = w.create();
    w.set_position(o, sub(2000, 0));
    w.set_collision(o, Collision::Obstacle);
    player_controls(&mut w, Some(Dir::Right));
    // The whole push, including the player's own move, is refused.
    assert!(w.is_idle(p));
    assert!(w.is_idle(b));
    assert_eq!(w.position_of(p), Some(sub(0, 0)));
    assert_eq!(w.position_of(b), Some(sub(1000, 0)));
}

#[test]
fn move_into_blocks_push_entity_is_refused() {
    let (mut w, p) = world_with_player(sub(0, 0));
    let h = w.create();
    w.set_position(h, sub(1000, 0));
    w.set_collision(h, Collision::BlocksPush);
    player_controls(&mut w, Some(Dir::Right));
    assert!(w.is_idle(p));
    assert_eq!(w.position_of(p), Some(sub(0, 0)));
}

/// A world with a player and a tracker-carrying hazard.
fn tracker_world(player_at: Vec2, hazard_at: Vec2, threshold2: i64, patrol: Vec<Vec2>) -> (
    World,
    usize,
    usize,
) {
    let (mut w, p) = world_with_player(player_at);
    let h = w.create();
    w.set_position(h, hazard_at);
    w.set_motion(h, 4000);
    w.set_patrol(patrol);
    w.set_tracker(h, threshold2);
    (w, p, h)
}

#[test]
fn tracker_patrols_while_player_is_far() {
    // Threshold 0.25 tiles (250 subtiles, squared); player 10 tiles away.
    let (mut w, _p, h) = tracker_world(
        sub(10_000, 0),
        sub(0, 0),
        250 * 250,
        vec![sub(3000, 3000)],
    );
    track_player(&mut w);
    match w.motion_of(h) {
        Some(m) => match m.dest {
            Some(d) => assert_eq!(d.target, sub(3000, 3000)),
            None => panic!("hazard should have a destination"),
        },
        None => panic!("hazard should have a motion"),
    }
}

#[test]
fn tracker_chases_once_player_is_within_threshold() {
    // Player 0.2 tiles away, threshold 0.25 tiles: chase the player.
    let (mut w, _p, h) = tracker_world(sub(200, 0), sub(0, 0), 250 * 250, vec![sub(3000, 3000)]);
    track_player(&mut w);
    match w.motion_of(h) {
        Some(m) => match m.dest {
            Some(d) => assert_eq!(d.target, sub(200, 0)),
            None => panic!("hazard should have a destination"),
        },
        None => panic!("hazard should have a motion"),
    }
}

#[test]
fn tracker_advances_waypoint_on_arrival() {
    // The hazard stands on waypoint 0: it advances to waypoint 1.
    let (mut w, _p, h) = tracker_world(
        sub(10_000, 0),
        sub(0, 0),
        250 * 250,
        vec![sub(0, 0), sub(2000, 0)],
    );
    track_player(&mut w);
    match w.motion_of(h) {
        Some(m) => match m.dest {
            Some(d) => assert_eq!(d.target, sub(2000, 0)),
            None => panic!("hazard should have a destination"),
        },
        None => panic!("hazard should have a motion"),
    }
}

/// A world with a player far away, a button, a linked gate, and a pushable.
fn button_gate_world() -> (World, usize, usize, usize) {
    let (mut w, _p) = world_with_player(sub(9000, 9000));
    let bt = w.create();
    w.set_position(bt, sub(1000, 0));
    w.set_button(bt);
    let gt = w.create();
    w.set_position(gt, sub(2000, 0));
    w.set_collision(gt, Collision::Obstacle);
    w.set_gate(gt);
    w.add_link(bt, gt);
    let pb = w.create();
    w.set_position(pb, sub(0, 0));
    w.set_motion(pb, 4000);
    w.set_collision(pb, Collision::Pushable);
    (w, bt, gt, pb)
}

#[test]
fn gate_opens_when_pushable_rests_on_button_and_closes_when_it_leaves() {
    let (mut w, _bt, gt, pb) = button_gate_world();
    // Nothing rests on the button: the collision remains Obstacle.
    check_button_presses(&mut w);
    open_and_close_gates(&mut w);
    assert_eq!(w.collision_of(gt), Some(Collision::Obstacle));
    // The pushable rests exactly on the button's tile: collision becomes Passable.
    w.set_position(pb, sub(1000, 0));
    check_button_presses(&mut w);
    open_and_close_gates(&mut w);
    assert_eq!(w.collision_of(gt), Some(Collision::Passable));
    // The pushable leaves: collision goes back to Obstacle.
    w.set_position(pb, sub(0, 0));
    check_button_presses(&mut w);
    open_and_close_gates(&mut w);
    assert_eq!(w.collision_of(gt), Some(Collision::Obstacle));
}

#[test]
fn sliding_occupancy_does_not_press_a_button() {
    let (mut w, bt, gt, pb) = button_gate_world();
    w.set_position(pb, sub(1000, 0));
    w.set_motion_full(
        pb,
        Motion { dest: Some(Dest { target: sub(3000, 0), dir: sub(1, 0) }), speed: 4000 },
    );
    check_button_presses(&mut w);
    open_and_close_gates(&mut w);
    let _ = bt;
    assert_eq!(w.collision_of(gt), Some(Collision::Obstacle));
}

#[test]
fn victory_and_gameover_follow_exact_contact() {
    let (mut w, _p) = world_with_player(sub(1000, 1000));
    let g = w.create();
    w.set_position(g, sub(1000, 1000));
    w.set_goal(g);
    let h = w.create();
    w.set_position(h, sub(4000, 0));
    w.set_hazard(h);
    // On the goal, not on the hazard.
    assert!(determine_victory_from_goal(&w));
    assert!(!determine_gameover_from_hazard(&w));
    // On the hazard, not on the goal.
    w.set_position(0, sub(4000, 0));
    assert!(!determine_victory_from_goal(&w));
    assert!(determine_gameover_from_hazard(&w));
    // On neither.
    w.set_position(0, sub(0, 0));
    assert!(!determine_victory_from_goal(&w));
    assert!(!determine_gameover_from_hazard(&w));
}

#[test]
fn a_tick_onto_a_goal_reports_victory() {
    let (mut w, _p) = world_with_player(sub(0, 0));
    let g = w.create();
    w.set_position(g, sub(1000, 0));
    w.set_goal(g);
    let exit = advance_tick(&mut w, 1000, Some(Dir::Right));
    assert_eq!(exit, LevelExit::Victory);
    assert_eq!(w.position_of(0), Some(sub(1000, 0)));
}

#[test]
fn a_tick_without_contact_continues() {
    let (mut w, _p) = world_with_player(sub(0, 0));
    let g = w.create();
    w.set_position(g, sub(5000, 0));
    w.set_goal(g);
    let exit = advance_tick(&mut w, 100, None);
    assert_eq!(exit, LevelExit::Continue);
}
