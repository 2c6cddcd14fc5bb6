use tilechase::geom::Vec2;
use tilechase::level::{load_levels, LevelSource};
use tilechase::spawn::spawn_level;
use tilechase::world::{Collision, ACTOR_LAYER, BG_LAYER, OBJECT_LAYER};

fn tile(x: i64, y: i64) -> Vec2 {
    Vec2 { x: x * 1000, y: y * 1000 }
}

#[test]
fn spawned_world_has_the_level_layout() {
    let src = LevelSource {
        name: "spawnme".to_string(),
        tiles: vec!["D . =".to_string(), ". P X".to_string(), "S B G".to_string()],
        path: vec![(0, 0), (2, 0)],
        links: vec![(0, 0)],
    };
    let levels = load_levels(&vec![src]).expect("level should load");
    let w = spawn_level(&levels[0]);
    // player, hazard, door background + goal, wall, pushable, button, gate.
    assert_eq!(w.num_entities(), 8);
    // Entity 0: the player at its start, on the actor layer.
    assert_eq!(w.position_of(0), Some(tile(1, 1)));
    assert!(w.sprite_of(0).map(|s| s.layer) == Some(ACTOR_LAYER));
    // Entity 1: the hazard, solid to pushes.
    assert_eq!(w.position_of(1), Some(tile(0, 0)));
    assert_eq!(w.collision_of(1), Some(Collision::BlocksPush));
    assert!(w.sprite_of(1).map(|s| s.layer) == Some(ACTOR_LAYER));
    // Entities 2 and 3: the door's background and goal at the same tile.
    assert_eq!(w.position_of(2), Some(tile(0, 2)));
    assert!(w.sprite_of(2).map(|s| s.layer) == Some(BG_LAYER));
    assert_eq!(w.position_of(3), Some(tile(0, 2)));
    assert_eq!(w.collision_of(3), Some(Collision::BlocksPush));
    assert!(w.sprite_of(3).map(|s| s.layer) == Some(OBJECT_LAYER));
    // Entity 4: the wall.
    assert_eq!(w.position_of(4), Some(tile(2, 2)));
    assert_eq!(w.collision_of(4), Some(Collision::Obstacle));
    // Entity 5: the pushable block.
    assert_eq!(w.position_of(5), Some(tile(2, 1)));
    assert_eq!(w.collision_of(5), Some(Collision::Pushable));
    // Entity 6: the button, unpressed.
    assert_eq!(w.position_of(6), Some(tile(1, 0)));
    assert_eq!(w.button_pressed_of(6), Some(false));
    // Entity 7: the closed gate.
    assert_eq!(w.position_of(7), Some(tile(2, 0)));
    assert_eq!(w.gate_open_of(7), Some(false));
    assert_eq!(w.collision_of(7), Some(Collision::Obstacle));
}
