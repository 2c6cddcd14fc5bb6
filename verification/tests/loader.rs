use tilechase::geom::{Vec2, SCALE};
use tilechase::level::{load_levels, LevelSource, LoadError};

fn src(name: &str, rows: &[&str]) -> LevelSource {
    LevelSource {
        name: name.to_string(),
        tiles: rows.iter().map(|r| r.to_string()).collect(),
        path: Vec::new(),
        links: Vec::new(),
    }
}

fn tile(x: i64, y: i64) -> Vec2 {
    Vec2 { x: x * SCALE, y: y * SCALE }
}

#[test]
fn loads_well_formed_grid() {
    // Row 0 is the top of the grid (highest tile Y).
    let s = src("first", &["D . =", ". P X", "S B G"]);
    let levels = load_levels(&vec![s]).expect("level should load");
    assert_eq!(levels.len(), 1);
    let l = &levels[0];
    assert_eq!(l.name, "first");
    // width 3, height 3; midpoint = (w/2, h/2 - 0.5) in tiles.
    assert_eq!(l.midpoint, Vec2 { x: 1500, y: 1000 });
    assert_eq!(l.player_pos, tile(1, 1));
    assert_eq!(l.stalker_pos, tile(0, 0));
    assert_eq!(l.doors, vec![tile(0, 2)]);
    assert_eq!(l.blocks.len(), 1);
    assert_eq!(l.blocks[0].style, 0);
    assert_eq!(l.blocks[0].pos, tile(2, 2));
    assert_eq!(l.push_blocks, vec![tile(2, 1)]);
    assert_eq!(l.buttons, vec![tile(1, 0)]);
    assert_eq!(l.gates, vec![tile(2, 0)]);
    // No explicit patrol path: the hazard start is the single waypoint.
    assert_eq!(l.initial_stalker_path, vec![tile(0, 0)]);
}

#[test]
fn styled_wall_token_keeps_its_style() {
    let s = src("styled", &["P =3", "S D"]);
    let levels = load_levels(&vec![s]).expect("level should load");
    let l = &levels[0];
    assert_eq!(l.blocks.len(), 1);
    assert_eq!(l.blocks[0].style, 3);
    assert_eq!(l.blocks[0].pos, tile(1, 1));
}

#[test]
fn explicit_patrol_path_is_scaled() {
    let mut s = src("path", &["P S D"]);
    s.path = vec![(0, 0), (2, 0)];
    let levels = load_levels(&vec![s]).expect("level should load");
    assert_eq!(levels[0].initial_stalker_path, vec![tile(0, 0), tile(2, 0)]);
}

#[test]
fn unknown_token_fails() {
    let s = src("bad", &["P S D", ". Q ."]);
    match load_levels(&vec![s]) {
        Err(LoadError::UnknownToken { level, token }) => {
            assert_eq!(level, 0);
            assert_eq!(token, "Q");
        },
        other => panic!("expected an unknown-token error, got {:?}", other.map(|_| ())),
    }
}

#[test]
fn empty_token_from_double_space_is_unknown() {
    let s = src("bad", &["P  S D"]);
    match load_levels(&vec![s]) {
        Err(LoadError::UnknownToken { level, token }) => {
            assert_eq!(level, 0);
            assert_eq!(token, "");
        },
        other => panic!("expected an unknown-token error, got {:?}", other.map(|_| ())),
    }
}

#[test]
fn missing_player_fails() {
    let s = src("nop", &["S D ."]);
    match load_levels(&vec![s]) {
        Err(LoadError::MissingPlayer { level }) => assert_eq!(level, 0),
        other => panic!("expected a missing-player error, got {:?}", other.map(|_| ())),
    }
}

#[test]
fn missing_hazard_fails() {
    let s = src("nos", &["P D ."]);
    match load_levels(&vec![s]) {
        Err(LoadError::MissingHazard { level }) => assert_eq!(level, 0),
        other => panic!("expected a missing-hazard error, got {:?}", other.map(|_| ())),
    }
}

#[test]
fn zero_goals_fails() {
    let s = src("nod", &["P S ."]);
    match load_levels(&vec![s]) {
        Err(LoadError::NoGoals { level }) => assert_eq!(level, 0),
        other => panic!("expected a zero-goals error, got {:?}", other.map(|_| ())),
    }
}

#[test]
fn waypoint_out_of_range_fails() {
    let mut s = src("farpath", &["P S D"]);
    s.path = vec![(2_000_000, 0)];
    match load_levels(&vec![s]) {
        Err(LoadError::BadWaypoint { level }) => assert_eq!(level, 0),
        other => panic!("expected a bad-waypoint error, got {:?}", other.map(|_| ())),
    }
}

#[test]
fn link_to_missing_gate_fails() {
    let mut s = src("badlink", &["P S D B"]);
    s.links = vec![(0, 0)];
    match load_levels(&vec![s]) {
        Err(LoadError::BadLink { level }) => assert_eq!(level, 0),
        other => panic!("expected a bad-link error, got {:?}", other.map(|_| ())),
    }
}

#[test]
fn first_failing_level_reports() {
    let good = src("good", &["P S D"]);
    let bad = src("bad", &["P S ."]);
    match load_levels(&vec![good, bad]) {
        Err(LoadError::NoGoals { level }) => assert_eq!(level, 1),
        other => panic!("expected a zero-goals error, got {:?}", other.map(|_| ())),
    }
}

#[test]
fn levels_come_in_declaration_order() {
    let a = src("a", &["P S D"]);
    let b = src("b", &["D S P"]);
    let levels = load_levels(&vec![a, b]).expect("both levels should load");
    assert_eq!(levels.len(), 2);
    assert_eq!(levels[0].name, "a");
    assert_eq!(levels[1].name, "b");
    assert_eq!(levels[0].player_pos, tile(0, 0));
    assert_eq!(levels[1].player_pos, tile(2, 0));
}

#[test]
fn last_player_start_wins() {
    let s = src("two", &["P S D", "P . ."]);
    let levels = load_levels(&vec![s]).expect("level should load");
    // Traversal is top-to-bottom, so the second row's start is last.
    assert_eq!(levels[0].player_pos, tile(0, 0));
}
