use opensokoban::config::{CRATE, CRATE_GOAL, FLOOR, GOAL, PLAYER, PLAYER_GOAL, WALL};
use opensokoban::game::{check_win, move_is_defined, move_player, walkable, GameState};

fn count(map: &Vec<Vec<u8>>, pred: impl Fn(u8) -> bool) -> usize {
    map.iter().flat_map(|r| r.iter()).filter(|t| pred(**t)).count()
}

#[test]
fn walkable_tiles() {
    assert!(walkable(FLOOR));
    assert!(walkable(GOAL));
    assert!(!walkable(WALL));
    assert!(!walkable(CRATE));
    assert!(!walkable(CRATE_GOAL));
    assert!(!walkable(PLAYER));
    assert!(!walkable(PLAYER_GOAL));
}

#[test]
fn step_onto_floor() {
    let mut map = vec![vec![WALL, PLAYER, FLOOR, WALL]];
    let mut player = (1, 0);
    assert!(move_player(&mut map, &mut player, (1, 0)));
    assert_eq!(player, (2, 0));
    assert_eq!(map, vec![vec![WALL, FLOOR, PLAYER, WALL]]);
}

#[test]
fn step_onto_goal_and_off_it() {
    let mut map = vec![vec![WALL], vec![PLAYER], vec![GOAL], vec![FLOOR], vec![WALL]];
    let mut player = (0, 1);
    assert!(move_player(&mut map, &mut player, (0, 1)));
    assert_eq!(map, vec![vec![WALL], vec![FLOOR], vec![PLAYER_GOAL], vec![FLOOR], vec![WALL]]);
    assert!(move_player(&mut map, &mut player, (0, 1)));
    assert_eq!(player, (0, 3));
    assert_eq!(map, vec![vec![WALL], vec![FLOOR], vec![GOAL], vec![PLAYER], vec![WALL]]);
}

#[test]
fn push_crate_onto_goal() {
    let mut map = vec![vec![PLAYER, CRATE, GOAL]];
    let mut player = (0, 0);
    assert!(move_player(&mut map, &mut player, (1, 0)));
    assert_eq!(player, (1, 0));
    assert_eq!(map, vec![vec![FLOOR, PLAYER, CRATE_GOAL]]);
    assert!(check_win(&map));
}

#[test]
fn push_crate_off_goal_from_goal() {
    let mut map = vec![vec![PLAYER_GOAL, CRATE_GOAL, FLOOR]];
    let mut player = (0, 0);
    assert!(move_player(&mut map, &mut player, (1, 0)));
    assert_eq!(map, vec![vec![GOAL, PLAYER_GOAL, CRATE]]);
    assert!(!check_win(&map));
}

#[test]
fn wall_refuses_move() {
    let mut map = vec![vec![WALL, PLAYER, FLOOR]];
    let before = map.clone();
    let mut player = (1, 0);
    assert!(!move_player(&mut map, &mut player, (-1, 0)));
    assert_eq!(player, (1, 0));
    assert_eq!(map, before);
}

#[test]
fn crate_against_crate_refuses_move() {
    let mut map = vec![vec![PLAYER, CRATE, CRATE, FLOOR]];
    let before = map.clone();
    let mut player = (0, 0);
    assert!(!move_player(&mut map, &mut player, (1, 0)));
    assert_eq!(map, before);
    assert_eq!(player, (0, 0));
}

#[test]
fn crate_against_wall_refuses_move() {
    let mut map = vec![vec![PLAYER, CRATE_GOAL, WALL]];
    let before = map.clone();
    let mut player = (0, 0);
    assert!(!move_player(&mut map, &mut player, (1, 0)));
    assert_eq!(map, before);
}

#[test]
fn leaving_the_grid_is_refused() {
    let mut map = vec![vec![PLAYER, FLOOR]];
    let mut player = (0, 0);
    assert!(!move_player(&mut map, &mut player, (-1, 0)));
    assert!(!move_player(&mut map, &mut player, (0, -1)));
    assert!(!move_player(&mut map, &mut player, (0, 1)));
    assert_eq!(player, (0, 0));
    assert_eq!(map, vec![vec![PLAYER, FLOOR]]);
    let mut empty: Vec<Vec<u8>> = Vec::new();
    let mut nowhere = (0, 0);
    assert!(!move_player(&mut empty, &mut nowhere, (1, 0)));
}

#[test]
fn crate_pushed_toward_negative_side_is_refused() {
    let mut map = vec![vec![CRATE, PLAYER]];
    let mut player = (1, 0);
    assert!(!move_player(&mut map, &mut player, (-1, 0)));
    assert_eq!(map, vec![vec![CRATE, PLAYER]]);
}

#[test]
fn turning_in_place_is_refused() {
    let mut map = vec![vec![PLAYER, FLOOR]];
    let mut player = (0, 0);
    assert!(!move_player(&mut map, &mut player, (0, 0)));
    assert_eq!(map, vec![vec![PLAYER, FLOOR]]);
}

#[test]
fn moves_keep_walls_goals_and_crates() {
    let mut map = vec![
        vec![WALL, WALL, WALL, WALL, WALL, WALL],
        vec![WALL, PLAYER, CRATE, FLOOR, GOAL, WALL],
        vec![WALL, FLOOR, GOAL, CRATE_GOAL, FLOOR, WALL],
        vec![WALL, WALL, WALL, WALL, WALL, WALL],
    ];
    let mut player = (1, 1);
    let is_goal = |t: u8| t == GOAL || t == CRATE_GOAL || t == PLAYER_GOAL;
    let is_crate = |t: u8| t == CRATE || t == CRATE_GOAL;
    let is_player = |t: u8| t == PLAYER || t == PLAYER_GOAL;
    let walls = count(&map, |t| t == WALL);
    let goals: Vec<(usize, usize)> = (0..4)
        .flat_map(|y| (0..6).map(move |x| (x, y)))
        .filter(|&(x, y)| is_goal(map[y][x]))
        .collect();
    let crates = count(&map, is_crate);
    for dir in [(1, 0), (1, 0), (0, 1), (-1, 0), (1, 0), (0, -1), (1, 0)] {
        move_player(&mut map, &mut player, dir);
        assert_eq!(count(&map, |t| t == WALL), walls);
        assert_eq!(count(&map, is_crate), crates);
        assert_eq!(count(&map, is_player), 1);
        assert!(is_player(map[player.1][player.0]));
        for &(x, y) in &goals {
            assert!(is_goal(map[y][x]));
        }
        assert_eq!(count(&map, is_goal), goals.len());
    }
}

#[test]
fn check_win_needs_every_crate_on_a_goal() {
    assert!(check_win(&vec![]));
    assert!(check_win(&vec![vec![WALL, CRATE_GOAL, PLAYER]]));
    assert!(!check_win(&vec![vec![WALL, CRATE_GOAL], vec![CRATE, GOAL]]));
    assert!(check_win(&vec![vec![GOAL, PLAYER], vec![]]));
}

#[test]
fn game_state_clone_copies_everything() {
    let state = GameState { map: vec![vec![PLAYER, CRATE], vec![GOAL]], player: (0, 0), direction: (0, -1) };
    let copy = state.clone();
    assert_eq!(copy.map, state.map);
    assert_eq!(copy.player, (0, 0));
    assert_eq!(copy.direction, (0, -1));
}

#[test]
fn moves_that_would_leave_the_grid_are_detected() {
    let map = vec![vec![PLAYER, CRATE]];
    assert!(!move_is_defined(&map, (0, 0), (1, 0)));
    assert!(move_is_defined(&map, (0, 0), (-1, 0)));
    let map = vec![vec![PLAYER, CRATE, FLOOR]];
    assert!(move_is_defined(&map, (0, 0), (1, 0)));
    // a row shorter than the first one
    let jagged = vec![vec![PLAYER, FLOOR, FLOOR], vec![FLOOR]];
    assert!(move_is_defined(&jagged, (0, 0), (0, 1)));
    assert!(!move_is_defined(&jagged, (2, 0), (0, 1)));
    // the player's own position outside the grid
    let map = vec![vec![FLOOR, FLOOR]];
    assert!(!move_is_defined(&map, (5, 0), (-4, 0)));
    assert!(move_is_defined(&map, (5, 0), (1, 0)));
    // coordinate arithmetic beyond i32
    assert!(move_is_defined(&map, (0, 0), (i32::MIN, 0)));
    assert!(!move_is_defined(&map, (1, 0), (i32::MAX, 0)));
}
