use vstd::prelude::*;
use crate::config::{CRATE, CRATE_GOAL, FLOOR, GOAL, PLAYER, PLAYER_GOAL, WALL};

verus! {

/// A tile the player (or a pushed crate) may enter.
pub open spec fn is_walkable(tile: u8) -> bool {
    tile == FLOOR || tile == GOAL
}

/// True for floor and for empty goals.
pub fn walkable(tile: u8) -> (r: bool)
    ensures
        r == is_walkable(tile),
{
    tile == FLOOR || tile == GOAL
}

/// The grid with the tile at column `x` of row `y` replaced by `v`.
pub open spec fn set_tile(m: Seq<Seq<u8>>, x: int, y: int, v: u8) -> Seq<Seq<u8>> {
    m.update(y, m[y].update(x, v))
}

fn write_tile(map: &mut Vec<Vec<u8>>, x: usize, y: usize, v: u8)
    requires
        in_grid(old(map).deep_view(), x as int, y as int),
    ensures
        final(map).deep_view() == set_tile(old(map).deep_view(), x as int, y as int, v),
{
    map[y][x] = v;
    assert(map.deep_view() =~~= set_tile(old(map).deep_view(), x as int, y as int, v));
}


/// Whether `move_player` completes on these inputs (`move_defined`): its
/// coordinate arithmetic stays within `i32` and every cell it reads or
/// writes exists. Where this is false the move would go out of the grid.
pub fn move_is_defined(map: &Vec<Vec<u8>>, player: (usize, usize), direction: (i32, i32)) -> (ok: bool)
    ensures
        ok == move_defined(map.deep_view(), player, direction),
{
    let ghost m = map.deep_view();
    let nx: i64 = player.0 as i32 as i64 + direction.0 as i64;
    let ny: i64 = player.1 as i32 as i64 + direction.1 as i64;
    if nx < i32::MIN as i64 || nx > i32::MAX as i64 || ny < i32::MIN as i64 || ny > i32::MAX as i64 {
        return false;
    }
    if nx < 0 || ny < 0 || ny as usize >= map.len() || nx as usize >= map[0].len() {
        return true;
    }
    let nx = nx as usize;
    let ny = ny as usize;
    if nx >= map[ny].len() {
        return false;
    }
    let target = map[ny][nx];
    let (px, py) = player;
    let player_in_grid = py < map.len() && px < map[py].len();
    if walkable(target) {
        return player_in_grid;
    }
    if target == CRATE || target == CRATE_GOAL {
        let bx: i64 = nx as i64 + direction.0 as i64;
        let by: i64 = ny as i64 + direction.1 as i64;
        if bx < i32::MIN as i64 || bx > i32::MAX as i64 || by < i32::MIN as i64 || by > i32::MAX as i64 {
            return false;
        }
        if bx < 0 || by < 0 {
            return true;
        }
        let bx = bx as usize;
        let by = by as usize;
        if by >= map.len() || bx >= map[by].len() {
            return false;
        }
        if walkable(map[by][bx]) {
            return player_in_grid;
        }
    }
    true
}

/// A crate, whether or not it stands on a goal.
pub open spec fn is_crate(tile: u8) -> bool {
    tile == CRATE || tile == CRATE_GOAL
}

/// What a cell shows once the player has left it.
pub open spec fn vacated(tile: u8) -> u8 {
    if tile == PLAYER_GOAL { GOAL } else { FLOOR }
}

/// What a walkable cell shows once the player has stepped onto it.
pub open spec fn stepped_on(tile: u8) -> u8 {
    if tile == GOAL { PLAYER_GOAL } else { PLAYER }
}

/// What a crate's cell shows once the player has pushed the crate away and taken its place.
pub open spec fn pushed_from(tile: u8) -> u8 {
    if tile == CRATE_GOAL { PLAYER_GOAL } else { PLAYER }
}

/// What a walkable cell shows once a crate has been pushed onto it.
pub open spec fn crate_onto(tile: u8) -> u8 {
    if tile == GOAL { CRATE_GOAL } else { CRATE }
}

/// The value fits in an `i32`.
pub open spec fn fits_i32(v: int) -> bool {
    i32::MIN <= v <= i32::MAX
}

/// The cell one step from `player` in `direction`: the player's coordinates
/// are taken as `i32` (as the game does) before the step is added.
pub open spec fn step_from(player: (usize, usize), direction: (i32, i32)) -> (int, int) {
    ((player.0 as i32) + direction.0, (player.1 as i32) + direction.1)
}

/// The cell lies inside the frame the game checks against: the number of rows
/// and the length of the first row.
pub open spec fn in_frame(m: Seq<Seq<u8>>, x: int, y: int) -> bool {
    0 <= x && 0 <= y && y < m.len() && x < m[0].len()
}

/// The cell exists in the grid.
pub open spec fn in_grid(m: Seq<Seq<u8>>, x: int, y: int) -> bool {
    0 <= y < m.len() && 0 <= x < m[y].len()
}

/// The grid and player position after a move, or `None` where the move is refused.
pub open spec fn move_result(m: Seq<Seq<u8>>, player: (usize, usize), direction: (i32, i32)) -> Option<
    (Seq<Seq<u8>>, (usize, usize)),
> {
    let (nx, ny) = step_from(player, direction);
    if !in_frame(m, nx, ny) {
        None
    } else {
        let target = m[ny][nx];
        if is_walkable(target) {
            let left = set_tile(m, player.0 as int, player.1 as int, vacated(m[player.1 as int][player.0 as int]));
            Some((set_tile(left, nx, ny, stepped_on(target)), (nx as usize, ny as usize)))
        } else if is_crate(target) {
            let (bx, by) = (nx + direction.0, ny + direction.1);
            if bx < 0 || by < 0 {
                None
            } else {
                let behind = m[by][bx];
                if is_walkable(behind) {
                    let pushed = set_tile(m, bx, by, crate_onto(behind));
                    let entered = set_tile(pushed, nx, ny, pushed_from(target));
                    let left = set_tile(
                        entered,
                        player.0 as int,
                        player.1 as int,
                        vacated(entered[player.1 as int][player.0 as int]),
                    );
                    Some((left, (nx as usize, ny as usize)))
                } else {
                    None
                }
            }
        } else {
            None
        }
    }
}

/// The inputs on which a move completes: its coordinate arithmetic stays
/// within `i32`, and every cell it reads or writes exists.
pub open spec fn move_defined(m: Seq<Seq<u8>>, player: (usize, usize), direction: (i32, i32)) -> bool {
    let (nx, ny) = step_from(player, direction);
    &&& fits_i32(nx)
    &&& fits_i32(ny)
    &&& in_frame(m, nx, ny) ==> {
        &&& nx < m[ny].len()
        &&& is_walkable(m[ny][nx]) ==> in_grid(m, player.0 as int, player.1 as int)
        &&& is_crate(m[ny][nx]) ==> {
            let (bx, by) = (nx + direction.0, ny + direction.1);
            &&& fits_i32(bx)
            &&& fits_i32(by)
            &&& (0 <= bx && 0 <= by) ==> {
                &&& in_grid(m, bx, by)
                &&& is_walkable(m[by][bx]) ==> in_grid(m, player.0 as int, player.1 as int)
            }
        }
    }
}

/// Moves the player one step in `direction`, pushing a crate ahead where there
/// is one and room behind it. Returns whether the player moved; a refused move
/// changes nothing.
pub fn move_player(map: &mut Vec<Vec<u8>>, player: &mut (usize, usize), direction: (i32, i32)) -> (moved: bool)
    requires
        move_defined(old(map).deep_view(), *old(player), direction),
    ensures
        moved == move_result(old(map).deep_view(), *old(player), direction) is Some,
        moved ==> (final(map).deep_view(), *final(player)) == move_result(
            old(map).deep_view(),
            *old(player),
            direction,
        )->Some_0,
        !moved ==> final(map).deep_view() == old(map).deep_view() && *final(player) == *old(player),
{
    let nx = player.0 as i32 + direction.0;
    let ny = player.1 as i32 + direction.1;

    if nx < 0 || ny < 0 {
        return false;
    }
    let nx = nx as usize;
    let ny = ny as usize;

    if ny >= map.len() || nx >= map[0].len() {
        return false;
    }
    let target = map[ny][nx];

    if walkable(target) {
        let (px, py) = *player;
        let old_tile = map[py][px];
        write_tile(map, px, py, if old_tile == PLAYER_GOAL { GOAL } else { FLOOR });
        write_tile(map, nx, ny, if target == GOAL { PLAYER_GOAL } else { PLAYER });
        *player = (nx, ny);
        return true;
    }
    if target == CRATE || target == CRATE_GOAL {
        let bx = nx as i32 + direction.0;
        let by = ny as i32 + direction.1;

        if bx < 0 || by < 0 {
            return false;
        }
        let bx = bx as usize;
        let by = by as usize;

        let behind = map[by][bx];

        if walkable(behind) {
            write_tile(map, bx, by, if behind == GOAL { CRATE_GOAL } else { CRATE });
            write_tile(map, nx, ny, if target == CRATE_GOAL { PLAYER_GOAL } else { PLAYER });
            let (px, py) = *player;
            assert(in_grid(map.deep_view(), px as int, py as int));
            let old_tile = map[py][px];
            write_tile(map, px, py, if old_tile == PLAYER_GOAL { GOAL } else { FLOOR });
            *player = (nx, ny);
            return true;
        }
    }
    false
}

/// Some cell still holds a crate that is not on a goal.
pub open spec fn has_loose_crate(m: Seq<Seq<u8>>) -> bool {
    exists|x: int, y: int| #[trigger] in_grid(m, x, y) && m[y][x] == CRATE
}

/// The level is solved when no crate is left off a goal.
pub fn check_win(map: &Vec<Vec<u8>>) -> (won: bool)
    ensures
        won == !has_loose_crate(map.deep_view()),
{
    let ghost m = map.deep_view();
    let mut y: usize = 0;
    while y < map.len()
        invariant
            m == map.deep_view(),
            0 <= y <= m.len(),
            forall|i: int, j: int| 0 <= j < y && in_grid(m, i, j) ==> m[j][i] != CRATE,
        decreases m.len() - y,
    {
        let row = &map[y];
        let mut x: usize = 0;
        while x < row.len()
            invariant
                m == map.deep_view(),
                y < m.len(),
                row@ == map@[y as int]@,
                0 <= x <= m[y as int].len(),
                forall|i: int, j: int| 0 <= j < y && in_grid(m, i, j) ==> m[j][i] != CRATE,
                forall|i: int| 0 <= i < x ==> m[y as int][i] != CRATE,
            decreases m[y as int].len() - x,
        {
            if row[x] == CRATE {
                assert(in_grid(m, x as int, y as int));
                return false;
            }
            x += 1;
        }
        y += 1;
    }
    true
}

/// A saved moment of play: the grid, where the player stands and which way
/// the player faces.
pub struct GameState {
    pub map: Vec<Vec<u8>>,
    pub player: (usize, usize),
    pub direction: (i32, i32),
}

/// A copy of the grid, row by row.
pub fn copy_map(map: &Vec<Vec<u8>>) -> (copy: Vec<Vec<u8>>)
    ensures
        copy.deep_view() == map.deep_view(),
{
    let mut copy: Vec<Vec<u8>> = Vec::new();
    let mut y: usize = 0;
    while y < map.len()
        invariant
            y <= map@.len(),
            copy@.len() == y,
            forall|j: int| 0 <= j < y ==> copy@[j]@ == map@[j]@,
        decreases map@.len() - y,
    {
        let row = &map[y];
        let mut new_row: Vec<u8> = Vec::new();
        let mut x: usize = 0;
        while x < row.len()
            invariant
                row@ == map@[y as int]@,
                x <= row@.len(),
                new_row@ == row@.subrange(0, x as int),
            decreases row@.len() - x,
        {
            new_row.push(row[x]);
            x += 1;
        }
        assert(new_row@ =~= row@);
        copy.push(new_row);
        y += 1;
    }
    assert(copy.deep_view() =~~= map.deep_view());
    copy
}

impl Clone for GameState {
    fn clone(&self) -> (copy: Self)
        ensures
            copy.map.deep_view() == self.map.deep_view(),
            copy.player == self.player,
            copy.direction == self.direction,
    {
        GameState { map: copy_map(&self.map), player: self.player, direction: self.direction }
    }
}

} // verus!
