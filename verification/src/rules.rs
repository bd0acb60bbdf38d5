use vstd::prelude::*;
use crate::config::{CRATE, CRATE_GOAL, FLOOR, GOAL, PLAYER, PLAYER_GOAL, WALL};
use crate::game::{
    crate_onto, in_frame, in_grid, is_crate, is_walkable, move_defined, move_result, pushed_from, set_tile, step_from,
    stepped_on, vacated,
};

verus! {

/// The player's marker: the player on floor or on a goal.
pub open spec fn is_player_tile(tile: u8) -> bool {
    tile == PLAYER || tile == PLAYER_GOAL
}

/// A goal, whether empty, under a crate or under the player.
pub open spec fn is_goal(tile: u8) -> bool {
    tile == GOAL || tile == CRATE_GOAL || tile == PLAYER_GOAL
}

/// The player's position names a cell of the grid, and that cell shows the
/// player.
pub open spec fn player_shown(m: Seq<Seq<u8>>, player: (usize, usize)) -> bool {
    &&& in_grid(m, player.0 as int, player.1 as int)
    &&& is_player_tile(m[player.1 as int][player.0 as int])
}

/// The player's position names a cell of the grid, that cell shows the
/// player, and no other cell does.
pub open spec fn player_placed(m: Seq<Seq<u8>>, player: (usize, usize)) -> bool {
    &&& in_grid(m, player.0 as int, player.1 as int)
    &&& forall|x: int, y: int|
        #[trigger] in_grid(m, x, y) ==> (is_player_tile(m[y][x]) <==> (x == player.0 && y == player.1))
}

/// Both grids have the same rows, each of the same length.
pub open spec fn same_shape(a: Seq<Seq<u8>>, b: Seq<Seq<u8>>) -> bool {
    &&& a.len() == b.len()
    &&& forall|y: int| 0 <= y < a.len() ==> #[trigger] a[y].len() == b[y].len()
}

/// The number of crates in a row, on goals or not.
pub open spec fn crates_in_row(row: Seq<u8>) -> nat
    decreases row.len(),
{
    if row.len() == 0 {
        0
    } else {
        crates_in_row(row.drop_last()) + if is_crate(row.last()) { 1nat } else { 0nat }
    }
}

/// The number of crates in the grid, on goals or not.
pub open spec fn crate_count(m: Seq<Seq<u8>>) -> nat
    decreases m.len(),
{
    if m.len() == 0 {
        0
    } else {
        crate_count(m.drop_last()) + crates_in_row(m.last())
    }
}

/// One for a crate, zero for anything else.
pub open spec fn crate_mark(tile: u8) -> nat {
    if is_crate(tile) { 1 } else { 0 }
}

proof fn lemma_row_update_count(row: Seq<u8>, i: int, v: u8)
    requires
        0 <= i < row.len(),
    ensures
        crates_in_row(row.update(i, v)) + crate_mark(row[i]) == crates_in_row(row) + crate_mark(v),
    decreases row.len(),
{
    let r2 = row.update(i, v);
    if i == row.len() - 1 {
        assert(r2.drop_last() =~= row.drop_last());
    } else {
        assert(r2.drop_last() =~= row.drop_last().update(i, v));
        lemma_row_update_count(row.drop_last(), i, v);
    }
}

proof fn lemma_set_tile_count(m: Seq<Seq<u8>>, x: int, y: int, v: u8)
    requires
        in_grid(m, x, y),
    ensures
        crate_count(set_tile(m, x, y, v)) + crate_mark(m[y][x]) == crate_count(m) + crate_mark(v),
    decreases m.len(),
{
    let m2 = set_tile(m, x, y, v);
    lemma_row_update_count(m[y], x, v);
    if y == m.len() - 1 {
        assert(m2.drop_last() =~= m.drop_last());
    } else {
        assert(m2.drop_last() =~= set_tile(m.drop_last(), x, y, v));
        lemma_set_tile_count(m.drop_last(), x, y, v);
    }
}

/// Walls and goals never move: after any move from a cell that shows the
/// player, the grid keeps its shape and every cell is a wall, and
/// a goal, exactly when it was before.
pub proof fn lemma_move_keeps_walls_and_goals(m: Seq<Seq<u8>>, player: (usize, usize), direction: (i32, i32))
    requires
        player_shown(m, player),
        move_defined(m, player, direction),
        move_result(m, player, direction) is Some,
    ensures
        ({
            let after = move_result(m, player, direction)->Some_0.0;
            &&& same_shape(m, after)
            &&& forall|x: int, y: int|
                #[trigger] in_grid(m, x, y) ==> (after[y][x] == WALL <==> m[y][x] == WALL) && (is_goal(
                    after[y][x],
                ) <==> is_goal(m[y][x]))
        }),
{
}

/// The player stays unique: a move from a position where the player is
/// placed ends at a position where the player is placed.
pub proof fn lemma_move_keeps_player_placed(m: Seq<Seq<u8>>, player: (usize, usize), direction: (i32, i32))
    requires
        player_placed(m, player),
        move_defined(m, player, direction),
        move_result(m, player, direction) is Some,
    ensures
        player_placed(move_result(m, player, direction)->Some_0.0, move_result(m, player, direction)->Some_0.1),
{
    let (nx, ny) = step_from(player, direction);
    let (after, pos) = move_result(m, player, direction)->Some_0;
    assert(same_shape(m, after)) by {
        assert(in_grid(m, player.0 as int, player.1 as int));
        lemma_move_keeps_walls_and_goals(m, player, direction);
    }
    assert forall|x: int, y: int| #[trigger] in_grid(after, x, y) implies (is_player_tile(after[y][x]) <==> (
    x == pos.0 && y == pos.1)) by {
        assert(in_grid(m, x, y));
    }
}

/// Crates are neither made nor lost: a move from a cell that shows the
/// player leaves the number of crates unchanged.
pub proof fn lemma_move_keeps_crate_count(m: Seq<Seq<u8>>, player: (usize, usize), direction: (i32, i32))
    requires
        player_shown(m, player),
        move_defined(m, player, direction),
        move_result(m, player, direction) is Some,
    ensures
        crate_count(move_result(m, player, direction)->Some_0.0) == crate_count(m),
{
    let (nx, ny) = step_from(player, direction);
    let px = player.0 as int;
    let py = player.1 as int;
    let target = m[ny][nx];
    if is_walkable(target) {
        let left = set_tile(m, px, py, vacated(m[py][px]));
        lemma_set_tile_count(m, px, py, vacated(m[py][px]));
        lemma_set_tile_count(left, nx, ny, stepped_on(target));
    } else {
        let (bx, by) = (nx + direction.0, ny + direction.1);
        let behind = m[by][bx];
        let pushed = set_tile(m, bx, by, crate_onto(behind));
        let entered = set_tile(pushed, nx, ny, pushed_from(target));
        lemma_set_tile_count(m, bx, by, crate_onto(behind));
        lemma_set_tile_count(pushed, nx, ny, pushed_from(target));
        lemma_set_tile_count(entered, px, py, vacated(entered[py][px]));
    }
}


/// The grid has at least one row, and every row is as long as the first.
pub open spec fn rectangular(m: Seq<Seq<u8>>) -> bool {
    &&& m.len() > 0
    &&& forall|y: int| 0 <= y < m.len() ==> #[trigger] m[y].len() == m[0].len()
}

/// One step left, right, up or down.
pub open spec fn unit_step(direction: (i32, i32)) -> bool {
    ||| direction == (1i32, 0i32)
    ||| direction == (-1i32, 0i32)
    ||| direction == (0i32, 1i32)
    ||| direction == (0i32, -1i32)
}

/// No crate stands against the far edge of the grid in `direction`: every
/// crate whose next cell that way has no negative coordinate has that cell
/// in the grid.
pub open spec fn no_crate_at_far_edge(m: Seq<Seq<u8>>, direction: (i32, i32)) -> bool {
    forall|x: int, y: int|
        #[trigger] in_grid(m, x, y) && is_crate(m[y][x]) && x + direction.0 >= 0 && y + direction.1 >= 0
            ==> in_grid(m, x + direction.0, y + direction.1)
}

/// The board laws for the moves the game makes: on a rectangular grid whose
/// sides are shorter than `i32::MAX`, from a cell that shows the player, a
/// one-cell step with no crate against the far edge that way completes; if it
/// goes through, walls and goals stay where they were, the number of crates is
/// unchanged, and where the player was the only player tile it still is.
pub proof fn lemma_unit_step_laws(m: Seq<Seq<u8>>, player: (usize, usize), direction: (i32, i32))
    requires
        rectangular(m),
        m.len() < i32::MAX,
        m[0].len() < i32::MAX,
        player_shown(m, player),
        unit_step(direction),
        no_crate_at_far_edge(m, direction),
    ensures
        move_defined(m, player, direction),
        move_result(m, player, direction) matches Some(r) ==> {
            &&& same_shape(m, r.0)
            &&& forall|x: int, y: int|
                #[trigger] in_grid(m, x, y) ==> (r.0[y][x] == WALL <==> m[y][x] == WALL) && (is_goal(r.0[y][x])
                    <==> is_goal(m[y][x]))
            &&& crate_count(r.0) == crate_count(m)
            &&& player_placed(m, player) ==> player_placed(r.0, r.1)
        },
{
    assert(m[player.1 as int].len() == m[0].len());
    assert(player.0 as i32 as int == player.0 as int);
    assert(player.1 as i32 as int == player.1 as int);
    let (nx, ny) = step_from(player, direction);
    if in_frame(m, nx, ny) {
        assert(m[ny].len() == m[0].len());
        if is_crate(m[ny][nx]) {
            assert(in_grid(m, nx, ny));
        }
    }
    assert(move_defined(m, player, direction));
    if move_result(m, player, direction) is Some {
        lemma_move_keeps_walls_and_goals(m, player, direction);
        lemma_move_keeps_crate_count(m, player, direction);
        if player_placed(m, player) {
            lemma_move_keeps_player_placed(m, player, direction);
        }
    }
}


/// The board the game plays on: at least one row, all rows as long as the
/// first, both sides shorter than `i32::MAX`, and the player's cell showing
/// the player.
pub open spec fn playable(m: Seq<Seq<u8>>, player: (usize, usize)) -> bool {
    &&& rectangular(m)
    &&& m.len() < i32::MAX
    &&& m[0].len() < i32::MAX
    &&& player_shown(m, player)
}

/// Every cell other than the listed ones is as it was.
pub open spec fn same_elsewhere(a: Seq<Seq<u8>>, b: Seq<Seq<u8>>, cells: Seq<(int, int)>) -> bool {
    forall|x: int, y: int|
        #[trigger] in_grid(a, x, y) && !cells.contains((x, y)) ==> b[y][x] == a[y][x]
}

proof fn lemma_step_exact(m: Seq<Seq<u8>>, player: (usize, usize), direction: (i32, i32))
    requires
        playable(m, player),
        unit_step(direction),
    ensures
        step_from(player, direction) == (player.0 + direction.0, player.1 + direction.1),
{
    assert(m[player.1 as int].len() == m[0].len());
    assert(player.0 as i32 as int == player.0 as int);
    assert(player.1 as i32 as int == player.1 as int);
}

/// A step onto open floor or an empty goal goes through: the player stands
/// on that cell (on a goal if it was one), the cell left shows a goal if the
/// player stood on one and floor otherwise, and nothing else changes.
pub proof fn lemma_walk_goes_through(m: Seq<Seq<u8>>, player: (usize, usize), direction: (i32, i32))
    requires
        playable(m, player),
        unit_step(direction),
        in_grid(m, player.0 + direction.0, player.1 + direction.1),
        m[player.1 + direction.1][player.0 + direction.0] == FLOOR || m[player.1 + direction.1][player.0
            + direction.0] == GOAL,
    ensures
        ({
            let (px, py) = (player.0 as int, player.1 as int);
            let (tx, ty) = (player.0 + direction.0, player.1 + direction.1);
            move_result(m, player, direction) matches Some(r) && {
                &&& r.1 == (tx as usize, ty as usize)
                &&& same_shape(m, r.0)
                &&& r.0[ty][tx] == (if m[ty][tx] == GOAL { PLAYER_GOAL } else { PLAYER })
                &&& r.0[py][px] == (if m[py][px] == PLAYER_GOAL { GOAL } else { FLOOR })
                &&& same_elsewhere(m, r.0, seq![(px, py), (tx, ty)])
            }
        }),
{
    lemma_step_exact(m, player, direction);
    let (tx, ty) = (player.0 + direction.0, player.1 + direction.1);
    assert(m[ty].len() == m[0].len());
}

/// A step onto a crate whose next cell the same way is open floor or an empty
/// goal goes through, in every one of the four directions: the crate moves
/// onto that next cell (on a goal if it was one), the player takes the
/// crate's cell (on a goal if the crate stood on one), the cell left shows a
/// goal if the player stood on one and floor otherwise, and nothing else
/// changes.
pub proof fn lemma_push_goes_through(m: Seq<Seq<u8>>, player: (usize, usize), direction: (i32, i32))
    requires
        playable(m, player),
        unit_step(direction),
        in_grid(m, player.0 + direction.0, player.1 + direction.1),
        m[player.1 + direction.1][player.0 + direction.0] == CRATE || m[player.1 + direction.1][player.0
            + direction.0] == CRATE_GOAL,
        in_grid(m, player.0 + 2 * direction.0, player.1 + 2 * direction.1),
        m[player.1 + 2 * direction.1][player.0 + 2 * direction.0] == FLOOR || m[player.1 + 2
            * direction.1][player.0 + 2 * direction.0] == GOAL,
    ensures
        ({
            let (px, py) = (player.0 as int, player.1 as int);
            let (tx, ty) = (player.0 + direction.0, player.1 + direction.1);
            let (bx, by) = (player.0 + 2 * direction.0, player.1 + 2 * direction.1);
            move_result(m, player, direction) matches Some(r) && {
                &&& r.1 == (tx as usize, ty as usize)
                &&& same_shape(m, r.0)
                &&& r.0[by][bx] == (if m[by][bx] == GOAL { CRATE_GOAL } else { CRATE })
                &&& r.0[ty][tx] == (if m[ty][tx] == CRATE_GOAL { PLAYER_GOAL } else { PLAYER })
                &&& r.0[py][px] == (if m[py][px] == PLAYER_GOAL { GOAL } else { FLOOR })
                &&& same_elsewhere(m, r.0, seq![(px, py), (tx, ty), (bx, by)])
            }
        }),
{
    lemma_step_exact(m, player, direction);
    let (tx, ty) = (player.0 + direction.0, player.1 + direction.1);
    assert(m[ty].len() == m[0].len());
}

/// A step is refused, leaving the board as it is, where it would leave the
/// grid, where it meets a wall or the player's own marker, or where it meets
/// a crate with no open floor or empty goal behind it (a wall, another crate,
/// the player, or the grid's edge).
pub proof fn lemma_blocked_step_refused(m: Seq<Seq<u8>>, player: (usize, usize), direction: (i32, i32))
    requires
        playable(m, player),
        unit_step(direction),
        ({
            let (tx, ty) = (player.0 + direction.0, player.1 + direction.1);
            let (bx, by) = (player.0 + 2 * direction.0, player.1 + 2 * direction.1);
            ||| !in_grid(m, tx, ty)
            ||| m[ty][tx] == WALL || m[ty][tx] == PLAYER || m[ty][tx] == PLAYER_GOAL
            ||| (m[ty][tx] == CRATE || m[ty][tx] == CRATE_GOAL) && (bx < 0 || by < 0 || (in_grid(m, bx, by)
                && m[by][bx] != FLOOR && m[by][bx] != GOAL))
        }),
    ensures
        move_result(m, player, direction) is None,
{
    lemma_step_exact(m, player, direction);
    let (tx, ty) = (player.0 + direction.0, player.1 + direction.1);
    if 0 <= ty < m.len() {
        assert(m[ty].len() == m[0].len());
    }
}

} // verus!
