use vstd::prelude::*;
use crate::config::{CRATE, CRATE_GOAL, GOAL, PLAYER, PLAYER_GOAL, WALL};

verus! {

/// The sprite sheet cell (column, row) showing the player facing `direction`
/// in colour `color`: the four colours are 2x2 blocks of the sheet, `color % 2`
/// picking the block's column pair and `color / 2` its row pair; within a
/// block, right is (0, 2), down (1, 2), up (0, 3) and left (1, 3), and any other
/// direction shows the player facing right.
pub fn get_player_sprite(direction: (i32, i32), color: usize) -> (cell: (usize, usize))
    requires
        (color / 2) * 2 + 3 <= usize::MAX,
    ensures
        ({
            let ax = (color % 2) * 2;
            let ay = (color / 2) * 2;
            cell == if direction == (1i32, 0i32) {
                ((0 + ax) as usize, (2 + ay) as usize)
            } else if direction == (0i32, 1i32) {
                ((1 + ax) as usize, (2 + ay) as usize)
            } else if direction == (0i32, -1i32) {
                ((0 + ax) as usize, (3 + ay) as usize)
            } else if direction == (-1i32, 0i32) {
                ((1 + ax) as usize, (3 + ay) as usize)
            } else {
                ((0 + ax) as usize, (2 + ay) as usize)
            }
        }),
{
    let ax = (color % 2) * 2;
    let ay = (color / 2) * 2;

    match direction {
        (1, 0) => (0 + ax, 2 + ay),
        (0, 1) => (1 + ax, 2 + ay),
        (0, -1) => (0 + ax, 3 + ay),
        (-1, 0) => (1 + ax, 3 + ay),
        _ => (0 + ax, 2 + ay),
    }
}


/// The sprite sheet cells drawn for a tile, bottom first: the floor (0, 1)
/// always, then a wall (2, 0), a goal (1, 1), a crate (0, 0), a crate on a goal
/// (1, 0), the player, or a goal with the player on it.
pub open spec fn cell_sprites(tile: u8, player_sprite: (usize, usize)) -> Seq<(usize, usize)> {
    seq![(0usize, 1usize)] + if tile == WALL {
        seq![(2usize, 0usize)]
    } else if tile == GOAL {
        seq![(1usize, 1usize)]
    } else if tile == CRATE {
        seq![(0usize, 0usize)]
    } else if tile == CRATE_GOAL {
        seq![(1usize, 0usize)]
    } else if tile == PLAYER {
        seq![player_sprite]
    } else if tile == PLAYER_GOAL {
        seq![(1usize, 1usize), player_sprite]
    } else {
        Seq::empty()
    }
}

/// The sprite sheet cells to draw, in order, for one tile of the grid, the
/// player being drawn with `player_sprite`.
pub fn tile_sprites(tile: u8, player_sprite: (usize, usize)) -> (sprites: Vec<(usize, usize)>)
    ensures
        sprites@ == cell_sprites(tile, player_sprite),
{
    let mut sprites: Vec<(usize, usize)> = Vec::new();
    sprites.push((0, 1));
    if tile == WALL {
        sprites.push((2, 0));
    } else if tile == GOAL {
        sprites.push((1, 1));
    } else if tile == CRATE {
        sprites.push((0, 0));
    } else if tile == CRATE_GOAL {
        sprites.push((1, 0));
    } else if tile == PLAYER {
        sprites.push(player_sprite);
    } else if tile == PLAYER_GOAL {
        sprites.push((1, 1));
        sprites.push(player_sprite);
    }
    assert(sprites@ =~= cell_sprites(tile, player_sprite));
    sprites
}

} // verus!
