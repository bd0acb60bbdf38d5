use vstd::prelude::*;
use crate::config::{CRATE, FLOOR, GOAL, PLAYER, WALL};
use crate::game::in_grid;
use crate::rules::{is_player_tile, player_placed};

verus! {

/// Bit `i` of the byte stream, counting from the most significant bit of the
/// first byte.
pub open spec fn stream_bit(bytes: Seq<u8>, i: int) -> u8 {
    (bytes[i / 8] >> ((7 - i % 8) as u8)) & 1u8
}

/// The three-bit number that starts at bit `i` of the stream, most
/// significant bit first.
pub open spec fn stream_code(bytes: Seq<u8>, i: int) -> int {
    4 * stream_bit(bytes, i) + 2 * stream_bit(bytes, i + 1) + stream_bit(bytes, i + 2)
}

/// The number made of the `k` bits that start at bit `i`, most significant first.
pub open spec fn stream_prefix(bytes: Seq<u8>, i: int, k: nat) -> int
    decreases k,
{
    if k == 0 {
        0
    } else {
        2 * stream_prefix(bytes, i, (k - 1) as nat) + stream_bit(bytes, i + k - 1)
    }
}

proof fn lemma_shift_in_bit(v: u8, b: u8)
    by (bit_vector)
    requires
        v < 128,
        b <= 1,
    ensures
        ((v << 1u8) | b) == 2 * v + b,
{
}

proof fn lemma_low_bit(x: u8, s: u8)
    by (bit_vector)
    ensures
        (x >> s) & 1u8 <= 1,
{
}

/// Reads the next three bits of the stream as a number, most significant
/// bit first, and advances the cursor past them; `None`, with the cursor
/// unchanged, where fewer than three bits are left.
pub fn read_bits(bytes: &[u8], bit_cursor: &mut usize) -> (value: Option<u8>)
    requires
        *old(bit_cursor) + 3 <= usize::MAX,
        bytes@.len() * 8 <= usize::MAX,
    ensures
        *old(bit_cursor) + 3 > bytes@.len() * 8 ==> value is None && *final(bit_cursor) == *old(bit_cursor),
        *old(bit_cursor) + 3 <= bytes@.len() * 8 ==> value == Some(
            stream_code(bytes@, *old(bit_cursor) as int) as u8,
        ) && *final(bit_cursor) == *old(bit_cursor) + 3,
{
    if *bit_cursor + 3 > bytes.len() * 8 {
        return None;
    }
    let ghost start = *bit_cursor as int;
    let mut value: u8 = 0;
    let mut i: u8 = 0;
    while i < 3
        invariant
            0 <= i <= 3,
            *bit_cursor == start + i,
            start + 3 <= bytes@.len() * 8,
            value == stream_prefix(bytes@, start, i as nat),
            bytes@.len() * 8 <= usize::MAX,
            i == 0 ==> value == 0,
            i == 1 ==> value <= 1,
            i == 2 ==> value <= 3,
            value <= 7,
        decreases 3 - i,
    {
        let cursor = *bit_cursor;
        let byte = bytes[cursor / 8];
        let shift: u8 = (7 - cursor % 8) as u8;
        let bit = (byte >> shift) & 1;
        proof {
            lemma_low_bit(byte, shift);
            lemma_shift_in_bit(value, bit);
        }
        value = (value << 1) | bit;
        *bit_cursor = cursor + 1;
        i += 1;
    }
    proof {
        reveal_with_fuel(stream_prefix, 4);
    }
    Some(value)
}


/// The tile a three-bit code of the level data stands for.
pub open spec fn tile_for_code(code: int) -> u8 {
    if code == 1 {
        WALL
    } else if code == 2 {
        FLOOR
    } else if code == 3 || code == 4 {
        GOAL
    } else if code == 5 {
        CRATE
    } else if code == 6 {
        PLAYER
    } else {
        FLOOR
    }
}

/// The code of a level that marks where the player starts.
pub open spec fn is_start_code(code: int) -> bool {
    code == 6
}

/// The grid of `height` rows of `width` tiles whose codes follow one another,
/// row after row, from bit `start` of the stream.
pub open spec fn level_grid(bytes: Seq<u8>, start: int, width: nat, height: nat) -> Seq<Seq<u8>> {
    Seq::new(
        height,
        |y: int| Seq::new(width, |x: int| tile_for_code(stream_code(bytes, start + 3 * (y * width + x)))),
    )
}

/// Among the first `k` cells of a level read row by row, the last one coded
/// as the player's start, as (column, row); `(0, 0)` where there is none.
pub open spec fn start_cell(bytes: Seq<u8>, start: int, width: nat, k: nat) -> (usize, usize)
    decreases k,
{
    if k == 0 {
        (0, 0)
    } else if is_start_code(stream_code(bytes, start + 3 * (k - 1))) {
        (((k - 1) % (width as int)) as usize, ((k - 1) / (width as int)) as usize)
    } else {
        start_cell(bytes, start, width, (k - 1) as nat)
    }
}

/// The bit just past the tiles of the level record that starts at byte `offset`:
/// a width byte, a height byte, then three bits per tile.
pub open spec fn record_end(bytes: Seq<u8>, offset: int) -> int {
    (offset + 2) * 8 + 3 * ((bytes[offset] as nat) * (bytes[offset + 1] as nat))
}

/// The byte where the next record starts: the first whole byte after the
/// tiles, past one zero byte that separates records where it stands there.
pub open spec fn next_record(bytes: Seq<u8>, offset: int) -> int {
    let n = (record_end(bytes, offset) + 7) / 8;
    if n < bytes.len() && bytes[n] == 0 {
        n + 1
    } else {
        n
    }
}

/// What a search for a level in the level data comes to.
pub enum LevelSearch {
    /// The level's grid, its size as (width, height), and the player's start.
    Found { grid: Seq<Seq<u8>>, size: (usize, usize), player: (usize, usize) },
    /// The data ends before the level.
    Missing,
    /// A record up to the level claims more tiles than the data holds.
    Truncated,
}

/// The search for level `id` (counted from zero) in the records that start at
/// byte `offset`, the record there being level `index`.
pub open spec fn find_level(bytes: Seq<u8>, offset: int, index: int, id: int) -> LevelSearch
    decreases bytes.len() - offset,
{
    if offset < 0 || offset + 2 > bytes.len() {
        LevelSearch::Missing
    } else if record_end(bytes, offset) > bytes.len() * 8 {
        LevelSearch::Truncated
    } else if index == id {
        let width = bytes[offset] as nat;
        let height = bytes[offset + 1] as nat;
        let start = (offset + 2) * 8;
        LevelSearch::Found {
            grid: level_grid(bytes, start, width, height),
            size: (width as usize, height as usize),
            player: start_cell(bytes, start, width, width * height),
        }
    } else {
        find_level(bytes, next_record(bytes, offset), index + 1, id)
    }
}

proof fn lemma_cell_index_bounds(x: int, y: int, w: int, h: int)
    by (nonlinear_arith)
    requires
        0 <= x < w,
        0 <= y < h,
    ensures
        y * w + x + 1 <= w * h,
        y * w + x + 1 == y * w + (x + 1),
        (y + 1) * w == y * w + w,
        0 <= y * w,
{
}

proof fn lemma_next_row(y: int, w: int)
    by (nonlinear_arith)
    requires
        0 <= y,
        0 <= w,
    ensures
        (y + 1) * w == y * w + w,
        0 <= y * w,
{
}

proof fn lemma_mul_commutes(a: int, b: int)
    by (nonlinear_arith)
    ensures
        a * b == b * a,
{
}

/// Every three-bit code is a number from 0 to 7.
pub proof fn lemma_code_range(bytes: Seq<u8>, i: int)
    ensures
        0 <= stream_code(bytes, i) <= 7,
{
    lemma_low_bit(bytes[i / 8], (7 - i % 8) as u8);
    lemma_low_bit(bytes[(i + 1) / 8], (7 - (i + 1) % 8) as u8);
    lemma_low_bit(bytes[(i + 2) / 8], (7 - (i + 2) % 8) as u8);
}

proof fn lemma_cell_of_index(x: int, y: int, w: int)
    requires
        0 <= x < w,
        0 <= y,
    ensures
        (y * w + x) % w == x,
        (y * w + x) / w == y,
{
    vstd::arithmetic::div_mod::lemma_fundamental_div_mod_converse(y * w + x, w, y, x);
}

/// The level with index `id` (counted from zero) in the level data: its grid,
/// its size as (width, height), and the player's start as (column, row); an
/// empty grid of size (0, 0) where the data holds fewer levels. `None` where
/// a record up to that level claims more tiles than the data holds.
pub fn try_load_map(bytes: &[u8], id: usize) -> (loaded: Option<(Vec<Vec<u8>>, (usize, usize), (usize, usize))>)
    requires
        bytes@.len() * 8 + 8 <= usize::MAX,
    ensures
        match find_level(bytes@, 0, 0, id as int) {
            LevelSearch::Found { grid, size, player } => loaded matches Some(l) && l.0.deep_view() == grid
                && l.1 == size && l.2 == player,
            LevelSearch::Missing => loaded matches Some(l) && l.0.deep_view() == Seq::<Seq<u8>>::empty()
                && l.1 == (0usize, 0usize) && l.2 == (0usize, 0usize),
            LevelSearch::Truncated => loaded is None,
        },
{
    let ghost b = bytes@;
    let mut byte_cursor: usize = 0;
    let mut level_index: usize = 0;

    while byte_cursor + 2 <= bytes.len()
        invariant
            b == bytes@,
            b.len() * 8 + 8 <= usize::MAX,
            byte_cursor <= b.len(),
            level_index <= id,
            find_level(b, byte_cursor as int, level_index as int, id as int) == find_level(b, 0, 0, id as int),
        decreases b.len() - byte_cursor,
    {
        let ghost offset = byte_cursor as int;
        let width = bytes[byte_cursor] as usize;
        let height = bytes[byte_cursor + 1] as usize;
        byte_cursor += 2;

        let mut map: Vec<Vec<u8>> = Vec::new();
        let mut player: (usize, usize) = (0, 0);
        let mut bit_cursor: usize = byte_cursor * 8;
        let ghost start = bit_cursor as int;
        let ghost w = width as nat;
        let ghost h = height as nat;

        let mut y: usize = 0;
        while y < height
            invariant
                b == bytes@,
                b.len() * 8 + 8 <= usize::MAX,
                0 <= start,
                0 <= offset,
                offset + 2 <= b.len(),
                start == (offset + 2) * 8,
                w == b[offset] as nat,
                h == b[offset + 1] as nat,
                find_level(b, offset, level_index as int, id as int) == find_level(b, 0, 0, id as int),
                y <= h,
                w == width,
                h == height,
                record_end(b, offset) == start + 3 * (w * h),
                0 <= y * w,
                bit_cursor == start + 3 * (y * w),
                bit_cursor <= b.len() * 8,
                map@.len() == y,
                forall|j: int| 0 <= j < y ==> #[trigger] map@[j]@ == level_grid(b, start, w, h)[j],
                player == start_cell(b, start, w, (y * w) as nat),
            decreases h - y,
        {
            let mut row: Vec<u8> = Vec::new();
            let mut x: usize = 0;
            while x < width
                invariant
                    b == bytes@,
                    b.len() * 8 + 8 <= usize::MAX,
                    0 <= start,
                    0 <= offset,
                    offset + 2 <= b.len(),
                    start == (offset + 2) * 8,
                    w == b[offset] as nat,
                    h == b[offset + 1] as nat,
                    find_level(b, offset, level_index as int, id as int) == find_level(b, 0, 0, id as int),
                    y < h,
                    x <= w,
                    w == width,
                    h == height,
                    record_end(b, offset) == start + 3 * (w * h),
                    0 <= y * w,
                    bit_cursor == start + 3 * (y * w + x),
                    bit_cursor <= b.len() * 8,
                    row@.len() == x,
                    forall|i: int| 0 <= i < x ==> #[trigger] row@[i] == level_grid(b, start, w, h)[y as int][i],
                    player == start_cell(b, start, w, (y * w + x) as nat),
                decreases w - x,
            {
                proof {
                    lemma_cell_index_bounds(x as int, y as int, w as int, h as int);
                }
                let ghost k = y * w + x;
                let code = match read_bits(bytes, &mut bit_cursor) {
                    Some(code) => code,
                    None => return None,
                };
                proof {
                    lemma_code_range(b, start + 3 * k);
                }
                let tile = match code {
                    1 => WALL,
                    2 => FLOOR,
                    3 => GOAL,
                    4 => GOAL,
                    5 => CRATE,
                    6 => {
                        player = (x, y);
                        PLAYER
                    },
                    _ => FLOOR,
                };
                proof {
                    lemma_cell_of_index(x as int, y as int, w as int);
                }
                row.push(tile);
                x += 1;
            }
            proof {
                lemma_next_row(y as int, w as int);
                assert(row@ =~= level_grid(b, start, w, h)[y as int]);
            }
            map.push(row);
            y += 1;
        }
        assert(map.deep_view() =~~= level_grid(b, start, w, h));
        proof {
            lemma_mul_commutes(h as int, w as int);
        }
        byte_cursor = (bit_cursor + 7) / 8;

        if level_index == id {
            return Some((map, (width, height), player));
        }
        if byte_cursor < bytes.len() && bytes[byte_cursor] == 0 {
            byte_cursor += 1;
        }
        level_index += 1;
    }
    let empty: Vec<Vec<u8>> = Vec::new();
    assert(empty.deep_view() =~= Seq::<Seq<u8>>::empty());
    Some((empty, (0, 0), (0, 0)))
}


/// Level `id` (counted from zero) can be loaded without the data running
/// out: no record up to it claims more tiles than the data holds.
pub open spec fn loadable(bytes: Seq<u8>, id: int) -> bool {
    !(find_level(bytes, 0, 0, id) is Truncated)
}

/// What loading level `id` (counted from zero) gives: the grid, its size as
/// (width, height) and the player's start; an empty grid where the data ends
/// before the level.
pub open spec fn loaded_level(bytes: Seq<u8>, id: int) -> (Seq<Seq<u8>>, (usize, usize), (usize, usize)) {
    match find_level(bytes, 0, 0, id) {
        LevelSearch::Found { grid, size, player } => (grid, size, player),
        _ => (Seq::empty(), (0, 0), (0, 0)),
    }
}

/// The level with index `id` (counted from zero) in the level data: its grid,
/// its size as (width, height), and the player's start as (column, row); an
/// empty grid of size (0, 0) where the data holds fewer levels.
pub fn load_map(bytes: &[u8], id: usize) -> (loaded: (Vec<Vec<u8>>, (usize, usize), (usize, usize)))
    requires
        bytes@.len() * 8 + 8 <= usize::MAX,
        loadable(bytes@, id as int),
    ensures
        (loaded.0.deep_view(), loaded.1, loaded.2) == loaded_level(bytes@, id as int),
        loaded.0.deep_view().len() == loaded.1.1,
        forall|y: int| 0 <= y < loaded.1.1 ==> #[trigger] loaded.0.deep_view()[y].len() == loaded.1.0,
        loaded.1.1 > 0 && loaded.1.0 > 0 ==> loaded.2.0 < loaded.1.0 && loaded.2.1 < loaded.1.1,
{
    match try_load_map(bytes, id) {
        Some(loaded) => {
            proof {
                if let LevelSearch::Found { grid, size, player } = find_level(bytes@, 0, 0, id as int) {
                    lemma_found_shape(bytes@, 0, 0, id as int);
                }
            }
            loaded
        },
        None => {
            assert(false);
            (Vec::new(), (0, 0), (0, 0))
        },
    }
}

/// Whether level `id` (counted from zero) can be loaded without the data
/// running out: false exactly where `load_map` would find a record up to that
/// level claiming more tiles than the data holds.
pub fn level_loads(bytes: &[u8], id: usize) -> (ok: bool)
    requires
        bytes@.len() * 8 + 8 <= usize::MAX,
    ensures
        ok == loadable(bytes@, id as int),
{
    try_load_map(bytes, id).is_some()
}

proof fn lemma_start_cell_bounds(bytes: Seq<u8>, start: int, width: nat, height: nat, k: nat)
    requires
        width > 0,
        height > 0,
        k <= width * height,
    ensures
        start_cell(bytes, start, width, k).0 < width,
        start_cell(bytes, start, width, k).1 < height,
    decreases k,
{
    if k > 0 {
        let i = k - 1;
        assert(i / (width as int) < height) by {
            vstd::arithmetic::div_mod::lemma_div_is_ordered(i, (width * height - 1) as int, width as int);
            assert((width * height - 1) as int / (width as int) == height - 1) by {
                assert(width * height - 1 == (height - 1) * width + (width - 1)) by (nonlinear_arith)
                    requires
                        width > 0,
                        height > 0,
                ;
                vstd::arithmetic::div_mod::lemma_fundamental_div_mod_converse(
                    (width * height - 1) as int,
                    width as int,
                    height - 1,
                    width - 1,
                );
            }
        }
        assert(0 <= i / (width as int)) by {
            vstd::arithmetic::div_mod::lemma_div_pos_is_pos(i, width as int);
        }
        lemma_start_cell_bounds(bytes, start, width, height, (k - 1) as nat);
    }
}

/// A level found in the data has as many rows as its height, each as long as
/// its width, and where it has cells the player starts on one of them.
proof fn lemma_found_shape(bytes: Seq<u8>, offset: int, index: int, id: int)
    requires
        find_level(bytes, offset, index, id) is Found,
    ensures
        ({
            let (grid, size, player) = (
                find_level(bytes, offset, index, id)->grid,
                find_level(bytes, offset, index, id)->size,
                find_level(bytes, offset, index, id)->player,
            );
            &&& grid.len() == size.1
            &&& forall|y: int| 0 <= y < size.1 ==> #[trigger] grid[y].len() == size.0
            &&& size.1 > 0 && size.0 > 0 ==> player.0 < size.0 && player.1 < size.1
        }),
    decreases bytes.len() - offset,
{
    if offset < 0 || offset + 2 > bytes.len() {
    } else if record_end(bytes, offset) > bytes.len() * 8 {
    } else if index == id {
        let width = bytes[offset] as nat;
        let height = bytes[offset + 1] as nat;
        if width > 0 && height > 0 {
            lemma_start_cell_bounds(bytes, (offset + 2) * 8, width, height, width * height);
        }
    } else {
        lemma_found_shape(bytes, next_record(bytes, offset), index + 1, id);
    }
}


/// Exactly one cell of the grid shows the player.
pub open spec fn one_player_tile(m: Seq<Seq<u8>>) -> bool {
    exists|x: int, y: int|
        #[trigger] in_grid(m, x, y) && is_player_tile(m[y][x]) && forall|x2: int, y2: int|
            #[trigger] in_grid(m, x2, y2) && is_player_tile(m[y2][x2]) ==> x2 == x && y2 == y
}

proof fn lemma_start_cell_unique(bytes: Seq<u8>, start: int, width: nat, k: nat, k0: int)
    requires
        width > 0,
        0 <= k0 < k,
        is_start_code(stream_code(bytes, start + 3 * k0)),
        forall|j: int| 0 <= j < k && is_start_code(#[trigger] stream_code(bytes, start + 3 * j)) ==> j == k0,
    ensures
        start_cell(bytes, start, width, k) == ((k0 % (width as int)) as usize, (k0 / (width as int)) as usize),
    decreases k,
{
    if k - 1 != k0 {
        lemma_start_cell_unique(bytes, start, width, (k - 1) as nat, k0);
    }
}

proof fn lemma_found_single_start(bytes: Seq<u8>, offset: int, index: int, id: int)
    requires
        find_level(bytes, offset, index, id) is Found,
        one_player_tile(find_level(bytes, offset, index, id)->grid),
    ensures
        player_placed(find_level(bytes, offset, index, id)->grid, find_level(bytes, offset, index, id)->player),
    decreases bytes.len() - offset,
{
    if offset < 0 || offset + 2 > bytes.len() {
    } else if record_end(bytes, offset) > bytes.len() * 8 {
    } else if index == id {
        let w = bytes[offset] as nat;
        let h = bytes[offset + 1] as nat;
        let start = (offset + 2) * 8;
        let grid = level_grid(bytes, start, w, h);
        let (x0, y0) = choose|x: int, y: int|
            #[trigger] in_grid(grid, x, y) && is_player_tile(grid[y][x]) && forall|x2: int, y2: int|
                #[trigger] in_grid(grid, x2, y2) && is_player_tile(grid[y2][x2]) ==> x2 == x && y2 == y;
        lemma_cell_index_bounds(x0, y0, w as int, h as int);
        lemma_cell_of_index(x0, y0, w as int);
        let k0 = y0 * w + x0;
        assert forall|j: int| 0 <= j < w * h && is_start_code(#[trigger] stream_code(bytes, start + 3 * j)) implies j
            == k0 by {
            let x = j % (w as int);
            let y = j / (w as int);
            vstd::arithmetic::div_mod::lemma_fundamental_div_mod(j, w as int);
            vstd::arithmetic::div_mod::lemma_div_pos_is_pos(j, w as int);
            assert(y < h) by {
                vstd::arithmetic::div_mod::lemma_div_is_ordered(j, (w * h - 1) as int, w as int);
                assert(w * h - 1 == (h - 1) * w + (w - 1)) by (nonlinear_arith)
                    requires
                        w > 0,
                        h > 0,
                ;
                vstd::arithmetic::div_mod::lemma_fundamental_div_mod_converse(
                    (w * h - 1) as int,
                    w as int,
                    h - 1,
                    w - 1,
                );
            }
            assert(j == y * w + x) by (nonlinear_arith)
                requires
                    j == (w as int) * (j / (w as int)) + j % (w as int),
                    x == j % (w as int),
                    y == j / (w as int),
            ;
            assert(in_grid(grid, x, y));
        }
        lemma_start_cell_unique(bytes, start, w, w * h, k0);
    } else {
        lemma_found_single_start(bytes, next_record(bytes, offset), index + 1, id);
    }
}

/// A loaded level on which exactly one cell shows the player is ready to
/// play: the start position the loader reports is that cell.
pub proof fn lemma_single_start_is_placed(bytes: Seq<u8>, id: int)
    requires
        one_player_tile(loaded_level(bytes, id).0),
    ensures
        player_placed(loaded_level(bytes, id).0, loaded_level(bytes, id).2),
{
    if find_level(bytes, 0, 0, id) is Found {
        lemma_found_single_start(bytes, 0, 0, id);
    }
}

} // verus!
