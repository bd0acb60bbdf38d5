use vstd::prelude::*;
use crate::config::MAX_LEVEL;
use crate::game::{check_win, copy_map, has_loose_crate, move_defined, move_player, move_result, GameState};
use crate::level::{lemma_single_start_is_placed, load_map, loadable, loaded_level, one_player_tile};
use crate::rules::{
    crate_count, lemma_move_keeps_crate_count, lemma_move_keeps_player_placed, player_placed,
};

verus! {

/// A saved moment of play, as values: the grid, the player's position and
/// the direction the player faces.
pub type Snapshot = (Seq<Seq<u8>>, (usize, usize), (i32, i32));

impl View for GameState {
    type V = Snapshot;

    open spec fn view(&self) -> Snapshot {
        (self.map.deep_view(), self.player, self.direction)
    }
}

/// The direction the player faces when a level begins: to the right.
pub open spec fn initial_direction() -> (i32, i32) {
    (1, 0)
}

/// A game in progress, as values.
pub struct GameView {
    pub levels: Seq<u8>,
    pub level: usize,
    pub map: Seq<Seq<u8>>,
    pub size: (usize, usize),
    pub player: (usize, usize),
    pub direction: (i32, i32),
    pub history: Seq<Snapshot>,
}

/// A game in progress: the level data, the level being played (counted from
/// one), its grid and size, the player's position and facing, and the moments
/// before each move since the level began, oldest first.
pub struct Game {
    pub levels: Vec<u8>,
    pub current_level: usize,
    pub map: Vec<Vec<u8>>,
    pub size: (usize, usize),
    pub player: (usize, usize),
    pub direction: (i32, i32),
    pub history: Vec<GameState>,
}

impl View for Game {
    type V = GameView;

    open spec fn view(&self) -> GameView {
        GameView {
            levels: self.levels@,
            level: self.current_level,
            map: self.map.deep_view(),
            size: self.size,
            player: self.player,
            direction: self.direction,
            history: Seq::new(self.history@.len(), |i: int| self.history@[i]@),
        }
    }
}

/// The game is on one of the levels it offers, and the size of its level
/// data in bits stays well inside `usize`.
pub open spec fn game_ok(g: GameView) -> bool {
    &&& g.levels.len() * 8 + 8 <= usize::MAX
    &&& 1 <= g.level <= MAX_LEVEL
}

/// Level `level` (counted from one) as freshly loaded: no history, facing right.
pub open spec fn spec_goto(g: GameView, level: usize) -> GameView {
    let loaded = loaded_level(g.levels, level - 1);
    GameView {
        level: level,
        map: loaded.0,
        size: loaded.1,
        player: loaded.2,
        direction: initial_direction(),
        history: Seq::empty(),
        ..g
    }
}

/// The current level's grid and start position reloaded, history cleared,
/// facing right; the recorded size is kept.
pub open spec fn spec_restart(g: GameView) -> GameView {
    let loaded = loaded_level(g.levels, g.level - 1);
    GameView { map: loaded.0, player: loaded.2, direction: initial_direction(), history: Seq::empty(), ..g }
}

/// The latest saved moment restored and dropped from the history; nothing
/// changes where the history is empty.
pub open spec fn spec_undo(g: GameView) -> GameView {
    if g.history.len() == 0 {
        g
    } else {
        let s = g.history.last();
        GameView { map: s.0, player: s.1, direction: s.2, history: g.history.drop_last(), ..g }
    }
}

/// The player turns to `direction` and tries to move; a move that goes
/// through saves the moment before it.
pub open spec fn spec_try_move(g: GameView, direction: (i32, i32)) -> GameView {
    match move_result(g.map, g.player, direction) {
        Some(after) => GameView {
            map: after.0,
            player: after.1,
            direction: direction,
            history: g.history.push((g.map, g.player, g.direction)),
            ..g
        },
        None => GameView { direction: direction, ..g },
    }
}

/// A solved level gives way to the next one, where there is a next one.
pub open spec fn spec_advance(g: GameView) -> GameView {
    if !has_loose_crate(g.map) && g.level < MAX_LEVEL {
        spec_goto(g, (g.level + 1) as usize)
    } else {
        g
    }
}

impl Game {
    /// A game on level 1 of the given level data.
    pub fn new(levels: Vec<u8>) -> (game: Game)
        requires
            levels@.len() * 8 + 8 <= usize::MAX,
            loadable(levels@, 0),
        ensures
            game@ == spec_goto(
                GameView {
                    levels: levels@,
                    level: 1,
                    map: Seq::empty(),
                    size: (0, 0),
                    player: (0, 0),
                    direction: initial_direction(),
                    history: Seq::empty(),
                },
                1,
            ),
            game_ok(game@),
            game.current_level == 1,
            (game.map.deep_view(), game.size, game.player) == loaded_level(levels@, 0),
            game.direction == (1i32, 0i32),
            game.history@.len() == 0,
            game.levels@ == levels@,
    {
        let (map, size, player) = load_map(levels.as_slice(), 0);
        let game = Game {
            levels,
            current_level: 1,
            map,
            size,
            player,
            direction: (1, 0),
            history: Vec::new(),
        };
        assert(game@.history =~= Seq::<Snapshot>::empty());
        game
    }

    /// Loads level `level` (counted from one) afresh: history cleared,
    /// facing right.
    pub fn goto_level(&mut self, level: usize)
        requires
            game_ok(old(self)@),
            1 <= level <= MAX_LEVEL,
            loadable(old(self)@.levels, level - 1),
        ensures
            final(self)@ == spec_goto(old(self)@, level),
            game_ok(final(self)@),
            final(self).current_level == level,
            (final(self).map.deep_view(), final(self).size, final(self).player) == loaded_level(
                old(self).levels@,
                level - 1,
            ),
            final(self).direction == (1i32, 0i32),
            final(self).history@.len() == 0,
            final(self).levels@ == old(self).levels@,
    {
        let (map, size, player) = load_map(self.levels.as_slice(), level - 1);
        self.current_level = level;
        self.map = map;
        self.size = size;
        self.player = player;
        self.history = Vec::new();
        self.direction = (1, 0);
        assert(self@.history =~= Seq::<Snapshot>::empty());
    }

    /// Starts the current level over: its grid and start position reloaded,
    /// history cleared, facing right.
    pub fn restart(&mut self)
        requires
            game_ok(old(self)@),
            loadable(old(self)@.levels, old(self)@.level - 1),
        ensures
            final(self)@ == spec_restart(old(self)@),
            game_ok(final(self)@),
            final(self).current_level == old(self).current_level,
            final(self).size == old(self).size,
            final(self).map.deep_view() == loaded_level(old(self).levels@, old(self).current_level - 1).0,
            final(self).player == loaded_level(old(self).levels@, old(self).current_level - 1).2,
            final(self).direction == (1i32, 0i32),
            final(self).history@.len() == 0,
            final(self).levels@ == old(self).levels@,
    {
        let (map, _size, player) = load_map(self.levels.as_slice(), self.current_level - 1);
        self.map = map;
        self.player = player;
        self.history = Vec::new();
        self.direction = (1, 0);
        assert(self@.history =~= Seq::<Snapshot>::empty());
    }

    /// Takes back the latest move: the moment before it is restored and
    /// dropped from the history. Nothing changes where there is no move to
    /// take back.
    pub fn undo(&mut self)
        ensures
            final(self)@ == spec_undo(old(self)@),
    {
        let ghost before = self@;
        match self.history.pop() {
            Some(saved) => {
                self.map = saved.map;
                self.player = saved.player;
                self.direction = saved.direction;
                assert(self@.history =~= before.history.drop_last());
            },
            None => {
                assert(self@.history =~= before.history);
            },
        }
    }

    /// Turns the player to `direction` and tries to move that way. A move
    /// that goes through saves the moment before it; one that is refused
    /// changes nothing but the facing. Returns whether the player moved.
    pub fn try_move(&mut self, direction: (i32, i32)) -> (moved: bool)
        requires
            move_defined(old(self).map.deep_view(), old(self).player, direction),
        ensures
            final(self)@ == spec_try_move(old(self)@, direction),
            moved == move_result(old(self)@.map, old(self)@.player, direction) is Some,
            final(self).direction == direction,
            final(self).current_level == old(self).current_level,
            moved ==> final(self)@.history == old(self)@.history.push(
                (old(self)@.map, old(self).player, old(self).direction),
            ),
            !moved ==> final(self)@.history == old(self)@.history && final(self)@.map == old(self)@.map
                && final(self).player == old(self).player,
    {
        let ghost before = self@;
        let saved = GameState { map: copy_map(&self.map), player: self.player, direction: self.direction };
        self.history.push(saved);
        self.direction = direction;
        let moved = move_player(&mut self.map, &mut self.player, direction);
        if !moved {
            self.history.pop();
            assert(self@.history =~= before.history);
        } else {
            assert(self@.history =~= before.history.push((before.map, before.player, before.direction)));
        }
        moved
    }

    /// Moves on to the next level once no crate is left off a goal, unless
    /// this is the last level. Returns whether it moved on.
    pub fn advance_if_won(&mut self) -> (advanced: bool)
        requires
            game_ok(old(self)@),
            !has_loose_crate(old(self)@.map) && old(self)@.level < MAX_LEVEL ==> loadable(
                old(self)@.levels,
                old(self)@.level as int,
            ),
        ensures
            final(self)@ == spec_advance(old(self)@),
            advanced == (!has_loose_crate(old(self)@.map) && old(self)@.level < MAX_LEVEL),
            game_ok(final(self)@),
            advanced ==> final(self).current_level == old(self).current_level + 1 && (
            final(self).map.deep_view(),
            final(self).size,
            final(self).player,
            ) == loaded_level(old(self).levels@, old(self).current_level as int) && final(self).history@.len()
                == 0,
            !advanced ==> final(self)@ == old(self)@,
    {
        if check_win(&self.map) && self.current_level < MAX_LEVEL {
            let next = self.current_level + 1;
            self.goto_level(next);
            true
        } else {
            false
        }
    }
}

/// The direction the arrow keys ask for: left, right, up and down are tried
/// in that order, and the first one pressed wins.
pub fn direction_for_keys(left: bool, right: bool, up: bool, down: bool) -> (direction: Option<(i32, i32)>)
    ensures
        direction == (if left {
            Some((-1i32, 0i32))
        } else if right {
            Some((1i32, 0i32))
        } else if up {
            Some((0i32, -1i32))
        } else if down {
            Some((0i32, 1i32))
        } else {
            None
        }),
{
    if left {
        Some((-1, 0))
    } else if right {
        Some((1, 0))
    } else if up {
        Some((0, -1))
    } else if down {
        Some((0, 1))
    } else {
        None
    }
}

/// Taking back a move that went through restores the game exactly as it was
/// before the move, facing included.
pub proof fn lemma_undo_restores(g: GameView, direction: (i32, i32))
    requires
        move_result(g.map, g.player, direction) is Some,
    ensures
        spec_undo(spec_try_move(g, direction)) == g,
{
    assert(spec_try_move(g, direction).history.drop_last() =~= g.history);
}

/// A refused move changes nothing but the way the player faces.
pub proof fn lemma_refused_move_only_turns(g: GameView, direction: (i32, i32))
    requires
        move_result(g.map, g.player, direction) is None,
    ensures
        spec_try_move(g, direction) == (GameView { direction: direction, ..g }),
{
}


/// After a restart there is nothing to take back.
pub proof fn lemma_restart_clears_undo(g: GameView)
    ensures
        spec_undo(spec_restart(g)) == spec_restart(g),
{
}

/// Every state of a level's play, the current one and each saved one, has
/// the player placed, and all have as many crates as the current one.
pub open spec fn play_consistent(g: GameView) -> bool {
    &&& player_placed(g.map, g.player)
    &&& forall|i: int|
        0 <= i < g.history.len() ==> player_placed(#[trigger] g.history[i].0, g.history[i].1)
            && crate_count(g.history[i].0) == crate_count(g.map)
}

/// Moving keeps play consistent: the player stays placed, and the saved
/// moments keep the crate count of the current grid.
pub proof fn lemma_move_keeps_play_consistent(g: GameView, direction: (i32, i32))
    requires
        play_consistent(g),
        move_defined(g.map, g.player, direction),
    ensures
        play_consistent(spec_try_move(g, direction)),
{
    if move_result(g.map, g.player, direction) is Some {
        lemma_move_keeps_player_placed(g.map, g.player, direction);
        lemma_move_keeps_crate_count(g.map, g.player, direction);
    }
}

/// Taking back a move keeps play consistent.
pub proof fn lemma_undo_keeps_play_consistent(g: GameView)
    requires
        play_consistent(g),
    ensures
        play_consistent(spec_undo(g)),
{
}


/// Changing level gives exactly the level as loaded from the level data:
/// its grid, size and start position, no history, facing right, on that level.
pub proof fn lemma_level_change_loads(g: GameView, level: usize)
    ensures
        ({
            let h = spec_goto(g, level);
            &&& h.level == level
            &&& (h.map, h.size, h.player) == loaded_level(g.levels, level - 1)
            &&& h.history.len() == 0
            &&& h.direction == (1i32, 0i32)
            &&& h.levels == g.levels
        }),
{
}

/// A level change to a level with exactly one player tile starts play
/// consistent: the player's position is that tile.
pub proof fn lemma_level_change_ready(g: GameView, level: usize)
    requires
        one_player_tile(loaded_level(g.levels, level - 1).0),
    ensures
        play_consistent(spec_goto(g, level)),
{
    lemma_single_start_is_placed(g.levels, level - 1);
}

/// Restarting is going to the current level again, except that the recorded
/// size is kept: the current level's grid and start position are reloaded.
pub proof fn lemma_restart_reloads_current_level(g: GameView)
    ensures
        spec_restart(g) == (GameView { size: g.size, ..spec_goto(g, g.level) }),
        spec_restart(g).map == loaded_level(g.levels, g.level - 1).0,
        spec_restart(g).player == loaded_level(g.levels, g.level - 1).2,
        spec_restart(g).level == g.level,
{
}

/// A restart on a level with exactly one player tile leaves play consistent.
pub proof fn lemma_restart_ready(g: GameView)
    requires
        one_player_tile(loaded_level(g.levels, g.level - 1).0),
    ensures
        play_consistent(spec_restart(g)),
{
    lemma_single_start_is_placed(g.levels, g.level - 1);
}

/// After trying a move the player faces the way asked, whether or not the
/// move went through; a move that goes through adds exactly the moment before
/// it to the history, and a refused one leaves grid, position and history as
/// they were.
pub proof fn lemma_try_move_faces_and_records(g: GameView, direction: (i32, i32))
    ensures
        ({
            let h = spec_try_move(g, direction);
            &&& h.direction == direction
            &&& h.level == g.level && h.levels == g.levels && h.size == g.size
            &&& move_result(g.map, g.player, direction) is Some ==> h.history.len() == g.history.len() + 1
                && h.history.last() == (g.map, g.player, g.direction) && h.history.drop_last() == g.history
                && (h.map, h.player) == move_result(g.map, g.player, direction)->Some_0
            &&& move_result(g.map, g.player, direction) is None ==> h.history == g.history && h.map == g.map
                && h.player == g.player
        }),
{
    if move_result(g.map, g.player, direction) is Some {
        assert(spec_try_move(g, direction).history.drop_last() =~= g.history);
    }
}

/// Winning a level that is not the last moves to the next one, freshly
/// loaded; otherwise nothing changes.
pub proof fn lemma_win_advances(g: GameView)
    ensures
        !has_loose_crate(g.map) && g.level < MAX_LEVEL ==> {
            let h = spec_advance(g);
            &&& h.level == g.level + 1
            &&& (h.map, h.size, h.player) == loaded_level(g.levels, g.level as int)
            &&& h.history.len() == 0
        },
        has_loose_crate(g.map) || g.level >= MAX_LEVEL ==> spec_advance(g) == g,
{
}

} // verus!
