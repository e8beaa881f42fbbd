//! The board: grid, collision, gravity, line clearing, scoring.

use vstd::prelude::*;

verus! {

use crate::piece::{
    Piece, PieceModel, canonical_layout, cell_out_of_bounds, in_bounds, is_spawn, occupied,
    piece_wf, spec_out_of_bounds,
};
use crate::tile::Tile;

/// Number of columns of the playing field.
pub const BOARD_WIDTH: usize = 10;

/// Number of rows of the playing field.
pub const BOARD_HEIGHT: usize = 20;

/// Column of a freshly spawned piece's layout anchor.
pub const PIECE_START_X: i8 = 4;

/// Row of a freshly spawned piece's layout anchor; negative so a piece
/// enters the field from above.
pub const PIECE_START_Y: i8 = -1;

/// The highest level the bump over the starting level can reach.
pub const MAX_LEVEL: u8 = u8::MAX;

/// Gravity interval a board starts with, before the level table is applied.
const STARTING_TICK_TIME_MILLIS: u64 = 1000;

/// Flat addend of the slower late-game gravity steps.
const TICK_CURVE: u64 = 15;

/// A well-shaped grid: 20 rows of 10 tiles.
pub open spec fn grid_wf(t: Seq<Seq<Tile>>) -> bool {
    t.len() == BOARD_HEIGHT && forall|y: int|
        0 <= y < BOARD_HEIGHT ==> (#[trigger] t[y]).len() == BOARD_WIDTH
}

/// A row with every cell empty.
pub open spec fn empty_row() -> Seq<Tile> {
    Seq::new(BOARD_WIDTH as nat, |x: int| None)
}

/// A grid with every cell empty.
pub open spec fn empty_grid() -> Seq<Seq<Tile>> {
    Seq::new(BOARD_HEIGHT as nat, |y: int| empty_row())
}

/// The mathematical contents of the executable tile array.
pub open spec fn rows_view(t: [[Tile; BOARD_WIDTH]; BOARD_HEIGHT]) -> Seq<Seq<Tile>> {
    Seq::new(BOARD_HEIGHT as nat, |y: int| t@[y]@)
}

/// A row is full when every one of its cells is occupied.
pub open spec fn row_full(row: Seq<Tile>) -> bool {
    forall|x: int| 0 <= x < BOARD_WIDTH ==> (#[trigger] row[x]) is Some
}

/// How many rows of the grid are full.
pub open spec fn count_full(rows: Seq<Seq<Tile>>) -> int
    decreases rows.len(),
{
    if rows.len() == 0 {
        0
    } else {
        (if row_full(rows.first()) {
            1int
        } else {
            0int
        }) + count_full(rows.drop_first())
    }
}

/// The grid's rows that are not full, in order.
pub open spec fn keep_rows(rows: Seq<Seq<Tile>>) -> Seq<Seq<Tile>>
    decreases rows.len(),
{
    if rows.len() == 0 {
        Seq::empty()
    } else if row_full(rows.first()) {
        keep_rows(rows.drop_first())
    } else {
        seq![rows.first()] + keep_rows(rows.drop_first())
    }
}

/// `n` empty rows.
pub open spec fn empty_rows(n: int) -> Seq<Seq<Tile>> {
    Seq::new(n as nat, |k: int| empty_row())
}

/// The grid after removing every full row: the surviving rows shift to the
/// bottom and fresh empty rows enter from the top.
pub open spec fn cleared_grid(rows: Seq<Seq<Tile>>) -> Seq<Seq<Tile>> {
    empty_rows(count_full(rows)) + keep_rows(rows)
}

/// Removing full rows keeps the total row count.
pub proof fn lemma_count_keep(rows: Seq<Seq<Tile>>)
    ensures
        keep_rows(rows).len() + count_full(rows) == rows.len(),
        0 <= count_full(rows) <= rows.len(),
    decreases rows.len(),
{
    if rows.len() > 0 {
        lemma_count_keep(rows.drop_first());
    }
}

/// Whether field cell `(y, x)` lies under an occupied cell of piece `p`.
pub open spec fn piece_covers(p: PieceModel, y: int, x: int) -> bool {
    let i = y - p.coord.1;
    let j = x - p.coord.0;
    0 <= i < 4 && 0 <= j < 4 && occupied(p.layout, i, j)
}

/// The piece's tile over field cell `(y, x)`.
pub open spec fn piece_cell(p: PieceModel, y: int, x: int) -> Tile {
    p.layout[y - p.coord.1][x - p.coord.0]
}

/// The grid with the piece's blocks written into it.
pub open spec fn merged_grid(t: Seq<Seq<Tile>>, p: PieceModel) -> Seq<Seq<Tile>> {
    Seq::new(
        BOARD_HEIGHT as nat,
        |y: int|
            Seq::new(
                BOARD_WIDTH as nat,
                |x: int|
                    if piece_covers(p, y, x) {
                        piece_cell(p, y, x)
                    } else {
                        t[y][x]
                    },
            ),
    )
}

/// Locking the piece would lose the game: some block still resolves to a
/// row above the visible field.
pub open spec fn lock_lost(p: PieceModel) -> bool {
    exists|i: int, j: int|
        0 <= i < 4 && 0 <= j < 4 && #[trigger] occupied(p.layout, i, j) && i + p.coord.1 < 0
}

/// Some block of the piece lands on an already occupied grid cell.  Only
/// cells inside the visible field are consulted.
pub open spec fn intersects_grid(t: Seq<Seq<Tile>>, p: PieceModel) -> bool {
    exists|i: int, j: int|
        0 <= i < 4 && 0 <= j < 4 && #[trigger] occupied(p.layout, i, j) && 0 <= j + p.coord.0
            < BOARD_WIDTH && 0 <= i + p.coord.1 < BOARD_HEIGHT && t[i + p.coord.1][j
            + p.coord.0] is Some
}

/// A piece placement the board accepts: within bounds and not overlapping
/// any settled block.
pub open spec fn valid_for_grid(t: Seq<Seq<Tile>>, p: PieceModel) -> bool {
    !spec_out_of_bounds(p) && !intersects_grid(t, p)
}

/// Points awarded for clearing `n` rows at once, before the level factor.
pub open spec fn spec_line_points(n: int) -> int {
    if n == 1 {
        100
    } else if n == 2 {
        300
    } else if n == 3 {
        500
    } else if n == 4 {
        800
    } else {
        0
    }
}

/// The gravity interval, in milliseconds, played at each level.
pub open spec fn spec_tick_millis(level: u8) -> u64 {
    if level == 0 {
        800
    } else if level == 1 {
        717
    } else if level == 2 {
        633
    } else if level == 3 {
        550
    } else if level == 4 {
        467
    } else if level == 5 {
        383
    } else if level == 6 {
        300
    } else if level == 7 {
        217
    } else if level == 8 {
        133
    } else if level == 9 {
        100
    } else if level <= 12 {
        98
    } else if level <= 15 {
        82
    } else if level <= 18 {
        65
    } else if level <= 28 {
        48
    } else {
        17
    }
}

/// The gravity interval never grows as the level rises.
pub proof fn lemma_tick_millis_monotone(l1: u8, l2: u8)
    requires
        l1 <= l2,
    ensures
        spec_tick_millis(l1) >= spec_tick_millis(l2),
{
}

/// The level reached with `lines` cleared from starting level `slvl`: the
/// starting level plus one for every `10 * slvl` lines, capped.
pub open spec fn spec_level_for(slvl: u8, lines: u32) -> int
    recommends
        slvl >= 1,
{
    let bump = lines as int / (10 * slvl as int);
    slvl + (if bump > MAX_LEVEL as int {
        MAX_LEVEL as int
    } else {
        bump
    })
}

/// The mathematical image of a [`Board`].
#[verifier::ext_equal]
pub struct BoardModel {
    pub tiles: Seq<Seq<Tile>>,
    pub lost: bool,
    pub current_piece: PieceModel,
    pub next_piece: PieceModel,
    pub held_piece: Option<PieceModel>,
    pub can_hold: bool,
    pub last_tick: u64,
    pub tick_millis: u64,
    pub score: u32,
    pub lines: u32,
    pub level: u8,
    pub starting_level: u8,
    pub high_score: u32,
    pub ghost_piece_on: bool,
}

/// A well-formed board: a 20-by-10 grid, a starting level of at least 1,
/// and well-formed, in-bounds active, next and held pieces.
pub open spec fn board_wf(b: BoardModel) -> bool {
    &&& grid_wf(b.tiles)
    &&& b.starting_level >= 1
    &&& piece_wf(b.current_piece) && in_bounds(b.current_piece)
    &&& piece_wf(b.next_piece) && in_bounds(b.next_piece)
    &&& (b.held_piece matches Some(p) ==> piece_wf(p) && in_bounds(p))
}

/// Any piece anchored at the spawn coordinate lies within bounds.
pub proof fn lemma_spawn_coord_in_bounds(p: PieceModel)
    requires
        p.coord == (PIECE_START_X, PIECE_START_Y),
    ensures
        in_bounds(p),
{
    assert forall|i: int, j: int| 0 <= i < 4 && 0 <= j < 4 implies !cell_out_of_bounds(p, i, j) by {
        assert(0 <= j + p.coord.0 < BOARD_WIDTH);
        assert(i + p.coord.1 < BOARD_HEIGHT);
    }
}

/// Whether the game has been lost.
enum LossState {
    NotLost,
    Lost,
}

/// Whether one refresh advanced gravity.
#[derive(Clone, Copy, Debug, PartialEq, Eq, Structural)]
pub enum TickState {
    NotTicked,
    Ticked,
}

/// The configuration a board is created with.
#[derive(Clone, Copy, Debug, PartialEq, Eq, Structural)]
pub struct BoardSettings {
    pub starting_level: u8,
    pub ghost_piece_on: bool,
    pub high_score: u32,
}

/// The whole state of one game: the settled grid, the pieces in play, the
/// timing state and the statistics.
pub struct Board {
    tiles: [[Tile; BOARD_WIDTH]; BOARD_HEIGHT],
    loss_state: LossState,
    current_piece: Piece,
    next_piece: Piece,
    held_piece: Option<Piece>,
    can_hold: bool,
    last_tick: u64,
    tick_millis: u64,
    score: u32,
    lines: u32,
    level: u8,
    starting_level: u8,
    high_score: u32,
    ghost_piece_on: bool,
}

impl View for Board {
    type V = BoardModel;

    closed spec fn view(&self) -> BoardModel {
        BoardModel {
            tiles: rows_view(self.tiles),
            lost: self.loss_state is Lost,
            current_piece: self.current_piece@,
            next_piece: self.next_piece@,
            held_piece: match self.held_piece {
                Some(p) => Some(p@),
                None => None,
            },
            can_hold: self.can_hold,
            last_tick: self.last_tick,
            tick_millis: self.tick_millis,
            score: self.score,
            lines: self.lines,
            level: self.level,
            starting_level: self.starting_level,
            high_score: self.high_score,
            ghost_piece_on: self.ghost_piece_on,
        }
    }
}

/// A board as it stands at the start of a game.
pub open spec fn fresh_board(
    post: BoardModel,
    slvl: u8,
    ghost_on: bool,
    high: u32,
    now: u64,
) -> bool {
    &&& post.tiles == empty_grid()
    &&& !post.lost
    &&& is_spawn(post.current_piece)
    &&& is_spawn(post.next_piece)
    &&& post.held_piece is None
    &&& post.can_hold
    &&& post.last_tick == now
    &&& post.tick_millis == spec_tick_millis(slvl)
    &&& post.score == 0
    &&& post.lines == 0
    &&& post.level == slvl
    &&& post.starting_level == slvl
    &&& post.high_score == high
    &&& post.ghost_piece_on == ghost_on
}

impl Board {
    /// A new board for the given configuration.  `now_millis` is the
    /// caller's clock reading, from which gravity is timed.
    pub fn new(settings: BoardSettings, now_millis: u64) -> (r: Self)
        ensures
            fresh_board(
                r@,
                settings.starting_level,
                settings.ghost_piece_on,
                settings.high_score,
                now_millis,
            ),
            settings.starting_level >= 1 ==> board_wf(r@),
    {
        let mut board = Board {
            tiles: [[None; BOARD_WIDTH]; BOARD_HEIGHT],
            loss_state: LossState::NotLost,
            current_piece: Piece::random_new().at(PIECE_START_X, PIECE_START_Y),
            next_piece: Piece::random_new().at(PIECE_START_X, PIECE_START_Y),
            held_piece: None,
            can_hold: true,
            last_tick: now_millis,
            tick_millis: STARTING_TICK_TIME_MILLIS,
            score: 0,
            lines: 0,
            level: settings.starting_level,
            starting_level: settings.starting_level,
            high_score: settings.high_score,
            ghost_piece_on: settings.ghost_piece_on,
        };
        board.update_tick_time();
        proof {
            assert(rows_view(board.tiles) =~~= empty_grid());
            crate::piece::lemma_canonical_piece_wf(board@.current_piece.piece_type);
            crate::piece::lemma_canonical_piece_wf(board@.next_piece.piece_type);
            lemma_spawn_coord_in_bounds(board@.current_piece);
            lemma_spawn_coord_in_bounds(board@.next_piece);
        }
        board
    }

    /// Sets both the starting level and the current level, as done when a
    /// fresh board is configured after a restart.
    pub fn reset_starting_and_current_level(&mut self, lvl: u8)
        ensures
            final(self)@ == (BoardModel { level: lvl, starting_level: lvl, ..old(self)@ }),
    {
        self.starting_level = lvl;
        self.level = lvl;
    }

    /// The board's current configuration, used to preserve settings when
    /// the board is reset.
    pub fn get_settings(&self) -> (r: BoardSettings)
        ensures
            r.starting_level == self@.starting_level,
            r.ghost_piece_on == self@.ghost_piece_on,
            r.high_score == self@.high_score,
    {
        BoardSettings {
            starting_level: self.starting_level,
            ghost_piece_on: self.ghost_piece_on,
            high_score: self.high_score,
        }
    }

    /// Re-derives the gravity interval from the current level.
    pub fn update_tick_time(&mut self)
        ensures
            final(self)@ == (BoardModel {
                tick_millis: spec_tick_millis(old(self)@.level),
                ..old(self)@
            }),
    {
        let millis: u64 = if self.level == 0 {
            800
        } else if self.level == 1 {
            717
        } else if self.level == 2 {
            633
        } else if self.level == 3 {
            550
        } else if self.level == 4 {
            467
        } else if self.level == 5 {
            383
        } else if self.level == 6 {
            300
        } else if self.level == 7 {
            217
        } else if self.level == 8 {
            133
        } else if self.level == 9 {
            100
        } else if self.level <= 12 {
            83 + TICK_CURVE
        } else if self.level <= 15 {
            67 + TICK_CURVE
        } else if self.level <= 18 {
            50 + TICK_CURVE
        } else if self.level <= 28 {
            33 + TICK_CURVE
        } else {
            17
        };
        self.tick_millis = millis;
    }
}

} // verus!

verus! {

use crate::piece::{Movement, lemma_moved_wf, move_arith_ok, moved};

/// Occupied cell `(i, j)` of the piece lands inside the field on an
/// already occupied grid cell.
pub open spec fn cell_hits(t: Seq<Seq<Tile>>, p: PieceModel, i: int, j: int) -> bool {
    occupied(p.layout, i, j) && 0 <= j + p.coord.0 < BOARD_WIDTH && 0 <= i + p.coord.1
        < BOARD_HEIGHT && t[i + p.coord.1][j + p.coord.0] is Some
}

/// On a well-formed, in-bounds piece every movement's coordinate
/// arithmetic stays within `i8`.
pub proof fn lemma_move_arith_ok(p: PieceModel, m: Movement)
    requires
        piece_wf(p),
        in_bounds(p),
    ensures
        move_arith_ok(p, m),
{
    let (i0, j0) = choose|i0: int, j0: int|
        0 <= i0 < 4 && 0 <= j0 < 4 && #[trigger] occupied(p.layout, i0, j0);
    assert(!cell_out_of_bounds(p, i0, j0));
}

impl Board {
    /// Whether any block of the piece lands on an already settled block.
    /// Cells outside the visible field are ignored.
    pub fn check_if_piece_intersects_any_blocks(&self, piece: &Piece) -> (r: bool)
        ensures
            r == intersects_grid(self@.tiles, piece@),
    {
        let coord = piece.coord();
        let mut i: usize = 0;
        while i < 4
            invariant
                i <= 4,
                coord == piece@.coord,
                forall|i0: int, j0: int|
                    0 <= i0 < i && 0 <= j0 < 4 ==> !cell_hits(self@.tiles, piece@, i0, j0),
            decreases 4 - i,
        {
            let mut j: usize = 0;
            while j < 4
                invariant
                    i < 4,
                    j <= 4,
                    coord == piece@.coord,
                    forall|i0: int, j0: int|
                        0 <= i0 < i && 0 <= j0 < 4 ==> !cell_hits(self@.tiles, piece@, i0, j0),
                    forall|j0: int| 0 <= j0 < j ==> !cell_hits(self@.tiles, piece@, i as int, j0),
                decreases 4 - j,
            {
                let tile = piece.layout()[i][j];
                if tile.is_some() {
                    let x: i16 = j as i16 + coord.0 as i16;
                    let y: i16 = i as i16 + coord.1 as i16;
                    if 0 <= x && x < BOARD_WIDTH as i16 && 0 <= y && y < BOARD_HEIGHT as i16 {
                        if self.tiles[y as usize][x as usize].is_some() {
                            proof {
                                assert(cell_hits(self@.tiles, piece@, i as int, j as int));
                            }
                            return true;
                        }
                    }
                }
                j = j + 1;
            }
            i = i + 1;
        }
        proof {
            assert forall|i0: int, j0: int|
                0 <= i0 < 4 && 0 <= j0 < 4 implies !(#[trigger] occupied(piece@.layout, i0, j0)
                && 0 <= j0 + piece@.coord.0 < BOARD_WIDTH && 0 <= i0 + piece@.coord.1
                < BOARD_HEIGHT && self@.tiles[i0 + piece@.coord.1][j0 + piece@.coord.0] is Some) by {
                assert(!cell_hits(self@.tiles, piece@, i0, j0));
            }
        }
        false
    }

    /// Whether the board accepts this piece placement: inside the field's
    /// bounds, and not overlapping any settled block.  Bounds are decided
    /// first, so occupancy is only ever consulted on in-bounds cells.
    pub fn valid_piece(&self, piece: &Piece) -> (r: bool)
        ensures
            r == valid_for_grid(self@.tiles, piece@),
    {
        let r = !piece.is_out_of_bounds() && !self.check_if_piece_intersects_any_blocks(piece);
        proof {
            if intersects_grid(self@.tiles, piece@) {
                let (i0, j0) = choose|i0: int, j0: int|
                    0 <= i0 < 4 && 0 <= j0 < 4 && #[trigger] occupied(piece@.layout, i0, j0) && 0
                        <= j0 + piece@.coord.0 < BOARD_WIDTH && 0 <= i0 + piece@.coord.1
                        < BOARD_HEIGHT && self@.tiles[i0 + piece@.coord.1][j0
                        + piece@.coord.0] is Some;
                assert(cell_hits(self@.tiles, piece@, i0, j0));
            }
            if exists|i0: int, j0: int|
                0 <= i0 < 4 && 0 <= j0 < 4 && #[trigger] cell_hits(self@.tiles, piece@, i0, j0) {
                let (i0, j0) = choose|i0: int, j0: int|
                    0 <= i0 < 4 && 0 <= j0 < 4 && #[trigger] cell_hits(self@.tiles, piece@, i0, j0);
                assert(occupied(piece@.layout, i0, j0) && 0 <= j0 + piece@.coord.0 < BOARD_WIDTH
                    && 0 <= i0 + piece@.coord.1 < BOARD_HEIGHT && self@.tiles[i0 + piece@.coord.1][
                    j0 + piece@.coord.0] is Some);
            }
        }
        r
    }

    /// Tries one movement on the active piece: the transformed copy is
    /// committed only if the board accepts it; otherwise the piece keeps
    /// its prior state.
    pub fn try_current_piece_movement(&mut self, m: Movement) -> (r: bool)
        requires
            board_wf(old(self)@),
        ensures
            ({
                let cand = moved(old(self)@.current_piece, m);
                if valid_for_grid(old(self)@.tiles, cand) {
                    r && final(self)@ == (BoardModel { current_piece: cand, ..old(self)@ })
                } else {
                    !r && final(self)@ == old(self)@
                }
            }),
            board_wf(final(self)@),
    {
        proof {
            lemma_move_arith_ok(self@.current_piece, m);
        }
        let mut temp = self.current_piece.clone();
        temp.apply_movement(m);
        if self.valid_piece(&temp) {
            self.current_piece = temp;
            proof {
                lemma_moved_wf(old(self)@.current_piece, m);
            }
            true
        } else {
            false
        }
    }

    /// Tries one movement on a caller-owned piece against this board's
    /// grid, with the same commit-or-discard rule.  This is how the ghost
    /// piece is dropped without touching the game state.
    pub fn try_piece_movement(&self, piece: &mut Piece, m: Movement) -> (r: bool)
        requires
            piece_wf(old(piece)@),
            in_bounds(old(piece)@),
        ensures
            ({
                let cand = moved(old(piece)@, m);
                if valid_for_grid(self@.tiles, cand) {
                    r && final(piece)@ == cand
                } else {
                    !r && final(piece)@ == old(piece)@
                }
            }),
            piece_wf(final(piece)@),
            in_bounds(final(piece)@),
    {
        proof {
            lemma_move_arith_ok(piece@, m);
        }
        let mut temp = piece.clone();
        temp.apply_movement(m);
        if self.valid_piece(&temp) {
            *piece = temp;
            proof {
                lemma_moved_wf(old(piece)@, m);
            }
            true
        } else {
            false
        }
    }

    /// Replaces the active piece, for a deterministic embedding of the
    /// engine (tests, replays).
    pub fn set_current_piece(&mut self, piece: Piece)
        requires
            piece_wf(piece@),
            in_bounds(piece@),
        ensures
            final(self)@ == (BoardModel { current_piece: piece@, ..old(self)@ }),
    {
        self.current_piece = piece;
    }

    /// Writes one grid cell, for a deterministic embedding of the engine
    /// (tests, replays).
    pub fn set_tile(&mut self, y: usize, x: usize, tile: Tile)
        requires
            y < BOARD_HEIGHT,
            x < BOARD_WIDTH,
        ensures
            final(self)@ == (BoardModel {
                tiles: old(self)@.tiles.update(
                    y as int,
                    old(self)@.tiles[y as int].update(x as int, tile),
                ),
                ..old(self)@
            }),
    {
        self.tiles[y][x] = tile;
        proof {
            assert(rows_view(self.tiles) =~~= old(self)@.tiles.update(
                y as int,
                old(self)@.tiles[y as int].update(x as int, tile),
            ));
        }
    }

    /// One grid cell of the settled field.
    pub fn tile(&self, y: usize, x: usize) -> (r: Tile)
        requires
            y < BOARD_HEIGHT,
            x < BOARD_WIDTH,
        ensures
            r == self@.tiles[y as int][x as int],
    {
        self.tiles[y][x]
    }

    /// The active piece.
    pub fn current_piece(&self) -> (r: Piece)
        ensures
            r@ == self@.current_piece,
    {
        self.current_piece
    }

    /// The piece that enters play after the next lock.
    pub fn next_piece(&self) -> (r: Piece)
        ensures
            r@ == self@.next_piece,
    {
        self.next_piece
    }

    /// The held piece, if any.
    pub fn held_piece(&self) -> (r: Option<Piece>)
        ensures
            r is Some <==> self@.held_piece is Some,
            r matches Some(p) ==> self@.held_piece == Some(p@),
    {
        self.held_piece
    }

    /// Whether the hold slot may be used before the next lock.
    pub fn can_hold(&self) -> (r: bool)
        ensures
            r == self@.can_hold,
    {
        self.can_hold
    }

    /// The score accumulated so far.
    pub fn score(&self) -> (r: u32)
        ensures
            r == self@.score,
    {
        self.score
    }

    /// How many lines have been cleared so far.
    pub fn lines(&self) -> (r: u32)
        ensures
            r == self@.lines,
    {
        self.lines
    }

    /// The current level.
    pub fn level(&self) -> (r: u8)
        ensures
            r == self@.level,
    {
        self.level
    }

    /// The high score carried across games.
    pub fn high_score(&self) -> (r: u32)
        ensures
            r == self@.high_score,
    {
        self.high_score
    }

    /// Whether the game has been lost.
    pub fn is_lost(&self) -> (r: bool)
        ensures
            r == self@.lost,
    {
        match self.loss_state {
            LossState::Lost => true,
            LossState::NotLost => false,
        }
    }

    /// Enables or disables the ghost-piece preview.
    pub fn set_ghost_piece_on(&mut self, on: bool)
        ensures
            final(self)@ == (BoardModel { ghost_piece_on: on, ..old(self)@ }),
    {
        self.ghost_piece_on = on;
    }

    /// Whether the ghost-piece preview is enabled.
    pub fn ghost_piece_on(&self) -> (r: bool)
        ensures
            r == self@.ghost_piece_on,
    {
        self.ghost_piece_on
    }

    /// The current gravity interval in milliseconds.
    pub fn tick_millis(&self) -> (r: u64)
        ensures
            r == self@.tick_millis,
    {
        self.tick_millis
    }
}

} // verus!

verus! {

/// An empty row is never full.
proof fn lemma_empty_row_not_full()
    ensures
        !row_full(empty_row()),
{
    assert(empty_row()[0] is None);
}

/// Walking one row into the suffix of a grid splits its full-row count and
/// surviving rows at that row.
proof fn lemma_suffix_step(rows: Seq<Seq<Tile>>, p: int)
    requires
        0 <= p < rows.len(),
    ensures
        count_full(rows.subrange(p, rows.len() as int)) == (if row_full(rows[p]) {
            1int
        } else {
            0int
        }) + count_full(rows.subrange(p + 1, rows.len() as int)),
        keep_rows(rows.subrange(p, rows.len() as int)) == (if row_full(rows[p]) {
            keep_rows(rows.subrange(p + 1, rows.len() as int))
        } else {
            seq![rows[p]] + keep_rows(rows.subrange(p + 1, rows.len() as int))
        }),
{
    let s = rows.subrange(p, rows.len() as int);
    assert(s.first() == rows[p]);
    assert(s.drop_first() =~= rows.subrange(p + 1, rows.len() as int));
}

/// The loop invariant of [`Board::clear_any_full_lines`]: rows `i..20`
/// have been scanned.  Of the original grid `g0`, the rows of its suffix
/// `p..20` have been consumed: its `c` full rows were removed and its
/// surviving rows, below any empties that have drifted into the scanned
/// region, stand at the bottom; the unscanned region holds the remaining
/// original rows under the empties created so far.
spec fn clear_loop_inv(g0: Seq<Seq<Tile>>, t: Seq<Seq<Tile>>, i: int, c: int) -> bool {
    let p = if i >= c {
        i - c
    } else {
        0int
    };
    let e = if c >= i {
        c - i
    } else {
        0int
    };
    &&& 0 <= i <= 20
    &&& 0 <= c <= 20
    &&& t.len() == 20
    &&& t.subrange(0, i) == empty_rows(if c <= i {
        c
    } else {
        i
    }) + g0.subrange(0, p)
    &&& t.subrange(i, 20) == empty_rows(e) + keep_rows(g0.subrange(p, 20))
    &&& c == count_full(g0.subrange(p, 20))
}

impl Board {
    /// Whether every cell of row `y` is occupied.
    fn is_row_full(&self, y: usize) -> (r: bool)
        requires
            y < BOARD_HEIGHT,
        ensures
            r == row_full(self@.tiles[y as int]),
    {
        let mut x: usize = 0;
        while x < BOARD_WIDTH
            invariant
                x <= 10,
                y < 20,
                forall|x0: int| 0 <= x0 < x ==> self@.tiles[y as int][x0] is Some,
            decreases 10 - x,
        {
            if self.tiles[y][x].is_none() {
                proof {
                    assert(!(self@.tiles[y as int][x as int] is Some));
                }
                return false;
            }
            x = x + 1;
        }
        true
    }

    /// Removes row `row`: every row above it shifts down one, and the top
    /// row becomes empty.
    pub fn clear_line_and_shift_down(&mut self, row: usize)
        requires
            row < BOARD_HEIGHT,
        ensures
            final(self)@ == (BoardModel {
                tiles: seq![empty_row()] + old(self)@.tiles.subrange(0, row as int) + old(
                    self,
                )@.tiles.subrange(row as int + 1, BOARD_HEIGHT as int),
                ..old(self)@
            }),
    {
        let mut k: usize = row;
        while k >= 1
            invariant
                k <= row,
                row < 20,
                self@ == (BoardModel { tiles: self@.tiles, ..old(self)@ }),
                forall|m: int| 0 <= m <= k ==> self@.tiles[m] == old(self)@.tiles[m],
                forall|m: int| k < m <= row ==> self@.tiles[m] == old(self)@.tiles[m - 1],
                forall|m: int| row < m < 20 ==> self@.tiles[m] == old(self)@.tiles[m],
            decreases k,
        {
            let ghost t_prev = self@.tiles;
            self.tiles[k] = self.tiles[k - 1];
            proof {
                assert(self@.tiles =~~= t_prev.update(k as int, t_prev[k as int - 1]));
            }
            k = k - 1;
        }
        let ghost t_bef = self@.tiles;
        self.tiles[0] = [None; BOARD_WIDTH];
        proof {
            assert(rows_view(self.tiles)[0] =~= empty_row());
            assert(self@.tiles =~~= t_bef.update(0, empty_row()));
            assert(rows_view(self.tiles) =~~= seq![empty_row()] + old(self)@.tiles.subrange(
                0,
                row as int,
            ) + old(self)@.tiles.subrange(row as int + 1, BOARD_HEIGHT as int));
        }
    }

    /// Adds the points for clearing `num_cleared` rows at once, scaled by
    /// the current level.
    pub fn award_points_from_lines_cleared(&mut self, num_cleared: u8)
        requires
            old(self)@.score + spec_line_points(num_cleared as int) * old(self)@.level
                <= u32::MAX,
        ensures
            final(self)@ == (BoardModel {
                score: (old(self)@.score + spec_line_points(num_cleared as int) * old(
                    self,
                )@.level) as u32,
                ..old(self)@
            }),
    {
        let points: u32 = match num_cleared {
            1 => 100,
            2 => 300,
            3 => 500,
            4 => 800,
            _ => 0,
        };
        proof {
            let lvl = self@.level;
            assert(points * lvl <= 800 * 255) by (nonlinear_arith)
                requires
                    points <= 800,
                    lvl <= 255,
            ;
        }
        let points: u32 = points * self.level as u32;
        self.score = self.score + points;
    }

    /// Scans the grid bottom to top and removes every full row; rows above
    /// a removed row shift down and empty rows enter from the top.  The
    /// points for the clear and the line count are then added.
    pub fn clear_any_full_lines(&mut self)
        requires
            old(self)@.score + spec_line_points(count_full(old(self)@.tiles)) * old(self)@.level
                <= u32::MAX,
            old(self)@.lines + count_full(old(self)@.tiles) <= u32::MAX,
        ensures
            final(self)@ == (BoardModel {
                tiles: cleared_grid(old(self)@.tiles),
                score: (old(self)@.score + spec_line_points(count_full(old(self)@.tiles)) * old(
                    self,
                )@.level) as u32,
                lines: (old(self)@.lines + count_full(old(self)@.tiles)) as u32,
                ..old(self)@
            }),
    {
        let ghost g0 = self@.tiles;
        proof {
            lemma_count_keep(g0);
            assert(g0.subrange(0, 20) =~= g0);
            assert(self@.tiles.subrange(0, 20) =~= empty_rows(0) + g0.subrange(0, 20));
            assert(self@.tiles.subrange(20, 20) =~= empty_rows(0) + keep_rows(g0.subrange(20, 20)));
        }
        let mut num_cleared: u8 = 0;
        let mut i: usize = BOARD_HEIGHT;
        while i > 0
            invariant
                clear_loop_inv(g0, self@.tiles, i as int, num_cleared as int),
                self@ == (BoardModel { tiles: self@.tiles, ..old(self)@ }),
                g0 == old(self)@.tiles,
            decreases i + 20 - num_cleared,
        {
            let ghost t_old = self@.tiles;
            let ghost c = num_cleared as int;
            let ghost ii = i as int;
            let ghost p = if ii >= c { ii - c } else { 0int };
            if self.is_row_full(i - 1) {
                proof {
                    // a scanned-in empty row is never full, so the full row
                    // is an original one: c <= i - 1 and t[i-1] == g0[p-1]
                    lemma_empty_row_not_full();
                    if c > ii - 1 {
                        assert(t_old[ii - 1] == t_old.subrange(0, ii)[ii - 1]);
                        assert(t_old[ii - 1] == empty_rows(if c <= ii { c } else { ii })[ii - 1]);
                        assert(false);
                    }
                    assert(t_old[ii - 1] == t_old.subrange(0, ii)[ii - 1]);
                    assert(t_old[ii - 1] == g0.subrange(0, p)[ii - 1 - c]);
                    assert(t_old[ii - 1] == g0[p - 1]);
                    assert(row_full(g0[p - 1]));
                }
                num_cleared = num_cleared + 1;
                self.clear_line_and_shift_down(i - 1);
                proof {
                    let t_new = self@.tiles;
                    lemma_suffix_step(g0, p - 1);
                    assert(t_new.subrange(0, ii) =~= empty_rows(c + 1) + g0.subrange(0, p - 1));
                    assert(t_new.subrange(ii, 20) =~= t_old.subrange(ii, 20));
                    assert(clear_loop_inv(g0, t_new, ii, c + 1));
                }
            } else {
                proof {
                    if c <= ii - 1 {
                        assert(t_old[ii - 1] == t_old.subrange(0, ii)[ii - 1]);
                        assert(t_old[ii - 1] == g0.subrange(0, p)[ii - 1 - c]);
                        assert(t_old[ii - 1] == g0[p - 1]);
                        lemma_suffix_step(g0, p - 1);
                        assert(t_old.subrange(0, ii - 1) =~= empty_rows(c) + g0.subrange(
                            0,
                            p - 1,
                        ));
                        assert(t_old.subrange(ii - 1, 20) =~= seq![g0[p - 1]] + t_old.subrange(
                            ii,
                            20,
                        ));
                        assert(t_old.subrange(ii - 1, 20) =~= empty_rows(0) + keep_rows(
                            g0.subrange(p - 1, 20),
                        ));
                        assert(clear_loop_inv(g0, t_old, ii - 1, c));
                    } else {
                        // the unscanned region is all empties
                        assert(t_old[ii - 1] == t_old.subrange(0, ii)[ii - 1]);
                        assert(t_old.subrange(0, ii - 1) =~= empty_rows(
                            if c <= ii - 1 { c } else { ii - 1 },
                        ) + g0.subrange(0, 0));
                        assert(t_old.subrange(ii - 1, 20) =~= seq![t_old[ii - 1]] + t_old.subrange(
                            ii,
                            20,
                        ));
                        assert(t_old[ii - 1] == empty_rows(ii)[ii - 1]);
                        assert(t_old.subrange(ii - 1, 20) =~= empty_rows(c - (ii - 1))
                            + keep_rows(g0.subrange(0, 20)));
                        assert(clear_loop_inv(g0, t_old, ii - 1, c));
                    }
                }
                i = i - 1;
            }
        }
        proof {
            let c = num_cleared as int;
            assert(self@.tiles.subrange(0, 20) =~= self@.tiles);
            assert(g0.subrange(0, 20) =~= g0);
            assert(self@.tiles == empty_rows(c) + keep_rows(g0));
            assert(c == count_full(g0));
            assert(self@.tiles == cleared_grid(g0));
        }
        self.award_points_from_lines_cleared(num_cleared);
        self.lines = self.lines + num_cleared as u32;
    }
}

} // verus!

verus! {

use crate::piece::{PieceType, lemma_canonical_piece_wf};

/// A fresh piece of shape `t` anchored at the spawn coordinate.
pub open spec fn spawn_of(t: PieceType) -> PieceModel {
    PieceModel {
        piece_type: t,
        layout: canonical_layout(t),
        coord: (PIECE_START_X, PIECE_START_Y),
    }
}

/// The cell of the grid after the piece's blocks up to layout cell
/// `(i, j)` (exclusive, in row-major order) have been written.
spec fn merge_cell_upto(
    t: Seq<Seq<Tile>>,
    p: PieceModel,
    y: int,
    x: int,
    i: int,
    j: int,
) -> Tile {
    let ci = y - p.coord.1;
    let cj = x - p.coord.0;
    if 0 <= ci < 4 && 0 <= cj < 4 && occupied(p.layout, ci, cj) && (ci < i || (ci == i && cj
        < j)) {
        p.layout[ci][cj]
    } else {
        t[y][x]
    }
}

/// The grid after the piece's blocks up to layout cell `(i, j)` have been
/// written.
spec fn merged_upto(t: Seq<Seq<Tile>>, p: PieceModel, i: int, j: int) -> Seq<Seq<Tile>> {
    Seq::new(
        BOARD_HEIGHT as nat,
        |y: int| Seq::new(BOARD_WIDTH as nat, |x: int| merge_cell_upto(t, p, y, x, i, j)),
    )
}

/// The arithmetic of one lock stays within the counters' machine bounds:
/// the score after the pity point and the line bonus, the line counter,
/// and the recomputed level all fit.
pub open spec fn lock_ok(b: BoardModel) -> bool {
    let merged = merged_grid(b.tiles, b.current_piece);
    let n = count_full(merged);
    &&& b.score + 1 + spec_line_points(n) * b.level <= u32::MAX
    &&& b.lines + n <= u32::MAX
    &&& spec_level_for(b.starting_level, (b.lines + n) as u32) <= MAX_LEVEL
}

/// What locking the active piece does.  If any of its blocks still sits
/// above the visible field the game is lost and nothing else changes — in
/// particular no block is written into the grid.  Otherwise the blocks are
/// written, full rows are cleared, the pity point and the line bonus
/// (scaled by the level at lock time) are awarded, the line counter grows,
/// the level and gravity interval are recomputed, the next piece enters
/// play, a fresh random piece is drawn, and holding is allowed again.
pub open spec fn consume_rel(pre: BoardModel, post: BoardModel, lost: bool) -> bool {
    if lock_lost(pre.current_piece) {
        lost && post == (BoardModel { lost: true, ..pre })
    } else {
        let merged = merged_grid(pre.tiles, pre.current_piece);
        let n = count_full(merged);
        let new_level = spec_level_for(pre.starting_level, (pre.lines + n) as u32);
        &&& !lost
        &&& post == (BoardModel {
            tiles: cleared_grid(merged),
            current_piece: pre.next_piece,
            next_piece: post.next_piece,
            can_hold: true,
            score: (pre.score + 1 + spec_line_points(n) * pre.level) as u32,
            lines: (pre.lines + n) as u32,
            level: new_level as u8,
            tick_millis: spec_tick_millis(new_level as u8),
            ..pre
        })
        &&& is_spawn(post.next_piece)
    }
}

/// What using the hold slot does.  Holding is ignored unless allowed; an
/// allowed hold stores a fresh piece of the active shape, brings the
/// previously held piece (or, with an empty slot, the next piece) into
/// play, and forbids holding again until the next lock.
pub open spec fn hold_rel(pre: BoardModel, post: BoardModel) -> bool {
    if !pre.can_hold {
        post == pre
    } else {
        &&& post.held_piece == Some(spawn_of(pre.current_piece.piece_type))
        &&& match pre.held_piece {
            None => {
                &&& post == (BoardModel {
                    current_piece: pre.next_piece,
                    next_piece: post.next_piece,
                    held_piece: post.held_piece,
                    can_hold: false,
                    ..pre
                })
                &&& is_spawn(post.next_piece)
            }
            Some(p) => post == (BoardModel {
                current_piece: p,
                held_piece: post.held_piece,
                can_hold: false,
                ..pre
            }),
        }
    }
}

/// What one refresh does.  Before the gravity interval has elapsed nothing
/// happens.  Otherwise the tick is committed: the active piece moves down
/// one row if the board accepts that, and locks in place if not.
pub open spec fn tick_rel(pre: BoardModel, post: BoardModel, now: u64, t: TickState) -> bool {
    if now < pre.last_tick + pre.tick_millis {
        t is NotTicked && post == pre
    } else {
        let pre2 = BoardModel { last_tick: now, ..pre };
        let cand = moved(pre.current_piece, Movement::Down);
        &&& t is Ticked
        &&& if valid_for_grid(pre.tiles, cand) {
            post == (BoardModel { current_piece: cand, ..pre2 })
        } else {
            consume_rel(pre2, post, lock_lost(pre.current_piece))
        }
    }
}

impl Board {
    /// Whether locking the active piece now would lose the game: some
    /// block of it still resolves to a row above the visible field.
    fn lock_would_lose(&self) -> (r: bool)
        ensures
            r == lock_lost(self@.current_piece),
    {
        let coord = self.current_piece.coord();
        let mut i: usize = 0;
        while i < 4
            invariant
                i <= 4,
                coord == self@.current_piece.coord,
                forall|i0: int, j0: int|
                    0 <= i0 < i && 0 <= j0 < 4 ==> !(#[trigger] occupied(
                        self@.current_piece.layout,
                        i0,
                        j0,
                    ) && i0 + self@.current_piece.coord.1 < 0),
            decreases 4 - i,
        {
            let mut j: usize = 0;
            while j < 4
                invariant
                    i < 4,
                    j <= 4,
                    coord == self@.current_piece.coord,
                    forall|i0: int, j0: int|
                        0 <= i0 < i && 0 <= j0 < 4 ==> !(#[trigger] occupied(
                            self@.current_piece.layout,
                            i0,
                            j0,
                        ) && i0 + self@.current_piece.coord.1 < 0),
                    forall|j0: int|
                        0 <= j0 < j ==> !(#[trigger] occupied(
                            self@.current_piece.layout,
                            i as int,
                            j0,
                        ) && i + self@.current_piece.coord.1 < 0),
                decreases 4 - j,
            {
                let tile = self.current_piece.layout()[i][j];
                if tile.is_some() {
                    let y: i16 = i as i16 + coord.1 as i16;
                    if y < 0 {
                        proof {
                            assert(occupied(self@.current_piece.layout, i as int, j as int)
                                && i + self@.current_piece.coord.1 < 0);
                        }
                        return true;
                    }
                }
                j = j + 1;
            }
            i = i + 1;
        }
        false
    }

    /// Writes every block of the active piece into the grid.
    fn write_piece_into_grid(&mut self)
        requires
            board_wf(old(self)@),
            !lock_lost(old(self)@.current_piece),
        ensures
            final(self)@ == (BoardModel {
                tiles: merged_grid(old(self)@.tiles, old(self)@.current_piece),
                ..old(self)@
            }),
    {
        let ghost t0 = self@.tiles;
        let ghost pm = self@.current_piece;
        let coord = self.current_piece.coord();
        proof {
            assert(self@.tiles =~~= merged_upto(t0, pm, 0, 0));
        }
        let mut i: usize = 0;
        while i < 4
            invariant
                i <= 4,
                coord == pm.coord,
                pm == self@.current_piece,
                board_wf(old(self)@),
                pm == old(self)@.current_piece,
                t0 == old(self)@.tiles,
                !lock_lost(pm),
                self@ == (BoardModel { tiles: self@.tiles, ..old(self)@ }),
                self@.tiles == merged_upto(t0, pm, i as int, 0),
            decreases 4 - i,
        {
            let mut j: usize = 0;
            while j < 4
                invariant
                    i < 4,
                    j <= 4,
                    coord == pm.coord,
                    pm == self@.current_piece,
                    board_wf(old(self)@),
                    pm == old(self)@.current_piece,
                    t0 == old(self)@.tiles,
                    !lock_lost(pm),
                    self@ == (BoardModel { tiles: self@.tiles, ..old(self)@ }),
                    self@.tiles == merged_upto(t0, pm, i as int, j as int),
                decreases 4 - j,
            {
                let tile = self.current_piece.layout()[i][j];
                let ghost t_prev = self@.tiles;
                if tile.is_some() {
                    proof {
                        assert(occupied(pm.layout, i as int, j as int));
                        assert(!cell_out_of_bounds(pm, i as int, j as int));
                        if i + pm.coord.1 < 0 {
                            assert(occupied(pm.layout, i as int, j as int) && i + pm.coord.1 < 0);
                            assert(lock_lost(pm));
                        }
                    }
                    let x: i16 = j as i16 + coord.0 as i16;
                    let y: i16 = i as i16 + coord.1 as i16;
                    self.tiles[y as usize][x as usize] = tile;
                    proof {
                        assert(self@.tiles =~~= t_prev.update(
                            y as int,
                            t_prev[y as int].update(x as int, tile),
                        ));
                        assert(self@.tiles =~~= merged_upto(t0, pm, i as int, j as int + 1));
                    }
                } else {
                    proof {
                        assert(self@.tiles =~~= merged_upto(t0, pm, i as int, j as int + 1));
                    }
                }
                j = j + 1;
            }
            proof {
                assert(merged_upto(t0, pm, i as int, 4) =~~= merged_upto(t0, pm, i as int + 1, 0));
            }
            i = i + 1;
        }
        proof {
            assert(self@.tiles =~~= merged_grid(t0, pm));
        }
    }

    /// Locks the active piece: decides loss, writes the blocks, clears
    /// full rows, scores, recomputes level and gravity, and brings the
    /// next piece into play.  Returns whether the game was lost.
    pub fn consume_piece(&mut self) -> (lost: bool)
        requires
            board_wf(old(self)@),
            lock_ok(old(self)@),
        ensures
            consume_rel(old(self)@, final(self)@, lost),
            board_wf(final(self)@),
    {
        // Deciding loss first writes nothing for a losing piece: scanning
        // the layout row-major, a block above the field would be reached
        // before any writable block anyway, rows above coming first.
        if self.lock_would_lose() {
            self.loss_state = LossState::Lost;
            return true;
        }
        let ghost pre = old(self)@;
        let ghost merged = merged_grid(pre.tiles, pre.current_piece);
        let ghost n = count_full(merged);
        proof {
            lemma_count_keep(merged);
            let lvl = pre.level;
            let pts = spec_line_points(n);
            assert(pts * lvl >= 0) by (nonlinear_arith)
                requires
                    pts >= 0,
                    lvl >= 0,
            ;
        }
        self.write_piece_into_grid();
        self.can_hold = true;
        self.current_piece = self.next_piece;
        self.next_piece = Piece::random_new().at(PIECE_START_X, PIECE_START_Y);
        self.score = self.score + 1;
        self.clear_any_full_lines();
        let bump: u32 = self.lines / (10 * self.starting_level as u32);
        let capped: u32 = if bump > MAX_LEVEL as u32 {
            MAX_LEVEL as u32
        } else {
            bump
        };
        self.level = self.starting_level + capped as u8;
        self.update_tick_time();
        proof {
            lemma_spawn_coord_in_bounds(self@.next_piece);
            lemma_canonical_piece_wf(self@.next_piece.piece_type);
            assert(final(self)@ == (BoardModel {
                tiles: cleared_grid(merged),
                current_piece: pre.next_piece,
                next_piece: final(self)@.next_piece,
                can_hold: true,
                score: (pre.score + 1 + spec_line_points(n) * pre.level) as u32,
                lines: (pre.lines + n) as u32,
                level: spec_level_for(pre.starting_level, (pre.lines + n) as u32) as u8,
                tick_millis: spec_tick_millis(
                    spec_level_for(pre.starting_level, (pre.lines + n) as u32) as u8,
                ),
                ..pre
            }));
        }
        false
    }

    /// One refresh of gravity: if the tick interval has elapsed, commits a
    /// tick that moves the active piece down one row, locking it when it
    /// cannot move.  `now_millis` is the caller's clock reading.
    pub fn check_to_tick_down_piece(&mut self, now_millis: u64) -> (t: TickState)
        requires
            board_wf(old(self)@),
            lock_ok(old(self)@),
            old(self)@.last_tick + old(self)@.tick_millis <= u64::MAX,
        ensures
            tick_rel(old(self)@, final(self)@, now_millis, t),
            board_wf(final(self)@),
    {
        let now = now_millis;
        if now < self.last_tick + self.tick_millis {
            return TickState::NotTicked;
        }
        self.last_tick = now;
        if !self.try_current_piece_movement(Movement::Down) {
            let _ = self.consume_piece();
        }
        TickState::Ticked
    }

    /// Swaps the active piece into the hold slot, at most once between
    /// locks.  A hold with an empty slot promotes the next piece into
    /// play; later holds swap back the stored piece.
    pub fn try_hold_piece(&mut self)
        requires
            board_wf(old(self)@),
        ensures
            hold_rel(old(self)@, final(self)@),
            board_wf(final(self)@),
    {
        if !self.can_hold {
            return;
        }
        let orig_held_piece = self.held_piece;
        // A fresh piece of the active shape, so the hold stores the
        // canonical unrotated layout, anchored back at the spawn coordinate.
        self.held_piece = Some(
            Piece::new(self.current_piece.piece_type()).at(PIECE_START_X, PIECE_START_Y),
        );
        match orig_held_piece {
            None => {
                self.current_piece = self.next_piece;
                self.next_piece = Piece::random_new().at(PIECE_START_X, PIECE_START_Y);
            }
            Some(p) => {
                self.current_piece = p;
            }
        }
        self.can_hold = false;
        proof {
            lemma_canonical_piece_wf(old(self)@.current_piece.piece_type);
            lemma_spawn_coord_in_bounds(spawn_of(old(self)@.current_piece.piece_type));
            if old(self)@.held_piece is None {
                lemma_canonical_piece_wf(self@.next_piece.piece_type);
                lemma_spawn_coord_in_bounds(self@.next_piece);
            }
        }
    }

    /// Resets the board for a new game, keeping the configuration, and
    /// records the finished game's score in the running high score.
    pub fn restart(&mut self, now_millis: u64)
        requires
            board_wf(old(self)@),
        ensures
            fresh_board(
                final(self)@,
                old(self)@.starting_level,
                old(self)@.ghost_piece_on,
                if old(self)@.score > old(self)@.high_score {
                    old(self)@.score
                } else {
                    old(self)@.high_score
                },
                now_millis,
            ),
            board_wf(final(self)@),
    {
        let old_high_score = self.high_score;
        let latest_score = self.score;
        let settings = self.get_settings();
        *self = Board::new(settings, now_millis);
        self.high_score = if latest_score > old_high_score {
            latest_score
        } else {
            old_high_score
        };
    }
}

} // verus!

verus! {

/// How large the board is drawn: each tile as one character cell, or as a
/// 2-by-2 block; `TooSmall` additionally flags that even the small
/// rendering does not fit the window.
#[derive(Clone, Copy, Debug, PartialEq, Eq, Structural)]
pub enum ScaleMode {
    TooSmall,
    Small,
    Large,
}

/// The tile side length, in character rows, each mode draws with.
pub open spec fn spec_scale(m: ScaleMode) -> int {
    match m {
        ScaleMode::Large => 2,
        _ => 1,
    }
}

impl ScaleMode {
    /// The tile side length, in character rows, this mode draws with.
    pub fn get_scale(&self) -> (r: usize)
        ensures
            r == spec_scale(*self),
    {
        match self {
            Self::TooSmall => 1,
            Self::Small => 1,
            Self::Large => 2,
        }
    }

    /// The mode a board starts in.
    pub fn default() -> (r: Self)
        ensures
            r is Small,
    {
        Self::Small
    }
}

/// The drawing scale for a window of `w` columns and `h` rows: large when
/// the doubled rendering fits, small when only the plain one does, and
/// too-small when not even that fits.
pub fn scale_for_constraint(w: usize, h: usize) -> (r: ScaleMode)
    ensures
        r is TooSmall <==> (BOARD_WIDTH * 2 > w || BOARD_HEIGHT > h),
        r is Small <==> (BOARD_WIDTH * 2 <= w && BOARD_HEIGHT <= h && (BOARD_WIDTH * 4 > w
            || BOARD_HEIGHT * 2 > h)),
        r is Large <==> (BOARD_WIDTH * 4 <= w && BOARD_HEIGHT * 2 <= h),
{
    let small_x = BOARD_WIDTH * 2;
    let small_y = BOARD_HEIGHT;
    let large_x = BOARD_WIDTH * 4;
    let large_y = BOARD_HEIGHT * 2;
    if small_x > w || small_y > h {
        ScaleMode::TooSmall
    } else if large_x > w || large_y > h {
        ScaleMode::Small
    } else {
        ScaleMode::Large
    }
}

} // verus!
