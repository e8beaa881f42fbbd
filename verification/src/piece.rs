//! The seven piece shapes: their canonical layouts, movement and rotation.

use vstd::prelude::*;

verus! {

use crate::tile::{Block, Tile};

/// Side length of the square layout grid every piece lives in.
pub const LAYOUT_LEN: usize = 4;

/// A piece's occupancy grid: each cell is empty or holds the piece's colour.
pub type PieceLayout = [[Tile; LAYOUT_LEN]; LAYOUT_LEN];

/// The seven classic shapes.
#[derive(Clone, Copy, Debug, PartialEq, Eq, Structural)]
pub enum PieceType {
    I,
    O,
    J,
    L,
    S,
    Z,
    T,
}

/// A rotation direction.
#[derive(Clone, Copy, Debug, PartialEq, Eq, Structural)]
pub enum Rotation {
    Left,
    Right,
}

/// The colour a shape's blocks carry.
pub open spec fn spec_block_for(t: PieceType) -> Block {
    match t {
        PieceType::I => Block::Cyan,
        PieceType::O => Block::Yellow,
        PieceType::J => Block::Blue,
        PieceType::L => Block::Orange,
        PieceType::S => Block::Green,
        PieceType::Z => Block::Red,
        PieceType::T => Block::Magenta,
    }
}

/// Width of the square sub-grid a shape rotates inside: the full 4 for the
/// I and O shapes, the top-left 3 for every other shape.
pub open spec fn spec_rot_diameter(t: PieceType) -> int {
    match t {
        PieceType::I => 4,
        PieceType::O => 4,
        _ => 3,
    }
}

/// Whether cell `(i, j)` of shape `t`'s canonical (unrotated) layout is occupied.
pub open spec fn canonical_occupied(t: PieceType, i: int, j: int) -> bool {
    match t {
        PieceType::I => i == 1 && 0 <= j < 4,
        PieceType::O => (i == 1 || i == 2) && (j == 1 || j == 2),
        PieceType::J => (i == 0 && j == 0) || (i == 1 && 0 <= j < 3),
        PieceType::L => (i == 0 && j == 2) || (i == 1 && 0 <= j < 3),
        PieceType::S => (i == 0 && (j == 1 || j == 2)) || (i == 1 && (j == 0 || j == 1)),
        PieceType::Z => (i == 0 && (j == 0 || j == 1)) || (i == 1 && (j == 1 || j == 2)),
        PieceType::T => (i == 0 && j == 1) || (i == 1 && 0 <= j < 3),
    }
}

/// The canonical layout of shape `t`, as a 4-by-4 grid of tiles.
pub open spec fn canonical_layout(t: PieceType) -> Seq<Seq<Tile>> {
    Seq::new(
        4,
        |i: int|
            Seq::new(
                4,
                |j: int|
                    if canonical_occupied(t, i, j) {
                        Some(spec_block_for(t))
                    } else {
                        None
                    },
            ),
    )
}

/// The mathematical contents of an executable layout grid.
pub open spec fn layout_view(l: PieceLayout) -> Seq<Seq<Tile>> {
    Seq::new(4, |i: int| l@[i]@)
}

/// A well-shaped layout: 4 rows of 4 tiles.
pub open spec fn layout_wf(l: Seq<Seq<Tile>>) -> bool {
    l.len() == 4 && forall|i: int| 0 <= i < 4 ==> (#[trigger] l[i]).len() == 4
}

/// Whether cell `(i, j)` of layout `l` holds a block.
pub open spec fn occupied(l: Seq<Seq<Tile>>, i: int, j: int) -> bool {
    l[i][j] is Some
}

/// All of the layout's blocks lie inside its rotation sub-grid.
pub open spec fn confined(l: Seq<Seq<Tile>>, d: int) -> bool {
    forall|i: int, j: int|
        0 <= i < 4 && 0 <= j < 4 && #[trigger] occupied(l, i, j) ==> i < d && j < d
}

/// The layout holds at least one block.
pub open spec fn nonempty_layout(l: Seq<Seq<Tile>>) -> bool {
    exists|i: int, j: int| 0 <= i < 4 && 0 <= j < 4 && #[trigger] occupied(l, i, j)
}

impl PieceType {
    /// The colour this shape's blocks are drawn in.
    pub fn get_colored_block(&self) -> (r: Block)
        ensures
            r == spec_block_for(*self),
    {
        match self {
            PieceType::I => Block::Cyan,
            PieceType::O => Block::Yellow,
            PieceType::J => Block::Blue,
            PieceType::L => Block::Orange,
            PieceType::S => Block::Green,
            PieceType::Z => Block::Red,
            PieceType::T => Block::Magenta,
        }
    }

    /// Width of the sub-grid the shape rotates inside.
    pub fn get_rot_diameter(&self) -> (r: usize)
        ensures
            r == spec_rot_diameter(*self),
    {
        match self {
            PieceType::I => 4,
            PieceType::O => 4,
            _ => 3,
        }
    }

    /// The shape's canonical layout.
    pub fn get_layout(&self) -> (r: PieceLayout)
        ensures
            layout_view(r) == canonical_layout(*self),
    {
        let bitmap: [[u8; 4]; 4] = match self {
            PieceType::I => [[0, 0, 0, 0], [1, 1, 1, 1], [0, 0, 0, 0], [0, 0, 0, 0]],
            PieceType::O => [[0, 0, 0, 0], [0, 1, 1, 0], [0, 1, 1, 0], [0, 0, 0, 0]],
            PieceType::J => [[1, 0, 0, 0], [1, 1, 1, 0], [0, 0, 0, 0], [0, 0, 0, 0]],
            PieceType::L => [[0, 0, 1, 0], [1, 1, 1, 0], [0, 0, 0, 0], [0, 0, 0, 0]],
            PieceType::S => [[0, 1, 1, 0], [1, 1, 0, 0], [0, 0, 0, 0], [0, 0, 0, 0]],
            PieceType::Z => [[1, 1, 0, 0], [0, 1, 1, 0], [0, 0, 0, 0], [0, 0, 0, 0]],
            PieceType::T => [[0, 1, 0, 0], [1, 1, 1, 0], [0, 0, 0, 0], [0, 0, 0, 0]],
        };
        let r = self.to_tilemap(bitmap);
        proof {
            assert(layout_view(r) =~~= canonical_layout(*self));
        }
        r
    }

    /// Turns a 0/1 bitmap into a layout of this shape's colour.
    pub fn to_tilemap(&self, bitmap: [[u8; LAYOUT_LEN]; LAYOUT_LEN]) -> (r: PieceLayout)
        ensures
            forall|i: int, j: int|
                0 <= i < 4 && 0 <= j < 4 ==> layout_view(r)[i][j] == (if bitmap@[i]@[j] == 1 {
                    Some(spec_block_for(*self))
                } else {
                    None::<Block>
                }),
    {
        let mut layout: PieceLayout = [[None; LAYOUT_LEN]; LAYOUT_LEN];
        let mut i: usize = 0;
        while i < LAYOUT_LEN
            invariant
                i <= 4,
                forall|i0: int, j0: int|
                    0 <= i0 < i && 0 <= j0 < 4 ==> layout@[i0]@[j0] == (if bitmap@[i0]@[j0] == 1 {
                        Some(spec_block_for(*self))
                    } else {
                        None::<Block>
                    }),
                forall|i0: int, j0: int|
                    i <= i0 < 4 && 0 <= j0 < 4 ==> layout@[i0]@[j0] is None,
            decreases 4 - i,
        {
            let mut j: usize = 0;
            while j < LAYOUT_LEN
                invariant
                    i < 4,
                    j <= 4,
                    forall|i0: int, j0: int|
                        0 <= i0 < i && 0 <= j0 < 4 ==> layout@[i0]@[j0] == (if bitmap@[i0]@[j0]
                            == 1 {
                            Some(spec_block_for(*self))
                        } else {
                            None::<Block>
                        }),
                    forall|j0: int|
                        0 <= j0 < j ==> layout@[i as int]@[j0] == (if bitmap@[i as int]@[j0] == 1 {
                            Some(spec_block_for(*self))
                        } else {
                            None::<Block>
                        }),
                    forall|j0: int| j <= j0 < 4 ==> layout@[i as int]@[j0] is None,
                    forall|i0: int, j0: int|
                        i < i0 < 4 && 0 <= j0 < 4 ==> layout@[i0]@[j0] is None,
                decreases 4 - j,
            {
                if bitmap[i][j] == 1 {
                    layout[i][j] = Some(self.get_colored_block());
                }
                j = j + 1;
            }
            i = i + 1;
        }
        layout
    }
}

} // verus!

verus! {

use crate::board;

/// The mathematical image of a [`Piece`]: its shape, the contents of its
/// layout grid, and the field coordinate of the grid's top-left corner.
pub struct PieceModel {
    pub piece_type: PieceType,
    pub layout: Seq<Seq<Tile>>,
    pub coord: (i8, i8),
}

/// A well-formed piece: a well-shaped layout whose blocks all lie inside the
/// shape's rotation sub-grid, with at least one block.
pub open spec fn piece_wf(p: PieceModel) -> bool {
    &&& layout_wf(p.layout)
    &&& confined(p.layout, spec_rot_diameter(p.piece_type))
    &&& nonempty_layout(p.layout)
}

/// A piece as it is handed into play: canonical layout, anchored at the
/// spawn coordinate.
pub open spec fn is_spawn(p: PieceModel) -> bool {
    &&& p.layout == canonical_layout(p.piece_type)
    &&& p.coord == (board::PIECE_START_X, board::PIECE_START_Y)
}

/// Layout `l` turned a quarter turn counter-clockwise inside its `d`-wide
/// rotation sub-grid; cells outside the sub-grid are cleared.
pub open spec fn rotated_left(l: Seq<Seq<Tile>>, d: int) -> Seq<Seq<Tile>> {
    Seq::new(
        4,
        |i: int|
            Seq::new(
                4,
                |j: int|
                    if i < d && j < d {
                        l[j][d - 1 - i]
                    } else {
                        None
                    },
            ),
    )
}

/// Layout `l` turned a quarter turn clockwise inside its `d`-wide rotation
/// sub-grid; cells outside the sub-grid are cleared.
pub open spec fn rotated_right(l: Seq<Seq<Tile>>, d: int) -> Seq<Seq<Tile>> {
    Seq::new(
        4,
        |i: int|
            Seq::new(
                4,
                |j: int|
                    if i < d && j < d {
                        l[d - 1 - j][i]
                    } else {
                        None
                    },
            ),
    )
}

/// A player transformation attempted on the active piece.
#[derive(Clone, Copy, Debug, PartialEq, Eq, Structural)]
pub enum Movement {
    Left,
    Right,
    Down,
    RotateLeft,
    RotateRight,
}

/// The piece after applying movement `m`.
pub open spec fn moved(p: PieceModel, m: Movement) -> PieceModel {
    match m {
        Movement::Left => PieceModel { coord: ((p.coord.0 - 1) as i8, p.coord.1), ..p },
        Movement::Right => PieceModel { coord: ((p.coord.0 + 1) as i8, p.coord.1), ..p },
        Movement::Down => PieceModel { coord: (p.coord.0, (p.coord.1 + 1) as i8), ..p },
        Movement::RotateLeft => PieceModel {
            layout: rotated_left(p.layout, spec_rot_diameter(p.piece_type)),
            ..p
        },
        Movement::RotateRight => PieceModel {
            layout: rotated_right(p.layout, spec_rot_diameter(p.piece_type)),
            ..p
        },
    }
}

/// The coordinate arithmetic of movement `m` stays within `i8` on piece `p`.
pub open spec fn move_arith_ok(p: PieceModel, m: Movement) -> bool {
    match m {
        Movement::Left => p.coord.0 > i8::MIN,
        Movement::Right => p.coord.0 < i8::MAX,
        Movement::Down => p.coord.1 < i8::MAX,
        Movement::RotateLeft => true,
        Movement::RotateRight => true,
    }
}

/// An active piece: its shape, the current (possibly rotated) layout, and
/// the signed field coordinate `(column, row)` of the layout's top-left
/// corner.  The coordinate is signed so a piece can reach the field edges,
/// and spawn partly above the visible field.
#[derive(Clone, Copy, Debug)]
pub struct Piece {
    piece_type: PieceType,
    layout: PieceLayout,
    coord: (i8, i8),
}

impl View for Piece {
    type V = PieceModel;

    closed spec fn view(&self) -> PieceModel {
        PieceModel {
            piece_type: self.piece_type,
            layout: layout_view(self.layout),
            coord: self.coord,
        }
    }
}

impl Piece {
    /// The piece's shape.
    pub fn piece_type(&self) -> (r: PieceType)
        ensures
            r == self@.piece_type,
    {
        self.piece_type
    }

    /// The piece's current layout grid.
    pub fn layout(&self) -> (r: &PieceLayout)
        ensures
            layout_view(*r) == self@.layout,
    {
        &self.layout
    }

    /// Mutable access to the layout grid.
    pub fn layout_mut(&mut self) -> (r: &mut PieceLayout)
        ensures
            layout_view(*r) == old(self)@.layout,
            final(self)@ == (PieceModel { layout: layout_view(*final(r)), ..old(self)@ }),
    {
        &mut self.layout
    }

    /// The field coordinate `(column, row)` of the layout's top-left corner.
    pub fn coord(&self) -> (r: (i8, i8))
        ensures
            r == self@.coord,
    {
        self.coord
    }

    /// A fresh piece of shape `piece_type` with its canonical layout,
    /// anchored at the origin.
    pub fn new(piece_type: PieceType) -> (r: Self)
        ensures
            r@.piece_type == piece_type,
            r@.layout == canonical_layout(piece_type),
            r@.coord == (0i8, 0i8),
    {
        let layout = piece_type.get_layout();
        Self { piece_type, layout, coord: (0, 0) }
    }

    /// The piece re-anchored at `(x, y)`.
    pub fn at(self, x: i8, y: i8) -> (r: Self)
        ensures
            r@ == (PieceModel { coord: (x, y), ..self@ }),
    {
        let mut p = self;
        p.coord = (x, y);
        p
    }

    /// Re-anchors the piece at `(x, y)`.
    pub fn set_at(&mut self, x: i8, y: i8) -> (r: &Self)
        ensures
            final(self)@ == (PieceModel { coord: (x, y), ..old(self)@ }),
            *r == *final(self),
    {
        self.coord = (x, y);
        self
    }

    /// Moves the piece one column left.
    pub fn move_left(&mut self)
        requires
            old(self)@.coord.0 > i8::MIN,
        ensures
            final(self)@ == moved(old(self)@, Movement::Left),
    {
        self.coord.0 = self.coord.0 - 1;
    }

    /// Moves the piece one column right.
    pub fn move_right(&mut self)
        requires
            old(self)@.coord.0 < i8::MAX,
        ensures
            final(self)@ == moved(old(self)@, Movement::Right),
    {
        self.coord.0 = self.coord.0 + 1;
    }

    /// Moves the piece one row down.
    pub fn move_down(&mut self)
        requires
            old(self)@.coord.1 < i8::MAX,
        ensures
            final(self)@ == moved(old(self)@, Movement::Down),
    {
        self.coord.1 = self.coord.1 + 1;
    }

    /// Moves the piece by `x` columns and `y` rows.
    pub fn move_by(&mut self, x: i8, y: i8)
        requires
            i8::MIN <= old(self)@.coord.0 + x <= i8::MAX,
            i8::MIN <= old(self)@.coord.1 + y <= i8::MAX,
        ensures
            final(self)@ == (PieceModel {
                coord: ((old(self)@.coord.0 + x) as i8, (old(self)@.coord.1 + y) as i8),
                ..old(self)@
            }),
    {
        self.coord.0 = self.coord.0 + x;
        self.coord.1 = self.coord.1 + y;
    }

    /// Rotates the piece a quarter turn in the given direction.
    pub fn rotate(&mut self, rotation: Rotation)
        ensures
            rotation is Left ==> final(self)@ == moved(old(self)@, Movement::RotateLeft),
            rotation is Right ==> final(self)@ == moved(old(self)@, Movement::RotateRight),
    {
        match rotation {
            Rotation::Left => {
                self.rotate_left();
            }
            Rotation::Right => {
                self.rotate_right();
            }
        }
    }

    /// Rotates the piece a quarter turn counter-clockwise inside its
    /// rotation sub-grid.
    pub fn rotate_left(&mut self)
        ensures
            final(self)@ == moved(old(self)@, Movement::RotateLeft),
    {
        let mut temp: PieceLayout = [[None; 4]; 4];
        match self.piece_type.get_rot_diameter() {
            4 => {
                temp[0][0] = self.layout[0][3];
                temp[0][1] = self.layout[1][3];
                temp[0][2] = self.layout[2][3];
                temp[0][3] = self.layout[3][3];

                temp[1][0] = self.layout[0][2];
                temp[1][1] = self.layout[1][2];
                temp[1][2] = self.layout[2][2];
                temp[1][3] = self.layout[3][2];

                temp[2][0] = self.layout[0][1];
                temp[2][1] = self.layout[1][1];
                temp[2][2] = self.layout[2][1];
                temp[2][3] = self.layout[3][1];

                temp[3][0] = self.layout[0][0];
                temp[3][1] = self.layout[1][0];
                temp[3][2] = self.layout[2][0];
                temp[3][3] = self.layout[3][0];
            }
            3 => {
                temp[0][0] = self.layout[0][2];
                temp[0][1] = self.layout[1][2];
                temp[0][2] = self.layout[2][2];

                temp[1][0] = self.layout[0][1];
                temp[1][1] = self.layout[1][1];
                temp[1][2] = self.layout[2][1];

                temp[2][0] = self.layout[0][0];
                temp[2][1] = self.layout[1][0];
                temp[2][2] = self.layout[2][0];
            }
            _ => {
                proof {
                    assert(false);
                }
            }
        }
        self.layout = temp;
        proof {
            assert(layout_view(self.layout) =~~= rotated_left(
                old(self)@.layout,
                spec_rot_diameter(old(self)@.piece_type),
            ));
        }
    }

    /// Rotates the piece a quarter turn clockwise inside its rotation
    /// sub-grid.
    pub fn rotate_right(&mut self)
        ensures
            final(self)@ == moved(old(self)@, Movement::RotateRight),
    {
        let mut temp: PieceLayout = [[None; 4]; 4];
        match self.piece_type.get_rot_diameter() {
            4 => {
                temp[0][0] = self.layout[3][0];
                temp[0][1] = self.layout[2][0];
                temp[0][2] = self.layout[1][0];
                temp[0][3] = self.layout[0][0];

                temp[1][0] = self.layout[3][1];
                temp[1][1] = self.layout[2][1];
                temp[1][2] = self.layout[1][1];
                temp[1][3] = self.layout[0][1];

                temp[2][0] = self.layout[3][2];
                temp[2][1] = self.layout[2][2];
                temp[2][2] = self.layout[1][2];
                temp[2][3] = self.layout[0][2];

                temp[3][0] = self.layout[3][3];
                temp[3][1] = self.layout[2][3];
                temp[3][2] = self.layout[1][3];
                temp[3][3] = self.layout[0][3];
            }
            3 => {
                temp[0][2] = self.layout[0][0];
                temp[1][2] = self.layout[0][1];
                temp[2][2] = self.layout[0][2];

                temp[0][1] = self.layout[1][0];
                temp[1][1] = self.layout[1][1];
                temp[2][1] = self.layout[1][2];

                temp[0][0] = self.layout[2][0];
                temp[1][0] = self.layout[2][1];
                temp[2][0] = self.layout[2][2];
            }
            _ => {
                proof {
                    assert(false);
                }
            }
        }
        self.layout = temp;
        proof {
            assert(layout_view(self.layout) =~~= rotated_right(
                old(self)@.layout,
                spec_rot_diameter(old(self)@.piece_type),
            ));
        }
    }

    /// Applies one player movement to the piece.
    pub fn apply_movement(&mut self, m: Movement)
        requires
            move_arith_ok(old(self)@, m),
        ensures
            final(self)@ == moved(old(self)@, m),
    {
        match m {
            Movement::Left => self.move_left(),
            Movement::Right => self.move_right(),
            Movement::Down => self.move_down(),
            Movement::RotateLeft => self.rotate_left(),
            Movement::RotateRight => self.rotate_right(),
        }
    }
}

} // verus!

verus! {

/// Occupied cell `(i, j)` of piece `p` maps to a field position left of,
/// right of, or below the playing field.
pub open spec fn cell_out_of_bounds(p: PieceModel, i: int, j: int) -> bool {
    occupied(p.layout, i, j) && (j + p.coord.0 < 0 || j + p.coord.0 >= board::BOARD_WIDTH as int
        || i + p.coord.1 >= board::BOARD_HEIGHT as int)
}

/// Some block of the piece lies left of, right of, or below the field.
/// Rows above the field do not count: pieces spawn partly off-screen.
pub open spec fn spec_out_of_bounds(p: PieceModel) -> bool {
    exists|i: int, j: int| 0 <= i < 4 && 0 <= j < 4 && #[trigger] cell_out_of_bounds(p, i, j)
}

/// Every block of the piece lies within the field's columns and above its
/// bottom edge (possibly above the top edge).
pub open spec fn in_bounds(p: PieceModel) -> bool {
    !spec_out_of_bounds(p)
}

impl Piece {
    /// A fresh piece of a uniformly random shape, anchored at the origin.
    pub fn random_new() -> (r: Self)
        ensures
            r@.layout == canonical_layout(r@.piece_type),
            r@.coord == (0i8, 0i8),
    {
        let piece_type = match random_shape_index() {
            0 => PieceType::I,
            1 => PieceType::O,
            2 => PieceType::J,
            3 => PieceType::L,
            4 => PieceType::S,
            5 => PieceType::Z,
            6 => PieceType::T,
            _ => PieceType::I,
        };
        Self::new(piece_type)
    }

    /// Whether any block of the piece lies outside the field's columns or
    /// below its bottom edge.  Blocks above the field are not out of bounds.
    pub fn is_out_of_bounds(&self) -> (r: bool)
        ensures
            r == spec_out_of_bounds(self@),
    {
        let mut i: usize = 0;
        while i < LAYOUT_LEN
            invariant
                i <= 4,
                forall|i0: int, j0: int|
                    0 <= i0 < i && 0 <= j0 < 4 ==> !cell_out_of_bounds(self@, i0, j0),
            decreases 4 - i,
        {
            let mut j: usize = 0;
            while j < LAYOUT_LEN
                invariant
                    i < 4,
                    j <= 4,
                    forall|i0: int, j0: int|
                        0 <= i0 < i && 0 <= j0 < 4 ==> !cell_out_of_bounds(self@, i0, j0),
                    forall|j0: int| 0 <= j0 < j ==> !cell_out_of_bounds(self@, i as int, j0),
                decreases 4 - j,
            {
                let tile = self.layout[i][j];
                if tile.is_some() {
                    let x: i16 = j as i16 + self.coord.0 as i16;
                    let y: i16 = i as i16 + self.coord.1 as i16;
                    if x < 0 || x >= board::BOARD_WIDTH as i16 || y >= board::BOARD_HEIGHT as i16 {
                        proof {
                            assert(cell_out_of_bounds(self@, i as int, j as int));
                        }
                        return true;
                    }
                }
                j = j + 1;
            }
            i = i + 1;
        }
        false
    }
}

/// Relies on `rand::rng()` and `RngExt::random_range`: the latter returns a
/// value in the given range, here an index of one of the seven shapes.
#[verifier::external_body]
fn random_shape_index() -> (r: u8)
    ensures
        r <= 6,
{
    let mut rng = rand::rng();
    rand::RngExt::random_range(&mut rng, 0u8..=6u8)
}

/// Rotation is a cyclic group action: turning a well-formed piece four
/// quarter turns in the same direction restores its layout exactly.
pub proof fn lemma_rotation_cycle(p: PieceModel)
    requires
        piece_wf(p),
    ensures
        moved(moved(moved(moved(p, Movement::RotateLeft), Movement::RotateLeft),
            Movement::RotateLeft), Movement::RotateLeft) == p,
        moved(moved(moved(moved(p, Movement::RotateRight), Movement::RotateRight),
            Movement::RotateRight), Movement::RotateRight) == p,
{
    let d = spec_rot_diameter(p.piece_type);
    let l = p.layout;
    assert forall|i: int, j: int| 0 <= i < 4 && 0 <= j < 4 && !(i < d && j < d) implies l[i][j]
        is None by {
        if l[i][j] is Some {
            assert(occupied(l, i, j));
        }
    }
    let l1 = rotated_left(l, d);
    let l2 = rotated_left(l1, d);
    let l3 = rotated_left(l2, d);
    let l4 = rotated_left(l3, d);
    assert forall|i: int, j: int| 0 <= i < d && 0 <= j < d implies l2[i][j] == l[d - 1 - i][d - 1
        - j] by {}
    assert forall|i: int, j: int| 0 <= i < d && 0 <= j < d implies l3[i][j] == l[d - 1 - j][i] by {}
    assert forall|i: int, j: int| 0 <= i < d && 0 <= j < d implies l4[i][j] == l[i][j] by {}
    assert(l4 =~~= l);
    let r1 = rotated_right(l, d);
    let r2 = rotated_right(r1, d);
    let r3 = rotated_right(r2, d);
    let r4 = rotated_right(r3, d);
    assert forall|i: int, j: int| 0 <= i < d && 0 <= j < d implies r2[i][j] == l[d - 1 - i][d - 1
        - j] by {}
    assert forall|i: int, j: int| 0 <= i < d && 0 <= j < d implies r3[i][j] == l[j][d - 1 - i] by {}
    assert forall|i: int, j: int| 0 <= i < d && 0 <= j < d implies r4[i][j] == l[i][j] by {}
    assert(r4 =~~= l);
    assert(moved(moved(moved(moved(p, Movement::RotateLeft), Movement::RotateLeft),
        Movement::RotateLeft), Movement::RotateLeft) =~~= p);
    assert(moved(moved(moved(moved(p, Movement::RotateRight), Movement::RotateRight),
        Movement::RotateRight), Movement::RotateRight) =~~= p);
}

/// Every canonical layout is well-formed: 4 rows of 4, blocks confined to
/// the shape's rotation sub-grid, and at least one block.
pub proof fn lemma_canonical_piece_wf(t: PieceType)
    ensures
        layout_wf(canonical_layout(t)),
        confined(canonical_layout(t), spec_rot_diameter(t)),
        nonempty_layout(canonical_layout(t)),
{
    assert(occupied(canonical_layout(t), 1, 1));
}

/// Movement preserves piece well-formedness.
pub proof fn lemma_moved_wf(p: PieceModel, m: Movement)
    requires
        piece_wf(p),
    ensures
        piece_wf(moved(p, m)),
{
    let d = spec_rot_diameter(p.piece_type);
    match m {
        Movement::RotateLeft => {
            let (i0, j0) = choose|i0: int, j0: int|
                0 <= i0 < 4 && 0 <= j0 < 4 && #[trigger] occupied(p.layout, i0, j0);
            assert(occupied(rotated_left(p.layout, d), d - 1 - j0, i0));
        }
        Movement::RotateRight => {
            let (i0, j0) = choose|i0: int, j0: int|
                0 <= i0 < 4 && 0 <= j0 < 4 && #[trigger] occupied(p.layout, i0, j0);
            assert(occupied(rotated_right(p.layout, d), j0, d - 1 - i0));
        }
        _ => {}
    }
}

} // verus!

verus! {

/// Columns of the piece preview pane.
pub const PIECEVIEW_WIDTH: usize = 4;

/// Rows of the piece preview pane.
pub const PIECEVIEW_HEIGHT: usize = 2;

/// The piece a preview pane shows: the O shape is shifted up one row so it
/// fits the pane's two rows; every other shape is shown as it is.
pub open spec fn displayed_piece(p: PieceModel) -> PieceModel {
    if p.piece_type is O {
        PieceModel {
            layout: Seq::new(
                4,
                |i: int|
                    if i == 0 {
                        p.layout[1]
                    } else {
                        p.layout[i]
                    },
            ),
            ..p
        }
    } else {
        p
    }
}

/// State of a small pane that previews one piece (the next or held piece).
/// The hosting interface renders it; the state itself is plain data.
pub struct PieceView {
    piece: Option<Piece>,
    large: bool,
}

impl PieceView {
    /// The piece currently on display, if any.
    pub closed spec fn spec_piece(&self) -> Option<PieceModel> {
        match self.piece {
            Some(p) => Some(p@),
            None => None,
        }
    }

    /// Whether the pane is rendered at double scale.
    pub closed spec fn spec_large(&self) -> bool {
        self.large
    }

    /// An empty, double-scale preview pane.
    pub fn new() -> (r: Self)
        ensures
            r.spec_piece() is None,
            r.spec_large(),
    {
        PieceView { piece: None, large: true }
    }

    /// Puts `piece` on display, shifting the O shape up one row so it fits
    /// the pane.
    pub fn set_piece(&mut self, piece: Piece)
        ensures
            final(self).spec_large() == old(self).spec_large(),
            final(self).spec_piece() == Some(displayed_piece(piece@)),
    {
        let mut q = piece;
        if matches!(q.piece_type(), PieceType::O) {
            let lm = q.layout_mut();
            lm[0] = lm[1];
        }
        self.piece = Some(q);
        proof {
            assert(q@.layout =~~= displayed_piece(piece@).layout);
        }
    }

    /// Puts a piece on display if one is given; otherwise leaves the pane
    /// as it is.
    pub fn set_piece_optional(&mut self, opt_piece: Option<Piece>)
        ensures
            final(self).spec_large() == old(self).spec_large(),
            opt_piece matches Some(p) ==> final(self).spec_piece() == Some(displayed_piece(p@)),
            opt_piece is None ==> *final(self) == *old(self),
    {
        match opt_piece {
            Some(p) => self.set_piece(p),
            None => {}
        }
    }

    /// The pane's drawing scale: 2 when large, 1 when small.
    pub fn get_scale(&self) -> (r: usize)
        ensures
            r == (if self.spec_large() {
                2int
            } else {
                1int
            }),
    {
        match self.large {
            true => 2,
            false => 1,
        }
    }

    /// Chooses the pane's drawing scale.
    pub fn set_scale(&mut self, make_large: bool)
        ensures
            final(self).spec_large() == make_large,
            final(self).spec_piece() == old(self).spec_piece(),
    {
        self.large = make_large;
    }

    /// The piece on display, for the renderer.
    pub fn piece(&self) -> (r: Option<Piece>)
        ensures
            r is Some <==> self.spec_piece() is Some,
            r matches Some(p) ==> self.spec_piece() == Some(p@),
    {
        self.piece
    }
}

/// How many upcoming pieces the bag holds.
const PIECE_BAG_SIZE: usize = 7;

/// A rolling buffer of upcoming pieces: the piece at the cursor is next to
/// enter play, and popped slots are refilled with fresh random pieces.
pub struct PieceBag {
    pieces: [Piece; PIECE_BAG_SIZE],
    curr: usize,
}

impl PieceBag {
    /// The pieces in the buffer, in storage order.
    pub closed spec fn spec_pieces(&self) -> Seq<PieceModel> {
        Seq::new(7, |k: int| self.pieces@[k]@)
    }

    /// The cursor: the storage index of the piece that is next to leave.
    pub closed spec fn spec_curr(&self) -> int {
        self.curr as int
    }

    /// The cursor stays within the buffer.
    pub open spec fn wf(&self) -> bool {
        0 <= self.spec_curr() < 7
    }

    /// A bag of seven fresh random pieces, anchored at the spawn coordinate.
    pub fn new() -> (r: Self)
        ensures
            r.wf(),
            r.spec_curr() == 0,
            forall|k: int| 0 <= k < 7 ==> is_spawn(#[trigger] r.spec_pieces()[k]),
    {
        let pieces = [
            Piece::random_new().at(board::PIECE_START_X, board::PIECE_START_Y),
            Piece::random_new().at(board::PIECE_START_X, board::PIECE_START_Y),
            Piece::random_new().at(board::PIECE_START_X, board::PIECE_START_Y),
            Piece::random_new().at(board::PIECE_START_X, board::PIECE_START_Y),
            Piece::random_new().at(board::PIECE_START_X, board::PIECE_START_Y),
            Piece::random_new().at(board::PIECE_START_X, board::PIECE_START_Y),
            Piece::random_new().at(board::PIECE_START_X, board::PIECE_START_Y),
        ];
        PieceBag { pieces, curr: 0 }
    }

    /// Takes the piece at the cursor, refills its slot with a fresh random
    /// piece, and advances the cursor.
    pub fn pop(&mut self) -> (r: Piece)
        requires
            old(self).wf(),
        ensures
            final(self).wf(),
            r@ == old(self).spec_pieces()[old(self).spec_curr()],
            final(self).spec_curr() == (old(self).spec_curr() + 1) % 7,
            is_spawn(final(self).spec_pieces()[old(self).spec_curr()]),
            forall|k: int|
                0 <= k < 7 && k != old(self).spec_curr() ==> final(self).spec_pieces()[k] == old(
                    self,
                ).spec_pieces()[k],
    {
        let piece = self.pieces[self.curr];
        self.pieces[self.curr] = Piece::random_new().at(
            board::PIECE_START_X,
            board::PIECE_START_Y,
        );
        self.curr = (self.curr + 1) % PIECE_BAG_SIZE;
        piece
    }

    /// The piece `idx` places after the cursor, without taking it.
    pub fn get(&self, idx: usize) -> (r: Piece)
        requires
            self.wf(),
            idx < 7,
        ensures
            r@ == self.spec_pieces()[(self.spec_curr() + idx) % 7],
    {
        let true_pos = (self.curr + idx) % PIECE_BAG_SIZE;
        self.pieces[true_pos]
    }
}

} // verus!
