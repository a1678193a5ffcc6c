//! Placement value types and the cell geometry that a placement determines:
//! which board cells a tile covers and which cells neighbour a given cell.

use vstd::prelude::*;

use crate::tiles::Domino;
use crate::tiles::TileType;

verus! {

/// A tile as it appears on the board: either the unique starting castle or a
/// two-sided domino.
#[derive(Debug, Clone, Copy, PartialEq, Eq, Structural)]
pub enum Tile {
    Castle,
    Domino(Domino),
}

/// The four rotation states of a domino, fixing which cell holds its first
/// side and which holds its second.
#[derive(Debug, Clone, Copy, PartialEq, Eq, Structural)]
pub enum TileOrientation {
    /// The first side on the left, the second side on the right.
    LeftRight,
    /// The first side on the top, the second side on the bottom
    /// (a 90-degree clockwise rotation).
    TopBottom,
    /// The first side on the right, the second side on the left
    /// (a 180-degree rotation).
    RightLeft,
    /// The first side on the bottom, the second side on the top
    /// (a 270-degree clockwise rotation).
    BottomTop,
}

/// A board coordinate. The plane is unbounded in the data model; the legal
/// extent is enforced as a placement rule, not by this type.
#[derive(Debug, Clone, Copy, PartialEq, Eq, Default, Structural)]
pub struct Position(pub i8, pub i8);

impl Position {
    /// The coordinate as a pair of mathematical integers.
    pub open spec fn as_int(self) -> (int, int) {
        (self.0 as int, self.1 as int)
    }
}

/// A candidate or committed assignment of a tile to board cells: the tile,
/// the anchor cell (which holds a domino's first side), and the orientation.
#[derive(Debug, Clone, PartialEq, Eq, Structural)]
pub struct TilePlacement {
    pub tile: Tile,
    /// The cell holding the tile's first side.
    pub position: Position,
    pub orientation: TileOrientation,
}

/// The cell one step away from `c` in the direction a domino's second side
/// lies for orientation `o`.
pub open spec fn spec_offset(c: (int, int), o: TileOrientation) -> (int, int) {
    match o {
        TileOrientation::LeftRight => (c.0 + 1, c.1),
        TileOrientation::TopBottom => (c.0, c.1 - 1),
        TileOrientation::RightLeft => (c.0 - 1, c.1),
        TileOrientation::BottomTop => (c.0, c.1 + 1),
    }
}

/// The cells a placement occupies, in side order: one cell for the castle,
/// the anchor cell then the offset cell for a domino. A pure function of the
/// placement alone, independent of any board state.
pub open spec fn spec_cells(p: TilePlacement) -> Seq<(int, int)> {
    match p.tile {
        Tile::Castle => seq![p.position.as_int()],
        Tile::Domino(_) => seq![
            p.position.as_int(),
            spec_offset(p.position.as_int(), p.orientation),
        ],
    }
}

/// Whether a cell's coordinates both lie in the range of the stored
/// coordinate type.
pub open spec fn cell_in_coord_range(c: (int, int)) -> bool {
    &&& i8::MIN <= c.0 <= i8::MAX
    &&& i8::MIN <= c.1 <= i8::MAX
}

/// Whether every cell of a placement lies in the range of the stored
/// coordinate type.
pub open spec fn cells_in_coord_range(p: TilePlacement) -> bool {
    forall|i: int| 0 <= i < spec_cells(p).len() ==> cell_in_coord_range(#[trigger] spec_cells(p)[i])
}

/// The four orthogonal neighbours of a cell: right, up, left, down.
pub open spec fn spec_neighbors(c: (int, int)) -> Seq<(int, int)> {
    seq![(c.0 + 1, c.1), (c.0, c.1 - 1), (c.0 - 1, c.1), (c.0, c.1 + 1)]
}

/// Whether two cells are distinct and share an edge.
pub open spec fn orthogonally_adjacent(a: (int, int), b: (int, int)) -> bool {
    ||| a.0 == b.0 && (a.1 == b.1 + 1 || a.1 + 1 == b.1)
    ||| a.1 == b.1 && (a.0 == b.0 + 1 || a.0 + 1 == b.0)
}

/// The terrain kind of the domino side that sits on cell `j` of the
/// placement's cells (side order equals cell order).
pub open spec fn placement_side_type(p: TilePlacement, j: int) -> TileType
    recommends
        p.tile is Domino,
        0 <= j < spec_cells(p).len(),
{
    match p.tile {
        Tile::Castle => TileType::Forest,
        Tile::Domino(d) => if j == 0 {
            d.0.tile_type
        } else {
            d.1.tile_type
        },
    }
}

/// The grid-index key that encodes a cell. Injective on cells whose
/// coordinates lie in the stored coordinate range, since the two coordinates
/// occupy disjoint "digits" of base 256.
pub open spec fn spec_cell_key(c: (int, int)) -> int {
    c.0 * 256 + c.1
}

/// Cell keys are injective on cells in the stored coordinate range.
pub proof fn lemma_cell_key_injective(a: (int, int), b: (int, int))
    requires
        cell_in_coord_range(a),
        cell_in_coord_range(b),
        spec_cell_key(a) == spec_cell_key(b),
    ensures
        a == b,
{
    assert(a.0 * 256 + a.1 == b.0 * 256 + b.1);
    assert((a.0 - b.0) * 256 == b.1 - a.1) by (nonlinear_arith)
        requires
            a.0 * 256 + a.1 == b.0 * 256 + b.1,
    ;
    assert(a.0 == b.0) by (nonlinear_arith)
        requires
            (a.0 - b.0) * 256 == b.1 - a.1,
            -128 <= a.1 <= 127,
            -128 <= b.1 <= 127,
    ;
}

/// A placement's cells are a function of the placement alone, and a domino's
/// two cells are always distinct and orthogonally adjacent.
pub proof fn lemma_domino_cells_geometry(p: TilePlacement)
    requires
        p.tile is Domino,
    ensures
        spec_cells(p).len() == 2,
        spec_cells(p)[0] != spec_cells(p)[1],
        orthogonally_adjacent(spec_cells(p)[0], spec_cells(p)[1]),
{
}

} // verus!
