//! One player's board: an append-only log of committed placements and a
//! sparse grid index from occupied cell to the placement that fills it,
//! together with the placement-validation rules.

use vstd::prelude::*;

use std::collections::HashMap;

use crate::cellvec::cell_vec_cells;
use crate::cellvec::cell_vec_get;
use crate::cellvec::cell_vec_new;
use crate::cellvec::cell_vec_push;
use crate::placement::Position;
use crate::placement::Tile;
use crate::placement::TileOrientation;
use crate::placement::TilePlacement;
use crate::placement::cell_in_coord_range;
use crate::placement::cells_in_coord_range;
use crate::placement::lemma_cell_key_injective;
use crate::placement::lemma_domino_cells_geometry;
use crate::placement::placement_side_type;
use crate::placement::spec_cell_key;
use crate::placement::spec_cells;
use crate::placement::spec_neighbors;
use crate::tiles::AnyTileType;
use crate::tiles::TileType;

verus! {

broadcast use vstd::std_specs::hash::group_hash_axioms;

/// The reason a proposed placement was rejected. All three are expected,
/// recoverable outcomes of an illegal move, never internal failures.
#[derive(Debug, Clone, Copy, PartialEq, Eq, Structural)]
pub enum TilePlacementError {
    OverlapsExistingTile,
    NoMatchingAdjacentTile,
    OutOfBounds,
}

/// The side length of the legal board extent in the standard game variant.
const KINGDOM_MAX_SIZE: u8 = 5;

/// The placement that every kingdom starts from: the castle on the origin
/// cell.
pub open spec fn castle_placement() -> TilePlacement {
    TilePlacement {
        tile: Tile::Castle,
        position: Position(0, 0),
        orientation: TileOrientation::LeftRight,
    }
}

/// One player's board. Grows monotonically from the initial castle cell;
/// committed placements are never removed or altered.
pub struct Kingdom {
    placements: Vec<TilePlacement>,
    grid: HashMap<i32, usize>,
    half_width: i8,
}

impl Kingdom {
    /// The committed placements, in placement order.
    pub closed spec fn placements_seq(self) -> Seq<TilePlacement> {
        self.placements@
    }

    /// The grid index: the key of each occupied cell, mapped to the position
    /// of the placement that fills the cell in the placement log.
    pub closed spec fn grid_map(self) -> Map<i32, usize> {
        self.grid@
    }

    /// The legal extent's half-width: no occupied cell's coordinate may
    /// exceed it in absolute value.
    pub closed spec fn extent_half_width(self) -> int {
        self.half_width as int
    }

    /// Whether a cell is occupied by some committed placement.
    pub open spec fn occupied(self, c: (int, int)) -> bool {
        &&& cell_in_coord_range(c)
        &&& self.grid_map().dom().contains(spec_cell_key(c) as i32)
    }

    /// The internal consistency of the board: the log starts with the castle
    /// and otherwise holds dominoes, every committed cell is indexed by the
    /// grid, and every grid entry points back at a placement that covers its
    /// cell.
    pub open spec fn wf(self) -> bool {
        &&& 1 <= self.extent_half_width() <= 60
        &&& self.placements_seq().len() >= 1
        &&& self.placements_seq()[0] == castle_placement()
        &&& forall|i: int|
            0 <= i < self.placements_seq().len() ==> cells_in_coord_range(
                #[trigger] self.placements_seq()[i],
            )
        &&& forall|i: int|
            1 <= i < self.placements_seq().len() ==> (#[trigger] self.placements_seq()[i]).tile
                is Domino
        &&& forall|i: int, j: int|
            0 <= i < self.placements_seq().len() && 0 <= j < spec_cells(
                self.placements_seq()[i],
            ).len() ==> {
                let k = spec_cell_key(#[trigger] spec_cells(self.placements_seq()[i])[j]) as i32;
                &&& self.grid_map().dom().contains(k)
                &&& self.grid_map()[k] as int == i
            }
        &&& forall|k: i32|
            #[trigger] self.grid_map().dom().contains(k) ==> {
                let i = self.grid_map()[k] as int;
                &&& 0 <= i < self.placements_seq().len()
                &&& exists|j: int|
                    0 <= j < spec_cells(self.placements_seq()[i]).len() && spec_cell_key(
                        #[trigger] spec_cells(self.placements_seq()[i])[j],
                    ) == k as int
            }
    }

    /// Whether a cell lies within the legal board extent.
    pub open spec fn within_extent(self, c: (int, int)) -> bool {
        &&& -self.extent_half_width() <= c.0 <= self.extent_half_width()
        &&& -self.extent_half_width() <= c.1 <= self.extent_half_width()
    }

    /// Whether every cell of a placement lies within the legal board extent.
    pub open spec fn placement_within_extent(self, p: TilePlacement) -> bool {
        forall|j: int|
            0 <= j < spec_cells(p).len() ==> self.within_extent(#[trigger] spec_cells(p)[j])
    }

    /// Whether some cell of a placement is already occupied.
    pub open spec fn overlaps_existing(self, p: TilePlacement) -> bool {
        exists|j: int| 0 <= j < spec_cells(p).len() && self.occupied(#[trigger] spec_cells(p)[j])
    }

    /// The kind of tile half sitting on an occupied cell: the castle, or the
    /// terrain of the domino half that covers the cell.
    pub open spec fn tile_kind_at(self, c: (int, int)) -> AnyTileType
        recommends
            self.occupied(c),
    {
        let p = self.placements_seq()[self.grid_map()[spec_cell_key(c) as i32] as int];
        match p.tile {
            Tile::Castle => AnyTileType::Castle,
            Tile::Domino(d) => if spec_cells(p)[0] == c {
                AnyTileType::Domino(d.0.tile_type)
            } else {
                AnyTileType::Domino(d.1.tile_type)
            },
        }
    }

    /// Whether some orthogonal neighbour of `c` is occupied by the castle or
    /// by a domino half of terrain `t`.
    pub open spec fn matching_neighbor(self, c: (int, int), t: TileType) -> bool {
        exists|j: int|
            0 <= j < 4 && {
                let n = #[trigger] spec_neighbors(c)[j];
                &&& self.occupied(n)
                &&& (self.tile_kind_at(n) == AnyTileType::Castle || self.tile_kind_at(n)
                    == AnyTileType::Domino(t))
            }
    }

    /// Whether some cell of the placement has a qualifying occupied
    /// neighbour: the castle, or a domino half matching that cell's terrain.
    pub open spec fn has_matching_adjacent(self, p: TilePlacement) -> bool {
        exists|j: int|
            0 <= j < spec_cells(p).len() && self.matching_neighbor(
                #[trigger] spec_cells(p)[j],
                placement_side_type(p, j),
            )
    }

    /// Whether a placement passes all three validation rules.
    pub open spec fn placement_valid(self, p: TilePlacement) -> bool {
        &&& self.placement_within_extent(p)
        &&& !self.overlaps_existing(p)
        &&& self.has_matching_adjacent(p)
    }

    /// The validation decision for a candidate placement against the current
    /// board, with the fixed precedence bounds, then overlap, then adjacency.
    pub open spec fn spec_validate(self, p: TilePlacement) -> Result<(), TilePlacementError> {
        if !self.placement_within_extent(p) {
            Err(TilePlacementError::OutOfBounds)
        } else if self.overlaps_existing(p) {
            Err(TilePlacementError::OverlapsExistingTile)
        } else if !self.has_matching_adjacent(p) {
            Err(TilePlacementError::NoMatchingAdjacentTile)
        } else {
            Ok(())
        }
    }

    /// A kingdom for the standard variant: a board extent of half-width 2
    /// (a 5 by 5 extent), holding only the castle at the origin.
    pub fn new() -> (k: Kingdom)
        ensures
            k.wf(),
            k.placements_seq() == seq![castle_placement()],
            k.grid_map() == Map::<i32, usize>::empty().insert(0, 0),
            k.extent_half_width() == 2,
    {
        Self::new_with_half_width(((KINGDOM_MAX_SIZE - 1) / 2) as i8)
    }

    /// A kingdom whose legal extent has the given half-width, holding only
    /// the castle at the origin. The standard variant uses half-width 2.
    pub fn new_with_half_width(half_width: i8) -> (k: Kingdom)
        requires
            1 <= half_width <= 60,
        ensures
            k.wf(),
            k.placements_seq() == seq![castle_placement()],
            k.grid_map() == Map::<i32, usize>::empty().insert(0, 0),
            k.extent_half_width() == half_width,
    {
        let initial_placement = TilePlacement {
            tile: Tile::Castle,
            position: Position(0, 0),
            orientation: TileOrientation::LeftRight,
        };
        let mut placements: Vec<TilePlacement> = Vec::new();
        placements.push(initial_placement);
        let mut grid: HashMap<i32, usize> = HashMap::new();
        grid.insert(0, 0);
        let k = Kingdom { placements, grid, half_width };
        proof {
            assert(k.placements_seq() =~= seq![castle_placement()]);
            assert(k.grid_map() =~= Map::<i32, usize>::empty().insert(0, 0));
            assert(spec_cells(castle_placement()) =~= seq![(0int, 0int)]);
            assert forall|i: int, j: int|
                0 <= i < k.placements_seq().len() && 0 <= j < spec_cells(
                    k.placements_seq()[i],
                ).len() implies {
                let key = spec_cell_key(#[trigger] spec_cells(k.placements_seq()[i])[j]) as i32;
                &&& k.grid_map().dom().contains(key)
                &&& k.grid_map()[key] as int == i
            } by {
                assert(spec_cells(k.placements_seq()[i])[j] == (0int, 0int));
            }
            assert forall|key: i32| #[trigger]
                k.grid_map().dom().contains(key) implies {
                let i = k.grid_map()[key] as int;
                &&& 0 <= i < k.placements_seq().len()
                &&& exists|j: int|
                    0 <= j < spec_cells(k.placements_seq()[i]).len() && spec_cell_key(
                        #[trigger] spec_cells(k.placements_seq()[i])[j],
                    ) == key as int
            } by {
                assert(key == 0i32);
                assert(spec_cell_key(spec_cells(k.placements_seq()[0])[0]) == 0);
            }
        }
        k
    }

    /// The one or two cells the placement would occupy, in side order,
    /// computed from the anchor and orientation alone: board state plays no
    /// part in the result.
    pub fn get_positions_filled_by_placement(&self, placement: &TilePlacement) -> (r:
        tinyvec::ArrayVec<[(i8, i8); 2]>)
        requires
            cells_in_coord_range(*placement),
        ensures
            cell_vec_cells(r).len() == spec_cells(*placement).len(),
            forall|j: int|
                0 <= j < spec_cells(*placement).len() ==> ((#[trigger] cell_vec_cells(r)[j]).0
                    as int, cell_vec_cells(r)[j].1 as int) == spec_cells(*placement)[j],
    {
        let mut positions = cell_vec_new();

        if let Tile::Castle = placement.tile {
            cell_vec_push(&mut positions, (placement.position.0, placement.position.1));
            return positions;
        }
        let x = placement.position.0;
        let y = placement.position.1;

        cell_vec_push(&mut positions, (x, y));

        proof {
            assert(cell_in_coord_range(spec_cells(*placement)[1]));
        }
        match placement.orientation {
            TileOrientation::LeftRight => {
                cell_vec_push(&mut positions, (x + 1, y));
            },
            TileOrientation::TopBottom => {
                cell_vec_push(&mut positions, (x, y - 1));
            },
            TileOrientation::RightLeft => {
                cell_vec_push(&mut positions, (x - 1, y));
            },
            TileOrientation::BottomTop => {
                cell_vec_push(&mut positions, (x, y + 1));
            },
        }

        positions
    }

    /// The four orthogonal neighbours of a position: right, up, left, down.
    pub fn get_adjacent_positions(&self, position: Position) -> (r: [Position; 4])
        requires
            i8::MIN < position.0 < i8::MAX,
            i8::MIN < position.1 < i8::MAX,
        ensures
            forall|j: int|
                0 <= j < 4 ==> (#[trigger] r@[j]).as_int() == spec_neighbors(position.as_int())[j],
    {
        let Position(x, y) = position;

        [Position(x + 1, y), Position(x, y - 1), Position(x - 1, y), Position(x, y + 1)]
    }

    /// Looks a position up in the grid index: the kind of tile half occupying
    /// it, or `None` when the cell is free.
    pub fn tile_type_at(&self, position: Position) -> (r: Option<AnyTileType>)
        requires
            self.wf(),
        ensures
            match r {
                Some(kind) => self.occupied(position.as_int()) && kind == self.tile_kind_at(
                    position.as_int(),
                ),
                None => !self.occupied(position.as_int()),
            },
    {
        let key = cell_key((position.0, position.1));
        match self.grid.get(&key) {
            None => None,
            Some(i_ref) => {
                let i = *i_ref;
                proof {
                    let c = position.as_int();
                    let p = self.placements_seq()[i as int];
                    let j = choose|j: int|
                        0 <= j < spec_cells(p).len() && spec_cell_key(
                            #[trigger] spec_cells(p)[j],
                        ) == key as int;
                    lemma_cell_key_injective(spec_cells(p)[j], c);
                    assert(spec_cells(p)[0] == p.position.as_int());
                }
                let p = &self.placements[i];
                match p.tile {
                    Tile::Castle => Some(AnyTileType::Castle),
                    Tile::Domino(d) => {
                        if p.position.0 == position.0 && p.position.1 == position.1 {
                            Some(AnyTileType::Domino(d.0.tile_type))
                        } else {
                            Some(AnyTileType::Domino(d.1.tile_type))
                        }
                    },
                }
            },
        }
    }

    /// The position of the placement that occupies a cell in the placement
    /// log, or `None` when the cell is free.
    pub fn placement_index_at(&self, position: Position) -> (r: Option<usize>)
        requires
            self.wf(),
        ensures
            match r {
                Some(i) => self.occupied(position.as_int()) && i == self.grid_map()[spec_cell_key(
                    position.as_int(),
                ) as i32] && i < self.placements_seq().len(),
                None => !self.occupied(position.as_int()),
            },
    {
        let key = cell_key((position.0, position.1));
        match self.grid.get(&key) {
            None => None,
            Some(i_ref) => Some(*i_ref),
        }
    }

    /// Whether one cell qualifies as an attachment point for terrain `t`:
    /// it is occupied by the castle or by a domino half of the same terrain.
    fn cell_matches(&self, n: Position, t: TileType) -> (b: bool)
        requires
            self.wf(),
        ensures
            b == (self.occupied(n.as_int()) && (self.tile_kind_at(n.as_int())
                == AnyTileType::Castle || self.tile_kind_at(n.as_int()) == AnyTileType::Domino(t))),
    {
        match self.tile_type_at(n) {
            None => false,
            Some(AnyTileType::Castle) => true,
            Some(AnyTileType::Domino(kind)) => kind == t,
        }
    }

    /// Whether some orthogonal neighbour of `cell` qualifies as an attachment
    /// point for terrain `t`.
    fn has_matching_neighbor(&self, cell: (i8, i8), t: TileType) -> (b: bool)
        requires
            self.wf(),
            i8::MIN < cell.0 < i8::MAX,
            i8::MIN < cell.1 < i8::MAX,
        ensures
            b == self.matching_neighbor((cell.0 as int, cell.1 as int), t),
    {
        let neighbors = self.get_adjacent_positions(Position(cell.0, cell.1));
        let ghost c = (cell.0 as int, cell.1 as int);
        let b = self.cell_matches(neighbors[0], t) || self.cell_matches(neighbors[1], t)
            || self.cell_matches(neighbors[2], t) || self.cell_matches(neighbors[3], t);
        proof {
            if b {
                assert(exists|j: int|
                    0 <= j < 4 && {
                        let n = #[trigger] spec_neighbors(c)[j];
                        &&& self.occupied(n)
                        &&& (self.tile_kind_at(n) == AnyTileType::Castle || self.tile_kind_at(n)
                            == AnyTileType::Domino(t))
                    });
            } else {
                assert forall|j: int| 0 <= j < 4 implies !{
                    let n = #[trigger] spec_neighbors(c)[j];
                    &&& self.occupied(n)
                    &&& (self.tile_kind_at(n) == AnyTileType::Castle || self.tile_kind_at(n)
                        == AnyTileType::Domino(t))
                } by {
                    assert(spec_neighbors(c)[j] == neighbors@[j].as_int());
                }
            }
        }
        b
    }

    /// Validates a candidate domino placement and, when it is legal, commits
    /// it: the placement is appended to the log and each of its cells is
    /// indexed in the grid. On rejection the board is unchanged and the
    /// result names the first failed rule, checked in the fixed order
    /// bounds, then overlap, then adjacency.
    pub fn attempt_place(&mut self, placement: TilePlacement) -> (r: Result<
        (),
        TilePlacementError,
    >)
        requires
            old(self).wf(),
            placement.tile is Domino,
        ensures
            final(self).wf(),
            final(self).extent_half_width() == old(self).extent_half_width(),
            r == old(self).spec_validate(placement),
            r is Ok ==> final(self).placements_seq() == old(self).placements_seq().push(placement)
                && final(self).grid_map() == old(self).grid_map().insert(
                (spec_cell_key(spec_cells(placement)[0]) as i32),
                old(self).placements_seq().len() as usize,
            ).insert(
                (spec_cell_key(spec_cells(placement)[1]) as i32),
                old(self).placements_seq().len() as usize,
            ),
            r is Err ==> *final(self) == *old(self),
    {
        let ghost cells = spec_cells(placement);
        proof {
            lemma_domino_cells_geometry(placement);
        }
        let half = self.half_width;
        let x = placement.position.0;
        let y = placement.position.1;
        if x < -half || x > half || y < -half || y > half {
            proof {
                assert(!self.within_extent(cells[0]));
            }
            return Err(TilePlacementError::OutOfBounds);
        }
        proof {
            assert(cells_in_coord_range(placement)) by {
                assert forall|j: int| 0 <= j < cells.len() implies cell_in_coord_range(
                    #[trigger] cells[j],
                ) by {
                    assert(cells[0] == placement.position.as_int());
                }
            }
        }
        let positions = self.get_positions_filled_by_placement(&placement);
        let c0 = cell_vec_get(&positions, 0);
        let c1 = cell_vec_get(&positions, 1);
        if c1.0 < -half || c1.0 > half || c1.1 < -half || c1.1 > half {
            proof {
                assert(!self.within_extent(cells[1]));
            }
            return Err(TilePlacementError::OutOfBounds);
        }
        proof {
            assert forall|j: int| 0 <= j < cells.len() implies self.within_extent(
                #[trigger] cells[j],
            ) by {
                assert(cells[0] == (c0.0 as int, c0.1 as int));
                assert(cells[1] == (c1.0 as int, c1.1 as int));
            }
        }
        let k0 = cell_key(c0);
        let k1 = cell_key(c1);
        if self.grid.contains_key(&k0) {
            proof {
                assert(self.occupied(cells[0]));
            }
            return Err(TilePlacementError::OverlapsExistingTile);
        }
        if self.grid.contains_key(&k1) {
            proof {
                assert(self.occupied(cells[1]));
            }
            return Err(TilePlacementError::OverlapsExistingTile);
        }
        proof {
            assert(!self.overlaps_existing(placement)) by {
                assert forall|j: int| 0 <= j < cells.len() implies !self.occupied(
                    #[trigger] cells[j],
                ) by {
                    assert(j == 0 || j == 1);
                }
            }
        }
        let t0: TileType;
        let t1: TileType;
        match placement.tile {
            Tile::Domino(d) => {
                t0 = d.0.tile_type;
                t1 = d.1.tile_type;
            },
            Tile::Castle => {
                proof {
                    assert(false);
                }
                t0 = TileType::Forest;
                t1 = TileType::Forest;
            },
        }
        let m0 = self.has_matching_neighbor(c0, t0);
        let m1 = self.has_matching_neighbor(c1, t1);
        proof {
            assert(placement_side_type(placement, 0) == t0);
            assert(placement_side_type(placement, 1) == t1);
        }
        if !m0 && !m1 {
            proof {
                assert(!self.has_matching_adjacent(placement)) by {
                    assert forall|j: int| 0 <= j < cells.len() implies !self.matching_neighbor(
                        #[trigger] cells[j],
                        placement_side_type(placement, j),
                    ) by {
                        assert(j == 0 || j == 1);
                    }
                }
            }
            return Err(TilePlacementError::NoMatchingAdjacentTile);
        }
        proof {
            if m0 {
                assert(self.matching_neighbor(cells[0], placement_side_type(placement, 0)));
            } else {
                assert(self.matching_neighbor(cells[1], placement_side_type(placement, 1)));
            }
            assert(self.has_matching_adjacent(placement));
            assert(self.spec_validate(placement) is Ok);
        }
        let ghost pre = *self;
        let idx = self.placements.len();
        self.placements.push(placement);
        self.grid.insert(k0, idx);
        self.grid.insert(k1, idx);
        proof {
            Self::lemma_commit_preserves_wf(pre, *self, placement, k0, k1);
        }
        Ok(())
    }

    /// Appending a legal placement to a consistent board and indexing its two
    /// cells leaves the board consistent.
    proof fn lemma_commit_preserves_wf(pre: Kingdom, post: Kingdom, p: TilePlacement, k0: i32, k1: i32)
        requires
            pre.wf(),
            pre.placements_seq().len() <= usize::MAX,
            p.tile is Domino,
            cells_in_coord_range(p),
            !pre.grid_map().dom().contains(k0),
            !pre.grid_map().dom().contains(k1),
            k0 as int == spec_cell_key(spec_cells(p)[0]),
            k1 as int == spec_cell_key(spec_cells(p)[1]),
            post.placements_seq() == pre.placements_seq().push(p),
            post.grid_map() == pre.grid_map().insert(k0, pre.placements_seq().len() as usize).insert(
                k1,
                pre.placements_seq().len() as usize,
            ),
            post.extent_half_width() == pre.extent_half_width(),
        ensures
            post.wf(),
    {
        lemma_domino_cells_geometry(p);
        let n = pre.placements_seq().len() as int;
        assert(k0 != k1) by {
            if k0 == k1 {
                lemma_cell_key_injective(spec_cells(p)[0], spec_cells(p)[1]);
            }
        }
        assert(post.grid_map().dom().contains(k0) && post.grid_map()[k0] as int == n);
        assert(post.grid_map().dom().contains(k1) && post.grid_map()[k1] as int == n);
        assert forall|i: int, j: int|
            0 <= i < post.placements_seq().len() && 0 <= j < spec_cells(
                post.placements_seq()[i],
            ).len() implies {
            let k = spec_cell_key(#[trigger] spec_cells(post.placements_seq()[i])[j]) as i32;
            &&& post.grid_map().dom().contains(k)
            &&& post.grid_map()[k] as int == i
        } by {
            if i < n {
                assert(post.placements_seq()[i] == pre.placements_seq()[i]);
                let k = spec_cell_key(spec_cells(pre.placements_seq()[i])[j]) as i32;
                assert(pre.grid_map().dom().contains(k) && pre.grid_map()[k] as int == i);
                assert(k != k0 && k != k1);
            } else {
                assert(post.placements_seq()[i] == p);
                assert(j == 0 || j == 1);
            }
        }
        assert forall|k: i32| #[trigger] post.grid_map().dom().contains(k) implies {
            let i = post.grid_map()[k] as int;
            &&& 0 <= i < post.placements_seq().len()
            &&& exists|j: int|
                0 <= j < spec_cells(post.placements_seq()[i]).len() && spec_cell_key(
                    #[trigger] spec_cells(post.placements_seq()[i])[j],
                ) == k as int
        } by {
            if k == k0 {
                assert(post.placements_seq()[n] == p);
                assert(spec_cell_key(spec_cells(post.placements_seq()[n])[0]) == k as int);
            } else if k == k1 {
                assert(post.placements_seq()[n] == p);
                assert(spec_cell_key(spec_cells(post.placements_seq()[n])[1]) == k as int);
            } else {
                assert(pre.grid_map().dom().contains(k));
                let i = pre.grid_map()[k] as int;
                assert(post.placements_seq()[i] == pre.placements_seq()[i]);
                let j = choose|j: int|
                    0 <= j < spec_cells(pre.placements_seq()[i]).len() && spec_cell_key(
                        #[trigger] spec_cells(pre.placements_seq()[i])[j],
                    ) == k as int;
                assert(spec_cell_key(spec_cells(post.placements_seq()[i])[j]) == k as int);
            }
        }
    }

    /// The number of committed placements, the castle included.
    pub fn placement_count(&self) -> (n: usize)
        ensures
            n == self.placements_seq().len(),
    {
        self.placements.len()
    }

    /// The committed placement at a given position of the placement log,
    /// in placement order.
    pub fn placement_at(&self, i: usize) -> (p: &TilePlacement)
        requires
            i < self.placements_seq().len(),
        ensures
            *p == self.placements_seq()[i as int],
    {
        &self.placements[i]
    }
}

/// A successful placement grows the occupied-cell set by exactly the
/// placement's own cells: every previously occupied cell stays occupied, and
/// the only newly occupied cells are the placement's two.
pub proof fn lemma_monotonic_occupancy(pre: Kingdom, post: Kingdom, p: TilePlacement)
    requires
        p.tile is Domino,
        cells_in_coord_range(p),
        pre.placements_seq().len() <= usize::MAX,
        post.grid_map() == pre.grid_map().insert(
            (spec_cell_key(spec_cells(p)[0]) as i32),
            pre.placements_seq().len() as usize,
        ).insert((spec_cell_key(spec_cells(p)[1]) as i32), pre.placements_seq().len() as usize),
    ensures
        forall|c: (int, int)| pre.occupied(c) ==> #[trigger] post.occupied(c),
        forall|c: (int, int)|
            #[trigger] post.occupied(c) <==> pre.occupied(c) || c == spec_cells(p)[0] || c
                == spec_cells(p)[1],
{
    lemma_domino_cells_geometry(p);
    assert forall|c: (int, int)| #[trigger]
        post.occupied(c) implies pre.occupied(c) || c == spec_cells(p)[0] || c == spec_cells(
        p,
    )[1] by {
        if !pre.occupied(c) {
            if spec_cell_key(c) as i32 == spec_cell_key(spec_cells(p)[0]) as i32 {
                lemma_cell_key_injective(c, spec_cells(p)[0]);
            } else {
                lemma_cell_key_injective(c, spec_cells(p)[1]);
            }
        }
    }
    assert forall|c: (int, int)|
        pre.occupied(c) || c == spec_cells(p)[0] || c == spec_cells(p)[1] implies #[trigger] post.occupied(
        c,
    ) by {
        assert(cell_in_coord_range(spec_cells(p)[0]) && cell_in_coord_range(spec_cells(p)[1]));
    }
}

/// A placement that validates successfully never has a cell that is already
/// occupied: commitment cannot overwrite a grid entry.
pub proof fn lemma_no_self_overlap(k: Kingdom, p: TilePlacement)
    requires
        k.spec_validate(p) is Ok,
    ensures
        forall|j: int| 0 <= j < spec_cells(p).len() ==> !k.occupied(#[trigger] spec_cells(p)[j]),
{
}

/// A placement entirely within the legal extent is never rejected for
/// bounds, and one with any cell outside the extent is always rejected for
/// bounds, whatever else holds of the board.
pub proof fn lemma_bounds_symmetry(k: Kingdom, p: TilePlacement)
    ensures
        k.placement_within_extent(p) ==> k.spec_validate(p) != Err::<(), TilePlacementError>(
            TilePlacementError::OutOfBounds,
        ),
        !k.placement_within_extent(p) ==> k.spec_validate(p) == Err::<(), TilePlacementError>(
            TilePlacementError::OutOfBounds,
        ),
{
}

/// Validation succeeds exactly on placements that satisfy all three rules.
pub proof fn lemma_validate_exact(k: Kingdom, p: TilePlacement)
    ensures
        k.spec_validate(p) is Ok <==> k.placement_valid(p),
{
}

/// The grid-index key of a cell, as stored in the grid.
fn cell_key(c: (i8, i8)) -> (k: i32)
    ensures
        k as int == spec_cell_key((c.0 as int, c.1 as int)),
{
    (c.0 as i32) * 256 + (c.1 as i32)
}

} // verus!
