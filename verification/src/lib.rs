//! The placement engine of a tile-laying kingdom board: domino value types,
//! the cell geometry a placement determines, and a kingdom that validates and
//! commits placements against its sparse grid index.

mod cellvec;
mod kingdom;
mod placement;
mod tiles;

pub use cellvec::cell_vec_cells;
pub use kingdom::Kingdom;
pub use kingdom::TilePlacementError;
pub use kingdom::castle_placement;
pub use kingdom::lemma_bounds_symmetry;
pub use kingdom::lemma_monotonic_occupancy;
pub use kingdom::lemma_no_self_overlap;
pub use kingdom::lemma_validate_exact;
pub use placement::Position;
pub use placement::Tile;
pub use placement::TileOrientation;
pub use placement::TilePlacement;
pub use placement::cell_in_coord_range;
pub use placement::cells_in_coord_range;
pub use placement::lemma_cell_key_injective;
pub use placement::lemma_domino_cells_geometry;
pub use placement::orthogonally_adjacent;
pub use placement::placement_side_type;
pub use placement::spec_cell_key;
pub use placement::spec_cells;
pub use placement::spec_neighbors;
pub use placement::spec_offset;
pub use tiles::AnyTileType;
pub use tiles::Domino;
pub use tiles::DominoSide;
pub use tiles::TileType;
pub use tiles::all_tiles;
pub use tiles::domino;
pub use tiles::lemma_flip_involution;
pub use tiles::spec_catalog;
pub use tiles::spec_domino;
