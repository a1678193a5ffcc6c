//! Tile and domino value types: terrain kinds, domino sides, and the
//! two-sided domino with its flip operation.

use vstd::prelude::*;

verus! {

/// The closed set of terrain kinds a domino half can carry.
#[derive(Debug, Clone, Copy, PartialEq, Eq, Structural)]
pub enum TileType {
    Forest,
    Wheat,
    Water,
    Grassland,
    Swamp,
    Mountain,
}

/// A tile kind as seen at an occupied board cell: the castle, or one half of
/// a domino carrying a terrain kind.
#[derive(Debug, Clone, Copy, PartialEq, Eq, Structural)]
pub enum AnyTileType {
    Castle,
    Domino(TileType),
}

/// One half of a domino: a terrain kind and the number of crowns printed on it.
#[derive(Debug, Clone, Copy, PartialEq, Eq, Structural)]
pub struct DominoSide {
    pub tile_type: TileType,
    pub crown_count: u8,
}

/// A two-sided domino tile. The order of the sides is significant: the first
/// side is the one anchored at the placement position.
#[derive(Debug, Clone, Copy, PartialEq, Eq, Structural)]
pub struct Domino(pub DominoSide, pub DominoSide);

impl Domino {
    /// The domino with its two halves swapped.
    pub open spec fn spec_flip(self) -> Domino {
        Domino(self.1, self.0)
    }

    /// Returns the domino with its two halves swapped; does not mutate.
    pub fn flip(&self) -> (r: Self)
        ensures
            r == self.spec_flip(),
    {
        Self(self.1, self.0)
    }
}

/// Flipping a domino twice yields the original domino, and flipping changes
/// the value exactly when the two sides differ.
pub proof fn lemma_flip_involution(d: Domino)
    ensures
        d.spec_flip().spec_flip() == d,
        d.spec_flip() == d <==> d.0 == d.1,
{
}

/// The domino whose first side carries `tile1` with `crown1` crowns and whose
/// second side carries `tile2` with `crown2` crowns.
pub open spec fn spec_domino(tile1: TileType, crown1: u8, tile2: TileType, crown2: u8) -> Domino {
    Domino(
        DominoSide { tile_type: tile1, crown_count: crown1 },
        DominoSide { tile_type: tile2, crown_count: crown2 },
    )
}

/// Builds the domino whose first side carries `tile1` with `crown1` crowns
/// and whose second side carries `tile2` with `crown2` crowns.
pub fn domino(tile1: TileType, crown1: u8, tile2: TileType, crown2: u8) -> (d: Domino)
    ensures
        d == spec_domino(tile1, crown1, tile2, crown2),
{
    Domino(
        DominoSide { tile_type: tile1, crown_count: crown1 },
        DominoSide { tile_type: tile2, crown_count: crown2 },
    )
}

/// The fixed game-wide catalog of the 48 dominoes of the physical tile set,
/// in catalog order.
pub open spec fn spec_catalog() -> Seq<Domino> {
    seq![
        spec_domino(TileType::Wheat, 0, TileType::Wheat, 0),
        spec_domino(TileType::Wheat, 0, TileType::Wheat, 0),
        spec_domino(TileType::Forest, 0, TileType::Forest, 0),
        spec_domino(TileType::Forest, 0, TileType::Forest, 0),
        spec_domino(TileType::Forest, 0, TileType::Forest, 0),
        spec_domino(TileType::Forest, 0, TileType::Forest, 0),
        spec_domino(TileType::Water, 0, TileType::Water, 0),
        spec_domino(TileType::Water, 0, TileType::Water, 0),
        spec_domino(TileType::Water, 0, TileType::Water, 0),
        spec_domino(TileType::Grassland, 0, TileType::Grassland, 0),
        spec_domino(TileType::Grassland, 0, TileType::Grassland, 0),
        spec_domino(TileType::Swamp, 0, TileType::Swamp, 0),
        spec_domino(TileType::Wheat, 0, TileType::Forest, 0),
        spec_domino(TileType::Wheat, 0, TileType::Water, 0),
        spec_domino(TileType::Wheat, 0, TileType::Grassland, 0),
        spec_domino(TileType::Wheat, 0, TileType::Swamp, 0),
        spec_domino(TileType::Forest, 0, TileType::Water, 0),
        spec_domino(TileType::Forest, 0, TileType::Grassland, 0),
        spec_domino(TileType::Wheat, 1, TileType::Forest, 0),
        spec_domino(TileType::Wheat, 1, TileType::Water, 0),
        spec_domino(TileType::Wheat, 1, TileType::Grassland, 0),
        spec_domino(TileType::Wheat, 1, TileType::Swamp, 0),
        spec_domino(TileType::Wheat, 1, TileType::Mountain, 0),
        spec_domino(TileType::Forest, 1, TileType::Wheat, 0),
        spec_domino(TileType::Forest, 1, TileType::Wheat, 0),
        spec_domino(TileType::Forest, 1, TileType::Wheat, 0),
        spec_domino(TileType::Forest, 1, TileType::Wheat, 0),
        spec_domino(TileType::Forest, 1, TileType::Water, 0),
        spec_domino(TileType::Forest, 1, TileType::Grassland, 0),
        spec_domino(TileType::Water, 1, TileType::Wheat, 0),
        spec_domino(TileType::Water, 1, TileType::Wheat, 0),
        spec_domino(TileType::Water, 1, TileType::Forest, 0),
        spec_domino(TileType::Water, 1, TileType::Forest, 0),
        spec_domino(TileType::Water, 1, TileType::Forest, 0),
        spec_domino(TileType::Water, 1, TileType::Forest, 0),
        spec_domino(TileType::Wheat, 0, TileType::Grassland, 1),
        spec_domino(TileType::Water, 0, TileType::Grassland, 1),
        spec_domino(TileType::Wheat, 0, TileType::Swamp, 1),
        spec_domino(TileType::Grassland, 0, TileType::Swamp, 1),
        spec_domino(TileType::Mountain, 1, TileType::Wheat, 1),
        spec_domino(TileType::Wheat, 0, TileType::Grassland, 2),
        spec_domino(TileType::Water, 0, TileType::Grassland, 2),
        spec_domino(TileType::Wheat, 0, TileType::Swamp, 2),
        spec_domino(TileType::Grassland, 0, TileType::Swamp, 2),
        spec_domino(TileType::Mountain, 2, TileType::Wheat, 0),
        spec_domino(TileType::Swamp, 0, TileType::Mountain, 2),
        spec_domino(TileType::Swamp, 0, TileType::Mountain, 2),
        spec_domino(TileType::Wheat, 0, TileType::Mountain, 3),
    ]
}

/// Builds the fixed game-wide domino catalog: the supply a deal collaborator
/// draws from. Read-only in spirit; the core never derives game state from it.
pub fn all_tiles() -> (v: Vec<Domino>)
    ensures
        v@ == spec_catalog(),
{
    let mut v: Vec<Domino> = Vec::new();
    v.push(domino(TileType::Wheat, 0, TileType::Wheat, 0));
    v.push(domino(TileType::Wheat, 0, TileType::Wheat, 0));
    v.push(domino(TileType::Forest, 0, TileType::Forest, 0));
    v.push(domino(TileType::Forest, 0, TileType::Forest, 0));
    v.push(domino(TileType::Forest, 0, TileType::Forest, 0));
    v.push(domino(TileType::Forest, 0, TileType::Forest, 0));
    v.push(domino(TileType::Water, 0, TileType::Water, 0));
    v.push(domino(TileType::Water, 0, TileType::Water, 0));
    v.push(domino(TileType::Water, 0, TileType::Water, 0));
    v.push(domino(TileType::Grassland, 0, TileType::Grassland, 0));
    v.push(domino(TileType::Grassland, 0, TileType::Grassland, 0));
    v.push(domino(TileType::Swamp, 0, TileType::Swamp, 0));
    v.push(domino(TileType::Wheat, 0, TileType::Forest, 0));
    v.push(domino(TileType::Wheat, 0, TileType::Water, 0));
    v.push(domino(TileType::Wheat, 0, TileType::Grassland, 0));
    v.push(domino(TileType::Wheat, 0, TileType::Swamp, 0));
    v.push(domino(TileType::Forest, 0, TileType::Water, 0));
    v.push(domino(TileType::Forest, 0, TileType::Grassland, 0));
    v.push(domino(TileType::Wheat, 1, TileType::Forest, 0));
    v.push(domino(TileType::Wheat, 1, TileType::Water, 0));
    v.push(domino(TileType::Wheat, 1, TileType::Grassland, 0));
    v.push(domino(TileType::Wheat, 1, TileType::Swamp, 0));
    v.push(domino(TileType::Wheat, 1, TileType::Mountain, 0));
    v.push(domino(TileType::Forest, 1, TileType::Wheat, 0));
    v.push(domino(TileType::Forest, 1, TileType::Wheat, 0));
    v.push(domino(TileType::Forest, 1, TileType::Wheat, 0));
    v.push(domino(TileType::Forest, 1, TileType::Wheat, 0));
    v.push(domino(TileType::Forest, 1, TileType::Water, 0));
    v.push(domino(TileType::Forest, 1, TileType::Grassland, 0));
    v.push(domino(TileType::Water, 1, TileType::Wheat, 0));
    v.push(domino(TileType::Water, 1, TileType::Wheat, 0));
    v.push(domino(TileType::Water, 1, TileType::Forest, 0));
    v.push(domino(TileType::Water, 1, TileType::Forest, 0));
    v.push(domino(TileType::Water, 1, TileType::Forest, 0));
    v.push(domino(TileType::Water, 1, TileType::Forest, 0));
    v.push(domino(TileType::Wheat, 0, TileType::Grassland, 1));
    v.push(domino(TileType::Water, 0, TileType::Grassland, 1));
    v.push(domino(TileType::Wheat, 0, TileType::Swamp, 1));
    v.push(domino(TileType::Grassland, 0, TileType::Swamp, 1));
    v.push(domino(TileType::Mountain, 1, TileType::Wheat, 1));
    v.push(domino(TileType::Wheat, 0, TileType::Grassland, 2));
    v.push(domino(TileType::Water, 0, TileType::Grassland, 2));
    v.push(domino(TileType::Wheat, 0, TileType::Swamp, 2));
    v.push(domino(TileType::Grassland, 0, TileType::Swamp, 2));
    v.push(domino(TileType::Mountain, 2, TileType::Wheat, 0));
    v.push(domino(TileType::Swamp, 0, TileType::Mountain, 2));
    v.push(domino(TileType::Swamp, 0, TileType::Mountain, 2));
    v.push(domino(TileType::Wheat, 0, TileType::Mountain, 3));
    proof {
        assert(v@ =~= spec_catalog());
    }
    v
}

} // verus!
