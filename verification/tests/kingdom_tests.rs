use kingdomino::AnyTileType;
use kingdomino::Kingdom;
use kingdomino::Position;
use kingdomino::Tile;
use kingdomino::TileOrientation;
use kingdomino::TilePlacement;
use kingdomino::TilePlacementError;
use kingdomino::TileType;
use kingdomino::domino;

fn domino_placement(
    first: TileType,
    second: TileType,
    x: i8,
    y: i8,
    orientation: TileOrientation,
) -> TilePlacement {
    TilePlacement {
        tile: Tile::Domino(domino(first, 0, second, 0)),
        position: Position(x, y),
        orientation,
    }
}

fn snapshot(k: &Kingdom) -> (Vec<TilePlacement>, Vec<(i8, i8, Option<usize>)>) {
    let mut placements = Vec::new();
    for i in 0..k.placement_count() {
        placements.push(k.placement_at(i).clone());
    }
    let mut grid = Vec::new();
    for x in -4..=4i8 {
        for y in -4..=4i8 {
            grid.push((x, y, k.placement_index_at(Position(x, y))));
        }
    }
    (placements, grid)
}

#[test]
fn new_kingdom_holds_only_the_castle() {
    let k = Kingdom::new();
    assert_eq!(k.placement_count(), 1);
    let castle = k.placement_at(0);
    assert_eq!(castle.tile, Tile::Castle);
    assert_eq!(castle.position, Position(0, 0));
    assert_eq!(k.tile_type_at(Position(0, 0)), Some(AnyTileType::Castle));
    assert_eq!(k.tile_type_at(Position(1, 0)), None);
    assert_eq!(k.placement_index_at(Position(0, 0)), Some(0));
}

#[test]
fn placing_next_to_castle_succeeds() {
    let mut k = Kingdom::new();
    let p = domino_placement(TileType::Wheat, TileType::Forest, 1, 0, TileOrientation::LeftRight);
    assert_eq!(k.attempt_place(p.clone()), Ok(()));
    assert_eq!(k.placement_count(), 2);
    assert_eq!(k.placement_at(1), &p);
    assert_eq!(k.tile_type_at(Position(1, 0)), Some(AnyTileType::Domino(TileType::Wheat)));
    assert_eq!(k.tile_type_at(Position(2, 0)), Some(AnyTileType::Domino(TileType::Forest)));
    assert_eq!(k.placement_index_at(Position(1, 0)), Some(1));
    assert_eq!(k.placement_index_at(Position(2, 0)), Some(1));
}

#[test]
fn overlapping_placement_is_rejected() {
    let mut k = Kingdom::new();
    let p = domino_placement(TileType::Wheat, TileType::Forest, 1, 0, TileOrientation::LeftRight);
    assert_eq!(k.attempt_place(p), Ok(()));
    let again = domino_placement(TileType::Wheat, TileType::Forest, 1, 0, TileOrientation::LeftRight);
    assert_eq!(k.attempt_place(again), Err(TilePlacementError::OverlapsExistingTile));
    assert_eq!(k.placement_count(), 2);
}

#[test]
fn detached_placement_is_rejected() {
    let mut k = Kingdom::new();
    let p = domino_placement(TileType::Wheat, TileType::Forest, 2, 2, TileOrientation::RightLeft);
    assert_eq!(k.attempt_place(p), Err(TilePlacementError::NoMatchingAdjacentTile));
    assert_eq!(k.placement_count(), 1);
}

#[test]
fn placement_beyond_extent_is_rejected() {
    let mut k = Kingdom::new();
    let p = domino_placement(TileType::Wheat, TileType::Forest, 3, 0, TileOrientation::LeftRight);
    assert_eq!(k.attempt_place(p), Err(TilePlacementError::OutOfBounds));
    assert_eq!(k.placement_count(), 1);
}

#[test]
fn terrain_match_decides_adjacency() {
    // A Wheat/Forest domino attached through its Wheat half to a Wheat cell
    // succeeds; the same domino with only its Forest half next to a Water
    // cell is rejected.
    let mut k = Kingdom::new();
    let wheat_arm =
        domino_placement(TileType::Wheat, TileType::Wheat, 1, 0, TileOrientation::LeftRight);
    assert_eq!(k.attempt_place(wheat_arm), Ok(()));
    let via_wheat =
        domino_placement(TileType::Wheat, TileType::Forest, 1, 1, TileOrientation::LeftRight);
    assert_eq!(k.attempt_place(via_wheat), Ok(()));

    let mut other = Kingdom::new();
    let water_arm =
        domino_placement(TileType::Water, TileType::Water, 0, 1, TileOrientation::BottomTop);
    assert_eq!(other.attempt_place(water_arm), Ok(()));
    // Anchored at (2, 2) right-to-left, the Forest half sits on (1, 2), next
    // to the Water cell at (0, 2): terrain mismatch and no castle adjacency.
    let forest_against_water =
        domino_placement(TileType::Wheat, TileType::Forest, 2, 2, TileOrientation::RightLeft);
    assert_eq!(
        other.attempt_place(forest_against_water),
        Err(TilePlacementError::NoMatchingAdjacentTile)
    );
}

#[test]
fn rejection_leaves_kingdom_unchanged() {
    let mut k = Kingdom::new();
    let p = domino_placement(TileType::Wheat, TileType::Forest, 1, 0, TileOrientation::LeftRight);
    assert_eq!(k.attempt_place(p), Ok(()));
    let before = snapshot(&k);
    let overlapping =
        domino_placement(TileType::Forest, TileType::Water, 2, 0, TileOrientation::RightLeft);
    assert_eq!(k.attempt_place(overlapping), Err(TilePlacementError::OverlapsExistingTile));
    assert_eq!(snapshot(&k), before);
    let detached =
        domino_placement(TileType::Forest, TileType::Water, -2, -2, TileOrientation::BottomTop);
    assert_eq!(k.attempt_place(detached), Err(TilePlacementError::NoMatchingAdjacentTile));
    assert_eq!(snapshot(&k), before);
    let outside =
        domino_placement(TileType::Forest, TileType::Water, 0, -3, TileOrientation::TopBottom);
    assert_eq!(k.attempt_place(outside), Err(TilePlacementError::OutOfBounds));
    assert_eq!(snapshot(&k), before);
}

#[test]
fn success_adds_exactly_the_two_new_cells() {
    let mut k = Kingdom::new();
    let p = domino_placement(TileType::Wheat, TileType::Forest, 0, 1, TileOrientation::BottomTop);
    assert_eq!(k.tile_type_at(Position(0, 1)), None);
    assert_eq!(k.tile_type_at(Position(0, 2)), None);
    assert_eq!(k.attempt_place(p), Ok(()));
    let mut occupied = Vec::new();
    for x in -4..=4i8 {
        for y in -4..=4i8 {
            if k.tile_type_at(Position(x, y)).is_some() {
                occupied.push((x, y));
            }
        }
    }
    occupied.sort();
    assert_eq!(occupied, vec![(0, 0), (0, 1), (0, 2)]);
}

#[test]
fn in_extent_failures_are_never_out_of_bounds() {
    // Both a succeeding and an overlapping in-extent placement avoid the
    // bounds error; any placement with a cell outside the extent gets it,
    // even one that would also overlap.
    let mut k = Kingdom::new();
    let p = domino_placement(TileType::Wheat, TileType::Forest, 1, 0, TileOrientation::LeftRight);
    assert_eq!(k.attempt_place(p), Ok(()));
    let overlap_in_extent =
        domino_placement(TileType::Wheat, TileType::Forest, 1, 0, TileOrientation::BottomTop);
    assert_eq!(
        k.attempt_place(overlap_in_extent),
        Err(TilePlacementError::OverlapsExistingTile)
    );
    let overlap_and_outside =
        domino_placement(TileType::Wheat, TileType::Forest, 2, 0, TileOrientation::LeftRight);
    assert_eq!(k.attempt_place(overlap_and_outside), Err(TilePlacementError::OutOfBounds));
}

#[test]
fn narrow_variant_extent_is_enforced() {
    let mut k = Kingdom::new_with_half_width(1);
    let inside = domino_placement(TileType::Wheat, TileType::Forest, 0, 1, TileOrientation::RightLeft);
    assert_eq!(k.attempt_place(inside), Ok(()));
    let outside = domino_placement(TileType::Wheat, TileType::Forest, 1, 0, TileOrientation::LeftRight);
    assert_eq!(k.attempt_place(outside), Err(TilePlacementError::OutOfBounds));
}

#[test]
fn placement_log_keeps_insertion_order() {
    let mut k = Kingdom::new();
    let first = domino_placement(TileType::Wheat, TileType::Forest, 1, 0, TileOrientation::LeftRight);
    let second = domino_placement(TileType::Forest, TileType::Water, 2, 1, TileOrientation::RightLeft);
    assert_eq!(k.attempt_place(first.clone()), Ok(()));
    assert_eq!(k.attempt_place(second.clone()), Ok(()));
    assert_eq!(k.placement_count(), 3);
    assert_eq!(k.placement_at(0).tile, Tile::Castle);
    assert_eq!(k.placement_at(1), &first);
    assert_eq!(k.placement_at(2), &second);
}

#[test]
fn wider_variant_extent_admits_farther_cells() {
    let mut k = Kingdom::new_with_half_width(3);
    let inside = domino_placement(TileType::Wheat, TileType::Forest, 1, 0, TileOrientation::LeftRight);
    assert_eq!(k.attempt_place(inside), Ok(()));
    let farther = domino_placement(TileType::Forest, TileType::Water, 3, 0, TileOrientation::TopBottom);
    assert_eq!(k.attempt_place(farther), Ok(()));
    let outside = domino_placement(TileType::Wheat, TileType::Water, 3, 1, TileOrientation::LeftRight);
    assert_eq!(k.attempt_place(outside), Err(TilePlacementError::OutOfBounds));
}

#[test]
fn castle_counts_as_matching_neighbour_for_any_terrain() {
    let mut k = Kingdom::new();
    let p = domino_placement(TileType::Mountain, TileType::Swamp, 0, -2, TileOrientation::BottomTop);
    assert_eq!(k.attempt_place(p), Ok(()));
}
