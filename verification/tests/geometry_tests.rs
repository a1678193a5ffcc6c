use kingdomino::Domino;
use kingdomino::Kingdom;
use kingdomino::Position;
use kingdomino::Tile;
use kingdomino::TileOrientation;
use kingdomino::TilePlacement;
use kingdomino::TileType;
use kingdomino::all_tiles;
use kingdomino::domino;

fn wheat_forest() -> Domino {
    domino(TileType::Wheat, 0, TileType::Forest, 0)
}

fn placement(tile: Tile, x: i8, y: i8, orientation: TileOrientation) -> TilePlacement {
    TilePlacement { tile, position: Position(x, y), orientation }
}

#[test]
fn flip_swaps_sides() {
    let d = wheat_forest();
    let f = d.flip();
    assert_eq!(f.0.tile_type, TileType::Forest);
    assert_eq!(f.1.tile_type, TileType::Wheat);
    assert_ne!(f, d);
}

#[test]
fn flip_twice_is_identity() {
    let d = domino(TileType::Water, 1, TileType::Grassland, 2);
    assert_eq!(d.flip().flip(), d);
}

#[test]
fn flip_of_symmetric_domino_is_identity() {
    let d = domino(TileType::Swamp, 0, TileType::Swamp, 0);
    assert_eq!(d.flip(), d);
}

#[test]
fn castle_fills_one_cell() {
    let k = Kingdom::new();
    let p = placement(Tile::Castle, 3, -2, TileOrientation::LeftRight);
    let cells = k.get_positions_filled_by_placement(&p);
    assert_eq!(cells.len(), 1);
    assert_eq!(cells[0], (3, -2));
}

#[test]
fn domino_cells_per_orientation() {
    let k = Kingdom::new();
    let d = Tile::Domino(wheat_forest());
    let lr = k.get_positions_filled_by_placement(&placement(d, 1, 0, TileOrientation::LeftRight));
    assert_eq!(lr.as_slice(), &[(1, 0), (2, 0)]);
    let tb = k.get_positions_filled_by_placement(&placement(d, 1, 0, TileOrientation::TopBottom));
    assert_eq!(tb.as_slice(), &[(1, 0), (1, -1)]);
    let rl = k.get_positions_filled_by_placement(&placement(d, 1, 0, TileOrientation::RightLeft));
    assert_eq!(rl.as_slice(), &[(1, 0), (0, 0)]);
    let bt = k.get_positions_filled_by_placement(&placement(d, 1, 0, TileOrientation::BottomTop));
    assert_eq!(bt.as_slice(), &[(1, 0), (1, 1)]);
}

#[test]
fn cells_do_not_depend_on_board_state() {
    let mut grown = Kingdom::new();
    let p1 = placement(Tile::Domino(wheat_forest()), 1, 0, TileOrientation::LeftRight);
    assert!(grown.attempt_place(p1).is_ok());
    let fresh = Kingdom::new();
    let probe = placement(Tile::Domino(wheat_forest()), -1, 1, TileOrientation::TopBottom);
    let a = fresh.get_positions_filled_by_placement(&probe);
    let b = grown.get_positions_filled_by_placement(&probe);
    assert_eq!(a.as_slice(), b.as_slice());
}

#[test]
fn adjacent_positions_are_the_four_neighbours() {
    let k = Kingdom::new();
    let n = k.get_adjacent_positions(Position(1, -2));
    assert_eq!(n, [Position(2, -2), Position(1, -3), Position(0, -2), Position(1, -1)]);
}

#[test]
fn catalog_has_forty_eight_dominoes() {
    let tiles = all_tiles();
    assert_eq!(tiles.len(), 48);
    assert_eq!(tiles[0], domino(TileType::Wheat, 0, TileType::Wheat, 0));
    assert_eq!(tiles[11], domino(TileType::Swamp, 0, TileType::Swamp, 0));
    assert_eq!(tiles[22], domino(TileType::Wheat, 1, TileType::Mountain, 0));
    assert_eq!(tiles[47], domino(TileType::Wheat, 0, TileType::Mountain, 3));
}

#[test]
fn catalog_crown_total() {
    let tiles = all_tiles();
    let mut crowns: u32 = 0;
    for d in &tiles {
        crowns += u32::from(d.0.crown_count) + u32::from(d.1.crown_count);
    }
    assert_eq!(crowns, 40);
}
