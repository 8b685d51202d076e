use pathtracer::tile::split_into_tiles;
use pathtracer::tile::Tile;

#[test]
fn tile_new_stores_bounds() {
    let t = Tile::new(1, 2, 3, 4);
    assert_eq!(t.min_x, 1);
    assert_eq!(t.min_y, 2);
    assert_eq!(t.max_x, 3);
    assert_eq!(t.max_y, 4);
}

#[test]
fn tile_width_and_height() {
    let t = Tile::new(0, 32, 512, 64);
    assert_eq!(t.width(), 512);
    assert_eq!(t.height(), 32);
}

#[test]
fn split_even_height_covers_all_rows() {
    let tiles = split_into_tiles(512, 512, 16);
    assert_eq!(tiles.len(), 16);
    for (i, t) in tiles.iter().enumerate() {
        assert_eq!(t.min_x, 0);
        assert_eq!(t.max_x, 512);
        assert_eq!(t.min_y, i as u32 * 32);
        assert_eq!(t.max_y, (i as u32 + 1) * 32);
    }
    assert_eq!(tiles[0].min_y, 0);
    assert_eq!(tiles[15].max_y, 512);
}

#[test]
fn split_tiles_are_adjacent_in_order() {
    let tiles = split_into_tiles(64, 128, 4);
    for i in 1..tiles.len() {
        assert_eq!(tiles[i].min_y, tiles[i - 1].max_y);
    }
}

#[test]
fn split_single_tile_is_whole_image() {
    let tiles = split_into_tiles(320, 200, 1);
    assert_eq!(tiles.len(), 1);
    assert_eq!(tiles[0], Tile::new(0, 0, 320, 200));
}

#[test]
fn split_uneven_height_drops_remainder_rows() {
    let tiles = split_into_tiles(4, 10, 3);
    assert_eq!(tiles.len(), 3);
    for (i, t) in tiles.iter().enumerate() {
        assert_eq!(t.min_y, i as u32 * 3);
        assert_eq!(t.max_y, (i as u32 + 1) * 3);
    }
    // The bottom row (y = 9) belongs to no tile.
    assert_eq!(tiles[2].max_y, 9);
}
