//! Tiles: the work units of the render scheduler.
//!
//! The scheduler splits the image into horizontal bands of equal height, one
//! per worker. Band order is what places a tile's pixels in the final image:
//! the tile buffers are concatenated in creation order, so the bands must be
//! created top to bottom and must partition the row range exactly when the
//! height divides evenly. When it does not, the rows of the remainder are
//! assigned to no tile and are dropped from the output.

use vstd::arithmetic::div_mod::lemma_fundamental_div_mod;
use vstd::arithmetic::mul::lemma_mul_inequality;
use vstd::prelude::*;

verus! {

/// A rectangle of pixels, half-open on both axes: the columns
/// `min_x..max_x` of the rows `min_y..max_y`.
#[derive(Clone, Copy, Debug, PartialEq, Eq, Structural)]
pub struct Tile {
    pub min_x: u32,
    pub min_y: u32,
    pub max_x: u32,
    pub max_y: u32,
}

impl Tile {
    /// The coordinate ranges are ordered (possibly empty).
    pub open spec fn wf(self) -> bool {
        self.min_x <= self.max_x && self.min_y <= self.max_y
    }

    pub fn new(min_x: u32, min_y: u32, max_x: u32, max_y: u32) -> (t: Tile)
        ensures
            t == (Tile { min_x, min_y, max_x, max_y }),
    {
        Tile { min_x, min_y, max_x, max_y }
    }

    /// Number of pixel columns the tile spans.
    pub fn width(&self) -> (w: u32)
        requires
            self.wf(),
        ensures
            w == self.max_x - self.min_x,
    {
        self.max_x - self.min_x
    }

    /// Number of pixel rows the tile spans.
    pub fn height(&self) -> (h: u32)
        requires
            self.wf(),
        ensures
            h == self.max_y - self.min_y,
    {
        self.max_y - self.min_y
    }
}

/// The `i`-th band of a split into full-width tiles of `tile_height` rows.
pub open spec fn is_band(t: Tile, width: int, tile_height: int, i: int) -> bool {
    &&& t.min_x == 0
    &&& t.max_x == width
    &&& t.min_y == i * tile_height
    &&& t.max_y == (i + 1) * tile_height
}

/// Split an image of `width` by `height` pixels into `num_tiles` horizontal
/// bands of `height / num_tiles` rows each, top band first.
///
/// Integer division decides the band height, so when `num_tiles` does not
/// divide `height` the last `height % num_tiles` rows belong to no band.
pub fn split_into_tiles(width: u32, height: u32, num_tiles: u32) -> (tiles: Vec<Tile>)
    requires
        num_tiles >= 1,
    ensures
        tiles@.len() == num_tiles,
        forall|i: int|
            0 <= i < num_tiles ==> is_band(
                #[trigger] tiles@[i],
                width as int,
                (height / num_tiles) as int,
                i,
            ),
        forall|i: int| 0 <= i < num_tiles ==> (#[trigger] tiles@[i]).wf(),
        tiles@[num_tiles - 1].max_y == height - height % num_tiles,
{
    let tile_height: u32 = height / num_tiles;
    proof {
        lemma_fundamental_div_mod(height as int, num_tiles as int);
    }
    let mut tiles: Vec<Tile> = Vec::new();
    let mut i: u32 = 0;
    while i < num_tiles
        invariant
            i <= num_tiles,
            num_tiles >= 1,
            tile_height == height / num_tiles,
            num_tiles * tile_height == height - height % num_tiles,
            tiles@.len() == i,
            forall|j: int|
                0 <= j < i ==> is_band(#[trigger] tiles@[j], width as int, tile_height as int, j),
        decreases num_tiles - i,
    {
        proof {
            lemma_mul_inequality(i as int, i + 1, tile_height as int);
            lemma_mul_inequality(i + 1, num_tiles as int, tile_height as int);
        }
        let min_y: u32 = i * tile_height;
        let max_y: u32 = (i + 1) * tile_height;
        tiles.push(Tile::new(0, min_y, width, max_y));
        i = i + 1;
    }
    proof {
        assert forall|j: int| 0 <= j < num_tiles implies (#[trigger] tiles@[j]).wf() by {
            assert(is_band(tiles@[j], width as int, tile_height as int, j));
            lemma_mul_inequality(j, j + 1, tile_height as int);
        }
        assert(is_band(tiles@[num_tiles - 1], width as int, tile_height as int, num_tiles - 1));
    }
    tiles
}

} // verus!
