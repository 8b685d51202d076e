//! RGBA pixel buffers and their reassembly from tiles.
//!
//! A buffer holds 4 bytes per pixel (red, green, blue, alpha), row-major with
//! the top row first, and the alpha channel is always fully opaque. Workers
//! render one such buffer per tile; the scheduler concatenates them in tile
//! order, so that concatenation alone — not any coordinate arithmetic —
//! places every band of rows in the final image.

use crate::tile::is_band;
use crate::tile::Tile;
use vstd::arithmetic::mul::lemma_mul_basics;
use vstd::arithmetic::mul::lemma_mul_inequality;
use vstd::arithmetic::mul::lemma_mul_is_distributive_add_other_way;
use vstd::arithmetic::mul::lemma_mul_nonnegative;
use vstd::prelude::*;

verus! {

/// Byte offset of the pixel in column `x` of row `y` in a row-major RGBA
/// buffer `width` pixels wide.
pub open spec fn pixel_index(x: int, y: int, width: int) -> int {
    4 * (y * width + x)
}

/// `s` with the four bytes starting at `base` replaced by the channels
/// `r`, `g`, `b` and a fully opaque alpha.
pub open spec fn with_pixel(s: Seq<u8>, base: int, r: u8, g: u8, b: u8) -> Seq<u8> {
    s.update(base, r).update(base + 1, g).update(base + 2, b).update(base + 3, 255u8)
}

/// An RGBA image or tile buffer: `4 * width * height` bytes, row-major,
/// top row first.
pub struct PixelBuffer {
    pub width: u32,
    pub height: u32,
    pub data: Vec<u8>,
}

impl PixelBuffer {
    /// The byte vector has exactly four bytes per pixel.
    pub open spec fn wf(self) -> bool {
        self.data@.len() == 4 * self.width * self.height
    }

    /// A zeroed buffer for `width` by `height` pixels.
    pub fn new(width: u32, height: u32) -> (buf: PixelBuffer)
        requires
            4 * width * height <= usize::MAX,
        ensures
            buf.wf(),
            buf.width == width,
            buf.height == height,
            forall|k: int| 0 <= k < buf.data@.len() ==> buf.data@[k] == 0u8,
    {
        proof {
            lemma_mul_nonnegative(width as int, height as int);
            assert((width as int) * (height as int) * 4 == 4 * (width as int) * (height as int))
                by (nonlinear_arith);
        }
        let size: usize = (width as usize) * (height as usize) * 4;
        let mut data: Vec<u8> = Vec::new();
        let mut k: usize = 0;
        while k < size
            invariant
                k <= size,
                data@.len() == k,
                forall|j: int| 0 <= j < k ==> data@[j] == 0u8,
            decreases size - k,
        {
            data.push(0);
            k = k + 1;
        }
        PixelBuffer { width, height, data }
    }

    /// Store one shaded pixel: its channel bytes and an opaque alpha.
    pub fn set_pixel(&mut self, x: u32, y: u32, r: u8, g: u8, b: u8)
        requires
            old(self).wf(),
            x < old(self).width,
            y < old(self).height,
        ensures
            final(self).wf(),
            final(self).width == old(self).width,
            final(self).height == old(self).height,
            final(self).data@ == with_pixel(
                old(self).data@,
                pixel_index(x as int, y as int, old(self).width as int),
                r,
                g,
                b,
            ),
    {
        let byte_count: usize = self.data.len();
        proof {
            lemma_mul_nonnegative(y as int, self.width as int);
            assert(4 * ((y as int) * (self.width as int) + (x as int)) + 4 <= 4 * (
            self.width as int) * (self.height as int)) by (nonlinear_arith)
                requires
                    x < self.width,
                    y < self.height,
            ;
            assert(4 * ((y as int) * (self.width as int) + (x as int)) + 4 <= byte_count);
        }
        let base: usize = ((y as usize) * (self.width as usize) + (x as usize)) * 4;
        self.data.set(base, r);
        self.data.set(base + 1, g);
        self.data.set(base + 2, b);
        self.data.set(base + 3, 255);
    }

    /// The four bytes of the pixel in column `x` of row `y`.
    pub fn pixel(&self, x: u32, y: u32) -> (px: (u8, u8, u8, u8))
        requires
            self.wf(),
            x < self.width,
            y < self.height,
        ensures
            ({
                let base = pixel_index(x as int, y as int, self.width as int);
                &&& px.0 == self.data@[base]
                &&& px.1 == self.data@[base + 1]
                &&& px.2 == self.data@[base + 2]
                &&& px.3 == self.data@[base + 3]
            }),
    {
        let byte_count: usize = self.data.len();
        proof {
            lemma_mul_nonnegative(y as int, self.width as int);
            assert(4 * ((y as int) * (self.width as int) + (x as int)) + 4 <= 4 * (
            self.width as int) * (self.height as int)) by (nonlinear_arith)
                requires
                    x < self.width,
                    y < self.height,
            ;
            assert(4 * ((y as int) * (self.width as int) + (x as int)) + 4 <= byte_count);
        }
        let base: usize = ((y as usize) * (self.width as usize) + (x as usize)) * 4;
        (self.data[base], self.data[base + 1], self.data[base + 2], self.data[base + 3])
    }

    /// Hand the bytes over, for encoding or concatenation.
    pub fn into_data(self) -> (data: Vec<u8>)
        ensures
            data@ == self.data@,
    {
        self.data
    }
}

/// The byte sequences of `parts`, concatenated in order.
pub open spec fn concat_bufs(parts: Seq<Seq<u8>>) -> Seq<u8>
    decreases parts.len(),
{
    if parts.len() == 0 {
        Seq::empty()
    } else {
        concat_bufs(parts.drop_last()) + parts.last()
    }
}

/// The views of a vector of byte vectors.
pub open spec fn views_of(parts: Seq<Vec<u8>>) -> Seq<Seq<u8>> {
    parts.map_values(|p: Vec<u8>| p@)
}

/// Concatenate the tile buffers in tile order into one image buffer.
pub fn assemble_tiles(parts: &Vec<Vec<u8>>) -> (image: Vec<u8>)
    ensures
        image@ == concat_bufs(views_of(parts@)),
{
    let mut image: Vec<u8> = Vec::new();
    let mut i: usize = 0;
    while i < parts.len()
        invariant
            i <= parts@.len(),
            image@ == concat_bufs(views_of(parts@.take(i as int))),
        decreases parts@.len() - i,
    {
        let part: &Vec<u8> = &parts[i];
        let mut j: usize = 0;
        while j < part.len()
            invariant
                i < parts@.len(),
                part@ == parts@[i as int]@,
                j <= part@.len(),
                image@ == concat_bufs(views_of(parts@.take(i as int))) + part@.take(j as int),
            decreases part@.len() - j,
        {
            image.push(part[j]);
            proof {
                assert(part@.take(j + 1) =~= part@.take(j as int).push(part@[j as int]));
            }
            j = j + 1;
        }
        proof {
            let grown = views_of(parts@.take(i + 1));
            assert(grown.drop_last() =~= views_of(parts@.take(i as int)));
            assert(grown.last() == parts@[i as int]@);
            assert(part@.take(j as int) =~= part@);
        }
        i = i + 1;
    }
    proof {
        assert(parts@.take(parts@.len() as int) =~= parts@);
    }
    image
}

/// Reassembly of a full render from its tiles.
///
/// When the image height divides evenly over the tiles, the bands of
/// `split_into_tiles` cover the rows exactly; if every tile's buffer equals
/// the rows of its band in a single buffer covering the whole image — as it
/// does when each worker shades a pixel the same way a whole-image render
/// would — then concatenating the tile buffers in tile order yields that
/// whole-image buffer back.
pub proof fn lemma_tile_reassembly(
    image: Seq<u8>,
    tiles: Seq<Tile>,
    parts: Seq<Seq<u8>>,
    width: int,
    height: int,
    num_tiles: int,
)
    requires
        num_tiles >= 1,
        0 <= width,
        0 <= height,
        height % num_tiles == 0,
        image.len() == 4 * width * height,
        tiles.len() == num_tiles,
        parts.len() == num_tiles,
        forall|i: int|
            0 <= i < num_tiles ==> is_band(#[trigger] tiles[i], width, height / num_tiles, i),
        forall|i: int|
            0 <= i < num_tiles ==> #[trigger] parts[i] == image.subrange(
                4 * width * tiles[i].min_y,
                4 * width * tiles[i].max_y,
            ),
    ensures
        concat_bufs(parts) == image,
{
    let th = height / num_tiles;
    let band = 4 * width * th;
    assert(num_tiles * th == height) by (nonlinear_arith)
        requires
            num_tiles >= 1,
            height % num_tiles == 0,
            th == height / num_tiles,
    ;
    assert(image.len() == parts.len() * band) by (nonlinear_arith)
        requires
            image.len() == 4 * width * height,
            parts.len() == num_tiles,
            band == 4 * width * th,
            num_tiles * th == height,
    ;
    assert forall|i: int| 0 <= i < num_tiles implies #[trigger] parts[i] == image.subrange(
        i * band,
        (i + 1) * band,
    ) by {
        assert(is_band(tiles[i], width, th, i));
        assert(4 * width * (i * th) == i * band && 4 * width * ((i + 1) * th) == (i + 1) * band)
            by (nonlinear_arith)
            requires
                band == 4 * width * th,
        ;
    }
    lemma_concat_of_slices(image, parts, band);
}

/// Adjacent slices of one sequence concatenate back to the whole: if part `i`
/// is the bytes `i * band .. (i + 1) * band` of `whole`, the parts
/// concatenate to `whole`.
proof fn lemma_concat_of_slices(whole: Seq<u8>, parts: Seq<Seq<u8>>, band: int)
    requires
        band >= 0,
        whole.len() == parts.len() * band,
        forall|i: int|
            0 <= i < parts.len() ==> #[trigger] parts[i] == whole.subrange(i * band, (i + 1) * band),
    ensures
        concat_bufs(parts) == whole,
{
    lemma_concat_of_slices_prefix(whole, parts, band, parts.len() as int);
    assert(parts.take(parts.len() as int) =~= parts);
    assert(whole.subrange(0, parts.len() * band) =~= whole);
}

/// The first `k` slices concatenate to the first `k * band` bytes.
proof fn lemma_concat_of_slices_prefix(whole: Seq<u8>, parts: Seq<Seq<u8>>, band: int, k: int)
    requires
        band >= 0,
        0 <= k <= parts.len(),
        whole.len() == parts.len() * band,
        forall|i: int|
            0 <= i < parts.len() ==> #[trigger] parts[i] == whole.subrange(i * band, (i + 1) * band),
    ensures
        concat_bufs(parts.take(k)) == whole.subrange(0, k * band),
    decreases k,
{
    lemma_mul_inequality(k, parts.len() as int, band);
    lemma_mul_nonnegative(k, band);
    if k == 0 {
        lemma_mul_basics(band);
        assert(whole.subrange(0, 0) =~= Seq::<u8>::empty());
    } else {
        lemma_concat_of_slices_prefix(whole, parts, band, k - 1);
        lemma_mul_inequality(k - 1, k, band);
        lemma_mul_nonnegative(k - 1, band);
        lemma_mul_is_distributive_add_other_way(band, k - 1, 1);
        assert(parts.take(k).drop_last() =~= parts.take(k - 1));
        assert(parts.take(k).last() == parts[k - 1]);
        assert(parts[k - 1] == whole.subrange((k - 1) * band, k * band));
        assert(concat_bufs(parts.take(k)) == concat_bufs(parts.take(k - 1)) + parts[k - 1]);
        assert(whole.subrange(0, (k - 1) * band) + whole.subrange((k - 1) * band, k * band)
            =~= whole.subrange(0, k * band));
    }
}

} // verus!
