use pathtracer::framebuffer::assemble_tiles;
use pathtracer::framebuffer::PixelBuffer;
use pathtracer::tile::split_into_tiles;

#[test]
fn new_buffer_is_zeroed_rgba() {
    let buf = PixelBuffer::new(3, 2);
    let data = buf.into_data();
    assert_eq!(data.len(), 3 * 2 * 4);
    assert!(data.iter().all(|&b| b == 0));
}

#[test]
fn set_pixel_writes_channels_and_opaque_alpha() {
    let mut buf = PixelBuffer::new(2, 2);
    buf.set_pixel(1, 0, 10, 20, 30);
    let data = buf.into_data();
    assert_eq!(&data[4..8], &[10, 20, 30, 255]);
    // Every other pixel is untouched.
    assert!(data[..4].iter().all(|&b| b == 0));
    assert!(data[8..].iter().all(|&b| b == 0));
}

#[test]
fn set_pixel_is_row_major_top_row_first() {
    let mut buf = PixelBuffer::new(2, 3);
    buf.set_pixel(0, 2, 7, 8, 9);
    let data = buf.into_data();
    let base = (2 * 2 + 0) * 4;
    assert_eq!(&data[base..base + 4], &[7, 8, 9, 255]);
}

#[test]
fn pixel_reads_back_what_was_set() {
    let mut buf = PixelBuffer::new(4, 4);
    buf.set_pixel(3, 1, 1, 2, 3);
    assert_eq!(buf.pixel(3, 1), (1, 2, 3, 255));
    assert_eq!(buf.pixel(0, 0), (0, 0, 0, 0));
}

#[test]
fn assemble_tiles_concatenates_in_order() {
    let parts = vec![vec![1u8, 2], vec![], vec![3, 4, 5]];
    assert_eq!(assemble_tiles(&parts), vec![1, 2, 3, 4, 5]);
}

#[test]
fn assemble_tiles_of_nothing_is_empty() {
    let parts: Vec<Vec<u8>> = Vec::new();
    assert_eq!(assemble_tiles(&parts), Vec::<u8>::new());
}

/// A pixel's channels from its coordinates, so that every pixel of the test
/// images below is distinct.
fn shade(x: u32, y: u32) -> (u8, u8, u8) {
    ((x + 1) as u8, (y + 1) as u8, (10 * x + y) as u8)
}

#[test]
fn tiled_render_reassembles_to_single_tile_render() {
    let width: u32 = 3;
    let height: u32 = 4;
    let num_tiles: u32 = 2;

    // One buffer covering the whole image.
    let mut whole = PixelBuffer::new(width, height);
    for y in 0..height {
        for x in 0..width {
            let (r, g, b) = shade(x, y);
            whole.set_pixel(x, y, r, g, b);
        }
    }

    // The same pixels shaded tile by tile, then reassembled.
    let tiles = split_into_tiles(width, height, num_tiles);
    let mut parts: Vec<Vec<u8>> = Vec::new();
    for tile in &tiles {
        let mut part = PixelBuffer::new(tile.width(), tile.height());
        for y in tile.min_y..tile.max_y {
            for x in tile.min_x..tile.max_x {
                let (r, g, b) = shade(x, y);
                part.set_pixel(x - tile.min_x, y - tile.min_y, r, g, b);
            }
        }
        parts.push(part.into_data());
    }

    assert_eq!(assemble_tiles(&parts), whole.into_data());
}
