//! The scan that fills the pixel buffer of one tile.
//!
//! The colour of a pixel and the test for cancellation are supplied by the
//! caller; the scan fixes the order of the pixels, the size of the buffer
//! and how often cancellation is looked for.

use vstd::prelude::*;
use vstd::arithmetic::div_mod::lemma_fundamental_div_mod_converse;
use crate::math::RectU32;

verus! {

/// The scan looks for cancellation once every so many pixels of a row.
pub const CANCEL_POLL_INTERVAL: u32 = 32;

/// The place in a tile's buffer of the pixel with texture coordinates
/// `(x, y)`: rows follow one another, each from left to right.
pub open spec fn pixel_index(tile_rect: RectU32, x: u32, y: u32) -> int {
    (y - tile_rect.pos.y) * tile_rect.size.x + (x - tile_rect.pos.x)
}

/// Computes the pixels of `tile_rect`, row by row. `pixel` is called with
/// the texture coordinates of each pixel of the tile. `cancelled` is asked
/// at the start of each row and then every `CANCEL_POLL_INTERVAL` pixels; as
/// soon as it answers `true` the scan stops and returns `None`, and what was
/// computed so far is dropped.
///
/// A buffer that comes back is complete: it holds one byte for each pixel
/// of the tile, at the place that `pixel_index` gives. The scan gives up
/// only on an answer of `cancelled`, so it succeeds whenever `cancelled`
/// cannot answer `true`, and always for a tile without pixels. A buffer
/// with pixels comes back only after `cancelled` was asked and answered
/// `false`: once `cancelled` can only answer `true`, no buffer is returned.
pub fn scan_tile<P, C>(tile_rect: RectU32, pixel: P, cancelled: C) -> (out: Option<Vec<u8>>) where
    P: Fn(u32, u32) -> u8,
    C: Fn() -> bool,

    requires
        tile_rect.pos.x + tile_rect.size.x <= u32::MAX,
        tile_rect.pos.y + tile_rect.size.y <= u32::MAX,
        tile_rect.size.x * tile_rect.size.y <= usize::MAX,
        call_requires(cancelled, ()),
        forall|x: u32, y: u32|
            tile_rect.contains(x as int, y as int) ==> #[trigger] call_requires(pixel, (x, y)),
    ensures
        match out {
            Some(buffer) => {
                &&& buffer@.len() == tile_rect.area()
                &&& tile_rect.area() > 0 ==> call_ensures(cancelled, (), false)
                &&& forall|x: u32, y: u32|
                    #![trigger pixel_index(tile_rect, x, y)]
                    tile_rect.contains(x as int, y as int) ==> {
                        &&& 0 <= pixel_index(tile_rect, x, y) < buffer@.len()
                        &&& call_ensures(pixel, (x, y), buffer@[pixel_index(tile_rect, x, y)])
                    }
            },
            None => call_ensures(cancelled, (), true) && tile_rect.area() > 0,
        },
{
    let width = tile_rect.size.x;
    let height = tile_rect.size.y;
    let mut buffer: Vec<u8> = Vec::new();
    let mut y: u32 = 0;
    while y < height
        invariant
            0 <= y <= height,
            width == tile_rect.size.x,
            height == tile_rect.size.y,
            tile_rect.pos.x + width <= u32::MAX,
            tile_rect.pos.y + height <= u32::MAX,
            width * height <= usize::MAX,
            call_requires(cancelled, ()),
            forall|px: u32, py: u32|
                tile_rect.contains(px as int, py as int) ==> #[trigger] call_requires(
                    pixel,
                    (px, py),
                ),
            buffer@.len() == y * width,
            buffer@.len() > 0 ==> call_ensures(cancelled, (), false),
            forall|px: u32, py: u32|
                #![trigger pixel_index(tile_rect, px, py)]
                tile_rect.contains(px as int, py as int) && pixel_index(tile_rect, px, py)
                    < buffer@.len() ==> {
                    &&& 0 <= pixel_index(tile_rect, px, py)
                    &&& call_ensures(pixel, (px, py), buffer@[pixel_index(tile_rect, px, py)])
                },
        decreases height - y,
    {
        let mut x: u32 = 0;
        while x < width
            invariant
                0 <= y < height,
                0 <= x <= width,
                width == tile_rect.size.x,
                height == tile_rect.size.y,
                tile_rect.pos.x + width <= u32::MAX,
                tile_rect.pos.y + height <= u32::MAX,
                width * height <= usize::MAX,
                call_requires(cancelled, ()),
                forall|px: u32, py: u32|
                    tile_rect.contains(px as int, py as int) ==> #[trigger] call_requires(
                        pixel,
                        (px, py),
                    ),
                buffer@.len() == y * width + x,
                buffer@.len() > 0 ==> call_ensures(cancelled, (), false),
                forall|px: u32, py: u32|
                    #![trigger pixel_index(tile_rect, px, py)]
                    tile_rect.contains(px as int, py as int) && pixel_index(tile_rect, px, py)
                        < buffer@.len() ==> {
                        &&& 0 <= pixel_index(tile_rect, px, py)
                        &&& call_ensures(pixel, (px, py), buffer@[pixel_index(tile_rect, px, py)])
                    },
            decreases width - x,
        {
            if x % CANCEL_POLL_INTERVAL == 0 {
                if cancelled() {
                    assert(width * height > 0) by (nonlinear_arith)
                        requires
                            x < width,
                            y < height,
                    ;
                    return None;
                }
            }
            proof {
                lemma_scan_position(x as int, y as int, width as int, height as int);
            }
            let tex_x = x + tile_rect.pos.x;
            let tex_y = y + tile_rect.pos.y;
            assert(tile_rect.contains(tex_x as int, tex_y as int));
            let value = pixel(tex_x, tex_y);
            let ghost before = buffer@;
            buffer.push(value);
            proof {
                assert forall|px: u32, py: u32|
                    #![trigger pixel_index(tile_rect, px, py)]
                    tile_rect.contains(px as int, py as int) && pixel_index(tile_rect, px, py)
                        < buffer@.len() implies {
                    &&& 0 <= pixel_index(tile_rect, px, py)
                    &&& call_ensures(pixel, (px, py), buffer@[pixel_index(tile_rect, px, py)])
                } by {
                    let i = pixel_index(tile_rect, px, py);
                    lemma_scan_position(
                        px - tile_rect.pos.x,
                        py - tile_rect.pos.y,
                        width as int,
                        height as int,
                    );
                    if i < before.len() {
                        assert(buffer@[i] == before[i]);
                    } else {
                        assert(i == y * width + x);
                        assert(px == tex_x && py == tex_y);
                    }
                }
            }
            x = x + 1;
        }
        proof {
            assert((y + 1) * width == y * width + width) by (nonlinear_arith);
        }
        y = y + 1;
    }
    proof {
        assert(height * width == width * height) by (nonlinear_arith);
        assert forall|px: u32, py: u32|
            #![trigger pixel_index(tile_rect, px, py)]
            tile_rect.contains(px as int, py as int) implies pixel_index(tile_rect, px, py)
            < buffer@.len() by {
            lemma_scan_position(
                px - tile_rect.pos.x,
                py - tile_rect.pos.y,
                width as int,
                height as int,
            );
        }
    }
    Some(buffer)
}

/// In a buffer of `height` rows of `width` bytes, the byte of column `x` in
/// row `y` stands at `y * width + x`, and that place gives the column and
/// the row back.
proof fn lemma_scan_position(x: int, y: int, width: int, height: int)
    requires
        0 <= x < width,
        0 <= y < height,
    ensures
        0 <= y * width + x < width * height,
        (y * width + x) % width == x,
        (y * width + x) / width == y,
{
    assert(0 <= y * width + x < width * height) by (nonlinear_arith)
        requires
            0 <= x < width,
            0 <= y < height,
    ;
    lemma_fundamental_div_mod_converse(y * width + x, width, y, x);
}

} // verus!
