//! The fixed grid of tiles that partitions a square texture.

use vstd::prelude::*;
use vstd::arithmetic::div_mod::lemma_fundamental_div_mod;
use vstd::arithmetic::div_mod::lemma_fundamental_div_mod_converse;
use vstd::arithmetic::div_mod::lemma_mod_bound;
use crate::math::{RectU32, Vec2u32};
use crate::tile::Tile;

verus! {

/// The rectangle of the tile with index `index` in a grid of `count` by
/// `count` square tiles of side `tile_size`. The tiles are listed in
/// row-major order: row by row from the top, each row from left to right.
/// So the tile lies in column `index % count` and row `index / count`, and
/// the tile after it lies beside it.
pub open spec fn grid_rect(index: int, count: int, tile_size: u32) -> RectU32 {
    RectU32 {
        pos: Vec2u32 {
            x: ((index % count) * tile_size) as u32,
            y: ((index / count) * tile_size) as u32,
        },
        size: Vec2u32 { x: tile_size, y: tile_size },
    }
}

/// The index of the tile that holds the pixel `(x, y)`.
pub open spec fn tile_index_of(x: int, y: int, count: int, tile_size: u32) -> int {
    (y / (tile_size as int)) * count + x / (tile_size as int)
}

/// Whether `tiles` is the grid of a texture of side `tex_size` cut into
/// tiles of side `tile_size`: one tile for each cell, each at its place in
/// the list and over its own rectangle.
pub open spec fn is_grid(tiles: Seq<Tile>, tex_size: u32, tile_size: u32) -> bool {
    let count = tex_size as int / tile_size as int;
    &&& tile_size > 0
    &&& tex_size % tile_size == 0
    &&& tiles.len() == count * count
    &&& forall|k: int|
        0 <= k < tiles.len() ==> (#[trigger] tiles[k]).index == k && tiles[k].tex_rect
            == grid_rect(k, count, tile_size)
}

/// Whether `tiles` are square tiles of side `tile_size` listed in row-major
/// order: tile `k` carries the index `k` and has its origin at column
/// `k % count` and row `k / count` of the grid, counted in tiles.
pub open spec fn is_row_major(tiles: Seq<Tile>, tex_size: u32, tile_size: u32) -> bool {
    let count = tex_size as int / tile_size as int;
    forall|k: int|
        0 <= k < tiles.len() ==> {
            &&& (#[trigger] tiles[k]).index == k
            &&& tiles[k].tex_rect.pos.x == (k % count) * tile_size
            &&& tiles[k].tex_rect.pos.y == (k / count) * tile_size
            &&& tiles[k].tex_rect.size == (Vec2u32 { x: tile_size, y: tile_size })
        }
}

/// Whether some tile holds the pixel `(x, y)`.
pub open spec fn covers(tiles: Seq<Tile>, x: int, y: int) -> bool {
    exists|k: int| 0 <= k < tiles.len() && #[trigger] tiles[k].tex_rect.contains(x, y)
}

/// Whether the rectangles of `tiles` partition the square texture of side
/// `tex_size`: no two tiles share a pixel, every pixel of the texture lies
/// in a tile, and no tile reaches beyond the texture.
pub open spec fn is_partition(tiles: Seq<Tile>, tex_size: u32) -> bool {
    &&& forall|a: int, b: int|
        0 <= a < tiles.len() && 0 <= b < tiles.len() && a != b ==> (#[trigger] tiles[a]).tex_rect.disjoint(
            (#[trigger] tiles[b]).tex_rect,
        )
    &&& forall|x: int, y: int|
        0 <= x < tex_size && 0 <= y < tex_size ==> #[trigger] covers(tiles, x, y)
    &&& forall|k: int, x: int, y: int|
        0 <= k < tiles.len() && #[trigger] tiles[k].tex_rect.contains(x, y) ==> 0 <= x
            < tex_size && 0 <= y < tex_size
}

/// Cuts a square texture of side `tex_size` into idle tiles of side
/// `tile_size`, which must divide `tex_size`. The tiles come row by row
/// from the top, each row from left to right.
pub fn partition(tex_size: u32, tile_size: u32) -> (tiles: Vec<Tile>)
    requires
        tile_size > 0,
        tex_size % tile_size == 0,
        (tex_size / tile_size) * (tex_size / tile_size) <= usize::MAX,
    ensures
        is_grid(tiles@, tex_size, tile_size),
        tiles@.len() == (tex_size / tile_size) * (tex_size / tile_size),
        is_partition(tiles@, tex_size),
        is_row_major(tiles@, tex_size, tile_size),
        forall|k: int|
            0 <= k < tiles@.len() ==> (#[trigger] tiles@[k]).state is Idle && tiles@[k].cancel_token
                == 0,
{
    let count: u32 = tex_size / tile_size;
    proof {
        lemma_fundamental_div_mod(tex_size as int, tile_size as int);
        assert(count * tile_size == tex_size) by (nonlinear_arith)
            requires
                tex_size == tile_size * count + 0,
        ;
    }
    let mut tiles: Vec<Tile> = Vec::new();
    let mut row: u32 = 0;
    while row < count
        invariant
            0 <= row <= count,
            0 < tile_size,
            count * tile_size == tex_size,
            count * count <= usize::MAX,
            tiles@.len() == row * count,
            forall|k: int|
                0 <= k < tiles@.len() ==> {
                    &&& (#[trigger] tiles@[k]).index == k
                    &&& tiles@[k].tex_rect == grid_rect(k, count as int, tile_size)
                    &&& tiles@[k].state is Idle
                    &&& tiles@[k].cancel_token == 0
                },
        decreases count - row,
    {
        let mut col: u32 = 0;
        while col < count
            invariant
                0 <= row < count,
                0 <= col <= count,
                0 < tile_size,
                count * tile_size == tex_size,
                count * count <= usize::MAX,
                tiles@.len() == row * count + col,
                forall|k: int|
                    0 <= k < tiles@.len() ==> {
                        &&& (#[trigger] tiles@[k]).index == k
                        &&& tiles@[k].tex_rect == grid_rect(k, count as int, tile_size)
                        &&& tiles@[k].state is Idle
                        &&& tiles@[k].cancel_token == 0
                    },
            decreases count - col,
        {
            proof {
                lemma_index_join(row as int, col as int, count as int);
                lemma_cell_extent(row as int, count as int, tile_size as int);
                lemma_cell_extent(col as int, count as int, tile_size as int);
            }
            let index = tiles.len();
            let rect = RectU32 {
                pos: Vec2u32::new(col * tile_size, row * tile_size),
                size: Vec2u32::new(tile_size, tile_size),
            };
            tiles.push(Tile::new(index, rect));
            col = col + 1;
        }
        proof {
            assert((row + 1) * count == row * count + count) by (nonlinear_arith);
        }
        row = row + 1;
    }
    proof {
        lemma_grid_partitions(tiles@, tex_size, tile_size);
    }
    tiles
}

/// Checks at run time that `tiles` is the grid of a texture of side
/// `tex_size` cut into tiles of side `tile_size`.
pub fn check_grid(tiles: &Vec<Tile>, tex_size: u32, tile_size: u32) -> (ok: bool)
    ensures
        ok == is_grid(tiles@, tex_size, tile_size),
{
    if tile_size == 0 || tex_size % tile_size != 0 {
        return false;
    }
    let count: u32 = tex_size / tile_size;
    assert(count * count <= 0xffff_ffff * 0xffff_ffff) by (nonlinear_arith)
        requires
            count <= 0xffff_ffff,
    ;
    let total: u64 = count as u64 * count as u64;
    if tiles.len() as u64 != total {
        return false;
    }
    proof {
        lemma_fundamental_div_mod(tex_size as int, tile_size as int);
        assert(count * tile_size == tex_size) by (nonlinear_arith)
            requires
                tex_size == tile_size * count + 0,
        ;
    }
    let mut k: usize = 0;
    let mut row: u32 = 0;
    let mut col: u32 = 0;
    while k < tiles.len()
        invariant
            0 < tile_size,
            count * tile_size == tex_size,
            count == tex_size as int / tile_size as int,
            tiles@.len() == count * count,
            0 <= k <= tiles@.len(),
            k == row * count + col,
            0 <= row <= count,
            0 <= col < count || (col == 0 && row == count),
            forall|m: int|
                0 <= m < k ==> (#[trigger] tiles@[m]).index == m && tiles@[m].tex_rect
                    == grid_rect(m, count as int, tile_size),
        decreases tiles@.len() - k,
    {
        proof {
            if row == count {
                assert(row * count == count * count) by (nonlinear_arith)
                    requires
                        row == count,
                ;
            }
            assert(row < count);
            lemma_index_join(row as int, col as int, count as int);
            lemma_cell_extent(row as int, count as int, tile_size as int);
            lemma_cell_extent(col as int, count as int, tile_size as int);
        }
        let tile = &tiles[k];
        let rect = RectU32 {
            pos: Vec2u32 { x: col * tile_size, y: row * tile_size },
            size: Vec2u32 { x: tile_size, y: tile_size },
        };
        if tile.index != k || tile.tex_rect != rect {
            return false;
        }
        k = k + 1;
        col = col + 1;
        if col == count {
            col = 0;
            proof {
                assert((row + 1) * count == row * count + count) by (nonlinear_arith);
            }
            row = row + 1;
        }
    }
    true
}

proof fn lemma_cell_extent(cell: int, count: int, tile_size: int)
    requires
        0 <= cell < count,
        0 < tile_size,
    ensures
        0 <= cell * tile_size,
        cell * tile_size + tile_size <= count * tile_size,
{
    assert(0 <= cell * tile_size && cell * tile_size + tile_size <= count * tile_size)
        by (nonlinear_arith)
        requires
            0 <= cell < count,
            0 < tile_size,
    ;
}

proof fn lemma_cells_apart(low: int, high: int, tile_size: int)
    requires
        0 <= low < high,
        0 < tile_size,
    ensures
        low * tile_size + tile_size <= high * tile_size,
{
    assert(low * tile_size + tile_size <= high * tile_size) by (nonlinear_arith)
        requires
            0 <= low < high,
            0 < tile_size,
    ;
}

proof fn lemma_index_split(index: int, count: int)
    requires
        0 <= index < count * count,
        0 < count,
    ensures
        0 <= index / count < count,
        0 <= index % count < count,
        index == (index / count) * count + index % count,
{
    lemma_fundamental_div_mod(index, count);
    lemma_mod_bound(index, count);
    let q = index / count;
    assert(index == q * count + index % count) by (nonlinear_arith)
        requires
            index == count * q + index % count,
    ;
    assert(0 <= q < count) by (nonlinear_arith)
        requires
            0 <= index < count * count,
            index == q * count + index % count,
            0 <= index % count < count,
            0 < count,
    ;
}

proof fn lemma_index_join(i: int, j: int, count: int)
    requires
        0 <= i < count,
        0 <= j < count,
    ensures
        0 <= i * count + j < count * count,
        (i * count + j) / count == i,
        (i * count + j) % count == j,
{
    assert(0 <= i * count + j < count * count) by (nonlinear_arith)
        requires
            0 <= i < count,
            0 <= j < count,
    ;
    lemma_fundamental_div_mod_converse(i * count + j, count, i, j);
}

proof fn lemma_pixel_cell(x: int, count: int, tile_size: int)
    requires
        0 <= x < count * tile_size,
        0 < tile_size,
    ensures
        0 <= x / tile_size < count,
        (x / tile_size) * tile_size <= x < (x / tile_size) * tile_size + tile_size,
{
    lemma_fundamental_div_mod(x, tile_size);
    lemma_mod_bound(x, tile_size);
    let q = x / tile_size;
    assert(x == q * tile_size + x % tile_size) by (nonlinear_arith)
        requires
            x == tile_size * q + x % tile_size,
    ;
    assert(0 <= q < count) by (nonlinear_arith)
        requires
            0 <= x < count * tile_size,
            x == q * tile_size + x % tile_size,
            0 <= x % tile_size < tile_size,
            0 < tile_size,
    ;
}

/// The rectangle of a cell, spelled out: in a texture that fits the
/// coordinates, the tile with a valid index covers the columns and rows of
/// its cell.
pub proof fn lemma_grid_rect_extent(index: int, count: int, tile_size: u32)
    requires
        0 <= count,
        0 <= index < count * count,
        0 < tile_size,
        count * tile_size <= u32::MAX,
    ensures
        0 <= index / count < count,
        0 <= index % count < count,
        grid_rect(index, count, tile_size).pos.x == (index % count) * tile_size,
        grid_rect(index, count, tile_size).pos.y == (index / count) * tile_size,
        grid_rect(index, count, tile_size).size == (Vec2u32 { x: tile_size, y: tile_size }),
        grid_rect(index, count, tile_size).pos.x + tile_size <= count * tile_size,
        grid_rect(index, count, tile_size).pos.y + tile_size <= count * tile_size,
{
    assert(0 < count) by (nonlinear_arith)
        requires
            0 <= count,
            0 <= index < count * count,
    ;
    lemma_index_split(index, count);
    lemma_cell_extent(index / count, count, tile_size as int);
    lemma_cell_extent(index % count, count, tile_size as int);
}

/// Two different tiles of a grid have no pixel in common.
pub proof fn lemma_grid_rects_disjoint(a: int, b: int, count: int, tile_size: u32)
    requires
        0 <= count,
        0 <= a < count * count,
        0 <= b < count * count,
        a != b,
        0 < tile_size,
        count * tile_size <= u32::MAX,
    ensures
        grid_rect(a, count, tile_size).disjoint(grid_rect(b, count, tile_size)),
{
    lemma_grid_rect_extent(a, count, tile_size);
    lemma_grid_rect_extent(b, count, tile_size);
    lemma_index_split(a, count);
    lemma_index_split(b, count);
    let t = tile_size as int;
    if a / count < b / count {
        lemma_cells_apart(a / count, b / count, t);
    } else if b / count < a / count {
        lemma_cells_apart(b / count, a / count, t);
    } else if a % count < b % count {
        lemma_cells_apart(a % count, b % count, t);
    } else {
        lemma_cells_apart(b % count, a % count, t);
    }
}

/// Every pixel of the texture lies in the tile that `tile_index_of` names,
/// and that tile is one of the grid.
pub proof fn lemma_grid_covers(x: int, y: int, count: int, tile_size: u32)
    requires
        0 <= x < count * tile_size,
        0 <= y < count * tile_size,
        0 < tile_size,
        count * tile_size <= u32::MAX,
    ensures
        0 <= tile_index_of(x, y, count, tile_size) < count * count,
        grid_rect(tile_index_of(x, y, count, tile_size), count, tile_size).contains(x, y),
{
    let t = tile_size as int;
    lemma_pixel_cell(x, count, t);
    lemma_pixel_cell(y, count, t);
    lemma_index_join(y / t, x / t, count);
    lemma_grid_rect_extent(tile_index_of(x, y, count, tile_size), count, tile_size);
}

/// A grid partitions its texture: it has one tile for each cell, and the
/// rectangles of its tiles cut the texture into disjoint pieces. The tile
/// that holds a given pixel is the one that `tile_index_of` names.
pub proof fn lemma_grid_partitions(tiles: Seq<Tile>, tex_size: u32, tile_size: u32)
    requires
        is_grid(tiles, tex_size, tile_size),
    ensures
        tiles.len() == (tex_size / tile_size) * (tex_size / tile_size),
        is_partition(tiles, tex_size),
        is_row_major(tiles, tex_size, tile_size),
        forall|x: int, y: int|
            0 <= x < tex_size && 0 <= y < tex_size ==> 0 <= #[trigger] tile_index_of(
                x,
                y,
                tex_size as int / tile_size as int,
                tile_size,
            ) < tiles.len() && tiles[tile_index_of(
                x,
                y,
                tex_size as int / tile_size as int,
                tile_size,
            )].tex_rect.contains(x, y),
{
    let count = tex_size as int / tile_size as int;
    lemma_fundamental_div_mod(tex_size as int, tile_size as int);
    assert(count * tile_size == tex_size) by (nonlinear_arith)
        requires
            tex_size == tile_size * count + 0,
    ;
    assert forall|a: int, b: int|
        0 <= a < tiles.len() && 0 <= b < tiles.len() && a != b implies (#[trigger] tiles[a]).tex_rect.disjoint(
        (#[trigger] tiles[b]).tex_rect,
    ) by {
        lemma_grid_rects_disjoint(a, b, count, tile_size);
    }
    assert forall|x: int, y: int| 0 <= x < tex_size && 0 <= y < tex_size implies 0
        <= #[trigger] tile_index_of(x, y, count, tile_size) < tiles.len() && tiles[tile_index_of(
        x,
        y,
        count,
        tile_size,
    )].tex_rect.contains(x, y) by {
        lemma_grid_covers(x, y, count, tile_size);
    }
    assert forall|x: int, y: int| 0 <= x < tex_size && 0 <= y < tex_size implies #[trigger] covers(
        tiles,
        x,
        y,
    ) by {
        let k = tile_index_of(x, y, count, tile_size);
        assert(0 <= k < tiles.len() && tiles[k].tex_rect.contains(x, y));
    }
    assert forall|k: int, x: int, y: int|
        0 <= k < tiles.len() && #[trigger] tiles[k].tex_rect.contains(x, y) implies 0 <= x
        < tex_size && 0 <= y < tex_size by {
        lemma_grid_rect_extent(k, count, tile_size);
    }
    assert forall|k: int| 0 <= k < tiles.len() implies {
        &&& (#[trigger] tiles[k]).index == k
        &&& tiles[k].tex_rect.pos.x == (k % count) * tile_size
        &&& tiles[k].tex_rect.pos.y == (k / count) * tile_size
        &&& tiles[k].tex_rect.size == (Vec2u32 { x: tile_size, y: tile_size })
    } by {
        lemma_grid_rect_extent(k, count, tile_size);
    }
}

} // verus!
