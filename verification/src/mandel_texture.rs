//! The tile cache: the grid of tiles of one texture, and the passes that
//! drive every tile through its states.

use vstd::prelude::*;
use crate::grid::{check_grid, is_grid, is_partition, is_row_major, partition};
use crate::math::{RectU32, Vec2u32};
use crate::tile::{
    lemma_hidden_tile_not_computing, lemma_invalidation_resets, lemma_schedule_idempotent,
    next_token, Tile, TileAction, TileState,
};
use crate::tiled_fractal_app::UserEvent;

verus! {

/// Side of a tile, in pixels.
pub const TILE_SIZE: u32 = 128;

/// The smallest texture side that a cache is built for.
pub const MIN_TEXTURE_SIZE: u32 = 1024;

/// The texture side that the explorer uses.
pub const DEFAULT_TEXTURE_SIZE: u32 = 2048;

/// The tiles of one square texture, with the sizes they were cut for.
#[derive(Debug)]
pub struct MandelTexture {
    pub window_size: Vec2u32,
    pub tex_size: Vec2u32,
    pub tile_size: u32,
    pub max_iter: u32,
    pub tiles: Vec<Tile>,
}

/// Pixels that the upload pass hands out for one tile, with the place in
/// the texture where they belong.
#[derive(Debug)]
pub struct TileUpload {
    pub index: usize,
    pub tex_rect: RectU32,
    pub buffer: Vec<u8>,
}

/// Whether the tile at position `k` is marked visible. A tile that the mask
/// does not reach counts as out of sight.
pub open spec fn visible_at(visible: Seq<bool>, k: int) -> bool {
    0 <= k < visible.len() && visible[k]
}

/// The tiles after an update pass.
pub open spec fn updated_tiles(tiles: Seq<Tile>, invalidate: bool, visible: Seq<bool>) -> Seq<
    Tile,
> {
    Seq::new(tiles.len(), |k: int| tiles[k].scheduled(invalidate, visible_at(visible, k)))
}

/// What an update pass asks of the caller, tile by tile.
pub open spec fn update_actions(tiles: Seq<Tile>, invalidate: bool, visible: Seq<bool>) -> Seq<
    TileAction,
> {
    Seq::new(tiles.len(), |k: int| tiles[k].action(invalidate, visible_at(visible, k)))
}

/// The tiles after an upload pass.
pub open spec fn uploaded_tiles(tiles: Seq<Tile>) -> Seq<Tile> {
    Seq::new(tiles.len(), |k: int| tiles[k].uploaded())
}

/// What the upload pass hands out for a tile whose pixels wait.
pub open spec fn upload_of(tile: Tile) -> TileUpload {
    TileUpload { index: tile.index, tex_rect: tile.tex_rect, buffer: tile.state->buffer }
}

/// The uploads of an upload pass: one for each tile whose pixels wait, in
/// the order of the tiles.
pub open spec fn pending_uploads(tiles: Seq<Tile>) -> Seq<TileUpload>
    decreases tiles.len(),
{
    if tiles.len() == 0 {
        Seq::empty()
    } else if tiles.last().state is WaitForUpload {
        pending_uploads(tiles.drop_last()).push(upload_of(tiles.last()))
    } else {
        pending_uploads(tiles.drop_last())
    }
}

impl MandelTexture {
    /// The texture is square, the tiles are its grid, and every tile is
    /// well formed.
    pub open spec fn wf(&self) -> bool {
        &&& self.tex_size.x == self.tex_size.y
        &&& is_grid(self.tiles@, self.tex_size.x, self.tile_size)
        &&& forall|k: int| 0 <= k < self.tiles@.len() ==> (#[trigger] self.tiles@[k]).wf()
    }

    /// The sizes that a cache can be built for: the tile side divides the
    /// texture side, and the texture is not smaller than the minimum.
    pub open spec fn valid_config(tex_size: u32, tile_size: u32) -> bool {
        &&& tile_size > 0
        &&& tex_size % tile_size == 0
        &&& tex_size >= MIN_TEXTURE_SIZE
    }

    /// Whether the number of tiles can be held in memory.
    pub open spec fn fits(tex_size: u32, tile_size: u32) -> bool {
        (tex_size / tile_size) * (tex_size / tile_size) <= usize::MAX
    }

    /// Checks at run time that the cache is well formed.
    pub fn is_well_formed(&self) -> (ok: bool)
        ensures
            ok == self.wf(),
    {
        if self.tex_size.x != self.tex_size.y {
            return false;
        }
        if !check_grid(&self.tiles, self.tex_size.x, self.tile_size) {
            return false;
        }
        let mut k: usize = 0;
        while k < self.tiles.len()
            invariant
                0 <= k <= self.tiles@.len(),
                forall|m: int| 0 <= m < k ==> (#[trigger] self.tiles@[m]).wf(),
            decreases self.tiles@.len() - k,
        {
            if !self.tiles[k].is_well_formed() {
                return false;
            }
            k = k + 1;
        }
        true
    }

    /// Whether a cache can be built for these sizes.
    pub fn config_is_valid(tex_size: u32, tile_size: u32) -> (ok: bool)
        ensures
            ok == (Self::valid_config(tex_size, tile_size) && Self::fits(tex_size, tile_size)),
    {
        if tile_size == 0 || tex_size % tile_size != 0 || tex_size < MIN_TEXTURE_SIZE {
            return false;
        }
        let count: u64 = (tex_size / tile_size) as u64;
        assert(count * count <= 0xffff_ffff * 0xffff_ffff) by (nonlinear_arith)
            requires
                count <= 0xffff_ffff,
        ;
        count * count <= usize::MAX as u64
    }

    /// A cache for a square texture of side `tex_size`, cut into tiles of
    /// side `tile_size`, all idle.
    pub fn new(tex_size: u32, tile_size: u32, window_size: Vec2u32) -> (texture: MandelTexture)
        requires
            Self::valid_config(tex_size, tile_size),
            (tex_size / tile_size) * (tex_size / tile_size) <= usize::MAX,
        ensures
            texture.wf(),
            texture.tiles@.len() == (tex_size / tile_size) * (tex_size / tile_size),
            is_partition(texture.tiles@, tex_size),
            is_row_major(texture.tiles@, tex_size, tile_size),
            texture.window_size == window_size,
            texture.tex_size == (Vec2u32 { x: tex_size, y: tex_size }),
            texture.tile_size == tile_size,
            texture.max_iter == 100,
            forall|k: int|
                0 <= k < texture.tiles@.len() ==> (#[trigger] texture.tiles@[k]).state is Idle
                    && texture.tiles@[k].cancel_token == 0,
    {
        let tiles = partition(tex_size, tile_size);
        MandelTexture {
            window_size,
            tex_size: Vec2u32::all(tex_size),
            tile_size,
            max_iter: 100,
            tiles,
        }
    }

    /// One update pass. `scale_changed` says that the texture has to
    /// depict another part of the plane, which invalidates every tile;
    /// `visible` says for each tile whether it meets the requested view.
    /// Returns for each tile what the caller has to stop and to start.
    pub fn update(&mut self, scale_changed: bool, visible: &Vec<bool>) -> (actions: Vec<
        TileAction,
    >)
        requires
            old(self).wf(),
        ensures
            final(self).wf(),
            final(self).window_size == old(self).window_size,
            final(self).tex_size == old(self).tex_size,
            final(self).tile_size == old(self).tile_size,
            final(self).max_iter == old(self).max_iter,
            final(self).tiles@ == updated_tiles(old(self).tiles@, scale_changed, visible@),
            actions@ == update_actions(old(self).tiles@, scale_changed, visible@),
            forall|k: int|
                0 <= k < final(self).tiles@.len() && !visible_at(visible@, k) ==> !(
                #[trigger] final(self).tiles@[k].state is Computing),
    {
        let count = self.tiles.len();
        let mut actions: Vec<TileAction> = Vec::with_capacity(count);
        let mut k: usize = 0;
        while k < count
            invariant
                0 <= k <= count,
                count == old(self).tiles@.len(),
                self.tiles@.len() == count,
                old(self).wf(),
                self.window_size == old(self).window_size,
                self.tex_size == old(self).tex_size,
                self.tile_size == old(self).tile_size,
                self.max_iter == old(self).max_iter,
                actions@.len() == k,
                forall|j: int|
                    0 <= j < k ==> #[trigger] self.tiles@[j] == old(self).tiles@[j].scheduled(
                        scale_changed,
                        visible_at(visible@, j),
                    ),
                forall|j: int|
                    0 <= j < k ==> #[trigger] actions@[j] == old(self).tiles@[j].action(
                        scale_changed,
                        visible_at(visible@, j),
                    ),
                forall|j: int| k <= j < count ==> #[trigger] self.tiles@[j] == old(self).tiles@[j],
            decreases count - k,
        {
            let seen = k < visible.len() && visible[k];
            let action = self.tiles[k].schedule(scale_changed, seen);
            actions.push(action);
            k = k + 1;
        }
        proof {
            assert(self.tiles@ =~= updated_tiles(old(self).tiles@, scale_changed, visible@));
            assert(actions@ =~= update_actions(old(self).tiles@, scale_changed, visible@));
        }
        actions
    }

    /// Takes in the outcome of a computation that was started for the tile
    /// `tile_index` with generation `generation`: the pixels, or `None` if it
    /// was cancelled. Only the tile named changes, and only if it still waits
    /// for that generation. Returns the notification to post when pixels
    /// were accepted. An index that names no tile changes nothing.
    pub fn complete(&mut self, tile_index: usize, generation: u32, result: Option<Vec<u8>>) -> (event:
        Option<UserEvent>)
        requires
            old(self).wf(),
        ensures
            final(self).wf(),
            final(self).window_size == old(self).window_size,
            final(self).tex_size == old(self).tex_size,
            final(self).tile_size == old(self).tile_size,
            final(self).max_iter == old(self).max_iter,
            tile_index < old(self).tiles@.len() ==> {
                &&& final(self).tiles@ == old(self).tiles@.update(
                    tile_index as int,
                    old(self).tiles@[tile_index as int].completed(generation, result),
                )
                &&& event == old(self).tiles@[tile_index as int].completion_event(
                    generation,
                    result,
                )
            },
            tile_index >= old(self).tiles@.len() ==> {
                &&& final(self).tiles@ == old(self).tiles@
                &&& event is None
            },
    {
        if tile_index >= self.tiles.len() {
            return None;
        }
        let event = self.tiles[tile_index].complete(generation, result);
        proof {
            assert(self.tiles@ =~= old(self).tiles@.update(
                tile_index as int,
                old(self).tiles@[tile_index as int].completed(generation, result),
            ));
        }
        event
    }

    /// One upload pass. Every tile whose pixels wait hands them out and
    /// becomes ready; the other tiles stay as they are. The uploads come in
    /// the order of the tiles, each with the rectangle of the texture that
    /// its pixels fill.
    pub fn render(&mut self) -> (uploads: Vec<TileUpload>)
        requires
            old(self).wf(),
        ensures
            final(self).wf(),
            final(self).window_size == old(self).window_size,
            final(self).tex_size == old(self).tex_size,
            final(self).tile_size == old(self).tile_size,
            final(self).max_iter == old(self).max_iter,
            final(self).tiles@ == uploaded_tiles(old(self).tiles@),
            uploads@ == pending_uploads(old(self).tiles@),
    {
        let count = self.tiles.len();
        let mut uploads: Vec<TileUpload> = Vec::new();
        let mut k: usize = 0;
        while k < count
            invariant
                0 <= k <= count,
                count == old(self).tiles@.len(),
                self.tiles@.len() == count,
                old(self).wf(),
                self.window_size == old(self).window_size,
                self.tex_size == old(self).tex_size,
                self.tile_size == old(self).tile_size,
                self.max_iter == old(self).max_iter,
                uploads@ == pending_uploads(old(self).tiles@.take(k as int)),
                forall|j: int| 0 <= j < k ==> #[trigger] self.tiles@[j] == old(self).tiles@[j].uploaded(),
                forall|j: int| k <= j < count ==> #[trigger] self.tiles@[j] == old(self).tiles@[j],
            decreases count - k,
        {
            proof {
                assert(old(self).tiles@.take(k + 1).drop_last() =~= old(self).tiles@.take(k as int));
                assert(old(self).tiles@.take(k + 1).last() == old(self).tiles@[k as int]);
            }
            let index = self.tiles[k].index;
            let tex_rect = self.tiles[k].tex_rect;
            match self.tiles[k].take_upload() {
                Some(buffer) => {
                    uploads.push(TileUpload { index, tex_rect, buffer });
                },
                None => {},
            }
            k = k + 1;
        }
        proof {
            assert(old(self).tiles@.take(count as int) =~= old(self).tiles@);
            assert(self.tiles@ =~= uploaded_tiles(old(self).tiles@));
        }
        uploads
    }

    /// Records the size of the window that the texture is drawn into.
    pub fn resize_window(&mut self, window_size: Vec2u32)
        ensures
            final(self).window_size == window_size,
            final(self).tex_size == old(self).tex_size,
            final(self).tile_size == old(self).tile_size,
            final(self).max_iter == old(self).max_iter,
            final(self).tiles == old(self).tiles,
    {
        self.window_size = window_size;
    }
}

/// An update pass that is repeated for the same view, with no computation
/// ended in between, changes no tile and asks for nothing: in particular it
/// starts no new work.
pub proof fn lemma_update_idempotent(tiles: Seq<Tile>, invalidate: bool, visible: Seq<bool>)
    ensures
        updated_tiles(updated_tiles(tiles, invalidate, visible), false, visible) == updated_tiles(
            tiles,
            invalidate,
            visible,
        ),
        forall|k: int|
            0 <= k < tiles.len() ==> #[trigger] update_actions(
                updated_tiles(tiles, invalidate, visible),
                false,
                visible,
            )[k] == TileAction::nothing(),
{
    let once = updated_tiles(tiles, invalidate, visible);
    assert forall|k: int| 0 <= k < tiles.len() implies #[trigger] updated_tiles(
        once,
        false,
        visible,
    )[k] == once[k] by {
        lemma_schedule_idempotent(tiles[k], invalidate, visible_at(visible, k));
    }
    assert(updated_tiles(once, false, visible) =~= once);
    assert forall|k: int| 0 <= k < tiles.len() implies #[trigger] update_actions(
        once,
        false,
        visible,
    )[k] == TileAction::nothing() by {
        lemma_schedule_idempotent(tiles[k], invalidate, visible_at(visible, k));
    }
}

/// After an update pass no tile out of sight computes, and none of them
/// was started.
pub proof fn lemma_update_hides(tiles: Seq<Tile>, invalidate: bool, visible: Seq<bool>, k: int)
    requires
        0 <= k < tiles.len(),
        !visible_at(visible, k),
    ensures
        !(updated_tiles(tiles, invalidate, visible)[k].state is Computing),
        update_actions(tiles, invalidate, visible)[k].dispatch is None,
{
    lemma_hidden_tile_not_computing(tiles[k], invalidate);
}

/// An update pass that invalidates the texture cancels every tile before it
/// starts anything: each tile gets the next token and ends idle, or
/// computing for the new token if it is visible. No tile keeps pixels, and
/// every computation that was running is to be stopped.
pub proof fn lemma_update_invalidates_all(tiles: Seq<Tile>, visible: Seq<bool>, k: int)
    requires
        0 <= k < tiles.len(),
    ensures
        updated_tiles(tiles, true, visible)[k] == tiles[k].cancelled().scheduled(
            false,
            visible_at(visible, k),
        ),
        updated_tiles(tiles, true, visible)[k].cancel_token == next_token(tiles[k].cancel_token),
        updated_tiles(tiles, true, visible)[k].state == (if visible_at(visible, k) {
            TileState::Computing { generation: next_token(tiles[k].cancel_token) }
        } else {
            TileState::Idle
        }),
        update_actions(tiles, true, visible)[k].abort == (tiles[k].state is Computing),
{
    lemma_invalidation_resets(tiles[k], visible_at(visible, k));
}

/// What an upload pass hands out, tile by tile, when every tile carries
/// its position as its index: a tile whose pixels wait has exactly one
/// upload, with its index, its rectangle and its pixels; every upload
/// belongs to such a tile; and the uploads come by rising index.
pub proof fn lemma_pending_uploads(tiles: Seq<Tile>)
    requires
        forall|k: int| 0 <= k < tiles.len() ==> (#[trigger] tiles[k]).index == k,
    ensures
        pending_uploads(tiles).len() <= tiles.len(),
        forall|k: int|
            0 <= k < tiles.len() && (#[trigger] tiles[k]).state is WaitForUpload ==> {
                let j = pending_uploads(tiles.take(k)).len() as int;
                0 <= j < pending_uploads(tiles).len() && pending_uploads(tiles)[j] == upload_of(
                    tiles[k],
                )
            },
        forall|j: int|
            #![trigger pending_uploads(tiles)[j]]
            0 <= j < pending_uploads(tiles).len() ==> {
                let k = pending_uploads(tiles)[j].index as int;
                &&& 0 <= k < tiles.len()
                &&& tiles[k].state is WaitForUpload
                &&& pending_uploads(tiles)[j] == upload_of(tiles[k])
            },
        forall|i: int, j: int|
            0 <= i < j < pending_uploads(tiles).len() ==> (#[trigger] pending_uploads(
                tiles,
            )[i]).index < (#[trigger] pending_uploads(tiles)[j]).index,
    decreases tiles.len(),
{
    if tiles.len() > 0 {
        let head = tiles.drop_last();
        let last = tiles.len() - 1;
        assert forall|k: int| 0 <= k < head.len() implies (#[trigger] head[k]).index == k by {
            assert(head[k] == tiles[k]);
        }
        lemma_pending_uploads(head);
        assert(tiles.take(last) =~= head);
        assert forall|k: int|
            0 <= k < tiles.len() && (#[trigger] tiles[k]).state is WaitForUpload implies {
            let j = pending_uploads(tiles.take(k)).len() as int;
            0 <= j < pending_uploads(tiles).len() && pending_uploads(tiles)[j] == upload_of(
                tiles[k],
            )
        } by {
            if k < last {
                assert(head[k] == tiles[k]);
                assert(head.take(k) =~= tiles.take(k));
            }
        }
        assert forall|j: int|
            #![trigger pending_uploads(tiles)[j]]
            0 <= j < pending_uploads(tiles).len() implies {
            let k = pending_uploads(tiles)[j].index as int;
            &&& 0 <= k < tiles.len()
            &&& tiles[k].state is WaitForUpload
            &&& pending_uploads(tiles)[j] == upload_of(tiles[k])
        } by {
            if j < pending_uploads(head).len() {
                let k = pending_uploads(head)[j].index as int;
                assert(pending_uploads(tiles)[j] == pending_uploads(head)[j]);
                assert(tiles[k] == head[k]);
            } else {
                assert(tiles[last].state is WaitForUpload);
                assert(pending_uploads(tiles)[j] == upload_of(tiles[last]));
            }
        }
        assert forall|i: int, j: int| 0 <= i < j < pending_uploads(tiles).len() implies (
        #[trigger] pending_uploads(tiles)[i]).index < (#[trigger] pending_uploads(tiles)[j]).index by {
            assert(pending_uploads(tiles)[i] == pending_uploads(head)[i]);
            if j < pending_uploads(head).len() {
                assert(pending_uploads(tiles)[j] == pending_uploads(head)[j]);
            } else {
                assert(pending_uploads(tiles)[j] == upload_of(tiles[last]));
                assert(pending_uploads(head)[i].index < head.len());
            }
        }
    } else {
        assert(pending_uploads(tiles).len() == 0);
    }
}

/// When the pixels of every tile wait, an upload pass hands out one upload
/// for each tile, in order: together they fill the rectangles of all tiles.
pub proof fn lemma_pending_uploads_of_all(tiles: Seq<Tile>)
    requires
        forall|k: int| 0 <= k < tiles.len() ==> (#[trigger] tiles[k]).state is WaitForUpload,
    ensures
        pending_uploads(tiles).len() == tiles.len(),
        forall|k: int|
            0 <= k < tiles.len() ==> #[trigger] pending_uploads(tiles)[k] == upload_of(tiles[k]),
    decreases tiles.len(),
{
    if tiles.len() > 0 {
        let head = tiles.drop_last();
        assert forall|k: int| 0 <= k < head.len() implies (#[trigger] head[k]).state is WaitForUpload by {
            assert(head[k] == tiles[k]);
        }
        lemma_pending_uploads_of_all(head);
    }
}

} // verus!
