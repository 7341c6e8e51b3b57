//! One tile of the texture: its fixed rectangle, its state and its
//! cancellation token, with the transitions between states.

use vstd::prelude::*;
use crate::math::RectU32;
use crate::tiled_fractal_app::UserEvent;

verus! {

/// Where a tile stands in its life cycle.
#[derive(Debug)]
pub enum TileState {
    /// No pixels and no computation.
    Idle,
    /// A computation is running. It was started when the tile's token had
    /// the value `generation`, and only a result of that generation counts.
    Computing { generation: u32 },
    /// The pixels are computed, one byte each, and wait to be uploaded.
    WaitForUpload { buffer: Vec<u8> },
    /// The pixels are in the texture.
    Ready,
}

/// A square region of the texture that is computed on its own.
#[derive(Debug)]
pub struct Tile {
    /// Position of the tile in the grid's list of tiles.
    pub index: usize,
    /// The pixels that the tile covers. Never changes.
    pub tex_rect: RectU32,
    pub state: TileState,
    /// Generation counter: every cancellation adds one.
    pub cancel_token: u32,
}

/// What the caller has to do for one tile after a scheduling step.
#[derive(Clone, Copy, Debug, PartialEq, Eq, Structural)]
pub struct TileAction {
    /// Stop the computation that was running for the tile.
    pub abort: bool,
    /// Start a computation bound to this generation.
    pub dispatch: Option<u32>,
}

/// The token that follows `token`: one more, wrapping to zero after the
/// largest value.
pub open spec fn next_token(token: u32) -> u32 {
    if token == u32::MAX {
        0
    } else {
        (token + 1) as u32
    }
}

impl TileAction {
    /// The action that asks for nothing.
    pub open spec fn nothing() -> TileAction {
        TileAction { abort: false, dispatch: None }
    }
}

impl Tile {
    /// A computing tile runs for the current token, and a buffer that waits
    /// for upload holds one byte per pixel of the tile.
    pub open spec fn wf(&self) -> bool {
        &&& self.state matches TileState::Computing { generation } ==> generation
            == self.cancel_token
        &&& self.state matches TileState::WaitForUpload { buffer } ==> buffer@.len()
            == self.tex_rect.area()
    }

    /// Whether a scheduling step cancels the tile: always when the whole
    /// texture is invalidated, else when the tile computes out of sight.
    pub open spec fn is_cancelled_by(&self, invalidate: bool, visible: bool) -> bool {
        invalidate || (!visible && self.state is Computing)
    }

    /// Whether a scheduling step starts a computation for the tile: only for
    /// a visible tile that is idle or has just been invalidated.
    pub open spec fn is_dispatched_by(&self, invalidate: bool, visible: bool) -> bool {
        visible && (invalidate || self.state is Idle)
    }

    /// The token after a scheduling step.
    pub open spec fn scheduled_token(&self, invalidate: bool, visible: bool) -> u32 {
        if self.is_cancelled_by(invalidate, visible) {
            next_token(self.cancel_token)
        } else {
            self.cancel_token
        }
    }

    /// The tile after a scheduling step.
    pub open spec fn scheduled(self, invalidate: bool, visible: bool) -> Tile {
        let token = self.scheduled_token(invalidate, visible);
        Tile {
            index: self.index,
            tex_rect: self.tex_rect,
            state: if self.is_dispatched_by(invalidate, visible) {
                TileState::Computing { generation: token }
            } else if self.is_cancelled_by(invalidate, visible) {
                TileState::Idle
            } else {
                self.state
            },
            cancel_token: token,
        }
    }

    /// What a scheduling step asks of the caller.
    pub open spec fn action(&self, invalidate: bool, visible: bool) -> TileAction {
        TileAction {
            abort: self.state is Computing && self.is_cancelled_by(invalidate, visible),
            dispatch: if self.is_dispatched_by(invalidate, visible) {
                Some(self.scheduled_token(invalidate, visible))
            } else {
                None
            },
        }
    }

    /// The tile after a cancellation: idle, with the next token.
    pub open spec fn cancelled(self) -> Tile {
        Tile {
            index: self.index,
            tex_rect: self.tex_rect,
            state: TileState::Idle,
            cancel_token: next_token(self.cancel_token),
        }
    }

    /// Whether a result of generation `generation` is the one the tile waits
    /// for.
    pub open spec fn accepts(&self, generation: u32) -> bool {
        self.state == (TileState::Computing { generation })
    }

    /// Whether `result` holds pixels that fit the tile.
    pub open spec fn is_complete_buffer(&self, result: Option<Vec<u8>>) -> bool {
        result matches Some(buffer) && buffer@.len() == self.tex_rect.area()
    }

    /// The tile after the computation of generation `generation` has ended with
    /// `result`.
    pub open spec fn completed(self, generation: u32, result: Option<Vec<u8>>) -> Tile {
        if !self.accepts(generation) {
            self
        } else {
            Tile {
                index: self.index,
                tex_rect: self.tex_rect,
                state: if self.is_complete_buffer(result) {
                    TileState::WaitForUpload { buffer: result->0 }
                } else {
                    TileState::Idle
                },
                cancel_token: self.cancel_token,
            }
        }
    }

    /// The notification that the end of a computation gives rise to.
    pub open spec fn completion_event(
        &self,
        generation: u32,
        result: Option<Vec<u8>>,
    ) -> Option<UserEvent> {
        if self.accepts(generation) && self.is_complete_buffer(result) {
            Some(UserEvent::TileReady { tile_index: self.index })
        } else {
            None
        }
    }

    /// The tile after the upload pass has visited it.
    pub open spec fn uploaded(self) -> Tile {
        Tile {
            index: self.index,
            tex_rect: self.tex_rect,
            state: if self.state is WaitForUpload {
                TileState::Ready
            } else {
                self.state
            },
            cancel_token: self.cancel_token,
        }
    }

    /// An idle tile with token zero.
    pub fn new(index: usize, tex_rect: RectU32) -> (tile: Tile)
        ensures
            tile.index == index,
            tile.tex_rect == tex_rect,
            tile.state is Idle,
            tile.cancel_token == 0,
            tile.wf(),
    {
        Tile { index, tex_rect, state: TileState::Idle, cancel_token: 0 }
    }

    /// Moves the token to the next generation and drops whatever the tile
    /// held. Returns whether a computation was running, which the caller
    /// then has to stop.
    pub fn cancel(&mut self) -> (abort: bool)
        ensures
            *final(self) == old(self).cancelled(),
            abort == (old(self).state is Computing),
            final(self).wf(),
    {
        let abort = match &self.state {
            TileState::Computing { .. } => true,
            _ => false,
        };
        self.cancel_token = if self.cancel_token == u32::MAX {
            0
        } else {
            self.cancel_token + 1
        };
        self.state = TileState::Idle;
        abort
    }

    /// One scheduling step for the tile. With `invalidate` the tile is
    /// cancelled whatever its state. A tile out of sight is cancelled if it
    /// computes and is otherwise left alone. A visible tile starts
    /// computing if it is idle and is otherwise left alone.
    pub fn schedule(&mut self, invalidate: bool, visible: bool) -> (action: TileAction)
        requires
            old(self).wf(),
        ensures
            *final(self) == old(self).scheduled(invalidate, visible),
            action == old(self).action(invalidate, visible),
            final(self).wf(),
            !visible ==> !(final(self).state is Computing),
    {
        let mut abort = false;
        if invalidate {
            abort = self.cancel();
        }
        if !visible {
            if self.is_computing() {
                abort = self.cancel();
            }
            return TileAction { abort, dispatch: None };
        }
        if !self.is_idle() {
            return TileAction { abort, dispatch: None };
        }
        let generation = self.cancel_token;
        self.state = TileState::Computing { generation };
        TileAction { abort, dispatch: Some(generation) }
    }

    /// Takes in the outcome of the computation of generation `generation`:
    /// the pixels, or `None` if it was cancelled. Only the computation that
    /// the tile waits for can change it: its pixels make the tile wait for
    /// upload, and anything else it hands in makes the tile idle. An
    /// outcome of any other generation is dropped.
    pub fn complete(&mut self, generation: u32, result: Option<Vec<u8>>) -> (event: Option<
        UserEvent,
    >)
        requires
            old(self).wf(),
        ensures
            *final(self) == old(self).completed(generation, result),
            event == old(self).completion_event(generation, result),
            final(self).wf(),
    {
        let accepted = match &self.state {
            TileState::Computing { generation: running } => *running == generation,
            _ => false,
        };
        if !accepted {
            return None;
        }
        match result {
            Some(buffer) => {
                if self.buffer_fits(&buffer) {
                    self.state = TileState::WaitForUpload { buffer };
                    Some(UserEvent::TileReady { tile_index: self.index })
                } else {
                    self.state = TileState::Idle;
                    None
                }
            },
            None => {
                self.state = TileState::Idle;
                None
            },
        }
    }

    /// Whether `buffer` holds one byte per pixel of the tile.
    pub fn buffer_fits(&self, buffer: &Vec<u8>) -> (fits: bool)
        ensures
            fits == (buffer@.len() == self.tex_rect.area()),
    {
        let width: u64 = self.tex_rect.size.x as u64;
        let height: u64 = self.tex_rect.size.y as u64;
        assert(width * height <= 0xffff_ffff * 0xffff_ffff) by (nonlinear_arith)
            requires
                width <= 0xffff_ffff,
                height <= 0xffff_ffff,
        ;
        buffer.len() as u64 == width * height
    }

    /// Hands out the pixels that wait for upload, if there are any, and
    /// marks the tile ready.
    pub fn take_upload(&mut self) -> (buffer: Option<Vec<u8>>)
        ensures
            *final(self) == old(self).uploaded(),
            match old(self).state {
                TileState::WaitForUpload { buffer: pixels } => buffer == Some(pixels),
                _ => buffer is None,
            },
            old(self).wf() ==> final(self).wf(),
    {
        let mut state = TileState::Ready;
        std::mem::swap(&mut self.state, &mut state);
        match state {
            TileState::WaitForUpload { buffer } => Some(buffer),
            other => {
                self.state = other;
                None
            },
        }
    }

    /// Checks at run time that the tile is well formed.
    pub fn is_well_formed(&self) -> (ok: bool)
        ensures
            ok == self.wf(),
    {
        match &self.state {
            TileState::Computing { generation } => *generation == self.cancel_token,
            TileState::WaitForUpload { buffer } => self.buffer_fits(buffer),
            _ => true,
        }
    }

    /// Whether the tile has neither pixels nor a computation.
    pub fn is_idle(&self) -> (b: bool)
        ensures
            b == (self.state is Idle),
    {
        match &self.state {
            TileState::Idle => true,
            _ => false,
        }
    }

    /// Whether a computation is running for the tile.
    pub fn is_computing(&self) -> (b: bool)
        ensures
            b == (self.state is Computing),
    {
        match &self.state {
            TileState::Computing { .. } => true,
            _ => false,
        }
    }
}

/// No token is its own successor: a cancellation always changes the token.
pub proof fn lemma_next_token_differs(token: u32)
    ensures
        next_token(token) != token,
{
}

/// A scheduling step that is repeated for the same visibility, with nothing
/// invalidated and no computation ended in between, changes nothing and
/// asks for nothing: no computation is started twice.
pub proof fn lemma_schedule_idempotent(tile: Tile, invalidate: bool, visible: bool)
    ensures
        tile.scheduled(invalidate, visible).scheduled(false, visible) == tile.scheduled(
            invalidate,
            visible,
        ),
        tile.scheduled(invalidate, visible).action(false, visible) == TileAction::nothing(),
{
}

/// After a scheduling step a tile out of sight does not compute.
pub proof fn lemma_hidden_tile_not_computing(tile: Tile, invalidate: bool)
    ensures
        !(tile.scheduled(invalidate, false).state is Computing),
        tile.action(invalidate, false).dispatch is None,
{
}

/// A tile has at most one computation that counts. A computation is
/// started only for a visible tile, only from the idle state or after an
/// invalidation, and it is bound to the token that the tile has after the
/// step; if one was running before, the same step asks to stop it.
pub proof fn lemma_dispatch_binds_current_token(tile: Tile, invalidate: bool, visible: bool)
    requires
        tile.wf(),
    ensures
        tile.scheduled(invalidate, visible).wf(),
        match tile.action(invalidate, visible).dispatch {
            Some(generation) => {
                &&& visible
                &&& invalidate || tile.state is Idle
                &&& tile.state is Computing ==> tile.action(invalidate, visible).abort
                &&& generation == tile.scheduled(invalidate, visible).cancel_token
                &&& tile.scheduled(invalidate, visible).state == (TileState::Computing {
                    generation,
                })
            },
            None => tile.scheduled(invalidate, visible).state is Computing ==> tile.state
                == tile.scheduled(invalidate, visible).state,
        },
{
}

/// An invalidation takes every tile through the idle state with the next
/// token before anything new is started: the step is a cancellation
/// followed by a step without invalidation. So the tile ends idle, or
/// computing for the new token if it is visible, whatever it held before.
pub proof fn lemma_invalidation_resets(tile: Tile, visible: bool)
    ensures
        tile.cancelled().state is Idle,
        tile.scheduled(true, visible) == tile.cancelled().scheduled(false, visible),
        tile.scheduled(true, visible).cancel_token == next_token(tile.cancel_token),
        tile.scheduled(true, visible).state == (if visible {
            TileState::Computing { generation: next_token(tile.cancel_token) }
        } else {
            TileState::Idle
        }),
        tile.action(true, visible).abort == (tile.state is Computing),
        tile.action(true, visible).dispatch == (if visible {
            Some(next_token(tile.cancel_token))
        } else {
            None
        }),
{
}

/// The outcome of a computation of another generation than the tile's
/// token is dropped: the tile stays as it is and nobody is notified.
pub proof fn lemma_stale_result_dropped(tile: Tile, generation: u32, result: Option<Vec<u8>>)
    requires
        tile.wf(),
        generation != tile.cancel_token,
    ensures
        tile.completed(generation, result) == tile,
        tile.completion_event(generation, result) is None,
{
}

/// Once the token of a computing tile has moved on, the outcome of the
/// computation that was running can no longer reach the tile, whether the
/// tile was cancelled alone or started again for the new token.
pub proof fn lemma_cancelled_result_dropped(
    tile: Tile,
    generation: u32,
    invalidate: bool,
    visible: bool,
    result: Option<Vec<u8>>,
)
    requires
        tile.wf(),
        tile.state == (TileState::Computing { generation }),
        tile.is_cancelled_by(invalidate, visible),
    ensures
        tile.cancelled().completed(generation, result) == tile.cancelled(),
        tile.cancelled().completion_event(generation, result) is None,
        tile.scheduled(invalidate, visible).completed(generation, result) == tile.scheduled(
            invalidate,
            visible,
        ),
        tile.scheduled(invalidate, visible).completion_event(generation, result) is None,
{
}

/// Pixels reach a tile only from the computation of the current token, and
/// only whole: a tile that waits for upload after an outcome was taken in
/// either waited before, or was computing for its token and got one byte
/// for each of its pixels.
pub proof fn lemma_completion_is_current(tile: Tile, generation: u32, result: Option<Vec<u8>>)
    requires
        tile.wf(),
    ensures
        tile.completed(generation, result).wf(),
        tile.completed(generation, result).cancel_token == tile.cancel_token,
        tile.completed(generation, result).state is WaitForUpload ==> {
            ||| tile.completed(generation, result).state == tile.state
            ||| {
                &&& tile.state == (TileState::Computing { generation })
                &&& generation == tile.cancel_token
                &&& result matches Some(buffer) && buffer@.len() == tile.tex_rect.area()
                    && tile.completed(generation, result).state == (TileState::WaitForUpload {
                    buffer,
                })
            }
        },
        tile.completed(generation, result).state is Ready ==> tile.state is Ready,
{
}

} // verus!
