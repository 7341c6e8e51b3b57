//! The explorer's reaction to input: what each event does to the window
//! size and to the drag state, what the caller has to do to the view, and
//! whether the window has to be drawn again.

use vstd::prelude::*;
use crate::mandel_texture::{update_actions, updated_tiles, MandelTexture, TileUpload};
use crate::mandel_texture::{pending_uploads, uploaded_tiles};
use crate::grid::{is_partition, is_row_major};
use crate::math::{Vec2i32, Vec2u32};
use crate::tile::TileAction;

verus! {

/// A message posted to the event loop from outside the windowing system.
#[derive(Clone, Copy, Debug, PartialEq, Eq, Structural)]
pub enum UserEvent {
    /// The window should be drawn again.
    Redraw,
    /// The pixels of the tile with this index are ready for upload.
    TileReady { tile_index: usize },
}

/// What the event loop has to do after an event was handled.
#[derive(Clone, Copy, Debug, PartialEq, Eq, Structural)]
pub enum EventResult {
    Continue,
    Redraw,
    Exit,
}

#[derive(Clone, Copy, Debug, PartialEq, Eq, Structural)]
pub enum MouseButtons {
    Left,
    Middle,
    Right,
    Unknown,
}

#[derive(Clone, Copy, Debug, PartialEq, Eq, Structural)]
pub enum ElementState {
    Pressed,
    Released,
}

/// An input event, as far as the explorer tells events apart. The amount of
/// a turn of the wheel stays with the caller.
#[derive(Clone, Copy, Debug, PartialEq, Eq, Structural)]
pub enum Event {
    WindowClose,
    Resized(Vec2u32),
    MouseWheel(Vec2u32),
    MouseMove { position: Vec2u32, delta: Vec2i32 },
    MouseButton(MouseButtons, ElementState, Vec2u32),
    Custom(UserEvent),
    RedrawFinished,
    Unknown,
}

/// Whether the pointer drags the view.
#[derive(Clone, Copy, Debug, PartialEq, Eq, Structural)]
pub enum ManipulateState {
    Idle,
    Drag,
}

/// What the caller has to do to the view after an event, before it updates
/// the texture.
#[derive(Clone, Copy, Debug, PartialEq, Eq, Structural)]
pub enum ViewChange {
    /// The view stays and the texture needs no update.
    Keep,
    /// The window went from one size to another: scale the view with it.
    Resize { from: Vec2u32, to: Vec2u32 },
    /// Move the view by `mouse_delta` and, if `scrolled`, zoom about
    /// `mouse_pos` by the amount of the wheel.
    MoveScale { mouse_pos: Vec2u32, mouse_delta: Vec2i32, scrolled: bool },
}

/// The explorer: the window it draws into, the drag state and the texture.
#[derive(Debug)]
pub struct TiledFractalApp {
    pub window_size: Vec2u32,
    pub manipulate_state: ManipulateState,
    pub mandel_texture: MandelTexture,
}

impl EventResult {
    /// The stronger of two results: `Exit` before `Redraw` before
    /// `Continue`.
    pub open spec fn merged(self, other: EventResult) -> EventResult {
        if self is Exit || other is Exit {
            EventResult::Exit
        } else if self is Redraw || other is Redraw {
            EventResult::Redraw
        } else {
            EventResult::Continue
        }
    }

    /// Combines the results of two events that were handled in one turn of
    /// the event loop.
    pub fn merge(self, other: EventResult) -> (result: EventResult)
        ensures
            result == self.merged(other),
    {
        match (self, other) {
            (EventResult::Exit, _) => EventResult::Exit,
            (_, EventResult::Exit) => EventResult::Exit,
            (EventResult::Redraw, _) => EventResult::Redraw,
            (_, EventResult::Redraw) => EventResult::Redraw,
            _ => EventResult::Continue,
        }
    }
}

impl ManipulateState {
    /// The drag state after `event`: pressing the left button starts a
    /// drag, any other change of a button ends it.
    pub open spec fn after(self, event: Event) -> ManipulateState {
        match event {
            Event::MouseButton(MouseButtons::Left, ElementState::Pressed, _) => ManipulateState::Drag,
            Event::MouseButton(_, _, _) => ManipulateState::Idle,
            _ => self,
        }
    }
}

impl TiledFractalApp {
    /// The explorer and its texture agree on the window, and the texture
    /// is well formed.
    pub open spec fn wf(&self) -> bool {
        &&& self.mandel_texture.wf()
        &&& self.mandel_texture.window_size == self.window_size
    }

    /// Checks at run time that the explorer is well formed.
    pub fn is_well_formed(&self) -> (ok: bool)
        ensures
            ok == self.wf(),
    {
        self.mandel_texture.is_well_formed() && self.mandel_texture.window_size
            == self.window_size
    }

    /// What `event` asks the caller to do to the view.
    pub open spec fn view_change(&self, event: Event) -> ViewChange {
        match event {
            Event::Resized(size) => if size == self.window_size {
                ViewChange::Keep
            } else {
                ViewChange::Resize { from: self.window_size, to: size }
            },
            Event::MouseWheel(position) => ViewChange::MoveScale {
                mouse_pos: position,
                mouse_delta: Vec2i32 { x: 0, y: 0 },
                scrolled: true,
            },
            Event::MouseMove { position, delta } => if self.manipulate_state is Drag {
                ViewChange::MoveScale { mouse_pos: position, mouse_delta: delta, scrolled: false }
            } else {
                ViewChange::Keep
            },
            _ => ViewChange::Keep,
        }
    }

    /// What `event` asks of the event loop: to exit when the window closes,
    /// to draw again when the view changes or a message arrives, and
    /// otherwise nothing.
    pub open spec fn event_result(&self, event: Event) -> EventResult {
        match event {
            Event::WindowClose => EventResult::Exit,
            Event::Custom(_) => EventResult::Redraw,
            _ => if self.view_change(event) is Keep {
                EventResult::Continue
            } else {
                EventResult::Redraw
            },
        }
    }

    /// An explorer for a window of size `window_size`, with an idle texture
    /// of side `tex_size` cut into tiles of side `tile_size`.
    pub fn new(window_size: Vec2u32, tex_size: u32, tile_size: u32) -> (app: TiledFractalApp)
        requires
            MandelTexture::valid_config(tex_size, tile_size),
            (tex_size / tile_size) * (tex_size / tile_size) <= usize::MAX,
        ensures
            app.wf(),
            app.mandel_texture.tiles@.len() == (tex_size / tile_size) * (tex_size / tile_size),
            is_partition(app.mandel_texture.tiles@, tex_size),
            is_row_major(app.mandel_texture.tiles@, tex_size, tile_size),
            app.window_size == window_size,
            app.manipulate_state is Idle,
            app.mandel_texture.tex_size == (Vec2u32 { x: tex_size, y: tex_size }),
            app.mandel_texture.tile_size == tile_size,
            app.mandel_texture.max_iter == 100,
            forall|k: int|
                0 <= k < app.mandel_texture.tiles@.len() ==> (
                #[trigger] app.mandel_texture.tiles@[k]).state is Idle
                    && app.mandel_texture.tiles@[k].cancel_token == 0,
    {
        TiledFractalApp {
            window_size,
            manipulate_state: ManipulateState::Idle,
            mandel_texture: MandelTexture::new(tex_size, tile_size, window_size),
        }
    }

    /// Handles one event. Returns what the event loop has to do and what
    /// the caller has to do to the view; after a change of the view the
    /// caller updates the texture with `update_fractal`.
    pub fn update(&mut self, event: Event) -> (out: (EventResult, ViewChange))
        requires
            old(self).wf(),
        ensures
            final(self).wf(),
            out.0 == old(self).event_result(event),
            out.1 == old(self).view_change(event),
            final(self).manipulate_state == old(self).manipulate_state.after(event),
            final(self).window_size == (match old(self).view_change(event) {
                ViewChange::Resize { from, to } => to,
                _ => old(self).window_size,
            }),
            final(self).mandel_texture.tex_size == old(self).mandel_texture.tex_size,
            final(self).mandel_texture.tile_size == old(self).mandel_texture.tile_size,
            final(self).mandel_texture.max_iter == old(self).mandel_texture.max_iter,
            final(self).mandel_texture.tiles == old(self).mandel_texture.tiles,
    {
        match event {
            Event::WindowClose => (EventResult::Exit, ViewChange::Keep),
            Event::Resized(window_size) => {
                if self.window_size == window_size {
                    return (EventResult::Continue, ViewChange::Keep);
                }
                let from = self.window_size;
                self.window_size = window_size;
                self.mandel_texture.resize_window(window_size);
                (EventResult::Redraw, ViewChange::Resize { from, to: window_size })
            },
            Event::MouseWheel(position) => (
                EventResult::Redraw,
                ViewChange::MoveScale {
                    mouse_pos: position,
                    mouse_delta: Vec2i32::zeroed(),
                    scrolled: true,
                },
            ),
            Event::MouseMove { position, delta } => match self.manipulate_state {
                ManipulateState::Idle => (EventResult::Continue, ViewChange::Keep),
                ManipulateState::Drag => (
                    EventResult::Redraw,
                    ViewChange::MoveScale {
                        mouse_pos: position,
                        mouse_delta: delta,
                        scrolled: false,
                    },
                ),
            },
            Event::MouseButton(button, state, _) => {
                match (button, state) {
                    (MouseButtons::Left, ElementState::Pressed) => {
                        self.manipulate_state = ManipulateState::Drag;
                    },
                    _ => {
                        self.manipulate_state = ManipulateState::Idle;
                    },
                }
                (EventResult::Continue, ViewChange::Keep)
            },
            Event::Custom(event) => (Self::update_user_event(event), ViewChange::Keep),
            _ => (EventResult::Continue, ViewChange::Keep),
        }
    }

    /// Every message from outside the windowing system asks for the window
    /// to be drawn again.
    pub fn update_user_event(event: UserEvent) -> (result: EventResult)
        ensures
            result is Redraw,
    {
        match event {
            UserEvent::Redraw => EventResult::Redraw,
            UserEvent::TileReady { .. } => EventResult::Redraw,
        }
    }

    /// Runs an update pass on the texture for the view as it is now.
    pub fn update_fractal(&mut self, scale_changed: bool, visible: &Vec<bool>) -> (actions: Vec<
        TileAction,
    >)
        requires
            old(self).wf(),
        ensures
            final(self).wf(),
            final(self).window_size == old(self).window_size,
            final(self).manipulate_state == old(self).manipulate_state,
            final(self).mandel_texture.tex_size == old(self).mandel_texture.tex_size,
            final(self).mandel_texture.tile_size == old(self).mandel_texture.tile_size,
            final(self).mandel_texture.max_iter == old(self).mandel_texture.max_iter,
            final(self).mandel_texture.tiles@ == updated_tiles(
                old(self).mandel_texture.tiles@,
                scale_changed,
                visible@,
            ),
            actions@ == update_actions(old(self).mandel_texture.tiles@, scale_changed, visible@),
    {
        self.mandel_texture.update(scale_changed, visible)
    }

    /// Runs an upload pass on the texture.
    pub fn render(&mut self) -> (uploads: Vec<TileUpload>)
        requires
            old(self).wf(),
        ensures
            final(self).wf(),
            final(self).window_size == old(self).window_size,
            final(self).manipulate_state == old(self).manipulate_state,
            final(self).mandel_texture.tex_size == old(self).mandel_texture.tex_size,
            final(self).mandel_texture.tile_size == old(self).mandel_texture.tile_size,
            final(self).mandel_texture.max_iter == old(self).mandel_texture.max_iter,
            final(self).mandel_texture.tiles@ == uploaded_tiles(old(self).mandel_texture.tiles@),
            uploads@ == pending_uploads(old(self).mandel_texture.tiles@),
    {
        self.mandel_texture.render()
    }
}

} // verus!
