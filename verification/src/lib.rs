//! A tiled texture cache for an interactive fractal explorer.
//!
//! The texture is cut into a fixed grid of square tiles ([`grid`]). Each
//! tile goes through a small state machine (idle, computing, waiting for
//! upload, ready) and carries a generation counter, its cancellation token,
//! that invalidates work in flight ([`tile`]).
//!
//! The cache ([`mandel_texture`]) decides; the caller acts:
//!
//! * An update pass takes the visibility of each tile and says which
//!   computations to stop and which to start, each start bound to the
//!   tile's token at that moment.
//! * The caller runs a started computation wherever it likes, for instance
//!   with the scan of [`kernel`], and hands the outcome back together with
//!   the generation it was started for. An outcome of a generation that is
//!   no longer current is dropped, so a cancelled computation can never
//!   overwrite newer state, however late it ends.
//! * An upload pass hands out the pixels that are ready to go to the
//!   graphics device, with the rectangle each buffer fills.
//!
//! Every transition takes the cache or the tile by `&mut`. Callers on
//! several threads therefore have to put the calls in one order, with a lock
//! around the cache or one for each tile, and what is proved of a sequence
//! of calls holds for that order.
//!
//! The cache does no arithmetic in the plane of the fractal: which tiles a
//! view meets, and whether the scale of the texture has changed, is for the
//! caller to work out. [`tiled_fractal_app`] holds the explorer's reaction
//! to input events in the same style.

pub mod grid;
pub mod kernel;
pub mod mandel_texture;
pub mod math;
pub mod tile;
pub mod tiled_fractal_app;
