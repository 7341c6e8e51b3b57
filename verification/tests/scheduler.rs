use mandel_tiles::grid::partition;
use mandel_tiles::kernel::scan_tile;
use mandel_tiles::mandel_texture::MandelTexture;
use mandel_tiles::math::{RectU32, Vec2u32};
use mandel_tiles::tile::{Tile, TileAction, TileState};
use mandel_tiles::tiled_fractal_app::UserEvent;

const NOTHING: TileAction = TileAction { abort: false, dispatch: None };

fn small_texture() -> MandelTexture {
    MandelTexture {
        window_size: Vec2u32::new(64, 64),
        tex_size: Vec2u32::all(8),
        tile_size: 4,
        max_iter: 100,
        tiles: partition(8, 4),
    }
}

fn tile_in(state: TileState, token: u32) -> Tile {
    Tile {
        index: 3,
        tex_rect: RectU32 { pos: Vec2u32::new(4, 4), size: Vec2u32::new(4, 4) },
        state,
        cancel_token: token,
    }
}

/// Visibility of each tile for a view given in the plane, with the whole
/// texture showing `global`: both rectangles as (x, y, width, height).
fn visibility(texture: &MandelTexture, global: (f64, f64, f64, f64), view: (f64, f64, f64, f64)) -> Vec<bool> {
    let side = texture.tex_size.x as f64;
    texture
        .tiles
        .iter()
        .map(|t| {
            let x = global.0 + global.2 * t.tex_rect.pos.x as f64 / side;
            let y = global.1 + global.3 * t.tex_rect.pos.y as f64 / side;
            let w = global.2 * t.tex_rect.size.x as f64 / side;
            let h = global.3 * t.tex_rect.size.y as f64 / side;
            x < view.0 + view.2 && view.0 < x + w && y < view.1 + view.3 && view.1 < y + h
        })
        .collect()
}

#[test]
fn idle_visible_tile_is_dispatched() {
    let mut tile = tile_in(TileState::Idle, 5);
    let action = tile.schedule(false, true);
    assert_eq!(action, TileAction { abort: false, dispatch: Some(5) });
    assert!(matches!(tile.state, TileState::Computing { generation: 5 }));
    assert_eq!(tile.cancel_token, 5);
    assert_eq!(tile.index, 3);
}

#[test]
fn idle_hidden_tile_stays_idle() {
    let mut tile = tile_in(TileState::Idle, 5);
    assert_eq!(tile.schedule(false, false), NOTHING);
    assert!(tile.is_idle());
    assert_eq!(tile.cancel_token, 5);
}

#[test]
fn computing_hidden_tile_is_cancelled() {
    let mut tile = tile_in(TileState::Computing { generation: 5 }, 5);
    let action = tile.schedule(false, false);
    assert_eq!(action, TileAction { abort: true, dispatch: None });
    assert!(tile.is_idle());
    assert_eq!(tile.cancel_token, 6);
}

#[test]
fn computing_visible_tile_is_left_alone() {
    let mut tile = tile_in(TileState::Computing { generation: 5 }, 5);
    assert_eq!(tile.schedule(false, true), NOTHING);
    assert!(matches!(tile.state, TileState::Computing { generation: 5 }));
    assert_eq!(tile.cancel_token, 5);
}

#[test]
fn finished_tiles_are_not_recomputed() {
    for visible in [false, true] {
        let mut waiting = tile_in(TileState::WaitForUpload { buffer: vec![1; 16] }, 2);
        assert_eq!(waiting.schedule(false, visible), NOTHING);
        assert!(matches!(&waiting.state, TileState::WaitForUpload { buffer } if buffer == &vec![1u8; 16]));
        assert_eq!(waiting.cancel_token, 2);

        let mut ready = tile_in(TileState::Ready, 2);
        assert_eq!(ready.schedule(false, visible), NOTHING);
        assert!(matches!(ready.state, TileState::Ready));
        assert_eq!(ready.cancel_token, 2);
    }
}

#[test]
fn invalidation_resets_every_state() {
    let states = || {
        vec![
            TileState::Idle,
            TileState::Computing { generation: 9 },
            TileState::WaitForUpload { buffer: vec![0; 16] },
            TileState::Ready,
        ]
    };
    for (n, state) in states().into_iter().enumerate() {
        let mut tile = tile_in(state, 9);
        let action = tile.schedule(true, false);
        assert_eq!(action, TileAction { abort: n == 1, dispatch: None });
        assert!(tile.is_idle());
        assert_eq!(tile.cancel_token, 10);
    }
    for (n, state) in states().into_iter().enumerate() {
        let mut tile = tile_in(state, 9);
        let action = tile.schedule(true, true);
        assert_eq!(action, TileAction { abort: n == 1, dispatch: Some(10) });
        assert!(matches!(tile.state, TileState::Computing { generation: 10 }));
        assert_eq!(tile.cancel_token, 10);
    }
}

#[test]
fn token_wraps_to_zero() {
    let mut tile = tile_in(TileState::Computing { generation: u32::MAX }, u32::MAX);
    assert!(tile.cancel());
    assert_eq!(tile.cancel_token, 0);
    assert!(tile.is_idle());
    assert!(!tile.cancel());
    assert_eq!(tile.cancel_token, 1);
}

#[test]
fn completion_with_pixels_waits_for_upload() {
    let mut tile = tile_in(TileState::Computing { generation: 7 }, 7);
    let event = tile.complete(7, Some(vec![42; 16]));
    assert_eq!(event, Some(UserEvent::TileReady { tile_index: 3 }));
    assert!(matches!(&tile.state, TileState::WaitForUpload { buffer } if buffer == &vec![42u8; 16]));
    assert_eq!(tile.cancel_token, 7);
}

#[test]
fn cancelled_completion_goes_idle_silently() {
    let mut tile = tile_in(TileState::Computing { generation: 7 }, 7);
    assert_eq!(tile.complete(7, None), None);
    assert!(tile.is_idle());
    assert_eq!(tile.cancel_token, 7);
}

#[test]
fn completion_with_short_buffer_is_refused() {
    let mut tile = tile_in(TileState::Computing { generation: 7 }, 7);
    assert_eq!(tile.complete(7, Some(vec![42; 15])), None);
    assert!(tile.is_idle());
    let mut tile = tile_in(TileState::Computing { generation: 7 }, 7);
    assert_eq!(tile.complete(7, Some(Vec::new())), None);
    assert!(tile.is_idle());
}

#[test]
fn stale_completion_is_dropped() {
    // Cancelled and idle: the old computation reports success.
    let mut tile = tile_in(TileState::Computing { generation: 7 }, 7);
    tile.schedule(false, false);
    assert_eq!(tile.complete(7, Some(vec![1; 16])), None);
    assert!(tile.is_idle());
    assert_eq!(tile.cancel_token, 8);

    // Cancelled and started again: neither a late success nor a late
    // cancellation of the old computation touches the new one.
    let mut tile = tile_in(TileState::Computing { generation: 7 }, 7);
    let action = tile.schedule(true, true);
    assert_eq!(action, TileAction { abort: true, dispatch: Some(8) });
    assert_eq!(tile.complete(7, Some(vec![1; 16])), None);
    assert!(matches!(tile.state, TileState::Computing { generation: 8 }));
    assert_eq!(tile.complete(7, None), None);
    assert!(matches!(tile.state, TileState::Computing { generation: 8 }));
    assert_eq!(tile.complete(8, Some(vec![2; 16])), Some(UserEvent::TileReady { tile_index: 3 }));
    assert!(matches!(&tile.state, TileState::WaitForUpload { buffer } if buffer == &vec![2u8; 16]));
}

#[test]
fn completion_does_not_touch_finished_tiles() {
    let mut tile = tile_in(TileState::Ready, 7);
    assert_eq!(tile.complete(7, Some(vec![1; 16])), None);
    assert!(matches!(tile.state, TileState::Ready));
    let mut tile = tile_in(TileState::WaitForUpload { buffer: vec![5; 16] }, 7);
    assert_eq!(tile.complete(7, Some(vec![1; 16])), None);
    assert!(matches!(&tile.state, TileState::WaitForUpload { buffer } if buffer == &vec![5u8; 16]));
    let mut tile = tile_in(TileState::Idle, 7);
    assert_eq!(tile.complete(7, Some(vec![1; 16])), None);
    assert!(tile.is_idle());
}

#[test]
fn take_upload_hands_out_pixels_once() {
    let mut tile = tile_in(TileState::WaitForUpload { buffer: vec![9; 16] }, 1);
    assert_eq!(tile.take_upload(), Some(vec![9; 16]));
    assert!(matches!(tile.state, TileState::Ready));
    assert_eq!(tile.take_upload(), None);
    assert!(matches!(tile.state, TileState::Ready));
    let mut tile = tile_in(TileState::Computing { generation: 1 }, 1);
    assert_eq!(tile.take_upload(), None);
    assert!(tile.is_computing());
    let mut tile = tile_in(TileState::Idle, 1);
    assert_eq!(tile.take_upload(), None);
    assert!(tile.is_idle());
}

#[test]
fn buffer_fits_compares_with_area() {
    let tile = tile_in(TileState::Idle, 0);
    assert!(tile.buffer_fits(&vec![0; 16]));
    assert!(!tile.buffer_fits(&vec![0; 17]));
    assert!(!tile.buffer_fits(&vec![0; 4]));
}

#[test]
fn update_returns_one_action_per_tile() {
    let mut texture = small_texture();
    let actions = texture.update(false, &vec![true, false, true, false]);
    assert_eq!(
        actions,
        vec![
            TileAction { abort: false, dispatch: Some(0) },
            NOTHING,
            TileAction { abort: false, dispatch: Some(0) },
            NOTHING,
        ]
    );
    assert!(texture.tiles[0].is_computing());
    assert!(texture.tiles[1].is_idle());
    assert!(texture.tiles[2].is_computing());
    assert!(texture.tiles[3].is_idle());
}

#[test]
fn update_twice_dispatches_nothing_new() {
    let mut texture = small_texture();
    let visible = vec![true, true, false, true];
    let first = texture.update(true, &visible);
    assert_eq!(first.iter().filter(|a| a.dispatch.is_some()).count(), 3);
    let tokens: Vec<u32> = texture.tiles.iter().map(|t| t.cancel_token).collect();
    let second = texture.update(false, &visible);
    assert!(second.iter().all(|a| *a == NOTHING));
    assert_eq!(tokens, texture.tiles.iter().map(|t| t.cancel_token).collect::<Vec<u32>>());
    assert!(texture.tiles[0].is_computing());
    assert!(texture.tiles[1].is_computing());
    assert!(texture.tiles[2].is_idle());
    assert!(texture.tiles[3].is_computing());
}

#[test]
fn hidden_tiles_never_compute_after_update() {
    let mut texture = small_texture();
    texture.update(false, &vec![true; 4]);
    assert!(texture.tiles.iter().all(|t| t.is_computing()));
    let visible = vec![false, true, false, true];
    let actions = texture.update(false, &visible);
    assert_eq!(actions[0], TileAction { abort: true, dispatch: None });
    assert_eq!(actions[1], NOTHING);
    for (tile, seen) in texture.tiles.iter().zip(&visible) {
        assert_eq!(tile.is_computing(), *seen);
        assert_eq!(tile.cancel_token, if *seen { 0 } else { 1 });
    }
}

#[test]
fn short_mask_hides_the_rest() {
    let mut texture = small_texture();
    texture.update(false, &vec![true; 4]);
    let actions = texture.update(false, &vec![true]);
    assert_eq!(actions.len(), 4);
    assert_eq!(actions[0], NOTHING);
    assert!(texture.tiles[0].is_computing());
    for k in 1..4 {
        assert_eq!(actions[k], TileAction { abort: true, dispatch: None });
        assert!(texture.tiles[k].is_idle());
    }
    let actions = texture.update(false, &Vec::new());
    assert_eq!(actions[0], TileAction { abort: true, dispatch: None });
    assert!(texture.tiles.iter().all(|t| t.is_idle()));
}

#[test]
fn scale_change_invalidates_every_tile() {
    let mut texture = small_texture();
    texture.update(false, &vec![true; 4]);
    assert_eq!(texture.complete(1, 0, Some(vec![1; 16])), Some(UserEvent::TileReady { tile_index: 1 }));
    assert_eq!(texture.complete(2, 0, Some(vec![2; 16])), Some(UserEvent::TileReady { tile_index: 2 }));
    assert_eq!(texture.complete(3, 0, None), None);
    assert_eq!(texture.render().len(), 2);
    assert_eq!(texture.complete(1, 0, Some(vec![1; 16])), None);
    // computing, ready, ready, idle
    let actions = texture.update(true, &vec![true, true, false, false]);
    assert_eq!(
        actions,
        vec![
            TileAction { abort: true, dispatch: Some(1) },
            TileAction { abort: false, dispatch: Some(1) },
            NOTHING,
            NOTHING,
        ]
    );
    assert!(matches!(texture.tiles[0].state, TileState::Computing { generation: 1 }));
    assert!(matches!(texture.tiles[1].state, TileState::Computing { generation: 1 }));
    assert!(texture.tiles[2].is_idle());
    assert!(texture.tiles[3].is_idle());
    assert!(texture.tiles.iter().all(|t| t.cancel_token == 1));
    // The computation of tile 0 that was running before reports late.
    assert_eq!(texture.complete(0, 0, Some(vec![7; 16])), None);
    assert!(matches!(texture.tiles[0].state, TileState::Computing { generation: 1 }));
}

#[test]
fn complete_ignores_unknown_tile() {
    let mut texture = small_texture();
    texture.update(false, &vec![true; 4]);
    assert_eq!(texture.complete(4, 0, Some(vec![1; 16])), None);
    assert_eq!(texture.complete(usize::MAX, 0, None), None);
    assert!(texture.tiles.iter().all(|t| t.is_computing()));
}

#[test]
fn render_uploads_waiting_tiles_in_order() {
    let mut texture = small_texture();
    texture.update(false, &vec![true; 4]);
    texture.complete(3, 0, Some(vec![3; 16]));
    texture.complete(1, 0, Some(vec![1; 16]));
    let uploads = texture.render();
    assert_eq!(uploads.len(), 2);
    assert_eq!(uploads[0].index, 1);
    assert_eq!(uploads[0].tex_rect, texture.tiles[1].tex_rect);
    assert_eq!(uploads[0].buffer, vec![1; 16]);
    assert_eq!(uploads[1].index, 3);
    assert_eq!(uploads[1].tex_rect, RectU32 { pos: Vec2u32::new(4, 4), size: Vec2u32::all(4) });
    assert_eq!(uploads[1].buffer, vec![3; 16]);
    assert!(texture.tiles[0].is_computing());
    assert!(matches!(texture.tiles[1].state, TileState::Ready));
    assert!(texture.tiles[2].is_computing());
    assert!(matches!(texture.tiles[3].state, TileState::Ready));
    assert!(texture.render().is_empty());
}

#[test]
fn full_view_end_to_end() {
    let mut texture = MandelTexture::new(2048, 128, Vec2u32::new(1024, 1024));
    assert_eq!(texture.tiles.len(), 256);
    let full = (-2.0, -2.0, 4.0, 4.0);
    let visible = visibility(&texture, full, full);
    assert!(visible.iter().all(|v| *v));
    let actions = texture.update(true, &visible);
    assert_eq!(actions.len(), 256);
    let mut notified = Vec::new();
    for (k, action) in actions.iter().enumerate() {
        assert!(!action.abort);
        let generation = action.dispatch.unwrap();
        assert_eq!(generation, 1);
        let rect = texture.tiles[k].tex_rect;
        let buffer = scan_tile(rect, |x, y| ((x + y) % 251) as u8, || false).unwrap();
        assert_eq!(buffer.len(), 16384);
        if let Some(UserEvent::TileReady { tile_index }) = texture.complete(k, generation, Some(buffer)) {
            notified.push(tile_index);
        }
    }
    assert_eq!(notified, (0..256).collect::<Vec<usize>>());
    assert!(texture.is_well_formed());
    let uploads = texture.render();
    assert_eq!(uploads.len(), 256);
    assert!(texture.tiles.iter().all(|t| matches!(t.state, TileState::Ready)));
    assert!(texture.is_well_formed());
    let mut image = vec![None; 2048 * 2048];
    for upload in &uploads {
        let r = upload.tex_rect;
        assert_eq!(upload.buffer.len(), 16384);
        for y in 0..r.size.y {
            for x in 0..r.size.x {
                let at = ((r.pos.y + y) as usize) * 2048 + (r.pos.x + x) as usize;
                assert!(image[at].is_none());
                image[at] = Some(upload.buffer[(y * r.size.x + x) as usize]);
            }
        }
    }
    for y in (0..2048u32).step_by(37) {
        for x in 0..2048u32 {
            assert_eq!(image[(y as usize) * 2048 + x as usize], Some(((x + y) % 251) as u8));
        }
    }
    assert!(image.iter().all(|p| p.is_some()));
    assert!(texture.update(false, &visible).iter().all(|a| *a == NOTHING));
}

#[test]
fn top_left_quadrant_view() {
    let mut texture = MandelTexture::new(2048, 128, Vec2u32::new(1024, 1024));
    let global = (-2.0, -2.0, 4.0, 4.0);
    let view = (-2.0, -2.0, 1.999, 1.999);
    let visible = visibility(&texture, global, view);
    let actions = texture.update(true, &visible);
    let dispatched: Vec<usize> =
        actions.iter().enumerate().filter(|(_, a)| a.dispatch.is_some()).map(|(k, _)| k).collect();
    assert_eq!(dispatched.len(), 64);
    for (k, tile) in texture.tiles.iter().enumerate() {
        let inside = tile.tex_rect.pos.x < 1024 && tile.tex_rect.pos.y < 1024;
        assert_eq!(dispatched.contains(&k), inside);
        assert_eq!(tile.is_computing(), inside);
        assert_eq!(tile.is_idle(), !inside);
    }
}
