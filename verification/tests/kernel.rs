use std::cell::Cell;

use mandel_tiles::kernel::{scan_tile, CANCEL_POLL_INTERVAL};
use mandel_tiles::math::{RectU32, Vec2u32};

fn rect(x: u32, y: u32, w: u32, h: u32) -> RectU32 {
    RectU32 { pos: Vec2u32::new(x, y), size: Vec2u32::new(w, h) }
}

#[test]
fn scan_fills_rows_left_to_right() {
    let buffer = scan_tile(rect(10, 20, 3, 2), |x, y| (x * 10 + y) as u8, || false).unwrap();
    assert_eq!(buffer, vec![120, 130, 140, 121, 131, 141]);
}

#[test]
fn scan_passes_texture_coordinates() {
    let seen = Cell::new(Vec::new());
    let buffer = scan_tile(
        rect(128, 256, 2, 2),
        |x, y| {
            let mut v = seen.take();
            v.push((x, y));
            seen.set(v);
            7
        },
        || false,
    );
    assert_eq!(buffer, Some(vec![7; 4]));
    assert_eq!(seen.take(), vec![(128, 256), (129, 256), (128, 257), (129, 257)]);
}

#[test]
fn scan_of_empty_tile() {
    assert_eq!(scan_tile(rect(5, 5, 0, 4), |_, _| 1, || true), Some(Vec::new()));
    assert_eq!(scan_tile(rect(5, 5, 4, 0), |_, _| 1, || true), Some(Vec::new()));
}

#[test]
fn scan_stops_when_cancelled() {
    assert_eq!(scan_tile(rect(0, 0, 128, 128), |_, _| 1, || true), None);
    let pixels = Cell::new(0u32);
    let polls = Cell::new(0u32);
    let out = scan_tile(
        rect(0, 0, 128, 128),
        |_, _| {
            pixels.set(pixels.get() + 1);
            1
        },
        || {
            polls.set(polls.get() + 1);
            polls.get() > 6
        },
    );
    assert_eq!(out, None);
    assert_eq!(polls.get(), 7);
    // Six polls passed: one row of 128 pixels and 64 pixels of the next.
    assert_eq!(pixels.get(), 192);
}

#[test]
fn scan_polls_at_fixed_interval() {
    assert_eq!(CANCEL_POLL_INTERVAL, 32);
    let polls = Cell::new(0u32);
    let out = scan_tile(
        rect(0, 0, 128, 128),
        |_, _| 0,
        || {
            polls.set(polls.get() + 1);
            false
        },
    );
    assert_eq!(out.map(|b| b.len()), Some(16384));
    assert_eq!(polls.get(), 128 * 4);

    polls.set(0);
    let out = scan_tile(
        rect(3, 3, 33, 2),
        |_, _| 0,
        || {
            polls.set(polls.get() + 1);
            false
        },
    );
    assert_eq!(out.map(|b| b.len()), Some(66));
    assert_eq!(polls.get(), 4);
}
