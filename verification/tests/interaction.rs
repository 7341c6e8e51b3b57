use mandel_tiles::math::{Vec2i32, Vec2u32};
use mandel_tiles::tiled_fractal_app::{
    ElementState, Event, EventResult, ManipulateState, MouseButtons, TiledFractalApp, UserEvent,
    ViewChange,
};

fn explorer() -> TiledFractalApp {
    TiledFractalApp::new(Vec2u32::new(800, 600), 1024, 128)
}

#[test]
fn new_explorer_is_idle() {
    let app = explorer();
    assert_eq!(app.window_size, Vec2u32 { x: 800, y: 600 });
    assert_eq!(app.manipulate_state, ManipulateState::Idle);
    assert_eq!(app.mandel_texture.window_size, Vec2u32 { x: 800, y: 600 });
    assert_eq!(app.mandel_texture.tiles.len(), 64);
    assert!(app.is_well_formed());
}

#[test]
fn window_close_exits() {
    let mut app = explorer();
    assert_eq!(app.update(Event::WindowClose), (EventResult::Exit, ViewChange::Keep));
}

#[test]
fn resize_to_same_size_is_ignored() {
    let mut app = explorer();
    let out = app.update(Event::Resized(Vec2u32::new(800, 600)));
    assert_eq!(out, (EventResult::Continue, ViewChange::Keep));
    assert_eq!(app.window_size, Vec2u32 { x: 800, y: 600 });
}

#[test]
fn resize_reports_both_sizes() {
    let mut app = explorer();
    let out = app.update(Event::Resized(Vec2u32::new(1024, 768)));
    assert_eq!(
        out,
        (
            EventResult::Redraw,
            ViewChange::Resize { from: Vec2u32::new(800, 600), to: Vec2u32::new(1024, 768) }
        )
    );
    assert_eq!(app.window_size, Vec2u32 { x: 1024, y: 768 });
    assert_eq!(app.mandel_texture.window_size, Vec2u32 { x: 1024, y: 768 });
    assert!(app.is_well_formed());
}

#[test]
fn wheel_zooms_about_the_pointer() {
    let mut app = explorer();
    let out = app.update(Event::MouseWheel(Vec2u32::new(10, 20)));
    assert_eq!(
        out,
        (
            EventResult::Redraw,
            ViewChange::MoveScale {
                mouse_pos: Vec2u32::new(10, 20),
                mouse_delta: Vec2i32::new(0, 0),
                scrolled: true
            }
        )
    );
    assert_eq!(app.manipulate_state, ManipulateState::Idle);
}

#[test]
fn pointer_moves_the_view_only_while_dragging() {
    let mut app = explorer();
    let moved = Event::MouseMove { position: Vec2u32::new(5, 6), delta: Vec2i32::new(-1, 2) };
    assert_eq!(app.update(moved), (EventResult::Continue, ViewChange::Keep));

    let press = Event::MouseButton(MouseButtons::Left, ElementState::Pressed, Vec2u32::new(5, 6));
    assert_eq!(app.update(press), (EventResult::Continue, ViewChange::Keep));
    assert_eq!(app.manipulate_state, ManipulateState::Drag);
    assert_eq!(
        app.update(moved),
        (
            EventResult::Redraw,
            ViewChange::MoveScale {
                mouse_pos: Vec2u32::new(5, 6),
                mouse_delta: Vec2i32::new(-1, 2),
                scrolled: false
            }
        )
    );

    let release =
        Event::MouseButton(MouseButtons::Left, ElementState::Released, Vec2u32::new(5, 6));
    assert_eq!(app.update(release), (EventResult::Continue, ViewChange::Keep));
    assert_eq!(app.manipulate_state, ManipulateState::Idle);
    assert_eq!(app.update(moved), (EventResult::Continue, ViewChange::Keep));
}

#[test]
fn other_buttons_end_a_drag() {
    for button in [MouseButtons::Middle, MouseButtons::Right, MouseButtons::Unknown] {
        for state in [ElementState::Pressed, ElementState::Released] {
            let mut app = explorer();
            app.update(Event::MouseButton(
                MouseButtons::Left,
                ElementState::Pressed,
                Vec2u32::new(0, 0),
            ));
            assert_eq!(app.manipulate_state, ManipulateState::Drag);
            let out = app.update(Event::MouseButton(button, state, Vec2u32::new(0, 0)));
            assert_eq!(out, (EventResult::Continue, ViewChange::Keep));
            assert_eq!(app.manipulate_state, ManipulateState::Idle);
        }
    }
}

#[test]
fn messages_ask_for_a_redraw() {
    let mut app = explorer();
    assert_eq!(TiledFractalApp::update_user_event(UserEvent::Redraw), EventResult::Redraw);
    assert_eq!(
        TiledFractalApp::update_user_event(UserEvent::TileReady { tile_index: 7 }),
        EventResult::Redraw
    );
    assert_eq!(
        app.update(Event::Custom(UserEvent::TileReady { tile_index: 7 })),
        (EventResult::Redraw, ViewChange::Keep)
    );
    assert_eq!(app.update(Event::Custom(UserEvent::Redraw)), (EventResult::Redraw, ViewChange::Keep));
}

#[test]
fn other_events_change_nothing() {
    let mut app = explorer();
    assert_eq!(app.update(Event::RedrawFinished), (EventResult::Continue, ViewChange::Keep));
    assert_eq!(app.update(Event::Unknown), (EventResult::Continue, ViewChange::Keep));
    assert_eq!(app.manipulate_state, ManipulateState::Idle);
    assert_eq!(app.window_size, Vec2u32 { x: 800, y: 600 });
}

#[test]
fn merge_keeps_the_stronger_result() {
    let (go_on, redraw, exit) = (EventResult::Continue, EventResult::Redraw, EventResult::Exit);
    assert_eq!(go_on.merge(go_on), go_on);
    assert_eq!(go_on.merge(redraw), redraw);
    assert_eq!(redraw.merge(go_on), redraw);
    assert_eq!(redraw.merge(redraw), redraw);
    assert_eq!(exit.merge(go_on), exit);
    assert_eq!(go_on.merge(exit), exit);
    assert_eq!(exit.merge(redraw), exit);
    assert_eq!(redraw.merge(exit), exit);
    assert_eq!(exit.merge(exit), exit);
}

#[test]
fn explorer_forwards_to_its_texture() {
    let mut app = explorer();
    let visible: Vec<bool> = (0..64).map(|k| k < 2).collect();
    let actions = app.update_fractal(true, &visible);
    assert_eq!(actions.iter().filter(|a| a.dispatch == Some(1)).count(), 2);
    assert_eq!(
        app.mandel_texture.complete(0, 1, Some(vec![0; 128 * 128])),
        Some(UserEvent::TileReady { tile_index: 0 })
    );
    let uploads = app.render();
    assert_eq!(uploads.len(), 1);
    assert_eq!(uploads[0].index, 0);
    assert!(app.is_well_formed());
}
