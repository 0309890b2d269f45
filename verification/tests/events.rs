use picofb::{Event, Framebuffer, Key, KeyState, PauseAction, RawEvent};
use picofb::input::{key_code, key_from_code};
use picofb::runtime::pause_step;

#[test]
fn key_codes_match_the_collaborator_keycodes() {
    assert_eq!(key_code(Key::Escape), 27);
    assert_eq!(key_code(Key::Return), 13);
    assert_eq!(key_code(Key::Space), 32);
    assert_eq!(key_code(Key::A), 97);
    assert_eq!(key_code(Key::W), 119);
    assert_eq!(key_code(Key::Num0), 48);
    assert_eq!(key_code(Key::Up), 1073741906);
}

#[test]
fn key_decoding_inverts_key_codes() {
    assert_eq!(key_from_code(119), Some(Key::W));
    assert_eq!(key_from_code(27), Some(Key::Escape));
    assert_eq!(key_from_code(57), Some(Key::Num9));
    assert_eq!(key_from_code(1073741903), Some(Key::Right));
    assert_eq!(key_from_code(12345), None);
    assert_eq!(key_from_code(-1), None);
}

#[test]
fn key_state_defaults_to_not_pressed() {
    let t = KeyState::new();
    assert!(!t.key_pressed(Key::A));
    assert!(!t.key_pressed(Key::Escape));
}

#[test]
fn key_state_tracks_press_and_release_per_key() {
    let mut t = KeyState::new();
    t.set_pressed(Key::W, true);
    assert!(t.key_pressed(Key::W));
    assert!(!t.key_pressed(Key::S));
    t.set_pressed(Key::W, true); // re-assert while down: idempotent
    assert!(t.key_pressed(Key::W));
    t.set_pressed(Key::W, false);
    assert!(!t.key_pressed(Key::W));
}

#[test]
fn bridge_translates_key_down_and_updates_the_table() {
    let mut fb = Framebuffer::new(320, 200, 60);
    let e = fb.apply_raw_event(RawEvent::KeyDown(119));
    assert_eq!(e, Some(Event::KeyPress(Key::W)));
    assert!(fb.key_pressed(Key::W));
    assert!(fb.running);
}

#[test]
fn bridge_translates_key_up_and_clears_the_table() {
    let mut fb = Framebuffer::new(320, 200, 60);
    fb.apply_raw_event(RawEvent::KeyDown(97));
    let e = fb.apply_raw_event(RawEvent::KeyUp(97));
    assert_eq!(e, Some(Event::KeyRelease(Key::A)));
    assert!(!fb.key_pressed(Key::A));
}

#[test]
fn bridge_translates_mouse_motion_without_touching_state() {
    let mut fb = Framebuffer::new(320, 200, 60);
    let e = fb.apply_raw_event(RawEvent::MouseMotion(3, -4));
    assert_eq!(e, Some(Event::MouseMove(3, -4)));
    assert!(fb.running);
}

#[test]
fn bridge_stops_the_runtime_on_quit() {
    let mut fb = Framebuffer::new(320, 200, 60);
    let e = fb.apply_raw_event(RawEvent::Quit);
    assert_eq!(e, None);
    assert!(!fb.running);
}

#[test]
fn bridge_ignores_unrecognized_keycodes_and_categories() {
    let mut fb = Framebuffer::new(320, 200, 60);
    assert_eq!(fb.apply_raw_event(RawEvent::KeyDown(999)), None);
    assert_eq!(fb.apply_raw_event(RawEvent::Other), None);
    assert!(fb.running);
}

#[test]
fn close_requests_a_graceful_stop() {
    let mut fb = Framebuffer::new(100, 100, 30);
    assert!(fb.running);
    fb.close();
    assert!(!fb.running);
}

#[test]
fn runtime_reports_its_dimensions() {
    let fb = Framebuffer::new(640, 480, 60);
    assert_eq!(fb.width(), 640);
    assert_eq!(fb.height(), 480);
}

#[test]
fn pause_resumes_on_the_unpause_key() {
    assert_eq!(pause_step(RawEvent::KeyDown(112), Key::P), PauseAction::Resume);
}

#[test]
fn pause_exits_on_escape_or_quit() {
    assert_eq!(pause_step(RawEvent::KeyDown(27), Key::P), PauseAction::Exit);
    assert_eq!(pause_step(RawEvent::Quit, Key::P), PauseAction::Exit);
}

#[test]
fn pause_waits_on_anything_else() {
    assert_eq!(pause_step(RawEvent::KeyDown(119), Key::P), PauseAction::Wait);
    assert_eq!(pause_step(RawEvent::KeyUp(112), Key::P), PauseAction::Wait);
    assert_eq!(pause_step(RawEvent::MouseMotion(1, 1), Key::P), PauseAction::Wait);
    assert_eq!(pause_step(RawEvent::Other, Key::P), PauseAction::Wait);
}

#[test]
fn pause_with_escape_as_unpause_key_resumes_rather_than_exits() {
    assert_eq!(pause_step(RawEvent::KeyDown(27), Key::Escape), PauseAction::Resume);
}
