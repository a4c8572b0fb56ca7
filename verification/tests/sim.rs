use echo_mini_os::input::buttons::ButtonEvent;
use echo_mini_os::sim::cassette_ui::{handle_input, redraw, UiState};
use echo_mini_os::sim::window::{contains_key, draw_device_border, map_keys_to_event, scale_buffer, Key, BORDER_COLOR};
use echo_mini_os::ui::cassette::draw_screen;

#[test]
fn keys_fire_on_new_presses_only() {
    assert_eq!(map_keys_to_event(&[Key::Space], &[]), ButtonEvent::Play);
    assert_eq!(map_keys_to_event(&[Key::Space], &[Key::Space]), ButtonEvent::NoButton);
    assert_eq!(map_keys_to_event(&[Key::Right], &[]), ButtonEvent::Next);
    assert_eq!(map_keys_to_event(&[Key::Left], &[]), ButtonEvent::Prev);
    assert_eq!(map_keys_to_event(&[Key::Up], &[]), ButtonEvent::VolUp);
    assert_eq!(map_keys_to_event(&[Key::Down], &[]), ButtonEvent::VolDown);
    assert_eq!(map_keys_to_event(&[Key::Other, Key::Q], &[]), ButtonEvent::NoButton);
    // Space wins over the others.
    assert_eq!(map_keys_to_event(&[Key::Down, Key::Space], &[]), ButtonEvent::Play);
    // A held key does not block a newly pressed one.
    assert_eq!(map_keys_to_event(&[Key::Space, Key::Up], &[Key::Space]), ButtonEvent::VolUp);
    assert!(contains_key(&[Key::Up, Key::Down], Key::Down));
    assert!(!contains_key(&[], Key::Down));
}

#[test]
fn scale_buffer_nearest_neighbour() {
    let src = [1u32, 2, 3, 4, 5, 6];
    let mut dst = vec![0u32; 8 * 4];
    scale_buffer(&src, 3, 2, &mut dst, 8, 4, 2);
    let expected = vec![
        1, 1, 2, 2, 3, 3, 0, 0,
        1, 1, 2, 2, 3, 3, 0, 0,
        4, 4, 5, 5, 6, 6, 0, 0,
        4, 4, 5, 5, 6, 6, 0, 0,
    ];
    assert_eq!(dst, expected);
}

#[test]
fn scale_buffer_degenerate_sizes() {
    let src = [7u32];
    let mut dst = vec![9u32; 4];
    scale_buffer(&src, 1, 1, &mut dst, 2, 2, 0);
    assert_eq!(dst, vec![9, 9, 9, 9]);
    scale_buffer(&src, 1, 1, &mut dst, 2, 2, 1);
    assert_eq!(dst, vec![7, 9, 9, 9]);
}

#[test]
fn device_border_two_pixels() {
    let mut buf = vec![0u32; 6 * 5];
    draw_device_border(&mut buf, 6, 5);
    for y in 0..5 {
        for x in 0..6 {
            let edge = y < 2 || y >= 3 || x < 2 || x >= 4;
            assert_eq!(buf[y * 6 + x], if edge { BORDER_COLOR } else { 0 }, "cell ({x}, {y})");
        }
    }
    assert_eq!(BORDER_COLOR, 0xFF10_1010);
}

#[test]
fn sim_next_prev_move_progress() {
    let mut state = UiState::new();
    handle_input(&mut state, ButtonEvent::Next);
    assert_eq!(state.progress, 50);
    state.progress = 980;
    handle_input(&mut state, ButtonEvent::Next);
    assert_eq!(state.progress, 1000);
    state.progress = 30;
    handle_input(&mut state, ButtonEvent::Prev);
    assert_eq!(state.progress, 0);
    assert!(state.dirty);
}

#[test]
fn sim_none_event_changes_nothing() {
    let mut state = UiState::new();
    state.dirty = false;
    handle_input(&mut state, ButtonEvent::NoButton);
    assert!(!state.dirty);
    assert_eq!(state.volume, 80);
}

#[test]
fn sim_redraw_matches_device_screen() {
    let mut state = UiState::new();
    state.playing = true;
    state.track_title = String::from("Song");
    let shapes = redraw(&mut state);
    assert!(!state.dirty);
    assert_eq!(state.reel_angle, 15);
    assert_eq!(shapes, draw_screen(true, 15, true, false, 0, 80));
}

#[test]
fn scale_buffer_paints_nothing_for_an_empty_image() {
    let src: [u32; 0] = [];
    let mut dst = vec![5u32; 6];
    // No columns: nothing is painted, whatever the window width.
    scale_buffer(&src, 0, 1000, &mut dst, 0, 0, usize::MAX);
    assert_eq!(dst, vec![5; 6]);
    scale_buffer(&src, 0, 3, &mut dst, 3, 2, 2);
    assert_eq!(dst, vec![5; 6]);
}
