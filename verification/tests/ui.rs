use echo_mini_os::input::buttons::ButtonEvent;
use echo_mini_os::ui::cassette::{
    draw_cassette_shell, draw_idle_screen, draw_progress_bar, draw_reel, draw_screen, draw_volume_bar, fast_sincos,
    handle_input, label_text, progress_fill, redraw, volume_fill, EngineCmd, Label, Shape, Style, UiState, AMBER,
    DARK_GRAY, DIM_AMBER, PROGRESS_W, REEL_COLOR, VOLUME_BAR_W,
};

fn labels(shapes: &[Shape]) -> Vec<Label> {
    shapes
        .iter()
        .filter_map(|s| match s {
            Shape::Text { label, .. } => Some(*label),
            _ => None,
        })
        .collect()
}

#[test]
fn fast_sincos_table_steps() {
    assert_eq!(fast_sincos(0, 26), (26, 0));
    assert_eq!(fast_sincos(90, 100), (0, 100));
    assert_eq!(fast_sincos(120, 26), (-13, 22));
    assert_eq!(fast_sincos(240, 26), (-13, -22));
    assert_eq!(fast_sincos(29, 1024), (1024, 0));
    assert_eq!(fast_sincos(-30, 100), (86, -50));
    assert_eq!(fast_sincos(720, 10), (10, 0));
}

#[test]
fn bar_fill_widths() {
    assert_eq!(progress_fill(0), 0);
    assert_eq!(progress_fill(500), 77);
    assert_eq!(progress_fill(1000), PROGRESS_W);
    assert_eq!(volume_fill(80), 99);
    assert_eq!(volume_fill(100), VOLUME_BAR_W);
    assert_eq!(volume_fill(0), 0);
}

#[test]
fn reel_shapes_at_rest() {
    let reel = draw_reel(42, 60, 0);
    assert_eq!(
        reel,
        vec![
            Shape::Circle { x: 12, y: 30, diameter: 60, style: Style::Stroke { color: REEL_COLOR, width: 2 } },
            Shape::Circle { x: 34, y: 52, diameter: 16, style: Style::Fill { color: AMBER } },
            Shape::Line { x0: 42, y0: 60, x1: 68, y1: 60, style: Style::Stroke { color: DIM_AMBER, width: 1 } },
            Shape::Line { x0: 42, y0: 60, x1: 29, y1: 82, style: Style::Stroke { color: DIM_AMBER, width: 1 } },
            Shape::Line { x0: 42, y0: 60, x1: 29, y1: 38, style: Style::Stroke { color: DIM_AMBER, width: 1 } },
        ]
    );
}

#[test]
fn progress_bar_fill_appears_only_when_nonzero() {
    assert_eq!(draw_progress_bar(6).len(), 1);
    let bar = draw_progress_bar(7);
    assert_eq!(bar.len(), 2);
    assert_eq!(bar[0], Shape::Rect { x: 8, y: 190, w: 154, h: 4, style: Style::Fill { color: DARK_GRAY } });
    assert_eq!(bar[1], Shape::Rect { x: 8, y: 190, w: 1, h: 4, style: Style::Fill { color: AMBER } });
}

#[test]
fn volume_bar_caption_track_and_fill() {
    let bar = draw_volume_bar(50);
    assert_eq!(bar.len(), 3);
    assert_eq!(bar[0], Shape::Text { x: 8, y: 270, label: Label::Volume, color: DIM_AMBER });
    assert_eq!(bar[1], Shape::Rect { x: 38, y: 264, w: 124, h: 8, style: Style::Fill { color: DARK_GRAY } });
    assert_eq!(bar[2], Shape::Rect { x: 38, y: 264, w: 62, h: 8, style: Style::Fill { color: AMBER } });
    assert_eq!(draw_volume_bar(0).len(), 2);
}

#[test]
fn shell_outline() {
    let shell = draw_cassette_shell();
    assert_eq!(shell.len(), 2);
    assert_eq!(shell[1], Shape::Rect { x: 20, y: 52, w: 130, h: 64, style: Style::Stroke { color: DIM_AMBER, width: 1 } });
}

#[test]
fn idle_screen_is_initial_screen() {
    let idle = draw_idle_screen();
    assert_eq!(idle, draw_screen(false, 0, false, false, 0, 80));
    assert_eq!(
        labels(&idle),
        vec![Label::AppName, Label::Tagline, Label::NoTrack, Label::Stopped, Label::Volume]
    );
    // Clear, shell (2), header (2), two reels (5 each), no-track, bar, status, volume (3).
    assert_eq!(idle.len(), 1 + 2 + 2 + 10 + 1 + 1 + 1 + 3);
}

#[test]
fn screen_with_track_and_artist() {
    let s = draw_screen(true, 15, true, true, 1000, 100);
    assert_eq!(
        labels(&s),
        vec![Label::AppName, Label::Tagline, Label::TrackTitle, Label::TrackArtist, Label::Playing, Label::Volume]
    );
}

#[test]
fn label_texts() {
    assert_eq!(label_text(Label::AppName), Some("Echo Mini OS"));
    assert_eq!(label_text(Label::Tagline), Some("Bit-Perfect Audio"));
    assert_eq!(label_text(Label::NoTrack), Some("-- No Track --"));
    assert_eq!(label_text(Label::Playing), Some("[PLAY]"));
    assert_eq!(label_text(Label::Stopped), Some("[STOP]"));
    assert_eq!(label_text(Label::Volume), Some("VOL"));
    assert_eq!(label_text(Label::TrackTitle), None);
}

#[test]
fn first_update_draws_the_idle_screen() {
    let mut state = UiState::new();
    let u = handle_input(&mut state, ButtonEvent::NoButton);
    assert_eq!(u.engine, EngineCmd::Keep);
    assert_eq!(u.frame.unwrap(), draw_idle_screen());
    assert!(!state.dirty);
    // Nothing pending now: no redraw.
    let u = handle_input(&mut state, ButtonEvent::NoButton);
    assert!(u.frame.is_none());
}

#[test]
fn play_toggles_engine_and_spins_reels() {
    let mut state = UiState::new();
    let u = handle_input(&mut state, ButtonEvent::Play);
    assert_eq!(u.engine, EngineCmd::Start);
    assert!(state.playing);
    assert_eq!(state.reel_angle, 15);
    assert_eq!(u.frame.unwrap(), draw_screen(true, 15, false, false, 0, 80));
    let u = handle_input(&mut state, ButtonEvent::Play);
    assert_eq!(u.engine, EngineCmd::Stop);
    assert!(!state.playing);
    assert_eq!(state.reel_angle, 15);
    assert_eq!(u.frame.unwrap(), draw_screen(false, 0, false, false, 0, 80));
}

#[test]
fn volume_steps_and_limits() {
    let mut state = UiState::new();
    handle_input(&mut state, ButtonEvent::VolUp);
    assert_eq!(state.volume, 82);
    state.volume = 100;
    handle_input(&mut state, ButtonEvent::VolUp);
    assert_eq!(state.volume, 100);
    state.volume = 1;
    handle_input(&mut state, ButtonEvent::VolDown);
    assert_eq!(state.volume, 1);
    state.volume = 2;
    handle_input(&mut state, ButtonEvent::VolDown);
    assert_eq!(state.volume, 0);
}

#[test]
fn next_and_prev_rewind() {
    let mut state = UiState::new();
    state.progress = 640;
    handle_input(&mut state, ButtonEvent::Next);
    assert_eq!(state.progress, 0);
    state.progress = 10;
    handle_input(&mut state, ButtonEvent::Prev);
    assert_eq!(state.progress, 0);
}

#[test]
fn redraw_advances_reels_by_fifteen() {
    let mut state = UiState::new();
    state.playing = true;
    state.reel_angle = 350;
    let shapes = redraw(&mut state);
    assert_eq!(state.reel_angle, 5);
    assert_eq!(shapes, draw_screen(true, 5, false, false, 0, 80));
    state.title_len = 3;
    let shapes = redraw(&mut state);
    assert_eq!(state.reel_angle, 20);
    assert!(labels(&shapes).contains(&Label::TrackTitle));
}
