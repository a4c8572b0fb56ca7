//! UI state of the desktop simulator: like the device UI, except that
//! Next and Prev move the progress bar by 5% so it can be seen moving.
use vstd::prelude::*;
use crate::input::buttons::ButtonEvent;
use crate::ui::cassette::{next_angle, draw_screen, screen_shapes, stepped_volume, Shape};

verus! {

/// Playback state of the simulated UI.
pub struct UiState {
    pub playing: bool,
    pub volume: u8,
    /// Per mille (0 to 1000).
    pub progress: u16,
    pub reel_angle: u16,
    pub track_title: String,
    pub track_artist: String,
    pub dirty: bool,
}

impl UiState {
    /// Stopped, volume 80, no track, needing a first draw.
    pub fn new() -> (s: Self)
        ensures
            !s.playing,
            s.volume == 80,
            s.progress == 0,
            s.reel_angle == 0,
            s.track_title@.len() == 0,
            s.track_artist@.len() == 0,
            s.dirty,
    {
        UiState {
            playing: false,
            volume: 80,
            progress: 0,
            reel_angle: 0,
            track_title: String::new(),
            track_artist: String::new(),
            dirty: true,
        }
    }
}

/// The progress after `event`: Next moves it 50 per mille forward, capped
/// at 1000; Prev moves it 50 back, stopping at 0.
pub open spec fn stepped_progress(progress: u16, event: ButtonEvent) -> u16 {
    if event == ButtonEvent::Next {
        if progress + 50 < 1000 { (progress + 50) as u16 } else { 1000u16 }
    } else if event == ButtonEvent::Prev {
        if progress >= 50 { (progress - 50) as u16 } else { 0u16 }
    } else {
        progress
    }
}

/// Handle a button event: Play toggles playback, Next/Prev move the
/// progress by 50 per mille within 0..1000, VolUp/VolDown step the volume
/// by 2 within 0..100; any event marks the screen dirty.
pub fn handle_input(state: &mut UiState, event: ButtonEvent)
    ensures
        final(state).playing == (if event == ButtonEvent::Play { !old(state).playing } else { old(state).playing }),
        final(state).progress == stepped_progress(old(state).progress, event),
        final(state).volume == stepped_volume(old(state).volume, event),
        final(state).dirty == (old(state).dirty || event != ButtonEvent::NoButton),
        final(state).reel_angle == old(state).reel_angle,
        final(state).track_title@ == old(state).track_title@,
        final(state).track_artist@ == old(state).track_artist@,
{
    match event {
        ButtonEvent::Play => {
            state.playing = !state.playing;
            state.dirty = true;
        },
        ButtonEvent::Next => {
            let p = state.progress as u32 + 50;
            state.progress = if p < 1000 { p as u16 } else { 1000 };
            state.dirty = true;
        },
        ButtonEvent::Prev => {
            state.progress = if state.progress >= 50 { state.progress - 50 } else { 0 };
            state.dirty = true;
        },
        ButtonEvent::VolUp => {
            if state.volume < 100 {
                state.volume = state.volume + 2;
            }
            state.dirty = true;
        },
        ButtonEvent::VolDown => {
            if state.volume >= 2 {
                state.volume = state.volume - 2;
            }
            state.dirty = true;
        },
        ButtonEvent::NoButton => {},
    }
}

/// Full redraw: advance the reels one step if playing, mark the screen
/// clean, and draw it exactly as the device does.
pub fn redraw(state: &mut UiState) -> (shapes: Vec<Shape>)
    ensures
        final(state).reel_angle == if old(state).playing { next_angle(old(state).reel_angle) } else { old(state).reel_angle },
        !final(state).dirty,
        final(state).playing == old(state).playing,
        final(state).volume == old(state).volume,
        final(state).progress == old(state).progress,
        final(state).track_title@ == old(state).track_title@,
        final(state).track_artist@ == old(state).track_artist@,
        shapes@ == screen_shapes(
            old(state).playing,
            if old(state).playing { next_angle(old(state).reel_angle) } else { 0 },
            old(state).track_title@.len() > 0,
            old(state).track_artist@.len() > 0,
            old(state).progress,
            old(state).volume,
        ),
{
    let angle = if state.playing {
        state.reel_angle = ((state.reel_angle as u32 + 15) % 360) as u16;
        state.reel_angle
    } else {
        0
    };
    let has_title = !state.track_title.as_str().is_empty();
    let has_artist = !state.track_artist.as_str().is_empty();
    let shapes = draw_screen(state.playing, angle, has_title, has_artist, state.progress, state.volume);
    state.dirty = false;
    shapes
}

/// The progress stays within 0..=1000 whatever the event.
pub proof fn lemma_progress_in_range(progress: u16, event: ButtonEvent)
    requires
        progress <= 1000,
    ensures
        stepped_progress(progress, event) <= 1000,
{
}

} // verus!
