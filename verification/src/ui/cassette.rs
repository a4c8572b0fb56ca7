//! State and layout of the retro cassette UI.  Drawing itself is done by
//! the graphics layer from the values computed here.
use vstd::prelude::*;
use crate::input::buttons::ButtonEvent;
use crate::display::framebuffer::COLOR_DARK_BG;

verus! {

pub const MARGIN: i32 = 8;
pub const REEL_Y: i32 = 60;
pub const REEL_RADIUS: u32 = 30;
pub const REEL_LEFT_X: i32 = 42;
pub const REEL_RIGHT_X: i32 = 128;
pub const TITLE_Y: i32 = 140;
pub const ARTIST_Y: i32 = 158;
pub const PROGRESS_Y: i32 = 190;
pub const PROGRESS_H: u32 = 4;
pub const TIME_Y: i32 = 204;
pub const STATUS_Y: i32 = 240;
pub const VOLUME_Y: i32 = 270;

/// Width of the progress bar: the screen less both margins.
pub const PROGRESS_W: u32 = 154;
/// Left edge and width of the volume bar.
pub const VOLUME_BAR_X: i32 = 38;
pub const VOLUME_BAR_W: u32 = 124;

/// Theme colours, as raw RGB565 (red 0-31, green 0-63, blue 0-31).
/// Warm amber: (31, 23, 0).
pub const AMBER: u16 = 0xFAE0;
/// Dimmed amber: (16, 12, 0).
pub const DIM_AMBER: u16 = 0x8180;
/// Cassette reel brown: (20, 16, 4).
pub const REEL_COLOR: u16 = 0xA204;
/// Subtle separator grey: (8, 16, 8).
pub const DARK_GRAY: u16 = 0x4208;

/// The raw RGB565 value of channels red `r` (0-31), green `g` (0-63) and
/// blue `b` (0-31): red in bits 15..11, green in 10..5, blue in 4..0.
pub open spec fn pack565(r: u16, g: u16, b: u16) -> u16 {
    (r << 11u16) | (g << 5u16) | b
}

/// The theme colours are the packed values of their channels.
pub proof fn lemma_theme_colours()
    ensures
        AMBER == pack565(31, 23, 0),
        DIM_AMBER == pack565(16, 12, 0),
        REEL_COLOR == pack565(20, 16, 4),
        DARK_GRAY == pack565(8, 16, 8),
{
    assert(0xFAE0u16 == (31u16 << 11u16) | (23u16 << 5u16) | 0u16) by (bit_vector);
    assert(0x8180u16 == (16u16 << 11u16) | (12u16 << 5u16) | 0u16) by (bit_vector);
    assert(0xA204u16 == (20u16 << 11u16) | (16u16 << 5u16) | 4u16) by (bit_vector);
    assert(0x4208u16 == (8u16 << 11u16) | (16u16 << 5u16) | 8u16) by (bit_vector);
}

/// How a shape is painted.
#[derive(Clone, Copy, Debug, PartialEq, Eq, Structural)]
pub enum Style {
    /// Outline `width` pixels wide.
    Stroke { color: u16, width: u32 },
    /// Solid interior.
    Fill { color: u16 },
}

/// The texts of the cassette screen.
#[derive(Clone, Copy, Debug, PartialEq, Eq, Structural)]
pub enum Label {
    /// "Echo Mini OS"
    AppName,
    /// "Bit-Perfect Audio"
    Tagline,
    /// "-- No Track --"
    NoTrack,
    /// The current track's title.
    TrackTitle,
    /// The current track's artist.
    TrackArtist,
    /// "[PLAY]"
    Playing,
    /// "[STOP]"
    Stopped,
    /// "VOL"
    Volume,
}

/// One drawing primitive of the cassette screen, in the 6x10 font for
/// texts (whose `y` is the baseline).
#[derive(Clone, Copy, Debug, PartialEq, Eq, Structural)]
pub enum Shape {
    /// Paint the whole screen.
    Clear { color: u16 },
    /// Rectangle with top-left corner (`x`, `y`).
    Rect { x: i32, y: i32, w: u32, h: u32, style: Style },
    /// Circle inscribed in the square at (`x`, `y`) of side `diameter`.
    Circle { x: i32, y: i32, diameter: u32, style: Style },
    Line { x0: i32, y0: i32, x1: i32, y1: i32, style: Style },
    Text { x: i32, y: i32, label: Label, color: u16 },
}

/// The fixed text of a label; the track's title and artist come from the
/// track itself.
pub fn label_text(label: Label) -> (t: Option<&'static str>)
    ensures
        (t is None) == (label == Label::TrackTitle || label == Label::TrackArtist),
        label == Label::AppName ==> t == Some("Echo Mini OS"),
        label == Label::Tagline ==> t == Some("Bit-Perfect Audio"),
        label == Label::NoTrack ==> t == Some("-- No Track --"),
        label == Label::Playing ==> t == Some("[PLAY]"),
        label == Label::Stopped ==> t == Some("[STOP]"),
        label == Label::Volume ==> t == Some("VOL"),
{
    match label {
        Label::AppName => Some("Echo Mini OS"),
        Label::Tagline => Some("Bit-Perfect Audio"),
        Label::NoTrack => Some("-- No Track --"),
        Label::TrackTitle => None,
        Label::TrackArtist => None,
        Label::Playing => Some("[PLAY]"),
        Label::Stopped => Some("[STOP]"),
        Label::Volume => Some("VOL"),
    }
}

/// Playback state shown by the UI.
pub struct UiState {
    pub playing: bool,
    /// 0 to 100.
    pub volume: u8,
    /// Per mille (0 to 1000).
    pub progress: u16,
    /// Reel animation angle in degrees.
    pub reel_angle: u16,
    pub track_title: [u8; 32],
    pub track_artist: [u8; 32],
    pub title_len: usize,
    pub artist_len: usize,
    pub dirty: bool,
}

/// What the audio engine must do after an input.
#[derive(Clone, Copy, Debug, PartialEq, Eq, Structural)]
pub enum EngineCmd {
    Keep,
    Start,
    Stop,
}

/// The effect of an input: the engine command, and the new frame to show
/// when the screen is redrawn.
pub struct UiUpdate {
    pub engine: EngineCmd,
    pub frame: Option<Vec<Shape>>,
}

impl UiState {
    /// Stopped, volume 80, no track, needing a first draw.
    pub fn new() -> (s: Self)
        ensures
            !s.playing,
            s.volume == 80,
            s.progress == 0,
            s.reel_angle == 0,
            s.title_len == 0,
            s.artist_len == 0,
            s.dirty,
    {
        UiState {
            playing: false,
            volume: 80,
            progress: 0,
            reel_angle: 0,
            track_title: [0u8; 32],
            track_artist: [0u8; 32],
            title_len: 0,
            artist_len: 0,
            dirty: true,
        }
    }
}

/// The volume after `event`: VolUp and VolDown step it by 2, VolUp only
/// below 100 and VolDown only from 2 up.
pub open spec fn stepped_volume(volume: u8, event: ButtonEvent) -> u8 {
    if event == ButtonEvent::VolUp && volume < 100 {
        (volume + 2) as u8
    } else if event == ButtonEvent::VolDown && volume >= 2 {
        (volume - 2) as u8
    } else {
        volume
    }
}

/// An even volume within 0..=100 stays even and within 0..=100 whatever
/// the event.
pub proof fn lemma_volume_in_range(volume: u8, event: ButtonEvent)
    requires
        volume <= 100,
        volume % 2 == 0,
    ensures
        stepped_volume(volume, event) <= 100,
        stepped_volume(volume, event) % 2 == 0,
{
}

/// The reel angle after one animation step (15 degrees).
pub open spec fn next_angle(a: u16) -> u16 {
    ((a + 15) % 360) as u16
}

/// Full redraw: advance the reels one step if playing, and draw the whole
/// screen from the state (reels at rest when stopped).
pub fn redraw(state: &mut UiState) -> (shapes: Vec<Shape>)
    ensures
        final(state).reel_angle == if old(state).playing { next_angle(old(state).reel_angle) } else { old(state).reel_angle },
        final(state).playing == old(state).playing,
        final(state).volume == old(state).volume,
        final(state).progress == old(state).progress,
        final(state).title_len == old(state).title_len,
        final(state).artist_len == old(state).artist_len,
        final(state).track_title == old(state).track_title,
        final(state).track_artist == old(state).track_artist,
        final(state).dirty == old(state).dirty,
        shapes@ == screen_shapes(
            old(state).playing,
            if old(state).playing { next_angle(old(state).reel_angle) } else { 0 },
            old(state).title_len > 0,
            old(state).artist_len > 0,
            old(state).progress,
            old(state).volume,
        ),
{
    let angle = if state.playing {
        state.reel_angle = ((state.reel_angle as u32 + 15) % 360) as u16;
        state.reel_angle
    } else {
        0
    };
    draw_screen(state.playing, angle, state.title_len > 0, state.artist_len > 0, state.progress, state.volume)
}

/// Handle a button press: Play toggles playback (starting or stopping the
/// engine), Next and Prev rewind the track, VolUp/VolDown step the volume
/// by 2 within 0..100; then, if anything changed (or the screen was already
/// due), redraw.
pub fn handle_input(state: &mut UiState, event: ButtonEvent) -> (u: UiUpdate)
    ensures
        final(state).playing == (if event == ButtonEvent::Play { !old(state).playing } else { old(state).playing }),
        final(state).progress == (if event == ButtonEvent::Next || event == ButtonEvent::Prev { 0 } else { old(state).progress }),
        final(state).volume == stepped_volume(old(state).volume, event),
        u.engine == (if event == ButtonEvent::Play {
            if old(state).playing { EngineCmd::Stop } else { EngineCmd::Start }
        } else {
            EngineCmd::Keep
        }),
        !final(state).dirty,
        final(state).title_len == old(state).title_len,
        final(state).artist_len == old(state).artist_len,
        final(state).track_title == old(state).track_title,
        final(state).track_artist == old(state).track_artist,
        ({
            let redraws = old(state).dirty || event != ButtonEvent::NoButton;
            let angle = if final(state).playing { next_angle(old(state).reel_angle) } else { 0 };
            &&& (u.frame is Some) == redraws
            &&& redraws ==> u.frame->0@ == screen_shapes(
                final(state).playing,
                angle,
                old(state).title_len > 0,
                old(state).artist_len > 0,
                final(state).progress,
                final(state).volume,
            )
            &&& final(state).reel_angle == if redraws && final(state).playing {
                next_angle(old(state).reel_angle)
            } else {
                old(state).reel_angle
            }
        }),
{
    let mut engine = EngineCmd::Keep;
    match event {
        ButtonEvent::Play => {
            state.playing = !state.playing;
            engine = if state.playing { EngineCmd::Start } else { EngineCmd::Stop };
            state.dirty = true;
        },
        ButtonEvent::Next => {
            state.progress = 0;
            state.dirty = true;
        },
        ButtonEvent::Prev => {
            state.progress = 0;
            state.dirty = true;
        },
        ButtonEvent::VolUp => {
            if state.volume < 100 {
                state.volume = state.volume + 2;
            }
            state.dirty = true;
        },
        ButtonEvent::VolDown => {
            if state.volume >= 2 {
                state.volume = state.volume - 2;
            }
            state.dirty = true;
        },
        ButtonEvent::NoButton => {},
    }
    let mut frame: Option<Vec<Shape>> = None;
    if state.dirty {
        frame = Some(redraw(state));
        state.dirty = false;
    }
    UiUpdate { engine, frame }
}

/// Filled width of the progress bar for `progress` per mille.
pub fn progress_fill(progress: u16) -> (w: u32)
    ensures
        w == PROGRESS_W * (progress as u32) / 1000,
{
    (PROGRESS_W * progress as u32) / 1000
}

/// Filled width of the volume bar for `volume` percent.
pub fn volume_fill(volume: u8) -> (w: u32)
    ensures
        w == VOLUME_BAR_W * (volume as u32) / 100,
{
    (VOLUME_BAR_W * volume as u32) / 100
}

/// A full bar at full scale, and never wider than the bar in range.
pub proof fn lemma_bar_bounds(progress: u16, volume: u8)
    ensures
        progress <= 1000 ==> PROGRESS_W * (progress as u32) / 1000 <= PROGRESS_W,
        PROGRESS_W * 1000u32 / 1000 == PROGRESS_W,
        volume <= 100 ==> VOLUME_BAR_W * (volume as u32) / 100 <= VOLUME_BAR_W,
        VOLUME_BAR_W * 100u32 / 100 == VOLUME_BAR_W,
{
    assert(progress <= 1000 ==> 154 * (progress as int) <= 154 * 1000) by (nonlinear_arith);
    assert(volume <= 100 ==> 124 * (volume as int) <= 124 * 100) by (nonlinear_arith);
}

/// sin and cos (times 1024) at 30-degree steps.
pub open spec fn sin_lut(i: int) -> int {
    if i == 0 { 0 } else if i == 1 { 512 } else if i == 2 { 886 } else if i == 3 { 1024 }
    else if i == 4 { 886 } else if i == 5 { 512 } else if i == 6 { 0 } else if i == 7 { -512 }
    else if i == 8 { -886 } else if i == 9 { -1024 } else if i == 10 { -886 } else { -512 }
}

pub open spec fn cos_lut(i: int) -> int {
    sin_lut((i + 3) % 12)
}

/// Integer division rounding toward zero.
pub open spec fn div_trunc(a: int, d: int) -> int {
    if a >= 0 { a / d } else { -((-a) / d) }
}

/// The 30-degree sector of an angle.
pub open spec fn sector(angle_deg: int) -> int {
    (angle_deg % 360) / 30
}

/// Integer (dx, dy) = radius * (cos, sin) of `angle_deg`, rounded down to
/// 30-degree steps (for the reel spokes).
pub fn fast_sincos(angle_deg: i32, radius: i32) -> (d: (i32, i32))
    requires
        i32::MIN <= cos_lut(sector(angle_deg as int)) * radius <= i32::MAX,
        i32::MIN <= sin_lut(sector(angle_deg as int)) * radius <= i32::MAX,
    ensures
        d.0 == div_trunc(cos_lut(sector(angle_deg as int)) * radius, 1024),
        d.1 == div_trunc(sin_lut(sector(angle_deg as int)) * radius, 1024),
{
    let sin_table: [i32; 12] = [0, 512, 886, 1024, 886, 512, 0, -512, -886, -1024, -886, -512];
    let cos_table: [i32; 12] = [1024, 886, 512, 0, -512, -886, -1024, -886, -512, 0, 512, 886];
    let m = angle_deg % 360;
    let idx = ((m + 360) % 360 / 30) as usize % 12;
    assert(0 <= idx < 12 && idx == sector(angle_deg as int));
    let c = cos_table[idx];
    let s = sin_table[idx];
    assert(c == cos_lut(idx as int) && s == sin_lut(idx as int));
    let dx = (c * radius) / 1024;
    let dy = (s * radius) / 1024;
    (dx, dy)
}

/// The table values are within one (times 1024).
proof fn lemma_lut_bounds(i: int)
    ensures
        -1024 <= sin_lut(i) <= 1024,
        -1024 <= cos_lut(i) <= 1024,
{
}

/// The outer and inner outline of the cassette shell.
pub open spec fn cassette_shell_shapes() -> Seq<Shape> {
    seq![
        Shape::Rect { x: 4, y: 44, w: 162, h: 80, style: Style::Stroke { color: DARK_GRAY, width: 1 } },
        Shape::Rect { x: 20, y: 52, w: 130, h: 64, style: Style::Stroke { color: DIM_AMBER, width: 1 } },
    ]
}

/// Spoke `k` of the reel at (`cx`, `cy`) turned by `angle`: from the centre,
/// `REEL_RADIUS - 4` long, at `angle + 120 * k` degrees.
pub open spec fn spoke_shape(cx: i32, cy: i32, angle: u16, k: int) -> Shape {
    let a = angle as int + 120 * k;
    let len = REEL_RADIUS as int - 4;
    Shape::Line {
        x0: cx,
        y0: cy,
        x1: (cx + div_trunc(cos_lut(sector(a)) * len, 1024)) as i32,
        y1: (cy + div_trunc(sin_lut(sector(a)) * len, 1024)) as i32,
        style: Style::Stroke { color: DIM_AMBER, width: 1 },
    }
}

/// A reel: its ring, its hub and three spokes 120 degrees apart.
pub open spec fn reel_shapes(cx: i32, cy: i32, angle: u16) -> Seq<Shape> {
    seq![
        Shape::Circle {
            x: (cx - REEL_RADIUS) as i32,
            y: (cy - REEL_RADIUS) as i32,
            diameter: (2 * REEL_RADIUS) as u32,
            style: Style::Stroke { color: REEL_COLOR, width: 2 },
        },
        Shape::Circle { x: (cx - 8) as i32, y: (cy - 8) as i32, diameter: 16, style: Style::Fill { color: AMBER } },
        spoke_shape(cx, cy, angle, 0),
        spoke_shape(cx, cy, angle, 1),
        spoke_shape(cx, cy, angle, 2),
    ]
}

/// The progress bar: its track, then the filled part when there is one.
pub open spec fn progress_bar_shapes(progress: u16) -> Seq<Shape> {
    let filled = PROGRESS_W * (progress as u32) / 1000;
    seq![Shape::Rect { x: MARGIN, y: PROGRESS_Y, w: PROGRESS_W, h: PROGRESS_H, style: Style::Fill { color: DARK_GRAY } }]
        + if filled > 0 {
            seq![Shape::Rect { x: MARGIN, y: PROGRESS_Y, w: filled as u32, h: PROGRESS_H, style: Style::Fill { color: AMBER } }]
        } else {
            Seq::<Shape>::empty()
        }
}

/// The volume bar: its caption and track, then the filled part when there is one.
pub open spec fn volume_bar_shapes(volume: u8) -> Seq<Shape> {
    let filled = VOLUME_BAR_W * (volume as u32) / 100;
    seq![
        Shape::Text { x: MARGIN, y: VOLUME_Y, label: Label::Volume, color: DIM_AMBER },
        Shape::Rect { x: VOLUME_BAR_X, y: (VOLUME_Y - 6) as i32, w: VOLUME_BAR_W, h: 8, style: Style::Fill { color: DARK_GRAY } },
    ] + if filled > 0 {
        seq![Shape::Rect { x: VOLUME_BAR_X, y: (VOLUME_Y - 6) as i32, w: filled as u32, h: 8, style: Style::Fill { color: AMBER } }]
    } else {
        Seq::<Shape>::empty()
    }
}

/// The whole screen, back to front, for a player that is `playing` or not,
/// with reels at `angle`, a title and an artist or not, `progress` per
/// mille and `volume` percent.
pub open spec fn screen_shapes(
    playing: bool,
    angle: u16,
    has_title: bool,
    has_artist: bool,
    progress: u16,
    volume: u8,
) -> Seq<Shape> {
    seq![Shape::Clear { color: COLOR_DARK_BG }]
        + cassette_shell_shapes()
        + seq![
            Shape::Text { x: 34, y: 24, label: Label::AppName, color: AMBER },
            Shape::Text { x: 22, y: 38, label: Label::Tagline, color: DIM_AMBER },
        ]
        + reel_shapes(REEL_LEFT_X, REEL_Y, angle)
        + reel_shapes(REEL_RIGHT_X, REEL_Y, angle)
        + (if has_title {
            seq![Shape::Text { x: MARGIN, y: TITLE_Y, label: Label::TrackTitle, color: AMBER }]
        } else {
            seq![Shape::Text { x: 24, y: TITLE_Y, label: Label::NoTrack, color: DIM_AMBER }]
        })
        + (if has_artist {
            seq![Shape::Text { x: MARGIN, y: ARTIST_Y, label: Label::TrackArtist, color: DIM_AMBER }]
        } else {
            Seq::<Shape>::empty()
        })
        + progress_bar_shapes(progress)
        + seq![Shape::Text { x: 56, y: STATUS_Y, label: if playing { Label::Playing } else { Label::Stopped }, color: AMBER }]
        + volume_bar_shapes(volume)
}

/// Append `more` to `shapes`.
fn push_all(shapes: &mut Vec<Shape>, more: Vec<Shape>)
    ensures
        final(shapes)@ == old(shapes)@ + more@,
{
    let mut more = more;
    shapes.append(&mut more);
}

/// The cassette shell outline: a rounded-looking outer rectangle with the
/// tape window inside.
pub fn draw_cassette_shell() -> (shapes: Vec<Shape>)
    ensures
        shapes@ == cassette_shell_shapes(),
{
    let mut shapes: Vec<Shape> = Vec::new();
    shapes.push(Shape::Rect { x: 4, y: 44, w: 162, h: 80, style: Style::Stroke { color: DARK_GRAY, width: 1 } });
    shapes.push(Shape::Rect { x: 20, y: 52, w: 130, h: 64, style: Style::Stroke { color: DIM_AMBER, width: 1 } });
    shapes
}

/// A cassette reel centred at (`cx`, `cy`), its spokes turned by `angle`.
pub fn draw_reel(cx: i32, cy: i32, angle: u16) -> (shapes: Vec<Shape>)
    requires
        i32::MIN + 30 <= cx <= i32::MAX - 30,
        i32::MIN + 30 <= cy <= i32::MAX - 30,
    ensures
        shapes@ == reel_shapes(cx, cy, angle),
{
    let mut shapes: Vec<Shape> = Vec::new();
    let r: i32 = REEL_RADIUS as i32;
    shapes.push(Shape::Circle { x: cx - r, y: cy - r, diameter: REEL_RADIUS * 2, style: Style::Stroke { color: REEL_COLOR, width: 2 } });
    let hub_r: u32 = 8;
    shapes.push(Shape::Circle { x: cx - hub_r as i32, y: cy - hub_r as i32, diameter: hub_r * 2, style: Style::Fill { color: AMBER } });
    let mut spoke: i32 = 0;
    while spoke < 3
        invariant
            0 <= spoke <= 3,
            r == REEL_RADIUS,
            i32::MIN + 30 <= cx <= i32::MAX - 30,
            i32::MIN + 30 <= cy <= i32::MAX - 30,
            shapes@ == reel_shapes(cx, cy, angle).take(2 + spoke),
        decreases 3 - spoke,
    {
        let a: i32 = angle as i32 + spoke * 120;
        proof {
            lemma_lut_bounds(sector(a as int));
        }
        let (dx, dy) = fast_sincos(a, r - 4);
        assert(-26 <= dx <= 26 && -26 <= dy <= 26);
        shapes.push(Shape::Line { x0: cx, y0: cy, x1: cx + dx, y1: cy + dy, style: Style::Stroke { color: DIM_AMBER, width: 1 } });
        assert(shapes@ == reel_shapes(cx, cy, angle).take(2 + spoke + 1));
        spoke = spoke + 1;
    }
    shapes
}

/// The progress bar for `progress` per mille.
pub fn draw_progress_bar(progress: u16) -> (shapes: Vec<Shape>)
    ensures
        shapes@ == progress_bar_shapes(progress),
{
    let mut shapes: Vec<Shape> = Vec::new();
    shapes.push(Shape::Rect { x: MARGIN, y: PROGRESS_Y, w: PROGRESS_W, h: PROGRESS_H, style: Style::Fill { color: DARK_GRAY } });
    let filled = progress_fill(progress);
    if filled > 0 {
        shapes.push(Shape::Rect { x: MARGIN, y: PROGRESS_Y, w: filled, h: PROGRESS_H, style: Style::Fill { color: AMBER } });
    }
    shapes
}

/// The volume bar for `volume` percent.
pub fn draw_volume_bar(volume: u8) -> (shapes: Vec<Shape>)
    ensures
        shapes@ == volume_bar_shapes(volume),
{
    let mut shapes: Vec<Shape> = Vec::new();
    shapes.push(Shape::Text { x: MARGIN, y: VOLUME_Y, label: Label::Volume, color: DIM_AMBER });
    shapes.push(Shape::Rect { x: VOLUME_BAR_X, y: VOLUME_Y - 6, w: VOLUME_BAR_W, h: 8, style: Style::Fill { color: DARK_GRAY } });
    let filled = volume_fill(volume);
    if filled > 0 {
        shapes.push(Shape::Rect { x: VOLUME_BAR_X, y: VOLUME_Y - 6, w: filled, h: 8, style: Style::Fill { color: AMBER } });
    }
    shapes
}

/// The full screen (see `screen_shapes`).
pub fn draw_screen(
    playing: bool,
    angle: u16,
    has_title: bool,
    has_artist: bool,
    progress: u16,
    volume: u8,
) -> (shapes: Vec<Shape>)
    ensures
        shapes@ == screen_shapes(playing, angle, has_title, has_artist, progress, volume),
{
    let mut shapes: Vec<Shape> = Vec::new();
    shapes.push(Shape::Clear { color: COLOR_DARK_BG });
    push_all(&mut shapes, draw_cassette_shell());
    shapes.push(Shape::Text { x: 34, y: 24, label: Label::AppName, color: AMBER });
    shapes.push(Shape::Text { x: 22, y: 38, label: Label::Tagline, color: DIM_AMBER });
    push_all(&mut shapes, draw_reel(REEL_LEFT_X, REEL_Y, angle));
    push_all(&mut shapes, draw_reel(REEL_RIGHT_X, REEL_Y, angle));
    if has_title {
        shapes.push(Shape::Text { x: MARGIN, y: TITLE_Y, label: Label::TrackTitle, color: AMBER });
    } else {
        shapes.push(Shape::Text { x: 24, y: TITLE_Y, label: Label::NoTrack, color: DIM_AMBER });
    }
    if has_artist {
        shapes.push(Shape::Text { x: MARGIN, y: ARTIST_Y, label: Label::TrackArtist, color: DIM_AMBER });
    }
    push_all(&mut shapes, draw_progress_bar(progress));
    let status = if playing { Label::Playing } else { Label::Stopped };
    shapes.push(Shape::Text { x: 56, y: STATUS_Y, label: status, color: AMBER });
    push_all(&mut shapes, draw_volume_bar(volume));
    shapes
}

/// The idle screen shown at power-on: stopped, reels at rest, no track,
/// empty progress bar, volume 80.  It is the screen of the initial state.
pub fn draw_idle_screen() -> (shapes: Vec<Shape>)
    ensures
        shapes@ == screen_shapes(false, 0, false, false, 0, 80),
{
    let mut shapes: Vec<Shape> = Vec::new();
    shapes.push(Shape::Clear { color: COLOR_DARK_BG });
    push_all(&mut shapes, draw_cassette_shell());
    shapes.push(Shape::Text { x: 34, y: 24, label: Label::AppName, color: AMBER });
    shapes.push(Shape::Text { x: 22, y: 38, label: Label::Tagline, color: DIM_AMBER });
    push_all(&mut shapes, draw_reel(REEL_LEFT_X, REEL_Y, 0));
    push_all(&mut shapes, draw_reel(REEL_RIGHT_X, REEL_Y, 0));
    shapes.push(Shape::Text { x: 24, y: TITLE_Y, label: Label::NoTrack, color: DIM_AMBER });
    push_all(&mut shapes, draw_progress_bar(0));
    shapes.push(Shape::Text { x: 56, y: STATUS_Y, label: Label::Stopped, color: AMBER });
    push_all(&mut shapes, draw_volume_bar(80));
    shapes
}

/// The screen shows the track's progress whether or not it is playing: it
/// holds the progress bar's track and, when `progress` per mille fills at
/// least a pixel of it, the filled part `PROGRESS_W * progress / 1000`
/// pixels wide, in amber.
pub proof fn lemma_progress_drawn(
    playing: bool,
    angle: u16,
    has_title: bool,
    has_artist: bool,
    progress: u16,
    volume: u8,
)
    ensures
        screen_shapes(playing, angle, has_title, has_artist, progress, volume).contains(
            Shape::Rect { x: 8, y: 190, w: 154, h: 4, style: Style::Fill { color: DARK_GRAY } },
        ),
        154 * (progress as int) / 1000 > 0 ==> screen_shapes(playing, angle, has_title, has_artist, progress, volume).contains(
            Shape::Rect { x: 8, y: 190, w: (154 * (progress as int) / 1000) as u32, h: 4, style: Style::Fill { color: 0xFAE0 } },
        ),
{
    let all = screen_shapes(playing, angle, has_title, has_artist, progress, volume);
    let p = progress_bar_shapes(progress);
    let rest = seq![Shape::Text { x: 56, y: STATUS_Y, label: if playing { Label::Playing } else { Label::Stopped }, color: AMBER }]
        + volume_bar_shapes(volume);
    let pre = all.subrange(0, all.len() - rest.len() - p.len());
    assert(all =~= pre + p + rest);
    let i = pre.len() as int;
    assert(all[i] == p[0]);
    let filled = PROGRESS_W * (progress as u32) / 1000;
    assert(PROGRESS_W * (progress as u32) <= u32::MAX);
    if 154 * (progress as int) / 1000 > 0 {
        assert(all[i + 1] == p[1]);
    }
}

/// The screen says whether the track is playing, and shows the volume: the
/// status text is "[PLAY]" exactly when playing and "[STOP]" otherwise, and
/// the volume bar's track is drawn with, when `volume` percent fills at
/// least a pixel, its filled part `VOLUME_BAR_W * volume / 100` wide.
pub proof fn lemma_status_and_volume_drawn(
    playing: bool,
    angle: u16,
    has_title: bool,
    has_artist: bool,
    progress: u16,
    volume: u8,
)
    ensures
        screen_shapes(playing, angle, has_title, has_artist, progress, volume).contains(
            Shape::Text { x: 56, y: 240, label: if playing { Label::Playing } else { Label::Stopped }, color: 0xFAE0 },
        ),
        screen_shapes(playing, angle, has_title, has_artist, progress, volume).contains(
            Shape::Rect { x: 38, y: 264, w: 124, h: 8, style: Style::Fill { color: DARK_GRAY } },
        ),
        124 * (volume as int) / 100 > 0 ==> screen_shapes(playing, angle, has_title, has_artist, progress, volume).contains(
            Shape::Rect { x: 38, y: 264, w: (124 * (volume as int) / 100) as u32, h: 8, style: Style::Fill { color: 0xFAE0 } },
        ),
{
    let all = screen_shapes(playing, angle, has_title, has_artist, progress, volume);
    let st = seq![Shape::Text { x: 56, y: STATUS_Y, label: if playing { Label::Playing } else { Label::Stopped }, color: AMBER }];
    let v = volume_bar_shapes(volume);
    let pre = all.subrange(0, all.len() - v.len() - 1);
    assert(all =~= pre + st + v);
    let i = pre.len() as int;
    assert(all[i] == st[0]);
    assert(all[i + 2] == v[1]);
    assert(VOLUME_BAR_W * (volume as u32) <= u32::MAX);
    if 124 * (volume as int) / 100 > 0 {
        assert(all[i + 3] == v[2]);
    }
}

/// A volume press moves the volume by one step of 2 within 0..=100: up
/// from below 100, down from 2 or more, and otherwise not at all; one step
/// up and one down return to where they started.
pub proof fn lemma_volume_step(volume: u8)
    ensures
        volume < 100 ==> stepped_volume(volume, ButtonEvent::VolUp) == volume + 2,
        volume >= 100 ==> stepped_volume(volume, ButtonEvent::VolUp) == volume,
        volume >= 2 ==> stepped_volume(volume, ButtonEvent::VolDown) == volume - 2,
        volume < 2 ==> stepped_volume(volume, ButtonEvent::VolDown) == volume,
        volume < 100 ==> stepped_volume(stepped_volume(volume, ButtonEvent::VolUp), ButtonEvent::VolDown) == volume,
        stepped_volume(volume, ButtonEvent::Play) == volume,
        stepped_volume(volume, ButtonEvent::Next) == volume,
        stepped_volume(volume, ButtonEvent::Prev) == volume,
        stepped_volume(volume, ButtonEvent::NoButton) == volume,
{
}

} // verus!
