//! The crown mode indicator: a segmented bar naming every mode with the active
//! one lit, shown for a moment after a tap cycles.
//!
//! This module decides what the bar's window does and draws; the window itself
//! is the caller's. Pixel metrics come in already scaled, as whole pixels.

use vstd::prelude::*;

use crate::crown_mode::CrownModeIndicator;
use crate::text::{text_eq, to_lowercase, wide, wide_char};

verus! {

/// The window's name, by which it can be found.
pub const CLASS_NAME: &'static str = "OpenLogiCrownOsd";

/// The timer that takes the bar down.
pub const HIDE_TIMER: usize = 1;

/// How long the bar stays up after a tap, in milliseconds. Long enough to read
/// three cells, short enough not to linger.
pub const HIDE_MS: u32 = 1600;

/// Fill of a cell that is not active, as [`rgb`] packs (206, 207, 210).
pub const CELL_INACTIVE: u32 = 0x00d2_cfce;

/// Fill of the active cell, (247, 247, 248).
pub const CELL_ACTIVE: u32 = 0x00f8_f7f7;

/// The hairline between cells, (188, 189, 193).
pub const SEPARATOR: u32 = 0x00c1_bdbc;

/// Text on the active cell, and every glyph, (45, 45, 50).
pub const INK: u32 = 0x0032_2d2d;

/// Text on a cell that is not active, (96, 98, 104).
pub const INK_DIM: u32 = 0x0068_6260;

/// A colour packed as the window system takes it: red in the low byte, then
/// green, then blue.
pub fn rgb(r: u8, g: u8, b: u8) -> (packed: u32)
    ensures
        packed == r + g * 0x100 + b * 0x1_0000,
{
    r as u32 + g as u32 * 0x100 + b as u32 * 0x1_0000
}

/// Each colour of the bar is its red, green and blue, packed as [`rgb`] packs
/// them.
pub proof fn law_the_colours_are_packed()
    ensures
        CELL_INACTIVE == 206 + 207 * 0x100 + 210 * 0x1_0000,
        CELL_ACTIVE == 247 + 247 * 0x100 + 248 * 0x1_0000,
        SEPARATOR == 188 + 189 * 0x100 + 193 * 0x1_0000,
        INK == 45 + 45 * 0x100 + 50 * 0x1_0000,
        INK_DIM == 96 + 98 * 0x100 + 104 * 0x1_0000,
{
}

/// The glyph for a mode whose lower-cased name is `name`.
pub open spec fn glyph_of(name: Seq<char>) -> char {
    if name == "scroll"@ {
        '\u{E8CB}'
    } else if name == "tabs"@ || name == "windows"@ {
        '\u{E71D}'
    } else if name == "zoom"@ {
        '\u{E8A3}'
    } else if name == "volume"@ || name == "sound"@ {
        '\u{E767}'
    } else if name == "media"@ || name == "playback"@ {
        '\u{E768}'
    } else if name == "keys"@ || name == "shortcuts"@ {
        '\u{E765}'
    } else if name == "brightness"@ {
        '\u{E706}'
    } else if name == "undo"@ || name == "history"@ {
        '\u{E7A7}'
    } else {
        '\u{E946}'
    }
}

/// The glyph for a mode, by its lower-cased name; a neutral badge for a name
/// that stands for nothing in particular.
pub fn glyph_for_lowercase(name: &str) -> (r: char)
    ensures
        r == glyph_of(name@),
{
    if text_eq(name, "scroll") {
        '\u{E8CB}'
    } else if text_eq(name, "tabs") || text_eq(name, "windows") {
        '\u{E71D}'
    } else if text_eq(name, "zoom") {
        '\u{E8A3}'
    } else if text_eq(name, "volume") || text_eq(name, "sound") {
        '\u{E767}'
    } else if text_eq(name, "media") || text_eq(name, "playback") {
        '\u{E768}'
    } else if text_eq(name, "keys") || text_eq(name, "shortcuts") {
        '\u{E765}'
    } else if text_eq(name, "brightness") {
        '\u{E706}'
    } else if text_eq(name, "undo") || text_eq(name, "history") {
        '\u{E7A7}'
    } else {
        '\u{E946}'
    }
}

/// A glyph for a mode name, falling back to a neutral badge.
///
/// Matched on the name because a mode is user-named: someone calling a mode
/// "Zoom" gets the zoom glyph without configuring anything.
pub fn glyph_for(label: &str) -> (r: char)
    ensures
        r == glyph_of(crate::text::lowercase(label@)),
{
    glyph_for_lowercase(to_lowercase(label).as_str())
}

/// One mode's cell: a glyph over its name.
#[derive(Debug)]
pub struct Cell {
    /// The glyph.
    pub glyph: char,
    /// The mode's name.
    pub label: String,
}

/// What the window should draw.
#[derive(Debug)]
pub enum OsdView {
    /// Nothing.
    Hidden,
    /// The bar.
    Bar {
        /// One cell per mode, in cycle order.
        cells: Vec<Cell>,
        /// The active cell.
        selected: usize,
    },
}

/// One cell, with its name as characters.
pub struct CellView {
    /// The glyph.
    pub glyph: char,
    /// The mode's name.
    pub label: Seq<char>,
}

impl View for Cell {
    type V = CellView;

    open spec fn view(&self) -> CellView {
        CellView { glyph: self.glyph, label: self.label@ }
    }
}

/// What the window should draw.
pub enum Picture {
    /// Nothing.
    Hidden,
    /// The bar.
    Bar {
        /// One cell per mode, in cycle order.
        cells: Seq<CellView>,
        /// The active cell.
        selected: usize,
    },
}

impl View for OsdView {
    type V = Picture;

    open spec fn view(&self) -> Picture {
        match self {
            OsdView::Hidden => Picture::Hidden,
            OsdView::Bar { cells, selected } => Picture::Bar {
                cells: cells@.map_values(|cell: Cell| cell@),
                selected: *selected,
            },
        }
    }
}

impl Picture {
    /// How many cells the window is wide, or `None` when nothing should show:
    /// no bar, an empty one, or one of more cells than a window can hold.
    pub open spec fn cell_count(self) -> Option<u16> {
        match self {
            Picture::Hidden => None,
            Picture::Bar { cells, selected } => if 0 < cells.len() <= 0xffff {
                Some(cells.len() as u16)
            } else {
                None
            },
        }
    }
}

/// The bar for an indicator: a cell for every mode, the active one selected.
pub open spec fn bar_of(indicator: CrownModeIndicator) -> Picture {
    Picture::Bar {
        cells: Seq::new(
            indicator.names@.len(),
            |i: int|
                CellView {
                    glyph: glyph_of(crate::text::lowercase(indicator.names@[i]@)),
                    label: indicator.names@[i]@,
                },
        ),
        selected: indicator.selected,
    }
}

impl OsdView {
    /// How many cells the window is wide, or `None` when nothing should show.
    pub fn cell_count(&self) -> (r: Option<u16>)
        ensures
            r == self@.cell_count(),
    {
        match self {
            OsdView::Hidden => None,
            OsdView::Bar { cells, .. } => {
                let n: usize = cells.len();
                if 0 < n && n <= 0xffff {
                    Some(n as u16)
                } else {
                    None
                }
            },
        }
    }
}

/// A rectangle on screen, in physical pixels.
#[derive(Debug, Clone, Copy, PartialEq, Eq, Structural)]
pub struct Rect {
    /// Left edge.
    pub left: i32,
    /// Top edge.
    pub top: i32,
    /// Right edge.
    pub right: i32,
    /// Bottom edge.
    pub bottom: i32,
}

/// Whether a coordinate can be written.
pub open spec fn is_coordinate(x: int) -> bool {
    i32::MIN <= x <= i32::MAX
}

/// Half of a distance, rounded toward zero.
pub open spec fn halved(x: int) -> int {
    if x < 0 {
        -((-x) / 2)
    } else {
        x / 2
    }
}

/// Whether the bar's position in the work area can be computed.
pub open spec fn placeable(work: Option<Rect>, w: i32, h: i32, margin: i32) -> bool {
    match work {
        Some(area) => {
            let room = area.right - area.left - w;
            &&& is_coordinate(area.right - area.left)
            &&& is_coordinate(room)
            &&& is_coordinate(area.left + halved(room))
            &&& is_coordinate(area.bottom - h)
            &&& is_coordinate(area.bottom - h - margin)
        },
        None => true,
    }
}

/// Bottom-centre of the work area, `margin` above its edge; the origin when
/// the work area is unknown.
pub open spec fn placed(work: Option<Rect>, w: i32, h: i32, margin: i32) -> (int, int) {
    match work {
        Some(area) => (
            area.left + halved(area.right - area.left - w),
            area.bottom - h - margin,
        ),
        None => (0, 0),
    }
}

/// Whether the bar's position in the work area can be computed.
pub fn is_placeable(work: Option<Rect>, w: i32, h: i32, margin: i32) -> (r: bool)
    ensures
        r == placeable(work, w, h, margin),
{
    match work {
        Some(area) => {
            let lo: i64 = i32::MIN as i64;
            let hi: i64 = i32::MAX as i64;
            let span: i64 = area.right as i64 - area.left as i64;
            let room: i64 = span - w as i64;
            let x: i64 = area.left as i64 + room / 2;
            let rise: i64 = area.bottom as i64 - h as i64;
            let y: i64 = rise - margin as i64;
            lo <= span && span <= hi && lo <= room && room <= hi && lo <= x && x <= hi && lo <= rise
                && rise <= hi && lo <= y && y <= hi
        },
        None => true,
    }
}

/// Bottom-centre of the work area, so that the bar clears the taskbar instead
/// of hiding under it; the origin when the work area is unknown.
pub fn position(work: Option<Rect>, w: i32, h: i32, margin: i32) -> (r: (i32, i32))
    requires
        placeable(work, w, h, margin),
    ensures
        r.0 == placed(work, w, h, margin).0,
        r.1 == placed(work, w, h, margin).1,
{
    match work {
        Some(area) => {
            let x: i32 = area.left + (area.right - area.left - w) / 2;
            let y: i32 = area.bottom - h - margin;
            (x, y)
        },
        None => (0, 0),
    }
}

/// The indicator's state.
#[verifier::ext_equal]
pub struct IndicatorView {
    /// Whether this platform has an indicator at all.
    pub available: bool,
    /// The window, or 0 before it exists.
    pub window: isize,
    /// What the window should draw.
    pub picture: Picture,
}

/// The indicator. It is inert until its window exists, so an early mode change
/// is dropped rather than blocking; on a platform without an indicator it stays
/// inert.
#[derive(Debug)]
pub struct Osd {
    available: bool,
    window: isize,
    view: OsdView,
}

impl View for Osd {
    type V = IndicatorView;

    closed spec fn view(&self) -> IndicatorView {
        IndicatorView { available: self.available, window: self.window, picture: self.view@ }
    }
}

/// What arrives at the window.
#[derive(Debug, Clone, Copy, PartialEq, Eq, Structural)]
pub enum Message {
    /// What to draw has changed.
    Refresh,
    /// A timer ran out.
    Timer(usize),
    /// The window is to be painted.
    Paint,
    /// Anything else.
    Other,
}

/// What to do with the window.
#[derive(Debug, Clone, Copy, PartialEq, Eq, Structural)]
pub enum WindowCall {
    /// Cancel a timer.
    KillTimer(usize),
    /// Take the window down.
    Hide,
    /// Place it above all others, without activating it.
    Place {
        /// Left edge.
        x: i32,
        /// Top edge.
        y: i32,
        /// Width.
        w: i32,
        /// Height.
        h: i32,
    },
    /// Put it up, without activating it.
    ShowNoActivate,
    /// Have it painted.
    Invalidate,
    /// Start a timer.
    SetTimer {
        /// The timer.
        id: usize,
        /// Its length in milliseconds.
        ms: u32,
    },
    /// Paint what it should draw.
    PaintView,
    /// Leave the message to the window system.
    Default,
}

/// What the window's surroundings measure, in physical pixels.
#[derive(Debug, Clone, Copy, PartialEq, Eq, Structural)]
pub struct Surroundings {
    /// The bar's width at its current number of cells.
    pub bar_w: i32,
    /// The bar's height.
    pub bar_h: i32,
    /// The primary monitor's work area, if it is known.
    pub work: Option<Rect>,
    /// The gap between the bar and the bottom of the work area.
    pub margin: i32,
}

impl Surroundings {
    /// Whether the bar's position can be computed.
    pub open spec fn placeable(self) -> bool {
        placeable(self.work, self.bar_w, self.bar_h, self.margin)
    }

    /// Where the bar goes.
    pub open spec fn placed(self) -> (int, int) {
        placed(self.work, self.bar_w, self.bar_h, self.margin)
    }
}

impl IndicatorView {
    /// The indicator once `indicator` was shown.
    pub open spec fn showing(self, indicator: CrownModeIndicator) -> IndicatorView {
        if self.available {
            IndicatorView { picture: bar_of(indicator), ..self }
        } else {
            self
        }
    }

    /// The indicator after a message: its own timer takes the bar down.
    pub open spec fn after(self, message: Message) -> IndicatorView {
        if message == Message::Timer(HIDE_TIMER) {
            IndicatorView { picture: Picture::Hidden, ..self }
        } else {
            self
        }
    }

    /// What a message does with the window.
    pub open spec fn calls(self, message: Message, around: Surroundings) -> Seq<WindowCall> {
        match message {
            Message::Refresh => match self.picture.cell_count() {
                None => seq![WindowCall::KillTimer(HIDE_TIMER), WindowCall::Hide],
                Some(_) => seq![
                    WindowCall::KillTimer(HIDE_TIMER),
                    WindowCall::Place {
                        x: around.placed().0 as i32,
                        y: around.placed().1 as i32,
                        w: around.bar_w,
                        h: around.bar_h,
                    },
                    WindowCall::ShowNoActivate,
                    WindowCall::Invalidate,
                    WindowCall::SetTimer { id: HIDE_TIMER, ms: HIDE_MS },
                ],
            },
            Message::Timer(id) => if id == HIDE_TIMER {
                seq![WindowCall::KillTimer(HIDE_TIMER), WindowCall::Hide]
            } else {
                seq![WindowCall::Default]
            },
            Message::Paint => seq![WindowCall::PaintView],
            Message::Other => seq![WindowCall::Default],
        }
    }
}

/// The indicator for this platform: one that can show a bar where there is a
/// window for it, and one that never does elsewhere.
pub fn spawn(has_window: bool) -> (r: Osd)
    ensures
        r@ == (IndicatorView { available: has_window, window: 0, picture: Picture::Hidden }),
{
    Osd { available: has_window, window: 0, view: OsdView::Hidden }
}

impl Osd {
    /// The indicator of a platform that has none.
    pub fn spawn() -> (r: Self)
        ensures
            r@ == (IndicatorView { available: false, window: 0, picture: Picture::Hidden }),
    {
        Osd { available: false, window: 0, view: OsdView::Hidden }
    }

    /// Take note of the window, once it exists.
    pub fn ready(&mut self, window: isize)
        ensures
            final(self)@ == (IndicatorView { window, ..old(self)@ }),
    {
        let ghost was = self@;
        self.window = window;
        assert(self@ =~= IndicatorView { window, ..was });
    }

    /// Show the mode bar, replacing whatever is up, and return the window to
    /// send [`Message::Refresh`] to, if there is one yet.
    pub fn show(&mut self, indicator: &CrownModeIndicator) -> (r: Option<isize>)
        ensures
            final(self)@ == old(self)@.showing(*indicator),
            r == if old(self)@.available && old(self)@.window != 0 {
                Some(old(self)@.window)
            } else {
                None
            },
    {
        if !self.available {
            return None;
        }
        let mut cells: Vec<Cell> = Vec::new();
        let mut i: usize = 0;
        while i < indicator.names.len()
            invariant
                i <= indicator.names@.len(),
                cells@.len() == i,
                forall|k: int|
                    0 <= k < i ==> (#[trigger] cells@[k])@ == (CellView {
                        glyph: glyph_of(crate::text::lowercase(indicator.names@[k]@)),
                        label: indicator.names@[k]@,
                    }),
            decreases indicator.names@.len() - i,
        {
            let glyph: char = glyph_for(indicator.names[i].as_str());
            cells.push(Cell { glyph, label: indicator.names[i].clone() });
            i += 1;
        }
        proof {
            let drawn = cells@.map_values(|cell: Cell| cell@);
            let wanted = bar_of(*indicator);
            assert(drawn =~= wanted->cells);
        }
        self.set(OsdView::Bar { cells, selected: indicator.selected })
    }

    /// Replace what the window should draw, and return the window to tell.
    fn set(&mut self, next: OsdView) -> (r: Option<isize>)
        ensures
            final(self)@ == (IndicatorView { picture: next@, ..old(self)@ }),
            r == if old(self)@.window != 0 {
                Some(old(self)@.window)
            } else {
                None
            },
    {
        let ghost was = self@;
        self.view = next;
        assert(self@ =~= IndicatorView { picture: next@, ..was });
        if self.window == 0 {
            None
        } else {
            Some(self.window)
        }
    }

    /// What the window should draw.
    pub fn current_view(&self) -> (r: &OsdView)
        ensures
            r@ == self@.picture,
    {
        &self.view
    }

    /// Leave nothing to draw.
    pub fn clear_view(&mut self)
        ensures
            final(self)@ == (IndicatorView { picture: Picture::Hidden, ..old(self)@ }),
    {
        let ghost was = self@;
        self.view = OsdView::Hidden;
        assert(self@ =~= IndicatorView { picture: Picture::Hidden, ..was });
    }

    /// Handle one message: say what to do with the window.
    pub fn wndproc(&mut self, message: Message, around: Surroundings) -> (calls: Vec<WindowCall>)
        requires
            message == Message::Refresh && old(self)@.picture.cell_count() is Some
                ==> around.placeable(),
        ensures
            final(self)@ == old(self)@.after(message),
            calls@ == old(self)@.calls(message, around),
    {
        let mut calls: Vec<WindowCall> = Vec::new();
        match message {
            Message::Refresh => {
                calls.push(WindowCall::KillTimer(HIDE_TIMER));
                match self.view.cell_count() {
                    None => calls.push(WindowCall::Hide),
                    Some(_) => {
                        let (x, y) = position(
                            around.work,
                            around.bar_w,
                            around.bar_h,
                            around.margin,
                        );
                        calls.push(
                            WindowCall::Place { x, y, w: around.bar_w, h: around.bar_h },
                        );
                        calls.push(WindowCall::ShowNoActivate);
                        calls.push(WindowCall::Invalidate);
                        calls.push(WindowCall::SetTimer { id: HIDE_TIMER, ms: HIDE_MS });
                    },
                }
            },
            Message::Timer(id) => {
                if id == HIDE_TIMER {
                    self.clear_view();
                    calls.push(WindowCall::KillTimer(HIDE_TIMER));
                    calls.push(WindowCall::Hide);
                } else {
                    calls.push(WindowCall::Default);
                }
            },
            Message::Paint => calls.push(WindowCall::PaintView),
            Message::Other => calls.push(WindowCall::Default),
        }
        assert(calls@ =~= old(self)@.calls(message, around));
        calls
    }
}

/// The bar's metrics, in physical pixels.
#[derive(Debug, Clone, Copy, PartialEq, Eq, Structural)]
pub struct PaintMetrics {
    /// A cell's width.
    pub cell_w: i32,
    /// A cell's height.
    pub cell_h: i32,
    /// The hairline's width; at least one pixel is drawn.
    pub hairline: i32,
    /// How far the hairline stays from the cell's top and bottom.
    pub hairline_inset: i32,
    /// From the cell's top to the glyph's.
    pub icon_top: i32,
    /// From the cell's top to the glyph's bottom.
    pub icon_bottom: i32,
    /// From the cell's sides to the name's.
    pub label_inset: i32,
    /// From the cell's bottom up to the name's top.
    pub label_top: i32,
    /// From the cell's bottom up to the name's bottom.
    pub label_bottom: i32,
}

/// Which of a cell's two texts.
#[derive(Debug, Clone, Copy, PartialEq, Eq, Structural)]
pub enum Face {
    /// The glyph: one line, centred both ways.
    Icon,
    /// The name: centred, wrapped at words.
    Label,
}

/// One step of painting.
#[derive(Debug, Clone, Copy, PartialEq, Eq, Structural)]
pub enum PaintOp {
    /// Fill a rectangle.
    Fill {
        /// Where.
        rect: Rect,
        /// In which colour.
        color: u32,
    },
    /// Write one of a cell's texts.
    Text {
        /// Which cell.
        cell: usize,
        /// Which text.
        face: Face,
        /// Where.
        rect: Rect,
        /// In which colour.
        color: u32,
    },
}

/// How many of `n` cells are drawn: every one that a coordinate can count.
pub open spec fn drawn(n: nat) -> nat {
    if n <= 0x8000_0000 {
        n
    } else {
        0x8000_0000
    }
}

/// The hairline's width as drawn.
pub open spec fn hairline(m: PaintMetrics) -> int {
    if m.hairline < 1 {
        1
    } else {
        m.hairline as int
    }
}

/// A rectangle of computed edges.
pub open spec fn rect_of(left: int, top: int, right: int, bottom: int) -> Rect {
    Rect { left: left as i32, top: top as i32, right: right as i32, bottom: bottom as i32 }
}

/// Cell `i`'s left edge.
pub open spec fn cell_left(rc: Rect, m: PaintMetrics, i: int) -> int {
    rc.left + i * m.cell_w
}

/// Cell `i`'s right edge.
pub open spec fn cell_right(rc: Rect, m: PaintMetrics, i: int) -> int {
    rc.left + i * m.cell_w + m.cell_w
}

/// A cell's bottom edge.
pub open spec fn cell_bottom(rc: Rect, m: PaintMetrics) -> int {
    rc.top + m.cell_h
}

/// Cell `i`'s rectangle.
pub open spec fn cell_rect(rc: Rect, m: PaintMetrics, i: int) -> Rect {
    rect_of(cell_left(rc, m, i), rc.top as int, cell_right(rc, m, i), cell_bottom(rc, m))
}

/// The hairline after cell `i`.
pub open spec fn separator_rect(rc: Rect, m: PaintMetrics, i: int) -> Rect {
    rect_of(
        cell_right(rc, m, i) - hairline(m),
        rc.top + m.hairline_inset,
        cell_right(rc, m, i),
        cell_bottom(rc, m) - m.hairline_inset,
    )
}

/// Where cell `i`'s glyph goes.
pub open spec fn icon_rect(rc: Rect, m: PaintMetrics, i: int) -> Rect {
    rect_of(
        cell_left(rc, m, i),
        rc.top + m.icon_top,
        cell_right(rc, m, i),
        rc.top + m.icon_bottom,
    )
}

/// Where cell `i`'s name goes.
pub open spec fn label_rect(rc: Rect, m: PaintMetrics, i: int) -> Rect {
    rect_of(
        cell_left(rc, m, i) + m.label_inset,
        cell_bottom(rc, m) - m.label_top,
        cell_right(rc, m, i) - m.label_inset,
        cell_bottom(rc, m) - m.label_bottom,
    )
}

/// Whether every edge drawn for cell `i` of `n` is a coordinate.
pub open spec fn cell_fits(rc: Rect, m: PaintMetrics, i: int, n: nat) -> bool {
    &&& is_coordinate(i * m.cell_w)
    &&& is_coordinate(cell_left(rc, m, i))
    &&& is_coordinate(cell_right(rc, m, i))
    &&& is_coordinate(cell_bottom(rc, m))
    &&& i + 1 < n ==> {
        &&& is_coordinate(cell_right(rc, m, i) - hairline(m))
        &&& is_coordinate(rc.top + m.hairline_inset)
        &&& is_coordinate(cell_bottom(rc, m) - m.hairline_inset)
    }
    &&& is_coordinate(rc.top + m.icon_top)
    &&& is_coordinate(rc.top + m.icon_bottom)
    &&& is_coordinate(cell_left(rc, m, i) + m.label_inset)
    &&& is_coordinate(cell_bottom(rc, m) - m.label_top)
    &&& is_coordinate(cell_right(rc, m, i) - m.label_inset)
    &&& is_coordinate(cell_bottom(rc, m) - m.label_bottom)
}

/// Whether every edge of a bar of `n` cells is a coordinate.
pub open spec fn paintable(rc: Rect, m: PaintMetrics, n: nat) -> bool {
    forall|i: int| 0 <= i < drawn(n) ==> #[trigger] cell_fits(rc, m, i, n)
}

/// How cell `i` of `n` is painted.
pub open spec fn cell_ops(
    rc: Rect,
    m: PaintMetrics,
    i: int,
    n: nat,
    selected: usize,
) -> Seq<PaintOp> {
    let active = i == selected;
    let ground = seq![
        PaintOp::Fill {
            rect: cell_rect(rc, m, i),
            color: if active {
                CELL_ACTIVE
            } else {
                CELL_INACTIVE
            },
        },
    ];
    let line = if i + 1 < n {
        seq![PaintOp::Fill { rect: separator_rect(rc, m, i), color: SEPARATOR }]
    } else {
        Seq::empty()
    };
    let texts = seq![
        PaintOp::Text {
            cell: i as usize,
            face: Face::Icon,
            rect: icon_rect(rc, m, i),
            color: INK,
        },
        PaintOp::Text {
            cell: i as usize,
            face: Face::Label,
            rect: label_rect(rc, m, i),
            color: if active {
                INK
            } else {
                INK_DIM
            },
        },
    ];
    ground + line + texts
}

/// How the first `k` of `n` cells are painted.
pub open spec fn cells_ops(
    rc: Rect,
    m: PaintMetrics,
    k: nat,
    n: nat,
    selected: usize,
) -> Seq<PaintOp>
    decreases k,
{
    if k == 0 {
        Seq::empty()
    } else {
        cells_ops(rc, m, (k - 1) as nat, n, selected) + cell_ops(rc, m, k - 1, n, selected)
    }
}

/// How the window is painted: the ground, then every cell from left to right.
pub open spec fn painting(picture: Picture, rc: Rect, m: PaintMetrics) -> Seq<PaintOp> {
    let ground = seq![PaintOp::Fill { rect: rc, color: CELL_INACTIVE }];
    match picture {
        Picture::Hidden => ground,
        Picture::Bar { cells, selected } => ground + cells_ops(
            rc,
            m,
            drawn(cells.len()),
            cells.len(),
            selected,
        ),
    }
}

/// Whether the edges of what is to be painted are all coordinates.
pub open spec fn picture_paintable(picture: Picture, rc: Rect, m: PaintMetrics) -> bool {
    match picture {
        Picture::Hidden => true,
        Picture::Bar { cells, .. } => paintable(rc, m, cells.len()),
    }
}

fn is_pixel(x: i64) -> (r: bool)
    ensures
        r == is_coordinate(x as int),
{
    i32::MIN as i64 <= x && x <= i32::MAX as i64
}

fn cell_is_paintable(rc: Rect, m: &PaintMetrics, i: usize, count: usize) -> (r: bool)
    requires
        i <= i32::MAX,
        i < count,
    ensures
        r == cell_fits(rc, *m, i as int, count as nat),
{
    assert(-0x4000_0000_0000_0000 <= i as int * m.cell_w as int <= 0x4000_0000_0000_0000)
        by (nonlinear_arith)
        requires
            0 <= i <= i32::MAX,
            i32::MIN <= m.cell_w <= i32::MAX,
    ;
    let offset: i64 = i as i64 * m.cell_w as i64;
    let top: i64 = rc.top as i64;
    let left: i64 = rc.left as i64 + offset;
    let right: i64 = left + m.cell_w as i64;
    let bottom: i64 = top + m.cell_h as i64;
    let thickness: i64 = if m.hairline < 1 {
        1
    } else {
        m.hairline as i64
    };
    let line: bool = i + 1 >= count || (is_pixel(right - thickness) && is_pixel(
        top + m.hairline_inset as i64,
    ) && is_pixel(bottom - m.hairline_inset as i64));
    line && is_pixel(offset) && is_pixel(left) && is_pixel(right) && is_pixel(bottom) && is_pixel(
        top + m.icon_top as i64,
    ) && is_pixel(top + m.icon_bottom as i64) && is_pixel(left + m.label_inset as i64) && is_pixel(
        bottom - m.label_top as i64,
    ) && is_pixel(right - m.label_inset as i64) && is_pixel(bottom - m.label_bottom as i64)
}

/// Whether every edge of what is to be painted is a coordinate, so that
/// [`paint`] can lay it out.
pub fn is_paintable(view: &OsdView, rc: Rect, m: &PaintMetrics) -> (r: bool)
    ensures
        r == picture_paintable(view@, rc, *m),
{
    match view {
        OsdView::Hidden => true,
        OsdView::Bar { cells, .. } => {
            let count: usize = cells.len();
            let limit: usize = if count <= 0x8000_0000 {
                count
            } else {
                0x8000_0000
            };
            let mut i: usize = 0;
            while i < limit
                invariant
                    view@ is Bar,
                    view@->cells.len() == count,
                    i <= limit <= count,
                    limit == drawn(count as nat),
                    forall|k: int| 0 <= k < i ==> #[trigger] cell_fits(rc, *m, k, count as nat),
                decreases limit - i,
            {
                if !cell_is_paintable(rc, m, i, count) {
                    assert(!cell_fits(rc, *m, i as int, count as nat));
                    return false;
                }
                i += 1;
            }
            true
        },
    }
}

fn push_cell(
    ops: &mut Vec<PaintOp>,
    rc: Rect,
    m: &PaintMetrics,
    i: usize,
    count: usize,
    selected: usize,
)
    requires
        i <= i32::MAX,
        i < count,
        cell_fits(rc, *m, i as int, count as nat),
    ensures
        final(ops)@ == old(ops)@ + cell_ops(rc, *m, i as int, count as nat, selected),
{
    let ghost before = ops@;
    let index: i32 = i as i32;
    let left: i32 = rc.left + index * m.cell_w;
    let right: i32 = left + m.cell_w;
    let bottom: i32 = rc.top + m.cell_h;
    let cell = Rect { left, top: rc.top, right, bottom };
    let active: bool = i == selected;
    ops.push(
        PaintOp::Fill {
            rect: cell,
            color: if active {
                CELL_ACTIVE
            } else {
                CELL_INACTIVE
            },
        },
    );
    // A hairline between cells, but not after the last one.
    if i + 1 < count {
        let thickness: i32 = if m.hairline < 1 {
            1
        } else {
            m.hairline
        };
        ops.push(
            PaintOp::Fill {
                rect: Rect {
                    left: right - thickness,
                    top: rc.top + m.hairline_inset,
                    right,
                    bottom: bottom - m.hairline_inset,
                },
                color: SEPARATOR,
            },
        );
    }
    ops.push(
        PaintOp::Text {
            cell: i,
            face: Face::Icon,
            rect: Rect {
                left,
                top: rc.top + m.icon_top,
                right,
                bottom: rc.top + m.icon_bottom,
            },
            color: INK,
        },
    );
    ops.push(
        PaintOp::Text {
            cell: i,
            face: Face::Label,
            rect: Rect {
                left: left + m.label_inset,
                top: bottom - m.label_top,
                right: right - m.label_inset,
                bottom: bottom - m.label_bottom,
            },
            color: if active {
                INK
            } else {
                INK_DIM
            },
        },
    );
    assert(ops@ =~= before + cell_ops(rc, *m, i as int, count as nat, selected));
}

/// Lay out what the window should draw inside `rc`, step by step: a ground,
/// then a cell per mode with its glyph over its name, the active one lit.
pub fn paint(view: &OsdView, rc: Rect, m: &PaintMetrics) -> (ops: Vec<PaintOp>)
    requires
        picture_paintable(view@, rc, *m),
    ensures
        ops@ == painting(view@, rc, *m),
{
    let mut ops: Vec<PaintOp> = Vec::new();
    ops.push(PaintOp::Fill { rect: rc, color: CELL_INACTIVE });
    let ghost ground = ops@;
    assert(ground =~= seq![PaintOp::Fill { rect: rc, color: CELL_INACTIVE }]);
    if let OsdView::Bar { cells, selected } = view {
        let count: usize = cells.len();
        let limit: usize = if count <= 0x8000_0000 {
            count
        } else {
            0x8000_0000
        };
        let mut i: usize = 0;
        assert(ops@ =~= ground + cells_ops(rc, *m, 0, count as nat, *selected));
        while i < limit
            invariant
                i <= limit <= count,
                limit == drawn(count as nat),
                paintable(rc, *m, count as nat),
                ops@ == ground + cells_ops(rc, *m, i as nat, count as nat, *selected),
            decreases limit - i,
        {
            assert(cell_fits(rc, *m, i as int, count as nat));
            push_cell(&mut ops, rc, m, i, count, *selected);
            assert(ops@ =~= ground + cells_ops(rc, *m, (i + 1) as nat, count as nat, *selected));
            i += 1;
        }
    }
    ops
}

/// A counted text as the window system draws it: its code units with a
/// terminating zero, and how many there are without it.
#[derive(Debug, PartialEq, Eq)]
pub struct TextRun {
    /// The code units and the terminating zero.
    pub units: Vec<u16>,
    /// How many code units to draw.
    pub len: i32,
}

/// The run of a name, or `None` for one too long to count.
pub fn label_run(text: &str) -> (r: Option<TextRun>)
    ensures
        match r {
            Some(run) => {
                &&& run.units@ == crate::text::utf16(text@).push(0u16)
                &&& run.len == crate::text::utf16(text@).len()
            },
            None => crate::text::utf16(text@).len() > i32::MAX,
        },
{
    let units = wide(text);
    let len: usize = units.len() - 1;
    if len > 0x7fff_ffff {
        return None;
    }
    Some(TextRun { units, len: len as i32 })
}

/// The run of a glyph.
pub fn glyph_run(glyph: char) -> (r: TextRun)
    ensures
        r.units@ == crate::text::utf16_units(glyph).push(0u16),
        r.len == crate::text::utf16_units(glyph).len(),
{
    let units = wide_char(glyph);
    let len: usize = units.len() - 1;
    TextRun { units, len: len as i32 }
}

/// Showing a bar replaces whatever was up; the refresh that follows puts it up
/// and starts its timer, and when that runs out nothing is left to show.
pub proof fn law_a_shown_bar_comes_down_with_its_timer(
    osd: IndicatorView,
    indicator: CrownModeIndicator,
    around: Surroundings,
)
    requires
        osd.available,
        0 < indicator.names@.len() <= 0xffff,
    ensures
        ({
            let up = osd.showing(indicator);
            let down = up.after(Message::Timer(HIDE_TIMER));
            &&& up.after(Message::Refresh) == up
            &&& up.picture == bar_of(indicator)
            &&& up.calls(Message::Refresh, around).last() == (WindowCall::SetTimer {
                id: HIDE_TIMER,
                ms: HIDE_MS,
            })
            &&& up.calls(Message::Refresh, around).contains(WindowCall::ShowNoActivate)
            &&& up.calls(Message::Timer(HIDE_TIMER), around).last() == WindowCall::Hide
            &&& down.picture == Picture::Hidden
            &&& down.calls(Message::Refresh, around).last() == WindowCall::Hide
        }),
{
    let up = osd.showing(indicator);
    assert(up.calls(Message::Refresh, around)[2] == WindowCall::ShowNoActivate);
}

/// No mode is left without a cell of its own name, and the bar's active cell is
/// the active mode's.
pub proof fn law_every_mode_has_its_cell(indicator: CrownModeIndicator)
    ensures
        bar_of(indicator)->cells.len() == indicator.names@.len(),
        forall|i: int|
            0 <= i < indicator.names@.len() ==> (#[trigger] bar_of(indicator)->cells[i]).label
                == indicator.names@[i]@,
        bar_of(indicator)->selected == indicator.selected,
{
}

/// The cells stand side by side: each begins where the one before it ends.
pub proof fn law_cells_leave_no_gap(rc: Rect, m: PaintMetrics, i: int, n: nat)
    requires
        paintable(rc, m, n),
        0 <= i,
        i + 1 < drawn(n),
    ensures
        cell_rect(rc, m, i).right == cell_rect(rc, m, i + 1).left,
        cell_rect(rc, m, i).top == cell_rect(rc, m, i + 1).top,
        cell_rect(rc, m, i).bottom == cell_rect(rc, m, i + 1).bottom,
        cell_rect(rc, m, 0).left == rc.left,
{
    assert(cell_fits(rc, m, i, n));
    assert(cell_fits(rc, m, i + 1, n));
    assert(cell_fits(rc, m, 0, n));
    assert((i + 1) * m.cell_w == i * m.cell_w + m.cell_w) by (nonlinear_arith);
}

/// Names for one thing share a glyph and names for different things do not;
/// every name that stands for nothing in particular gets the neutral badge,
/// which no other name has.
pub proof fn law_names_share_a_glyph_as_they_share_a_meaning(name: Seq<char>)
    ensures
        glyph_of(name) == '\u{E8CB}' <==> name == "scroll"@,
        glyph_of(name) == '\u{E71D}' <==> name == "tabs"@ || name == "windows"@,
        glyph_of(name) == '\u{E8A3}' <==> name == "zoom"@,
        glyph_of(name) == '\u{E767}' <==> name == "volume"@ || name == "sound"@,
        glyph_of(name) == '\u{E768}' <==> name == "media"@ || name == "playback"@,
        glyph_of(name) == '\u{E765}' <==> name == "keys"@ || name == "shortcuts"@,
        glyph_of(name) == '\u{E706}' <==> name == "brightness"@,
        glyph_of(name) == '\u{E7A7}' <==> name == "undo"@ || name == "history"@,
        glyph_of(name) == '\u{E946}' <==> {
            &&& name != "scroll"@
            &&& name != "tabs"@
            &&& name != "windows"@
            &&& name != "zoom"@
            &&& name != "volume"@
            &&& name != "sound"@
            &&& name != "media"@
            &&& name != "playback"@
            &&& name != "keys"@
            &&& name != "shortcuts"@
            &&& name != "brightness"@
            &&& name != "undo"@
            &&& name != "history"@
        },
{
    reveal_strlit("scroll");
    reveal_strlit("tabs");
    reveal_strlit("windows");
    reveal_strlit("zoom");
    reveal_strlit("volume");
    reveal_strlit("sound");
    reveal_strlit("media");
    reveal_strlit("playback");
    reveal_strlit("keys");
    reveal_strlit("shortcuts");
    reveal_strlit("brightness");
    reveal_strlit("undo");
    reveal_strlit("history");
    assert("scroll"@[0] == 's' && "scroll"@[1] == 'c');
    assert("tabs"@[0] == 't');
    assert("windows"@[0] == 'w');
    assert("zoom"@[0] == 'z');
    assert("volume"@[0] == 'v');
    assert("sound"@[0] == 's' && "sound"@[1] == 'o');
    assert("media"@[0] == 'm');
    assert("playback"@[0] == 'p');
    assert("keys"@[0] == 'k');
    assert("shortcuts"@[0] == 's' && "shortcuts"@[1] == 'h');
    assert("brightness"@[0] == 'b');
    assert("undo"@[0] == 'u');
    assert("history"@[0] == 'h');
}

/// A mode's glyph goes by its lower-cased name, whichever place it has.
pub proof fn law_a_cell_has_its_names_glyph(indicator: CrownModeIndicator, i: int)
    requires
        0 <= i < indicator.names@.len(),
    ensures
        bar_of(indicator) matches Picture::Bar { cells, selected } && cells[i].glyph == glyph_of(
            crate::text::lowercase(indicator.names@[i]@),
        ),
{
}

/// A bar has a width exactly when it has a cell and no more than 65535, and
/// then of that many cells.
pub proof fn law_a_bar_is_as_wide_as_its_cells(picture: Picture)
    ensures
        picture is Hidden ==> picture.cell_count() is None,
        picture matches Picture::Bar { cells, selected } ==> {
            &&& picture.cell_count() is Some <==> 1 <= cells.len() <= 65535
            &&& picture.cell_count() matches Some(n) ==> n == cells.len()
        },
{
}

/// The bar stands in the middle of the work area, to the pixel that cannot be
/// halved, and `margin` above its bottom; where the work area is not known it
/// stands at the origin.
pub proof fn law_the_bar_stands_bottom_centre(work: Option<Rect>, w: i32, h: i32, margin: i32)
    ensures
        work matches Some(area) ==> {
            let (x, y) = placed(work, w, h, margin);
            let left = x - area.left;
            let right = area.right - (x + w);
            &&& -1 <= right - left <= 1
            &&& w <= area.right - area.left ==> 0 <= left <= right
            &&& y + h + margin == area.bottom
        },
        work is None ==> placed(work, w, h, margin) == (0int, 0int),
{
}

/// A bar that can be placed stands at coordinates, and one that fits a work area
/// on screen can be.
pub proof fn law_when_the_bar_can_be_placed(area: Rect, w: i32, h: i32, margin: i32)
    ensures
        placeable(None, w, h, margin),
        placeable(Some(area), w, h, margin) ==> {
            let (x, y) = placed(Some(area), w, h, margin);
            &&& i32::MIN <= x <= i32::MAX
            &&& i32::MIN <= y <= i32::MAX
        },
        0 <= area.left <= area.right && 0 <= area.bottom && 0 <= w <= area.right - area.left
            && 0 <= h <= area.bottom && 0 <= margin ==> placeable(Some(area), w, h, margin),
{
}

/// What each message does with the window. A refresh stops the timer first;
/// then it puts up a bar that has a width, where it belongs and without taking
/// the focus, has it painted, and starts the timer of 1600 ms, and takes down
/// anything else. Its own timer takes it down, painting paints it, and all
/// other messages are the window system's.
pub proof fn law_what_each_message_does(
    osd: IndicatorView,
    around: Surroundings,
    id: usize,
)
    ensures
        osd.picture.cell_count() is None ==> osd.calls(Message::Refresh, around) == seq![
            WindowCall::KillTimer(1),
            WindowCall::Hide,
        ],
        osd.picture.cell_count() is Some ==> {
            let calls = osd.calls(Message::Refresh, around);
            let (x, y) = placed(around.work, around.bar_w, around.bar_h, around.margin);
            &&& calls.len() == 5
            &&& calls[0] == WindowCall::KillTimer(1)
            &&& calls[1] == (WindowCall::Place {
                x: x as i32,
                y: y as i32,
                w: around.bar_w,
                h: around.bar_h,
            })
            &&& calls[2] == WindowCall::ShowNoActivate
            &&& calls[3] == WindowCall::Invalidate
            &&& calls[4] == (WindowCall::SetTimer { id: 1, ms: 1600 })
        },
        osd.calls(Message::Timer(1), around) == seq![WindowCall::KillTimer(1), WindowCall::Hide],
        id != 1 ==> osd.calls(Message::Timer(id), around) == seq![WindowCall::Default],
        osd.calls(Message::Paint, around) == seq![WindowCall::PaintView],
        osd.calls(Message::Other, around) == seq![WindowCall::Default],
        around.placeable() == placeable(around.work, around.bar_w, around.bar_h, around.margin),
{
}

/// Only its own timer takes the bar down; no other message changes what there
/// is to draw. A platform without an indicator never has anything to draw.
pub proof fn law_only_its_timer_takes_the_bar_down(
    osd: IndicatorView,
    message: Message,
    indicator: CrownModeIndicator,
)
    ensures
        osd.after(Message::Timer(1)) == (IndicatorView { picture: Picture::Hidden, ..osd }),
        message != Message::Timer(1) ==> osd.after(message) == osd,
        osd.available ==> osd.showing(indicator) == (IndicatorView {
            picture: bar_of(indicator),
            ..osd
        }),
        !osd.available ==> osd.showing(indicator) == osd,
{
}

/// How a cell is painted: its ground, lit exactly when it is the active one, a
/// hairline at its right edge unless it is the last, then its glyph and then
/// its name. Everything is where the metrics say, measured from the cell's own
/// edges, and the name is dimmed exactly when the cell is not the active one.
pub proof fn law_how_a_cell_is_painted(
    rc: Rect,
    m: PaintMetrics,
    i: int,
    n: nat,
    selected: usize,
)
    requires
        0 <= i <= usize::MAX,
        cell_fits(rc, m, i, n),
    ensures
        ({
            let ops = cell_ops(rc, m, i, n, selected);
            let left = rc.left + i * m.cell_w;
            let right = left + m.cell_w;
            let bottom = rc.top + m.cell_h;
            let lit = i == selected as int;
            let last = i + 1 >= n;
            let t: int = if last {
                1
            } else {
                2
            };
            &&& ops.len() == t + 2
            &&& ops[0] matches PaintOp::Fill { rect, color }
            &&& rect.left == left && rect.top == rc.top && rect.right == right && rect.bottom
                == bottom
            &&& color == if lit {
                0x00f8_f7f7u32
            } else {
                0x00d2_cfceu32
            }
            &&& !last ==> {
                &&& ops[1] matches PaintOp::Fill { rect, color }
                &&& rect.right == right
                &&& rect.right - rect.left == if m.hairline < 1 {
                    1
                } else {
                    m.hairline as int
                }
                &&& rect.top == rc.top + m.hairline_inset
                &&& rect.bottom == bottom - m.hairline_inset
                &&& color == 0x00c1_bdbc
            }
            &&& ops[t] matches PaintOp::Text { cell, face, rect, color }
            &&& cell == i && face == Face::Icon && color == 0x0032_2d2d
            &&& rect.left == left && rect.right == right && rect.top == rc.top + m.icon_top
                && rect.bottom == rc.top + m.icon_bottom
            &&& ops[t + 1] matches PaintOp::Text { cell, face, rect, color }
            &&& cell == i && face == Face::Label
            &&& rect.left == left + m.label_inset && rect.right == right - m.label_inset
                && rect.top == bottom - m.label_top && rect.bottom == bottom - m.label_bottom
            &&& color == if lit {
                0x0032_2d2du32
            } else {
                0x0068_6260u32
            }
        }),
{
}

/// How many steps the first `k` of `n` cells take, and which are whose: four
/// for each, but three for the last of all.
proof fn lemma_cells_in_turn(
    rc: Rect,
    m: PaintMetrics,
    k: nat,
    n: nat,
    selected: usize,
    i: int,
)
    requires
        k <= n,
        0 <= i < k,
    ensures
        cells_ops(rc, m, k, n, selected).len() == if k == n {
            4 * k as int - 1
        } else {
            4 * k as int
        },
        cells_ops(rc, m, k, n, selected).subrange(
            4 * i,
            4 * i + cell_ops(rc, m, i, n, selected).len(),
        ) == cell_ops(rc, m, i, n, selected),
    decreases k,
{
    let sooner = cells_ops(rc, m, (k - 1) as nat, n, selected);
    let last = cell_ops(rc, m, k - 1, n, selected);
    let all = cells_ops(rc, m, k, n, selected);
    assert(all == sooner + last);
    if k > 1 {
        lemma_cells_in_turn(
            rc,
            m,
            (k - 1) as nat,
            n,
            selected,
            if i < k - 1 {
                i
            } else {
                0
            },
        );
    }
    let own = cell_ops(rc, m, i, n, selected);
    if i < k - 1 {
        assert(all.subrange(4 * i, 4 * i + own.len()) =~= sooner.subrange(
            4 * i,
            4 * i + own.len(),
        ));
    } else {
        assert(all.subrange(4 * i, 4 * i + own.len()) =~= own);
    }
}

/// How a bar is painted: the ground first, over all of it, and then every cell
/// in turn from left to right, each once and nothing besides. With nothing to
/// show there is the ground alone.
pub proof fn law_a_bar_is_painted_cell_by_cell(
    picture: Picture,
    rc: Rect,
    m: PaintMetrics,
    i: int,
)
    ensures
        painting(picture, rc, m).len() >= 1,
        painting(picture, rc, m)[0] == (PaintOp::Fill { rect: rc, color: 0x00d2_cfce }),
        picture is Hidden ==> painting(picture, rc, m).len() == 1,
        picture matches Picture::Bar { cells, selected } ==> {
            let ops = painting(picture, rc, m);
            &&& 0 < cells.len() <= 0x8000_0000 ==> ops.len() == 4 * cells.len()
            &&& 0 <= i < cells.len() <= 0x8000_0000 ==> {
                let own = cell_ops(rc, m, i, cells.len(), selected);
                ops.subrange(4 * i + 1, 4 * i + 1 + own.len()) == own
            }
            &&& cells.len() == 0 ==> ops.len() == 1
        },
{
    if let Picture::Bar { cells, selected } = picture {
        let n = cells.len();
        if 0 < n <= 0x8000_0000 {
            let at = if 0 <= i < n {
                i
            } else {
                0
            };
            lemma_cells_in_turn(rc, m, n, n, selected, at);
            let ops = painting(picture, rc, m);
            let inner = cells_ops(rc, m, n, n, selected);
            let own = cell_ops(rc, m, at, n, selected);
            assert(own.len() <= 4);
            assert(ops.subrange(4 * at + 1, 4 * at + 1 + own.len()) =~= inner.subrange(
                4 * at,
                4 * at + own.len(),
            ));
        }
    }
}

/// A bar whose cells lie on screen can be painted, however many there are.
pub proof fn law_a_bar_on_screen_can_be_painted(rc: Rect, m: PaintMetrics, n: nat)
    requires
        0 <= rc.left,
        0 <= rc.top,
        1 <= m.cell_w,
        0 <= m.cell_h,
        rc.left + n * m.cell_w <= i32::MAX,
        rc.top + m.cell_h <= i32::MAX,
        m.hairline <= m.cell_w,
        0 <= m.hairline_inset <= m.cell_h,
        0 <= m.icon_top <= m.cell_h,
        0 <= m.icon_bottom <= m.cell_h,
        0 <= m.label_inset <= m.cell_w,
        0 <= m.label_top <= m.cell_h,
        0 <= m.label_bottom <= m.cell_h,
    ensures
        paintable(rc, m, n),
{
    assert forall|i: int| 0 <= i < drawn(n) implies #[trigger] cell_fits(rc, m, i, n) by {
        assert(0 <= i * m.cell_w && i * m.cell_w + m.cell_w <= n * m.cell_w) by (nonlinear_arith)
            requires
                0 <= i < n,
                1 <= m.cell_w,
        ;
    }
}

} // verus!
