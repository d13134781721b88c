//! Panels and their labels: placement of a panel window along the taskbar
//! row, the show-desktop affordance's hit zone and drawn line, and the
//! frame renderer that turns one panel's state into an ordered list of draw
//! operations.

use vstd::prelude::*;

use crate::clock::time_text;
use crate::geom::Rect;
use crate::metrics::MetricSnapshot;
use crate::resolver::{resolve_label_text, spec_subst, CustomFormats};

verus! {

/// A horizontal anchor along the taskbar row.
#[derive(Clone, Copy, PartialEq, Eq, Structural, Debug)]
pub enum Anchor {
    Left,
    Center,
    Right,
}

/// The face a label is drawn with.
pub struct FontSpec {
    pub name: String,
    pub size: i32,
    pub bold: bool,
    pub italic: bool,
}

/// One templated text element drawn within a panel.  Coordinates arrive
/// already scaled to device pixels.
pub struct Label {
    /// IANA zone name the rendered time is converted to.
    pub timezone: String,
    /// The raw format template.
    pub format: String,
    pub left: i32,
    pub top: i32,
    /// The text color, packed as `(blue << 16) | (green << 8) | red`.
    pub color: u32,
    pub font: FontSpec,
}

/// One overlay window segment anchored to a monitor's taskbar.
pub struct Panel {
    pub anchor: Anchor,
    /// Pixel width, already scaled.
    pub width: i32,
    /// Pixel offset added after anchoring, already scaled.
    pub left: i32,
    /// Where the show-desktop affordance sits, if the panel has one.
    pub affordance: Option<Anchor>,
    pub labels: Vec<Label>,
    /// Whether the background snapshot has been captured.
    pub background_init: bool,
}

/// Truncating halving, as the window arithmetic of the platform rounds.
pub open spec fn half_trunc(v: int) -> int {
    if v >= 0 {
        v / 2
    } else {
        -((-v) / 2)
    }
}

/// Halves a value, rounding toward zero.
fn half_trunc_exec(v: i64) -> (r: i64)
    requires
        -0x4000000000000000 <= v <= 0x4000000000000000,
    ensures
        r == half_trunc(v as int),
{
    if v >= 0 {
        ((v as u64) / 2) as i64
    } else {
        let m = ((-v) as u64) / 2;
        -(m as i64)
    }
}

/// Where a panel window of the given width goes: anchored to the taskbar
/// row's left edge, its horizontal middle, or the display's right edge,
/// shifted by the configured offset, with its top placed so the window ends
/// at the display's bottom edge.
pub open spec fn panel_origin_spec(
    anchor: Anchor,
    width: int,
    left: int,
    taskbar: Rect,
    display: Rect,
) -> (int, int) {
    let height = taskbar.height();
    let y = display.bottom - height;
    let x = match anchor {
        Anchor::Left => taskbar.left + left,
        Anchor::Center => half_trunc(taskbar.left + display.right) - half_trunc(width) + left,
        Anchor::Right => display.right - width + left,
    };
    (x, y)
}

/// All edges within a hundred million device pixels of the origin, so that
/// anchor arithmetic stays within `i32`.
pub open spec fn rect_bounded(r: Rect) -> bool {
    &&& -100000000 <= r.left <= 100000000
    &&& -100000000 <= r.top <= 100000000
    &&& -100000000 <= r.right <= 100000000
    &&& -100000000 <= r.bottom <= 100000000
}

/// Computes a panel window's origin.
pub fn panel_origin(anchor: Anchor, width: i32, left: i32, taskbar: &Rect, display: &Rect) -> (r: (
    i32,
    i32,
))
    requires
        rect_bounded(*taskbar),
        rect_bounded(*display),
        0 <= width <= 1000000,
        -1000000 <= left <= 1000000,
    ensures
        (r.0 as int, r.1 as int) == panel_origin_spec(
            anchor,
            width as int,
            left as int,
            *taskbar,
            *display,
        ),
{
    let height = taskbar.bottom as i64 - taskbar.top as i64;
    let y = display.bottom as i64 - height;
    let x: i64 = match anchor {
        Anchor::Left => taskbar.left as i64 + left as i64,
        Anchor::Center => {
            let mid = half_trunc_exec(taskbar.left as i64 + display.right as i64);
            mid - ((width as u32 / 2) as i64) + left as i64
        },
        Anchor::Right => display.right as i64 - width as i64 + left as i64,
    };
    (x as i32, y as i32)
}

// ---------------------------------------------------------------------------
// The show-desktop affordance
// ---------------------------------------------------------------------------
/// Whether a cursor at horizontal position `x` is within the affordance's
/// hit zone: a strip at the anchored edge, or around the midpoint.
pub open spec fn hit_zone(anchor: Anchor, width: int, x: int) -> bool {
    match anchor {
        Anchor::Left => 0 <= x <= 15,
        Anchor::Center => half_trunc(width) - 8 <= x <= half_trunc(width) + 8,
        Anchor::Right => width - 15 <= x <= width,
    }
}

/// Whether the cursor position is inside the affordance hit zone.
pub fn affordance_hit(anchor: Anchor, width: i32, x: i32) -> (r: bool)
    requires
        0 <= width <= 1000000,
    ensures
        r == hit_zone(anchor, width as int, x as int),
{
    match anchor {
        Anchor::Left => 0 <= x && x <= 15,
        Anchor::Center => {
            let mid = (width as u32 / 2) as i32;
            mid - 8 <= x && x <= mid + 8
        },
        Anchor::Right => width - 15 <= x && x <= width,
    }
}

/// A cursor move: the affordance becomes visible exactly while the cursor
/// is in its hit zone, and a repaint is requested only on a visibility
/// transition.  A panel without an affordance never changes or repaints.
pub fn mouse_move_update(
    visible: &mut bool,
    affordance: Option<Anchor>,
    width: i32,
    x: i32,
) -> (repaint: bool)
    requires
        0 <= width <= 1000000,
    ensures
        match affordance {
            Some(a) => *final(visible) == hit_zone(a, width as int, x as int) && repaint == (
            *old(visible) != hit_zone(a, width as int, x as int)),
            None => *final(visible) == *old(visible) && !repaint,
        },
{
    match affordance {
        Some(a) => {
            let hit = affordance_hit(a, width, x);
            let changed = hit != *visible;
            *visible = hit;
            changed
        },
        None => false,
    }
}

/// The cursor left the panel: the affordance hides, with no repaint
/// request.
pub fn mouse_leave(visible: &mut bool)
    ensures
        *final(visible) == false,
{
    *visible = false;
}

/// What a click on the panel triggers.
#[derive(Clone, Copy, PartialEq, Eq, Structural, Debug)]
pub enum Gesture {
    /// The show-desktop gesture, when the affordance is visible under the
    /// cursor.
    ShowDesktop,
    /// The new-window gesture otherwise.
    NewWindow,
}

/// Which gesture a click triggers, by whether the affordance is visible.
pub fn click_gesture(affordance_visible: bool) -> (g: Gesture)
    ensures
        g == if affordance_visible {
            Gesture::ShowDesktop
        } else {
            Gesture::NewWindow
        },
{
    if affordance_visible {
        Gesture::ShowDesktop
    } else {
        Gesture::NewWindow
    }
}

/// The vertical line drawn for a visible affordance: a fixed inset from the
/// anchored edge, or the midpoint, spanning the panel's height.
pub open spec fn affordance_line_spec(anchor: Anchor, width: int, height: int) -> (int, int, int) {
    match anchor {
        Anchor::Left => (7, 2, height - 2),
        Anchor::Center => (half_trunc(width), 0, height - 2),
        Anchor::Right => (width - 7, 2, height - 2),
    }
}

/// Computes the affordance line as `(x, y_top, y_bottom)`.
pub fn affordance_line(anchor: Anchor, width: i32, height: i32) -> (r: (i32, i32, i32))
    requires
        0 <= width <= 1000000,
        0 <= height <= 1000000,
    ensures
        (r.0 as int, r.1 as int, r.2 as int) == affordance_line_spec(
            anchor,
            width as int,
            height as int,
        ),
{
    match anchor {
        Anchor::Left => (7, 2, height - 2),
        Anchor::Center => ((width as u32 / 2) as i32, 0, height - 2),
        Anchor::Right => (width - 7, 2, height - 2),
    }
}

// ---------------------------------------------------------------------------
// The frame renderer
// ---------------------------------------------------------------------------
/// One primitive operation of a composed frame, in paint order.
pub enum DrawOp {
    /// Blit the captured background snapshot over the whole surface.
    BlitBackground,
    /// Draw one label's resolved text at its position, in its color, with a
    /// transparent text background; `label` indexes the panel's label list
    /// for the cached font.
    Text { x: i32, y: i32, color: u32, label: usize, text: String },
    /// Draw the affordance's vertical line.
    Line { x: i32, y_top: i32, y_bottom: i32 },
}

/// The operations that compose one frame of one panel: the cached
/// background first if one was captured, then every label's resolved text
/// in order, then the affordance line if it is visible.
pub fn render_frame(
    panel: &Panel,
    width: i32,
    height: i32,
    now_ms: i64,
    snap: &MetricSnapshot,
    customs: &CustomFormats,
    affordance_visible: bool,
) -> (ops: Vec<DrawOp>)
    requires
        0 <= width <= 1000000,
        0 <= height <= 1000000,
    ensures
        ({
            let bg: int = if panel.background_init {
                1
            } else {
                0
            };
            let nl = panel.labels@.len() as int;
            let line: int = if affordance_visible && panel.affordance is Some {
                1
            } else {
                0
            };
            &&& ops@.len() == bg + nl + line
            &&& (panel.background_init <==> (ops@.len() > 0 && ops@[0] matches
                DrawOp::BlitBackground))
            &&& forall|i: int|
                0 <= i < nl ==> ((#[trigger] ops@[bg + i]) matches DrawOp::Text {
                    x,
                    y,
                    color,
                    label,
                    text,
                } && x == panel.labels@[i].left && y == panel.labels@[i].top && color
                    == panel.labels@[i].color && label == i && text@ == time_text(
                    now_ms as int,
                    panel.labels@[i].timezone@,
                    spec_subst(
                        panel.labels@[i].format@,
                        snap@,
                        customs@,
                        now_ms as int,
                        panel.labels@[i].timezone@,
                    ),
                ))
            &&& (affordance_visible && panel.affordance is Some ==> ({
                let a = panel.affordance.unwrap();
                let l = affordance_line_spec(a, width as int, height as int);
                ops@.last() matches DrawOp::Line { x, y_top, y_bottom } && x == l.0 && y_top
                    == l.1 && y_bottom == l.2
            }))
        }),
{
    let mut ops: Vec<DrawOp> = Vec::new();
    if panel.background_init {
        ops.push(DrawOp::BlitBackground);
    }
    let ghost bg: int = if panel.background_init {
        1int
    } else {
        0int
    };
    let mut i: usize = 0;
    while i < panel.labels.len()
        invariant
            0 <= width <= 1000000,
            0 <= height <= 1000000,
            i <= panel.labels@.len(),
            bg == if panel.background_init {
                1int
            } else {
                0int
            },
            ops@.len() == bg + i,
            panel.background_init <==> (ops@.len() > 0 && ops@[0] matches DrawOp::BlitBackground),
            forall|k: int|
                0 <= k < i ==> ((#[trigger] ops@[bg + k]) matches DrawOp::Text {
                    x,
                    y,
                    color,
                    label,
                    text,
                } && x == panel.labels@[k].left && y == panel.labels@[k].top && color
                    == panel.labels@[k].color && label == k && text@ == time_text(
                    now_ms as int,
                    panel.labels@[k].timezone@,
                    spec_subst(
                        panel.labels@[k].format@,
                        snap@,
                        customs@,
                        now_ms as int,
                        panel.labels@[k].timezone@,
                    ),
                )),
        decreases panel.labels@.len() - i,
    {
        let label = &panel.labels[i];
        let text = resolve_label_text(
            label.format.as_str(),
            label.timezone.as_str(),
            now_ms,
            snap,
            customs,
        );
        ops.push(
            DrawOp::Text { x: label.left, y: label.top, color: label.color, label: i, text },
        );
        i += 1;
    }
    if affordance_visible {
        if let Some(a) = panel.affordance {
            let line = affordance_line(a, width, height);
            ops.push(DrawOp::Line { x: line.0, y_top: line.1, y_bottom: line.2 });
        }
    }
    ops
}

/// Which desktop row a captured background row is copied from: the panel's
/// background replicates the taskbar strip's top row at the top and its
/// bottom row everywhere else, synthesizing the glass the panels blend
/// into.
pub fn capture_source_row(row: i32, height: i32) -> (r: i32)
    requires
        0 <= row < height,
    ensures
        r == if row == 0 {
            0int
        } else {
            height - 1
        },
{
    if row == 0 {
        0
    } else {
        height - 1
    }
}

} // verus!
