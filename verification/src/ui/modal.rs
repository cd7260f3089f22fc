//! Where a dialog goes on the screen.

use vstd::prelude::*;

verus! {

/// A rectangle of terminal cells.
#[derive(PartialEq, Eq, Structural, Clone, Copy, Debug)]
pub struct Rect {
    pub x: u16,
    pub y: u16,
    pub width: u16,
    pub height: u16,
}

/// `a * b`, or the largest `u16` when that is larger.
pub open spec fn sat_mul(a: u16, b: u16) -> int {
    if a * b > u16::MAX {
        u16::MAX as int
    } else {
        a * b
    }
}

/// `a - b`, or 0 when that is negative.
pub open spec fn sat_sub(a: u16, b: u16) -> int {
    if a >= b {
        a - b
    } else {
        0
    }
}

/// The width of a dialog: `percent_x` percent of the area, at least 40
/// columns, but at most the area's width less 2.
pub open spec fn popup_width(percent_x: u16, area: Rect) -> int {
    let w = sat_mul(area.width, percent_x) / 100;
    let w = if w < 40 {
        40
    } else {
        w
    };
    if w > sat_sub(area.width, 2) {
        sat_sub(area.width, 2)
    } else {
        w
    }
}

/// The height of a dialog: `height`, but at most the area's height less 2.
pub open spec fn popup_height(height: u16, area: Rect) -> int {
    if height > sat_sub(area.height, 2) {
        sat_sub(area.height, 2)
    } else {
        height as int
    }
}

/// The dialog centred in `area`.
pub open spec fn centered(percent_x: u16, height: u16, area: Rect) -> Rect {
    let w = popup_width(percent_x, area);
    let h = popup_height(height, area);
    Rect {
        x: (area.x + (area.width - w) / 2) as u16,
        y: (area.y + (area.height - h) / 2) as u16,
        width: w as u16,
        height: h as u16,
    }
}

/// The width and height of a dialog in `area`.
fn popup_size(percent_x: u16, height: u16, area: Rect) -> (r: (u16, u16))
    ensures
        r.0 == popup_width(percent_x, area),
        r.1 == popup_height(height, area),
{
    let scaled: u16 = match area.width.checked_mul(percent_x) {
        Some(v) => v,
        None => u16::MAX,
    };
    let mut w = scaled / 100;
    if w < 40 {
        w = 40;
    }
    let limit = area.width.saturating_sub(2);
    if w > limit {
        w = limit;
    }
    let hlimit = area.height.saturating_sub(2);
    let h = if height > hlimit {
        hlimit
    } else {
        height
    };
    (w, h)
}

/// Whether the corner of the dialog centred in `area` has coordinates
/// that a cell can have.
pub open spec fn centered_fits_spec(percent_x: u16, height: u16, area: Rect) -> bool {
    &&& area.x + (area.width - popup_width(percent_x, area)) / 2 <= u16::MAX
    &&& area.y + (area.height - popup_height(height, area)) / 2 <= u16::MAX
}

/// Whether a dialog can be centred in `area`: its corner then has
/// coordinates that a cell can have.
pub fn centered_fits(percent_x: u16, height: u16, area: Rect) -> (r: bool)
    ensures
        r == centered_fits_spec(percent_x, height, area),
{
    let (w, h) = popup_size(percent_x, height, area);
    let x = area.x as u32 + (area.width.saturating_sub(w) / 2) as u32;
    let y = area.y as u32 + (area.height.saturating_sub(h) / 2) as u32;
    x <= 65535 && y <= 65535
}

/// The dialog centred in `area`: `percent_x` percent of its width (at least
/// 40 columns, at most the width less 2) and `height` rows (at most the
/// height less 2).
pub fn centered_rect(percent_x: u16, height: u16, area: Rect) -> (r: Rect)
    requires
        centered_fits_spec(percent_x, height, area),
    ensures
        r == centered(percent_x, height, area),
{
    let (w, h) = popup_size(percent_x, height, area);
    let x = area.x + (area.width.saturating_sub(w)) / 2;
    let y = area.y + (area.height.saturating_sub(h)) / 2;
    Rect { x, y, width: w, height: h }
}

/// A dialog lies within the area it is centred in.
pub proof fn lemma_centered_within(percent_x: u16, height: u16, area: Rect)
    requires
        area.x + area.width <= u16::MAX,
        area.y + area.height <= u16::MAX,
    ensures
        ({
            let r = centered(percent_x, height, area);
            &&& area.x <= r.x
            &&& r.x + r.width <= area.x + area.width
            &&& area.y <= r.y
            &&& r.y + r.height <= area.y + area.height
        }),
{
}

} // verus!
