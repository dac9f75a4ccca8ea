//! Parts of the screen.

use vstd::prelude::*;

verus! {

/// A part of the screen.
#[derive(Debug, Clone, Copy, PartialEq, Eq, Structural)]
pub struct Rect {
    pub x: u16,
    pub y: u16,
    pub width: u16,
    pub height: u16,
}

impl Rect {
    /// Whether the area lies within what coordinates can express.
    pub open spec fn wf(self) -> bool {
        self.x + self.width <= u16::MAX && self.y + self.height <= u16::MAX
    }
}

/// `a - b`, or zero where that is negative.
pub open spec fn minus(a: int, b: int) -> int {
    if a > b {
        a - b
    } else {
        0
    }
}

/// The smaller of two numbers.
pub open spec fn least(a: int, b: int) -> int {
    if a < b {
        a
    } else {
        b
    }
}

/// The area of the given size in the middle of `area`, cut to it.
pub open spec fn centered(width: int, height: int, area: Rect) -> Rect {
    Rect {
        x: (area.x + minus(area.width as int, width) / 2) as u16,
        y: (area.y + minus(area.height as int, height) / 2) as u16,
        width: least(width, area.width as int) as u16,
        height: least(height, area.height as int) as u16,
    }
}

/// The smaller of two numbers.
pub fn min_u16(a: u16, b: u16) -> (r: u16)
    ensures
        r == least(a as int, b as int),
{
    if a < b {
        a
    } else {
        b
    }
}

/// The area of the given size in the middle of `area`, cut to it.
pub fn centered_rect(width: u16, height: u16, area: Rect) -> (r: Rect)
    requires
        area.wf(),
    ensures
        r == centered(width as int, height as int, area),
        r.wf(),
        area.x <= r.x,
        area.y <= r.y,
        r.x + r.width <= area.x + area.width,
        r.y + r.height <= area.y + area.height,
{
    Rect {
        x: area.x + area.width.saturating_sub(width) / 2,
        y: area.y + area.height.saturating_sub(height) / 2,
        width: min_u16(width, area.width),
        height: min_u16(height, area.height),
    }
}

/// `area` without a margin on each side; nothing at all where the margins take it whole.
pub open spec fn inside(area: Rect, horizontal: int, vertical: int) -> Rect {
    if area.width < 2 * horizontal || area.height < 2 * vertical {
        Rect { x: 0, y: 0, width: 0, height: 0 }
    } else {
        Rect {
            x: (area.x + horizontal) as u16,
            y: (area.y + vertical) as u16,
            width: (area.width - 2 * horizontal) as u16,
            height: (area.height - 2 * vertical) as u16,
        }
    }
}

/// `area` without a margin on each side; nothing at all where the margins take it whole.
pub fn inner_rect(area: Rect, horizontal: u8, vertical: u8) -> (r: Rect)
    requires
        area.wf(),
    ensures
        r == inside(area, horizontal as int, vertical as int),
        r.wf(),
{
    let h = horizontal as u16;
    let v = vertical as u16;
    if area.width < 2 * h || area.height < 2 * v {
        Rect { x: 0, y: 0, width: 0, height: 0 }
    } else {
        Rect {
            x: area.x + h,
            y: area.y + v,
            width: area.width - 2 * h,
            height: area.height - 2 * v,
        }
    }
}

/// The area of a popup of at most the given size, with a margin around it.
pub fn popup_rect(width: u16, height: u16, area: Rect) -> (r: Rect)
    requires
        area.wf(),
    ensures
        r == centered(
            least(width as int, minus(area.width as int, 4)),
            least(height as int, minus(area.height as int, 2)),
            area,
        ),
        r.wf(),
{
    centered_rect(
        min_u16(width, area.width.saturating_sub(4)),
        min_u16(height, area.height.saturating_sub(2)),
        area,
    )
}

/// The box of a dialog of the given size in `area`. It is narrower on a narrow terminal.
pub open spec fn dialog_area(width: int, height: int, area: Rect) -> Rect {
    centered(least(width, minus(area.width as int, 4)), height, area)
}

/// The box of a dialog of the given size in `area`.
pub fn dialog_rect(width: u16, height: u16, area: Rect) -> (r: Rect)
    requires
        area.wf(),
    ensures
        r == dialog_area(width as int, height as int, area),
        r.wf(),
{
    centered_rect(min_u16(width, area.width.saturating_sub(4)), height, area)
}

} // verus!
