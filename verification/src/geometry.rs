//! Terminal rectangles and the placement of the centred scratch box.

use vstd::prelude::*;
use crate::config::AppConfig;

verus! {

/// A rectangle of terminal cells.
#[derive(Debug, Clone, Copy, PartialEq, Eq, Structural)]
pub struct Rect {
    pub x: u16,
    pub y: u16,
    pub width: u16,
    pub height: u16,
}

pub open spec fn sat_add(a: u16, b: u16) -> u16 {
    if a + b > u16::MAX {
        u16::MAX
    } else {
        (a + b) as u16
    }
}

pub open spec fn sat_sub(a: u16, b: u16) -> u16 {
    if a < b {
        0
    } else {
        (a - b) as u16
    }
}

impl Rect {
    pub open spec fn right_edge(self) -> u16 {
        sat_add(self.x, sat_sub(self.width, 1))
    }

    pub open spec fn bottom_edge(self) -> u16 {
        sat_add(self.y, sat_sub(self.height, 1))
    }

    pub open spec fn holds(self, x: u16, y: u16) -> bool {
        self.x <= x <= self.right_edge() && self.y <= y <= self.bottom_edge()
    }

    pub fn new(x: u16, y: u16, width: u16, height: u16) -> (r: Self)
        ensures
            r == (Rect { x, y, width, height }),
    {
        Rect { x, y, width, height }
    }

    /// The last column of the rectangle (its first one when it is empty).
    pub fn right(self) -> (col: u16)
        ensures
            col == self.right_edge(),
    {
        self.x.saturating_add(self.width.saturating_sub(1))
    }

    /// The last row of the rectangle (its first one when it is empty).
    pub fn bottom(self) -> (row: u16)
        ensures
            row == self.bottom_edge(),
    {
        self.y.saturating_add(self.height.saturating_sub(1))
    }

    pub fn contains(self, x: u16, y: u16) -> (inside: bool)
        ensures
            inside == self.holds(x, y),
    {
        x >= self.x && x <= self.right() && y >= self.y && y <= self.bottom()
    }
}

/// `value` held between `low` and `high`.
pub open spec fn clamp_between(value: u16, low: u16, high: u16) -> u16 {
    if value < low {
        low
    } else if value > high {
        high
    } else {
        value
    }
}

pub open spec fn min_u16(a: u16, b: u16) -> u16 {
    if a <= b {
        a
    } else {
        b
    }
}

/// One side of the box: `pct` percent of `total`, kept at least `least` (or all
/// of `total` when that is smaller) and at most `total`.
pub open spec fn box_side(total: u16, pct: u16, least: u16) -> u16 {
    clamp_between(((total * pct) / 100) as u16, min_u16(least, total), total)
}

pub open spec fn box_width(area: Rect, cfg: AppConfig) -> u16 {
    box_side(area.width, cfg.width_pct, 20)
}

pub open spec fn box_height(area: Rect, cfg: AppConfig) -> u16 {
    box_side(area.height, cfg.height_pct, 5)
}

/// The box is placed without running past the last column or row.
pub open spec fn box_fits(area: Rect, cfg: AppConfig) -> bool {
    &&& area.x + (area.width - box_width(area, cfg)) / 2 <= u16::MAX
    &&& area.y + (area.height - box_height(area, cfg)) / 2 <= u16::MAX
}

/// The scratch box: sized by the configured percentages and centred in `area`.
pub open spec fn box_of(area: Rect, cfg: AppConfig) -> Rect {
    Rect {
        x: (area.x + (area.width - box_width(area, cfg)) / 2) as u16,
        y: (area.y + (area.height - box_height(area, cfg)) / 2) as u16,
        width: box_width(area, cfg),
        height: box_height(area, cfg),
    }
}

fn side(total: u16, pct: u16, least: u16) -> (s: u16)
    ensures
        s == box_side(total, pct, least),
        s <= total,
{
    assert(total as int * pct as int <= 0xffff * 0xffff) by (nonlinear_arith)
        requires
            total <= 0xffff,
            pct <= 0xffff,
    ;
    let scaled = ((total as u32 * pct as u32) / 100) as u16;
    let low = if least <= total {
        least
    } else {
        total
    };
    if scaled < low {
        low
    } else if scaled > total {
        total
    } else {
        scaled
    }
}

pub fn box_rect(area: Rect, cfg: &AppConfig) -> (outer: Rect)
    requires
        box_fits(area, *cfg),
    ensures
        outer == box_of(area, *cfg),
{
    let width = side(area.width, cfg.width_pct, 20);
    let height = side(area.height, cfg.height_pct, 5);
    Rect::new(area.x + (area.width - width) / 2, area.y + (area.height - height) / 2, width, height)
}

/// The box's inside: one cell in from each edge, never less than one cell.
pub open spec fn inner_of(outer: Rect) -> Rect {
    Rect {
        x: sat_add(outer.x, 1),
        y: sat_add(outer.y, 1),
        width: if sat_sub(outer.width, 2) < 1 { 1 } else { sat_sub(outer.width, 2) },
        height: if sat_sub(outer.height, 2) < 1 { 1 } else { sat_sub(outer.height, 2) },
    }
}

pub fn box_inner(area: Rect, cfg: &AppConfig) -> (inner: Rect)
    requires
        box_fits(area, *cfg),
    ensures
        inner == inner_of(box_of(area, *cfg)),
{
    let outer = box_rect(area, cfg);
    let w = outer.width.saturating_sub(2);
    let h = outer.height.saturating_sub(2);
    Rect::new(
        outer.x.saturating_add(1),
        outer.y.saturating_add(1),
        if w < 1 { 1 } else { w },
        if h < 1 { 1 } else { h },
    )
}

/// The box never leaves the area it is placed in, and is as wide as the area
/// allows up to its minimum of 20 columns and 5 rows.
pub proof fn box_stays_inside_area(area: Rect, cfg: AppConfig)
    requires
        box_fits(area, cfg),
    ensures
        box_of(area, cfg).x >= area.x,
        box_of(area, cfg).y >= area.y,
        box_of(area, cfg).x + box_of(area, cfg).width <= area.x + area.width,
        box_of(area, cfg).y + box_of(area, cfg).height <= area.y + area.height,
        box_of(area, cfg).width >= min_u16(20, area.width),
        box_of(area, cfg).height >= min_u16(5, area.height),
{
}

/// Left and right margins of the box differ by at most one column, and top and
/// bottom margins by at most one row.
pub proof fn box_is_centred(area: Rect, cfg: AppConfig)
    requires
        box_fits(area, cfg),
    ensures
        ({
            let b = box_of(area, cfg);
            let left = b.x - area.x;
            let right = (area.x + area.width) - (b.x + b.width);
            let top = b.y - area.y;
            let bottom = (area.y + area.height) - (b.y + b.height);
            &&& 0 <= right - left <= 1
            &&& 0 <= bottom - top <= 1
        }),
{
}

} // verus!
