//! Which part of the scratch box a mouse position falls on.

use vstd::prelude::*;
use crate::config::AppConfig;
use crate::geometry::{Rect, box_fits, box_inner, box_of, box_rect, inner_of, sat_sub};

verus! {

#[derive(Debug, Clone, Copy, PartialEq, Eq, Structural)]
pub enum HitZone {
    Backdrop,
    Inner,
    Minimize,
    ResizeLeft,
    ResizeRight,
    ResizeTop,
    ResizeBottom,
    ResizeTopLeft,
    ResizeTopRight,
    ResizeBottomLeft,
    ResizeBottomRight,
}

pub open spec fn is_resize_zone(zone: HitZone) -> bool {
    match zone {
        HitZone::Backdrop | HitZone::Inner | HitZone::Minimize => false,
        _ => true,
    }
}

impl HitZone {
    /// Whether the zone is an edge or corner that resizes the box.
    pub fn is_resize(self) -> (resize: bool)
        ensures
            resize == is_resize_zone(self),
    {
        match self {
            HitZone::Backdrop | HitZone::Inner | HitZone::Minimize => false,
            _ => true,
        }
    }
}

/// The zone under `(x, y)`: outside the box the backdrop; the three cells
/// ending three columns before the top-right corner are the minimize button;
/// corners before edges; the inside; else the backdrop.
pub open spec fn zone_at(area: Rect, cfg: AppConfig, x: u16, y: u16) -> HitZone {
    let outer = box_of(area, cfg);
    let right = outer.right_edge();
    let bottom = outer.bottom_edge();
    let on_left = x == outer.x;
    let on_right = x == right;
    let on_top = y == outer.y;
    let on_bottom = y == bottom;
    if !outer.holds(x, y) {
        HitZone::Backdrop
    } else if on_top && sat_sub(right, 5) <= x <= sat_sub(right, 3) {
        HitZone::Minimize
    } else if on_left && on_top {
        HitZone::ResizeTopLeft
    } else if on_right && on_top {
        HitZone::ResizeTopRight
    } else if on_left && on_bottom {
        HitZone::ResizeBottomLeft
    } else if on_right && on_bottom {
        HitZone::ResizeBottomRight
    } else if on_left {
        HitZone::ResizeLeft
    } else if on_right {
        HitZone::ResizeRight
    } else if on_top {
        HitZone::ResizeTop
    } else if on_bottom {
        HitZone::ResizeBottom
    } else if inner_of(outer).holds(x, y) {
        HitZone::Inner
    } else {
        HitZone::Backdrop
    }
}

pub fn hit_test(area: Rect, cfg: &AppConfig, x: u16, y: u16) -> (zone: HitZone)
    requires
        box_fits(area, *cfg),
    ensures
        zone == zone_at(area, *cfg, x, y),
{
    let outer = box_rect(area, cfg);
    if !outer.contains(x, y) {
        return HitZone::Backdrop;
    }
    let right = outer.right();
    let bottom = outer.bottom();
    let minimize_start = right.saturating_sub(5);
    let minimize_end = right.saturating_sub(3);
    if y == outer.y && x >= minimize_start && x <= minimize_end {
        return HitZone::Minimize;
    }
    let on_left = x == outer.x;
    let on_right = x == right;
    let on_top = y == outer.y;
    let on_bottom = y == bottom;
    if on_left && on_top {
        HitZone::ResizeTopLeft
    } else if on_right && on_top {
        HitZone::ResizeTopRight
    } else if on_left && on_bottom {
        HitZone::ResizeBottomLeft
    } else if on_right && on_bottom {
        HitZone::ResizeBottomRight
    } else if on_left {
        HitZone::ResizeLeft
    } else if on_right {
        HitZone::ResizeRight
    } else if on_top {
        HitZone::ResizeTop
    } else if on_bottom {
        HitZone::ResizeBottom
    } else if box_inner(area, cfg).contains(x, y) {
        HitZone::Inner
    } else {
        HitZone::Backdrop
    }
}

/// A resize zone is only ever reported on the border of the box, and the
/// inside zone only inside the box.
pub proof fn resize_zones_lie_on_the_border(area: Rect, cfg: AppConfig, x: u16, y: u16)
    requires
        box_fits(area, cfg),
    ensures
        ({
            let outer = box_of(area, cfg);
            let zone = zone_at(area, cfg, x, y);
            &&& is_resize_zone(zone) ==> outer.holds(x, y) && (x == outer.x || x == outer.right_edge()
                || y == outer.y || y == outer.bottom_edge())
            &&& zone == HitZone::Inner ==> outer.holds(x, y) && inner_of(outer).holds(x, y)
            &&& zone == HitZone::Minimize ==> y == outer.y && outer.holds(x, y)
        }),
{
}

} // verus!
