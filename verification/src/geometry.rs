//! Coordinate-space translation: from logical, front-end-relative rectangles
//! to absolute platform coordinates.
//!
//! The resolver is a pure function and is recomputed on every layout-affecting
//! command; nothing here caches a position, since the host window may move
//! between commands.

use vstd::prelude::*;

verus! {

/// A front-end-relative rectangle in the host window's content coordinate
/// space, supplied by the caller on every navigate/resize/show command.
#[derive(Clone, Copy, PartialEq, Eq, Structural, Debug)]
pub struct LogicalArea {
    pub x: i64,
    pub y: i64,
    pub width: i64,
    pub height: i64,
}

/// The host window's current outer frame origin, reread on every
/// position-affecting command rather than cached.
#[derive(Clone, Copy, PartialEq, Eq, Structural, Debug)]
pub struct HostFrame {
    pub x: i64,
    pub y: i64,
}

/// Derived, ephemeral absolute placement of a surface on screen; never stored
/// beyond the command that computed it, except as the registry's record of the
/// last placement applied.
#[derive(Clone, Copy, PartialEq, Eq, Structural, Debug)]
pub struct Placement {
    pub x: i64,
    pub y: i64,
    pub width: i64,
    pub height: i64,
}

/// The default vertical height of the host window's decoration: the absolute
/// y-origin of the content area sits this far below the outer frame's origin.
pub const DEFAULT_CHROME_OFFSET: i64 = 28;

/// What an absolute placement is: the host frame's origin plus the logical
/// origin, with the chrome offset added to the y-origin only; the size is the
/// logical size unchanged.
pub open spec fn resolve_spec(frame: HostFrame, chrome_offset: int, area: LogicalArea) -> Placement {
    Placement {
        x: (frame.x + area.x) as i64,
        y: (frame.y + chrome_offset + area.y) as i64,
        width: area.width,
        height: area.height,
    }
}

/// The machine limit on resolving a placement: both absolute coordinates fit
/// the coordinate type.
pub open spec fn placement_fits(frame: HostFrame, chrome_offset: int, area: LogicalArea) -> bool {
    &&& i64::MIN <= frame.x + area.x <= i64::MAX
    &&& i64::MIN <= frame.y + chrome_offset <= i64::MAX
    &&& i64::MIN <= frame.y + chrome_offset + area.y <= i64::MAX
}

/// Maps (host window frame, platform chrome offset, logical tab area) to the
/// absolute placement rectangle. Pure; no state.
pub fn resolve(frame: HostFrame, chrome_offset: i64, area: LogicalArea) -> (r: Placement)
    requires
        placement_fits(frame, chrome_offset as int, area),
    ensures
        r == resolve_spec(frame, chrome_offset as int, area),
{
    Placement {
        x: frame.x + area.x,
        y: frame.y + chrome_offset + area.y,
        width: area.width,
        height: area.height,
    }
}

} // verus!
