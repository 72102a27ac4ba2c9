//! The desktop and its monitors, in pixels.

use vstd::prelude::*;

verus! {

/// The virtual desktop: the rectangle around all monitors.
#[derive(Debug, Clone, Copy, PartialEq, Eq, Structural)]
pub struct Desktop {
    pub origin_x: i32,
    pub origin_y: i32,
    pub width: i32,
    pub height: i32,
}

/// One monitor.
#[derive(Debug, Clone, Copy, PartialEq, Eq, Structural)]
pub struct Monitor {
    pub x: i32,
    pub y: i32,
    pub w: i32,
    pub h: i32,
}

/// The outermost pixels of a rectangle.
#[derive(Debug, Clone, Copy, PartialEq, Eq, Structural)]
pub struct Limits {
    pub min_x: i32,
    pub max_x: i32,
    pub min_y: i32,
    pub max_y: i32,
}

/// How far two numbers are apart.
pub open spec fn distance(a: int, b: int) -> int {
    if a <= b {
        b - a
    } else {
        a - b
    }
}

/// A number brought into a range.
pub open spec fn clamped(v: int, lo: int, hi: int) -> int {
    if v < lo {
        lo
    } else if v > hi {
        hi
    } else {
        v
    }
}

/// A number brought into a range.
pub fn clamp(v: i32, lo: i32, hi: i32) -> (r: i32)
    requires
        lo <= hi,
    ensures
        r == clamped(v as int, lo as int, hi as int),
        lo <= r <= hi,
        lo <= v <= hi ==> r == v,
{
    if v < lo {
        lo
    } else if v > hi {
        hi
    } else {
        v
    }
}

impl Desktop {
    /// The desktop has pixels, and those of its edges can be counted.
    pub open spec fn well_formed(self) -> bool {
        &&& self.width >= 1
        &&& self.height >= 1
        &&& self.origin_x + self.width <= i32::MAX
        &&& self.origin_y + self.height <= i32::MAX
    }

    /// Whether a pixel belongs to the desktop.
    pub open spec fn contains(self, x: int, y: int) -> bool {
        &&& self.origin_x <= x < self.origin_x + self.width
        &&& self.origin_y <= y < self.origin_y + self.height
    }

    /// Whether the desktop is well formed.
    pub fn check(self) -> (r: bool)
        ensures
            r == self.well_formed(),
    {
        self.width >= 1 && self.height >= 1 && self.origin_x as i64 + self.width as i64
            <= i32::MAX as i64 && self.origin_y as i64 + self.height as i64 <= i32::MAX as i64
    }

    /// The outermost pixels of the desktop.
    pub fn limits(self) -> (r: Limits)
        requires
            self.well_formed(),
        ensures
            r.min_x == self.origin_x,
            r.max_x == self.origin_x + self.width - 1,
            r.min_y == self.origin_y,
            r.max_y == self.origin_y + self.height - 1,
            r.min_x <= r.max_x,
            r.min_y <= r.max_y,
            forall|x: int, y: int| #[trigger]
                self.contains(x, y) <==> r.min_x <= x <= r.max_x && r.min_y <= y <= r.max_y,
    {
        Limits {
            min_x: self.origin_x,
            max_x: self.origin_x + self.width - 1,
            min_y: self.origin_y,
            max_y: self.origin_y + self.height - 1,
        }
    }
}

impl Monitor {
    /// The monitor has pixels, and those of its edges can be counted.
    pub open spec fn well_formed(self) -> bool {
        &&& self.w >= 1
        &&& self.h >= 1
        &&& self.x + self.w <= i32::MAX
        &&& self.y + self.h <= i32::MAX
    }

    /// Whether a pixel belongs to the monitor.
    pub open spec fn contains(self, x: int, y: int) -> bool {
        &&& self.x <= x < self.x + self.w
        &&& self.y <= y < self.y + self.h
    }

    /// Whether the monitor is well formed.
    pub fn check(self) -> (r: bool)
        ensures
            r == self.well_formed(),
    {
        self.w >= 1 && self.h >= 1 && self.x as i64 + self.w as i64 <= i32::MAX as i64
            && self.y as i64 + self.h as i64 <= i32::MAX as i64
    }

    /// The pixel of the monitor that is nearest to a point.
    pub fn nearest(self, x: i32, y: i32) -> (r: (i32, i32))
        requires
            self.well_formed(),
        ensures
            r.0 == clamped(x as int, self.x as int, self.x + self.w - 1),
            r.1 == clamped(y as int, self.y as int, self.y + self.h - 1),
            self.contains(r.0 as int, r.1 as int),
            self.contains(x as int, y as int) ==> r == (x, y),
            forall|u: int, v: int| #[trigger]
                self.contains(u, v) ==> distance(r.0 as int, x as int) <= distance(u, x as int)
                    && distance(r.1 as int, y as int) <= distance(v, y as int),
    {
        (clamp(x, self.x, self.x + self.w - 1), clamp(y, self.y, self.y + self.h - 1))
    }
}


/// A number brought into a range is the number of the range that is nearest to
/// it, and the only one.
pub proof fn clamped_is_nearest(v: int, lo: int, hi: int, other: int)
    requires
        lo <= hi,
        lo <= other <= hi,
    ensures
        lo <= clamped(v, lo, hi) <= hi,
        distance(clamped(v, lo, hi), v) <= distance(other, v),
        distance(other, v) == distance(clamped(v, lo, hi), v) ==> other == clamped(v, lo, hi),
        lo <= v <= hi ==> clamped(v, lo, hi) == v,
        v <= lo ==> clamped(v, lo, hi) == lo,
        v >= hi ==> clamped(v, lo, hi) == hi,
{
}

/// A monitor or desktop is well formed exactly if it has a pixel and the pixels
/// just beyond its right and lower edges can still be counted.
pub proof fn well_formed_has_pixels(monitor: Monitor, desktop: Desktop)
    ensures
        monitor.well_formed() <==> monitor.contains(monitor.x as int, monitor.y as int)
            && monitor.x + monitor.w <= i32::MAX && monitor.y + monitor.h <= i32::MAX,
        desktop.well_formed() <==> desktop.contains(
            desktop.origin_x as int,
            desktop.origin_y as int,
        ) && desktop.origin_x + desktop.width <= i32::MAX && desktop.origin_y + desktop.height
            <= i32::MAX,
{
}

/// The pixels of a monitor lie side by side: moving it moves them along, and it
/// has as many columns and rows as it is wide and high.
pub proof fn pixels_of_a_monitor(monitor: Monitor, i: int, j: int)
    ensures
        monitor.contains(monitor.x + i, monitor.y + j) <==> 0 <= i < monitor.w && 0 <= j
            < monitor.h,
{
}

/// The same for the desktop.
pub proof fn pixels_of_the_desktop(desktop: Desktop, i: int, j: int)
    ensures
        desktop.contains(desktop.origin_x + i, desktop.origin_y + j) <==> 0 <= i < desktop.width
            && 0 <= j < desktop.height,
{
}

} // verus!
