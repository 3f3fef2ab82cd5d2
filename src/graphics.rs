//! Scalar ranges and rectangles of screen coordinates.
use vstd::prelude::*;

verus! {

use core::ops::Range;

/// A non-empty range `start..end` of coordinates.
#[derive(Debug, PartialEq, Eq)]
pub struct ScalarRange {
    pub range: Range<i64>,
}

impl ScalarRange {
    pub open spec fn wf(&self) -> bool {
        self.range.start < self.range.end
    }

    /// The range `start..end`, or `None` when it is empty.
    pub fn new(start: i64, end: i64) -> (r: Option<ScalarRange>)
        ensures
            r is None <==> start >= end,
            r matches Some(s) ==> s.wf() && s.range.start == start && s.range.end == end,
    {
        if start >= end {
            None
        } else {
            Some(ScalarRange { range: Range { start, end } })
        }
    }

    /// The coordinates in both ranges, or `None` when they share none.
    pub fn intersection(&self, another: &ScalarRange) -> (r: Option<ScalarRange>)
        ensures
            ({
                let lo = if self.range.start >= another.range.start { self.range.start } else { another.range.start };
                let hi = if self.range.end <= another.range.end { self.range.end } else { another.range.end };
                &&& r is None <==> lo >= hi
                &&& r matches Some(s) ==> s.wf() && s.range.start == lo && s.range.end == hi
            }),
    {
        let lo = if self.range.start >= another.range.start { self.range.start } else { another.range.start };
        let hi = if self.range.end <= another.range.end { self.range.end } else { another.range.end };
        ScalarRange::new(lo, hi)
    }

    pub fn start(&self) -> (r: i64)
        ensures
            r == self.range.start,
    {
        self.range.start
    }

    pub fn end(&self) -> (r: i64)
        ensures
            r == self.range.end,
    {
        self.range.end
    }
}

/// A rectangle: its top-left corner and its size, which is never negative.
#[derive(Debug, PartialEq, Eq)]
pub struct Rect {
    x: i64,
    y: i64,
    w: i64,
    h: i64,
}

impl Rect {
    pub closed spec fn spec_x(&self) -> i64 {
        self.x
    }

    pub closed spec fn spec_y(&self) -> i64 {
        self.y
    }

    pub closed spec fn spec_w(&self) -> i64 {
        self.w
    }

    pub closed spec fn spec_h(&self) -> i64 {
        self.h
    }

    pub open spec fn wf(&self) -> bool {
        self.spec_w() >= 0 && self.spec_h() >= 0
    }

    /// A rectangle whose corner lies past none of `i64`'s bounds and whose
    /// sides are not empty.
    pub open spec fn has_frame(&self) -> bool {
        &&& self.spec_w() > 0
        &&& self.spec_h() > 0
        &&& self.spec_x() + self.spec_w() <= i64::MAX
        &&& self.spec_y() + self.spec_h() <= i64::MAX
    }

    /// The rectangle at (x, y) of size w by h, or `None` if a side is negative.
    pub fn new(x: i64, y: i64, w: i64, h: i64) -> (r: Option<Rect>)
        ensures
            r is None <==> (w < 0 || h < 0),
            r matches Some(t) ==> t.wf() && t.spec_x() == x && t.spec_y() == y && t.spec_w() == w
                && t.spec_h() == h,
    {
        if w < 0 || h < 0 {
            None
        } else {
            Some(Rect { x, y, w, h })
        }
    }

    pub fn x(&self) -> (r: i64)
        ensures
            r == self.spec_x(),
    {
        self.x
    }

    pub fn y(&self) -> (r: i64)
        ensures
            r == self.spec_y(),
    {
        self.y
    }

    pub fn w(&self) -> (r: i64)
        ensures
            r == self.spec_w(),
    {
        self.w
    }

    pub fn h(&self) -> (r: i64)
        ensures
            r == self.spec_h(),
    {
        self.h
    }

    /// The horizontal and the vertical range that the rectangle covers.
    pub fn frame_ranges(&self) -> (r: (ScalarRange, ScalarRange))
        requires
            self.has_frame(),
        ensures
            r.0.wf() && r.0.range.start == self.spec_x() && r.0.range.end == self.spec_x() + self.spec_w(),
            r.1.wf() && r.1.range.start == self.spec_y() && r.1.range.end == self.spec_y() + self.spec_h(),
    {
        let rx = match ScalarRange::new(self.x, self.x + self.w) {
            Some(r) => r,
            None => ScalarRange { range: Range { start: 0, end: 1 } },
        };
        let ry = match ScalarRange::new(self.y, self.y + self.h) {
            Some(r) => r,
            None => ScalarRange { range: Range { start: 0, end: 1 } },
        };
        (rx, ry)
    }

    /// The rectangle covered by both, or `None` when they share no point.
    pub fn intersection(&self, another: &Rect) -> (r: Option<Rect>)
        requires
            self.has_frame(),
            another.has_frame(),
        ensures
            ({
                let x0 = if self.spec_x() >= another.spec_x() { self.spec_x() } else { another.spec_x() };
                let y0 = if self.spec_y() >= another.spec_y() { self.spec_y() } else { another.spec_y() };
                let x1 = if self.spec_x() + self.spec_w() <= another.spec_x() + another.spec_w() {
                    self.spec_x() + self.spec_w()
                } else {
                    another.spec_x() + another.spec_w()
                };
                let y1 = if self.spec_y() + self.spec_h() <= another.spec_y() + another.spec_h() {
                    self.spec_y() + self.spec_h()
                } else {
                    another.spec_y() + another.spec_h()
                };
                &&& r is None <==> (x0 >= x1 || y0 >= y1)
                &&& r matches Some(t) ==> t.wf() && t.spec_x() == x0 && t.spec_y() == y0 && t.spec_w()
                    == x1 - x0 && t.spec_h() == y1 - y0
            }),
    {
        let (rx0, ry0) = self.frame_ranges();
        let (rx1, ry1) = another.frame_ranges();
        let rx = match rx0.intersection(&rx1) {
            Some(r) => r,
            None => return None,
        };
        let ry = match ry0.intersection(&ry1) {
            Some(r) => r,
            None => return None,
        };
        let x = rx.start();
        let w = rx.end() - rx.start();
        let y = ry.start();
        let h = ry.end() - ry.start();
        Some(Rect { x, y, w, h })
    }

    /// Whether the point (x, y) lies inside the rectangle.
    pub fn contains_point(&self, x: i64, y: i64) -> (r: bool)
        requires
            self.has_frame(),
        ensures
            r == (self.spec_x() <= x < self.spec_x() + self.spec_w() && self.spec_y() <= y < self.spec_y()
                + self.spec_h()),
    {
        let (rx, ry) = self.frame_ranges();
        rx.range.start <= x && x < rx.range.end && ry.range.start <= y && y < ry.range.end
    }
}

} // verus!
