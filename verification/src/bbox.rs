//! Axis-aligned bounding-box accumulation.
//!
//! An empty accumulator starts at sentinel extremes (minimum far above any
//! representable coordinate, maximum far below), so expanding by a point
//! always narrows to it, and an accumulator that never saw a point reports
//! a negative width and height — callers must guard against exporting an
//! empty piece set before sizing anything by it.

use vstd::prelude::*;

use crate::num::{abs_int, div_round, COORD_LIMIT};
use crate::vec2::Vec2;

verus! {

/// Sentinel magnitude for the empty accumulator; far above any world
/// coordinate.
pub const BBOX_SENTINEL: i64 = 4_000_000_000_000;

/// Spec-level minimum.
pub open spec fn min_int(a: int, b: int) -> int {
    if a <= b {
        a
    } else {
        b
    }
}

/// Spec-level maximum.
pub open spec fn max_int(a: int, b: int) -> int {
    if a >= b {
        a
    } else {
        b
    }
}

/// An axis-aligned box accumulated from points.
#[derive(Clone, Copy, Debug, PartialEq, Eq, Structural)]
pub struct BBox2D {
    pub min: Vec2,
    pub max: Vec2,
}

impl BBox2D {
    /// All four bounds are within the sentinel range (possibly widened by
    /// one margin application).
    pub open spec fn wf(self) -> bool {
        self.min.bounded(BBOX_SENTINEL as int + 2 * COORD_LIMIT as int) && self.max.bounded(
            BBOX_SENTINEL as int + 2 * COORD_LIMIT as int,
        )
    }

    /// The empty accumulator: minimum at the positive sentinel, maximum at
    /// the negative one, so that `width()` and `height()` are negative.
    pub fn empty() -> (b: BBox2D)
        ensures
            b.min.x == BBOX_SENTINEL,
            b.min.y == BBOX_SENTINEL,
            b.max.x == -BBOX_SENTINEL,
            b.max.y == -BBOX_SENTINEL,
            b.wf(),
    {
        BBox2D {
            min: Vec2 { x: BBOX_SENTINEL, y: BBOX_SENTINEL },
            max: Vec2 { x: -BBOX_SENTINEL, y: -BBOX_SENTINEL },
        }
    }

    /// Widen the box to include `p`.
    pub fn expand_point(&mut self, p: &Vec2)
        requires
            old(self).wf(),
            p.bounded(BBOX_SENTINEL as int),
        ensures
            final(self).min.x == min_int(old(self).min.x as int, p.x as int),
            final(self).min.y == min_int(old(self).min.y as int, p.y as int),
            final(self).max.x == max_int(old(self).max.x as int, p.x as int),
            final(self).max.y == max_int(old(self).max.y as int, p.y as int),
            final(self).wf(),
    {
        if p.x < self.min.x {
            self.min.x = p.x;
        }
        if p.y < self.min.y {
            self.min.y = p.y;
        }
        if p.x > self.max.x {
            self.max.x = p.x;
        }
        if p.y > self.max.y {
            self.max.y = p.y;
        }
    }

    /// The box around a point list.
    pub fn from_points(points: &Vec<Vec2>) -> (b: BBox2D)
        requires
            forall|i: int|
                0 <= i < points@.len() ==> (#[trigger] points@[i]).bounded(BBOX_SENTINEL as int),
        ensures
            b.wf(),
            points@.len() == 0 ==> b == BBox2D::spec_empty(),
            forall|i: int|
                0 <= i < points@.len() ==> (#[trigger] points@[i]).x >= b.min.x && points@[i].x
                    <= b.max.x && points@[i].y >= b.min.y && points@[i].y <= b.max.y,
    {
        let mut b = BBox2D::empty();
        let mut i: usize = 0;
        while i < points.len()
            invariant
                0 <= i <= points@.len(),
                b.wf(),
                forall|j: int|
                    0 <= j < points@.len() ==> (#[trigger] points@[j]).bounded(
                        BBOX_SENTINEL as int,
                    ),
                i == 0 ==> b == BBox2D::spec_empty(),
                forall|j: int|
                    0 <= j < i ==> (#[trigger] points@[j]).x >= b.min.x && points@[j].x <= b.max.x
                        && points@[j].y >= b.min.y && points@[j].y <= b.max.y,
                b.min.x <= BBOX_SENTINEL && b.min.y <= BBOX_SENTINEL,
                b.max.x >= -BBOX_SENTINEL && b.max.y >= -BBOX_SENTINEL,
            decreases points@.len() - i,
        {
            b.expand_point(&points[i]);
            i = i + 1;
        }
        b
    }

    /// The value `empty()` returns.
    pub open spec fn spec_empty() -> BBox2D {
        BBox2D {
            min: Vec2 { x: BBOX_SENTINEL, y: BBOX_SENTINEL },
            max: Vec2 { x: (-4_000_000_000_000) as i64, y: (-4_000_000_000_000) as i64 },
        }
    }

    /// A copy grown by `margin` on all four sides.
    pub fn expand_by(&self, margin: i64) -> (b: BBox2D)
        requires
            self.min.bounded(BBOX_SENTINEL as int + COORD_LIMIT as int),
            self.max.bounded(BBOX_SENTINEL as int + COORD_LIMIT as int),
            abs_int(margin as int) <= COORD_LIMIT,
        ensures
            b.min.x == self.min.x - margin,
            b.min.y == self.min.y - margin,
            b.max.x == self.max.x + margin,
            b.max.y == self.max.y + margin,
            b.wf(),
    {
        BBox2D {
            min: Vec2 { x: self.min.x - margin, y: self.min.y - margin },
            max: Vec2 { x: self.max.x + margin, y: self.max.y + margin },
        }
    }

    /// Whether `p` lies inside the box, borders included.
    pub fn contains(&self, p: &Vec2) -> (r: bool)
        ensures
            r == (p.x >= self.min.x && p.x <= self.max.x && p.y >= self.min.y && p.y
                <= self.max.y),
    {
        p.x >= self.min.x && p.x <= self.max.x && p.y >= self.min.y && p.y <= self.max.y
    }

    /// Horizontal extent; negative for an accumulator that never saw a
    /// point.
    pub fn width(&self) -> (w: i64)
        requires
            self.wf(),
        ensures
            w == self.max.x - self.min.x,
    {
        self.max.x - self.min.x
    }

    /// Vertical extent; negative for an accumulator that never saw a
    /// point.
    pub fn height(&self) -> (h: i64)
        requires
            self.wf(),
        ensures
            h == self.max.y - self.min.y,
    {
        self.max.y - self.min.y
    }

    /// The midpoint, rounded to the nearest thousandth.
    pub fn center(&self) -> (c: Vec2)
        requires
            self.wf(),
        ensures
            c.x == div_round(self.min.x + self.max.x, 2),
            c.y == div_round(self.min.y + self.max.y, 2),
    {
        let cx = crate::num::div_round_milli(self.min.x + self.max.x, 2);
        let cy = crate::num::div_round_milli(self.min.y + self.max.y, 2);
        Vec2 { x: cx, y: cy }
    }

    /// The smallest box containing both.
    pub fn union(&self, other: &BBox2D) -> (b: BBox2D)
        requires
            self.wf(),
            other.wf(),
        ensures
            b.min.x == min_int(self.min.x as int, other.min.x as int),
            b.min.y == min_int(self.min.y as int, other.min.y as int),
            b.max.x == max_int(self.max.x as int, other.max.x as int),
            b.max.y == max_int(self.max.y as int, other.max.y as int),
            b.wf(),
    {
        BBox2D {
            min: Vec2 {
                x: if self.min.x <= other.min.x {
                    self.min.x
                } else {
                    other.min.x
                },
                y: if self.min.y <= other.min.y {
                    self.min.y
                } else {
                    other.min.y
                },
            },
            max: Vec2 {
                x: if self.max.x >= other.max.x {
                    self.max.x
                } else {
                    other.max.x
                },
                y: if self.max.y >= other.max.y {
                    self.max.y
                } else {
                    other.max.y
                },
            },
        }
    }

    /// Whether the two boxes overlap, borders included.
    pub fn intersects(&self, other: &BBox2D) -> (r: bool)
        ensures
            r == (self.min.x <= other.max.x && self.max.x >= other.min.x && self.min.y
                <= other.max.y && self.max.y >= other.min.y),
    {
        self.min.x <= other.max.x && self.max.x >= other.min.x && self.min.y <= other.max.y
            && self.max.y >= other.min.y
    }
}

} // verus!
