//! The geometry types and their mathematical models.

use vstd::math::{max, min};
use vstd::prelude::*;

verus! {

/// A point of the plane with unbounded integer coordinates: the value that a
/// [`Point`] stands for in specifications.
pub struct SpecPoint {
    pub x: int,
    pub y: int,
}

impl SpecPoint {
    /// The point moved by `dx` along the x axis and by `dy` along the y axis.
    pub open spec fn translate(self, dx: int, dy: int) -> SpecPoint {
        SpecPoint { x: self.x + dx, y: self.y + dy }
    }
}

/// An axis-aligned rectangle with unbounded integer sides: the value that a
/// [`Bbox`] stands for in specifications.
pub struct SpecBbox {
    pub xmin: int,
    pub xmax: int,
    pub ymin: int,
    pub ymax: int,
}

impl SpecBbox {
    /// The rectangle that is the single point `p`.
    pub open spec fn at(p: SpecPoint) -> SpecBbox {
        SpecBbox { xmin: p.x, xmax: p.x, ymin: p.y, ymax: p.y }
    }

    /// The smallest rectangle that contains both `self` and `p`.
    pub open spec fn stretch(self, p: SpecPoint) -> SpecBbox {
        SpecBbox {
            xmin: min(self.xmin, p.x),
            xmax: max(self.xmax, p.x),
            ymin: min(self.ymin, p.y),
            ymax: max(self.ymax, p.y),
        }
    }

    /// The lower bound of each axis does not exceed the upper one.
    pub open spec fn well_formed(self) -> bool {
        self.xmin <= self.xmax && self.ymin <= self.ymax
    }

    /// `p` lies inside the rectangle or on its border.
    pub open spec fn contains(self, p: SpecPoint) -> bool {
        self.xmin <= p.x <= self.xmax && self.ymin <= p.y <= self.ymax
    }

    /// No side of `other` lies outside the rectangle.
    pub open spec fn includes(self, other: SpecBbox) -> bool {
        &&& self.xmin <= other.xmin
        &&& other.xmax <= self.xmax
        &&& self.ymin <= other.ymin
        &&& other.ymax <= self.ymax
    }

    /// The rectangle moved by `dx` along the x axis and by `dy` along the y axis.
    pub open spec fn translate(self, dx: int, dy: int) -> SpecBbox {
        SpecBbox {
            xmin: self.xmin + dx,
            xmax: self.xmax + dx,
            ymin: self.ymin + dy,
            ymax: self.ymax + dy,
        }
    }

    /// The four corners, as a polyline.
    pub open spec fn corners(self) -> Seq<SpecPoint> {
        seq![
            SpecPoint { x: self.xmin, y: self.ymin },
            SpecPoint { x: self.xmin, y: self.ymax },
            SpecPoint { x: self.xmax, y: self.ymax },
            SpecPoint { x: self.xmax, y: self.ymin },
        ]
    }
}

/// A point of the plane.
#[derive(Clone, Copy, PartialEq, Eq, Structural, Debug)]
pub struct Point {
    pub x: i64,
    pub y: i64,
}

impl View for Point {
    type V = SpecPoint;

    open spec fn view(&self) -> SpecPoint {
        SpecPoint { x: self.x as int, y: self.y as int }
    }
}

impl Point {
    /// The point with the given coordinates.
    pub fn new(x: i64, y: i64) -> (p: Point)
        ensures
            p.x == x,
            p.y == y,
    {
        Point { x, y }
    }

    /// The x coordinate.
    pub fn x(&self) -> (x: i64)
        ensures
            x == self.x,
    {
        self.x
    }

    /// The y coordinate.
    pub fn y(&self) -> (y: i64)
        ensures
            y == self.y,
    {
        self.y
    }
}

/// A polyline: points in path order. It may be empty.
#[derive(PartialEq, Eq, Debug)]
pub struct LineString(pub Vec<Point>);

impl Clone for LineString {
    /// A polyline with the same points in the same order.
    fn clone(&self) -> (copy: LineString)
        ensures
            copy.0@ == self.0@,
            copy@ == self@,
    {
        LineString(self.0.clone())
    }
}

impl View for LineString {
    type V = Seq<SpecPoint>;

    open spec fn view(&self) -> Seq<SpecPoint> {
        self.0@.map_values(|p: Point| p@)
    }
}

/// An axis-aligned rectangle, given by its extent along each axis.
#[derive(Clone, Copy, PartialEq, Eq, Structural, Debug)]
pub struct Bbox {
    pub xmin: i64,
    pub xmax: i64,
    pub ymin: i64,
    pub ymax: i64,
}

impl View for Bbox {
    type V = SpecBbox;

    open spec fn view(&self) -> SpecBbox {
        SpecBbox {
            xmin: self.xmin as int,
            xmax: self.xmax as int,
            ymin: self.ymin as int,
            ymax: self.ymax as int,
        }
    }
}

} // verus!
