//! Points, sizes and regions of the discrete image grid.

use vstd::prelude::*;

verus! {

/// A coordinate in an image's grid.
#[derive(Debug, Clone, Copy, PartialEq, Eq, Structural)]
pub struct Point {
    /// Column
    pub x: usize,
    /// Row
    pub y: usize,
}

/// The extent of an image or a region.
#[derive(Debug, Clone, Copy, PartialEq, Eq, Structural)]
pub struct Size {
    /// Number of columns
    pub width: usize,
    /// Number of rows
    pub height: usize,
}

/// An axis-aligned rectangle: the points `(x, y)` with
/// `point.x <= x < point.x + size.width` and `point.y <= y < point.y + size.height`.
#[derive(Debug, Clone, Copy, PartialEq, Eq, Structural)]
pub struct Region {
    /// Top-left corner
    pub point: Point,
    /// Extent
    pub size: Size,
}

impl Point {
    /// Create a point from its column and row.
    pub fn new(x: usize, y: usize) -> (pt: Point)
        ensures
            pt == (Point { x, y }),
    {
        Point { x, y }
    }
}

impl Size {
    /// Create a size from its width and height.
    pub fn new(width: usize, height: usize) -> (size: Size)
        ensures
            size == (Size { width, height }),
    {
        Size { width, height }
    }

    /// Whether `pt` is a coordinate of a grid of this size.
    pub open spec fn contains(self, pt: Point) -> bool {
        pt.x < self.width && pt.y < self.height
    }

    /// Whether `pt` is a coordinate of a grid of this size.
    pub fn has_point(&self, pt: Point) -> (inside: bool)
        ensures
            inside == self.contains(pt),
    {
        pt.x < self.width && pt.y < self.height
    }
}

impl Region {
    /// Create a region from its top-left corner and its extent.
    pub fn new(point: Point, size: Size) -> (region: Region)
        ensures
            region == (Region { point, size }),
    {
        Region { point, size }
    }

    /// Whether `pt` lies in the region.
    pub open spec fn contains(self, pt: Point) -> bool {
        &&& self.point.x <= pt.x < self.point.x + self.size.width
        &&& self.point.y <= pt.y < self.point.y + self.size.height
    }

    /// Whether `pt` lies in the region.
    pub fn has_point(&self, pt: Point) -> (inside: bool)
        ensures
            inside == self.contains(pt),
    {
        pt.x >= self.point.x && pt.x - self.point.x < self.size.width && pt.y >= self.point.y
            && pt.y - self.point.y < self.size.height
    }
}

} // verus!
