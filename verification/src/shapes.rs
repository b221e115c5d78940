//! Geometry primitives: points, rectangles, circles and lines.
//!
//! Rectangles and circles are the shapes the rasterizer consumes; their
//! coordinates are unsigned 32-bit pixel units. Points and lines are
//! generic value types with no arithmetic of their own.

use vstd::prelude::*;

verus! {

/// A 2D point or extent, generic over the scalar type.
pub struct Vec2<T> {
    pub x: T,
    pub y: T,
}

impl<T> Vec2<T> {
    pub fn new(x: T, y: T) -> (v: Vec2<T>)
        ensures
            v.x == x,
            v.y == y,
    {
        Vec2 { x, y }
    }
}

/// An axis-aligned rectangle in pixel coordinates. Width and height are
/// intended non-negative by type; nothing constrains them otherwise.
#[derive(Clone, Copy)]
pub struct Rect {
    pub x: u32,
    pub y: u32,
    pub width: u32,
    pub height: u32,
}

impl Rect {
    /// The degenerate rectangle at the origin with no extent.
    pub fn null() -> (r: Rect)
        ensures
            r.x == 0 && r.y == 0 && r.width == 0 && r.height == 0,
    {
        Rect { x: 0, y: 0, width: 0, height: 0 }
    }

    pub fn new(x: u32, y: u32, width: u32, height: u32) -> (r: Rect)
        ensures
            r.x == x && r.y == y && r.width == width && r.height == height,
    {
        Rect { x, y, width, height }
    }

    pub fn resize(&mut self, width: u32, height: u32)
        ensures
            final(self).width == width,
            final(self).height == height,
            final(self).x == old(self).x,
            final(self).y == old(self).y,
    {
        self.width = width;
        self.height = height;
    }

    pub fn get_pos(&self) -> (v: Vec2<u32>)
        ensures
            v.x == self.x,
            v.y == self.y,
    {
        Vec2::new(self.x, self.y)
    }

    pub fn get_size(&self) -> (v: Vec2<u32>)
        ensures
            v.x == self.width,
            v.y == self.height,
    {
        Vec2::new(self.width, self.height)
    }

    pub fn set_pos(&mut self, x: u32, y: u32)
        ensures
            final(self).x == x,
            final(self).y == y,
            final(self).width == old(self).width,
            final(self).height == old(self).height,
    {
        self.x = x;
        self.y = y;
    }

    /// Translates the position by the given offsets.
    pub fn set_xy(&mut self, x: u32, y: u32)
        requires
            old(self).x + x <= u32::MAX,
            old(self).y + y <= u32::MAX,
        ensures
            final(self).x == old(self).x + x,
            final(self).y == old(self).y + y,
            final(self).width == old(self).width,
            final(self).height == old(self).height,
    {
        self.x = self.x + x;
        self.y = self.y + y;
    }

    /// Translates the position; the vertical offset is applied to the
    /// already-updated horizontal coordinate, not to the old vertical one.
    pub fn move_by(&mut self, x: u32, y: u32)
        requires
            old(self).x + x <= u32::MAX,
            old(self).x + x + y <= u32::MAX,
        ensures
            final(self).x == old(self).x + x,
            final(self).y == old(self).x + x + y,
            final(self).width == old(self).width,
            final(self).height == old(self).height,
    {
        self.x = self.x + x;
        self.y = self.x + y;
    }

    /// Scales the height by the ratio `enumer / denom`, dividing first,
    /// so the quotient is truncated before it is multiplied.
    pub fn scale_height(&mut self, enumer: u32, denom: u32)
        requires
            denom != 0,
            (old(self).height / denom) * enumer <= u32::MAX,
        ensures
            final(self).height == (old(self).height / denom) * enumer,
            final(self).width == old(self).width,
            final(self).x == old(self).x,
            final(self).y == old(self).y,
    {
        self.height = self.height / denom;
        self.height = self.height * enumer;
    }

    /// Scales the width by the ratio `enumer / denom`, dividing first.
    pub fn scale_width(&mut self, enumer: u32, denom: u32)
        requires
            denom != 0,
            (old(self).width / denom) * enumer <= u32::MAX,
        ensures
            final(self).width == (old(self).width / denom) * enumer,
            final(self).height == old(self).height,
            final(self).x == old(self).x,
            final(self).y == old(self).y,
    {
        self.width = self.width / denom;
        self.width = self.width * enumer;
    }

    /// Scales both extents by the ratio `enumer / denom`, dividing first.
    pub fn scale_by(&mut self, enumer: u32, denom: u32)
        requires
            denom != 0,
            (old(self).width / denom) * enumer <= u32::MAX,
            (old(self).height / denom) * enumer <= u32::MAX,
        ensures
            final(self).width == (old(self).width / denom) * enumer,
            final(self).height == (old(self).height / denom) * enumer,
            final(self).x == old(self).x,
            final(self).y == old(self).y,
    {
        self.width = self.width / denom;
        self.width = self.width * enumer;
        self.height = self.height / denom;
        self.height = self.height * enumer;
    }

    pub fn set_height(&mut self, height: u32)
        ensures
            final(self).height == height,
            final(self).width == old(self).width,
            final(self).x == old(self).x,
            final(self).y == old(self).y,
    {
        self.height = height;
    }

    pub fn set_width(&mut self, width: u32)
        ensures
            final(self).width == width,
            final(self).height == old(self).height,
            final(self).x == old(self).x,
            final(self).y == old(self).y,
    {
        self.width = width;
    }
}

/// A circle in pixel coordinates: a center and a radius. The radius is
/// intended non-negative by type; nothing constrains it otherwise.
#[derive(Clone, Copy)]
pub struct Circle {
    pub x: u32,
    pub y: u32,
    pub radius: u32,
}

impl Circle {
    pub fn new(x: u32, y: u32, radius: u32) -> (c: Circle)
        ensures
            c.x == x && c.y == y && c.radius == radius,
    {
        Circle { x, y, radius }
    }

    pub fn get_radius(&self) -> (r: u32)
        ensures
            r == self.radius,
    {
        self.radius
    }

    pub fn get_pos(&self) -> (v: Vec2<u32>)
        ensures
            v.x == self.x,
            v.y == self.y,
    {
        Vec2::new(self.x, self.y)
    }

    pub fn set_radius(&mut self, radius: u32)
        ensures
            final(self).radius == radius,
            final(self).x == old(self).x,
            final(self).y == old(self).y,
    {
        self.radius = radius;
    }

    pub fn set_pos(&mut self, x: u32, y: u32)
        ensures
            final(self).x == x,
            final(self).y == y,
            final(self).radius == old(self).radius,
    {
        self.x = x;
        self.y = y;
    }
}

/// A line segment between two points. The rasterizer does not consume
/// lines; the type is kept for completeness.
pub struct Line<T> {
    pub from: Vec2<T>,
    pub to: Vec2<T>,
}

impl<T: Copy> Line<T> {
    pub fn between(p1: Vec2<T>, p2: Vec2<T>) -> (l: Line<T>)
        ensures
            l.from == p1,
            l.to == p2,
    {
        Line { from: p1, to: p2 }
    }
}

} // verus!
