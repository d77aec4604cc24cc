//! Integer device-space geometry: points, sizes and half-open rectangles.
//!
//! A rectangle is the set of pixels `(x, y)` with `min.x <= x < max.x` and
//! `min.y <= y < max.y`; a rectangle whose `max` is not strictly greater than its `min` in
//! both axes holds no pixel.
use vstd::prelude::*;

verus! {

#[derive(Clone, Copy, PartialEq, Eq, Debug, Structural)]
pub struct DeviceIntPoint {
    pub x: i32,
    pub y: i32,
}

#[derive(Clone, Copy, PartialEq, Eq, Debug, Structural)]
pub struct DeviceIntSize {
    pub width: i32,
    pub height: i32,
}

#[derive(Clone, Copy, PartialEq, Eq, Debug, Structural)]
pub struct DeviceIntRect {
    pub min: DeviceIntPoint,
    pub max: DeviceIntPoint,
}

pub open spec fn min_i32(a: i32, b: i32) -> i32 {
    if a <= b { a } else { b }
}

pub open spec fn max_i32(a: i32, b: i32) -> i32 {
    if a >= b { a } else { b }
}

impl DeviceIntPoint {
    pub fn new(x: i32, y: i32) -> (p: DeviceIntPoint)
        ensures
            p.x == x,
            p.y == y,
    {
        DeviceIntPoint { x, y }
    }
}

impl DeviceIntSize {
    pub fn new(width: i32, height: i32) -> (s: DeviceIntSize)
        ensures
            s.width == width,
            s.height == height,
    {
        DeviceIntSize { width, height }
    }
}

impl DeviceIntRect {
    /// Whether the pixel `(x, y)` lies in the rectangle.
    pub open spec fn has(self, x: int, y: int) -> bool {
        self.min.x <= x < self.max.x && self.min.y <= y < self.max.y
    }

    /// No pixel lies in the rectangle.
    pub open spec fn empty(self) -> bool {
        !(self.max.x > self.min.x && self.max.y > self.min.y)
    }

    /// The componentwise intersection; an empty rectangle where the operands do not meet.
    pub open spec fn meet(self, other: DeviceIntRect) -> DeviceIntRect {
        DeviceIntRect {
            min: DeviceIntPoint {
                x: max_i32(self.min.x, other.min.x),
                y: max_i32(self.min.y, other.min.y),
            },
            max: DeviceIntPoint {
                x: min_i32(self.max.x, other.max.x),
                y: min_i32(self.max.y, other.max.y),
            },
        }
    }

    /// The bounding rectangle of two rectangles; an empty operand contributes nothing.
    pub open spec fn join(self, other: DeviceIntRect) -> DeviceIntRect {
        if other.empty() {
            self
        } else if self.empty() {
            other
        } else {
            DeviceIntRect {
                min: DeviceIntPoint {
                    x: min_i32(self.min.x, other.min.x),
                    y: min_i32(self.min.y, other.min.y),
                },
                max: DeviceIntPoint {
                    x: max_i32(self.max.x, other.max.x),
                    y: max_i32(self.max.y, other.max.y),
                },
            }
        }
    }

    /// Every pixel of `other` lies in `self`, read off the corners.
    pub open spec fn covers(self, other: DeviceIntRect) -> bool {
        other.empty() || (self.min.x <= other.min.x && other.max.x <= self.max.x && self.min.y
            <= other.min.y && other.max.y <= self.max.y)
    }

    pub fn new(min: DeviceIntPoint, max: DeviceIntPoint) -> (r: DeviceIntRect)
        ensures
            r.min == min,
            r.max == max,
    {
        DeviceIntRect { min, max }
    }

    /// The rectangle with its top left corner at `origin` and the given size.
    pub fn from_origin_and_size(origin: DeviceIntPoint, size: DeviceIntSize) -> (r: DeviceIntRect)
        requires
            i32::MIN <= origin.x + size.width <= i32::MAX,
            i32::MIN <= origin.y + size.height <= i32::MAX,
        ensures
            r.min == origin,
            r.max.x == origin.x + size.width,
            r.max.y == origin.y + size.height,
    {
        box_from_origin_and_size(origin, size)
    }

    pub fn is_empty(&self) -> (b: bool)
        ensures
            b == self.empty(),
    {
        !(self.max.x > self.min.x && self.max.y > self.min.y)
    }

    /// The extent of the rectangle.
    pub fn size(&self) -> (s: DeviceIntSize)
        requires
            i32::MIN <= self.max.x - self.min.x <= i32::MAX,
            i32::MIN <= self.max.y - self.min.y <= i32::MAX,
        ensures
            s.width == self.max.x - self.min.x,
            s.height == self.max.y - self.min.y,
    {
        DeviceIntSize { width: self.max.x - self.min.x, height: self.max.y - self.min.y }
    }

    /// The common part of two rectangles, or `None` where they share no pixel.
    pub fn intersection(&self, other: &DeviceIntRect) -> (r: Option<DeviceIntRect>)
        ensures
            r == (if self.meet(*other).empty() {
                None::<DeviceIntRect>
            } else {
                Some(self.meet(*other))
            }),
    {
        box_intersection(*self, *other)
    }

    /// The bounding rectangle of two rectangles.
    pub fn union(&self, other: &DeviceIntRect) -> (r: DeviceIntRect)
        ensures
            r == self.join(*other),
    {
        box_union(*self, *other)
    }

    /// Whether every pixel of `other` lies in `self`.
    pub fn contains_box(&self, other: &DeviceIntRect) -> (b: bool)
        ensures
            b == self.covers(*other),
    {
        box_contains_box(*self, *other)
    }
}

/// Calls `euclid::Box2D::from_origin_and_size`: the box from `origin` to `origin + size`.
/// The sums must fit, as the outside function adds without a check.
#[verifier::external_body]
fn box_from_origin_and_size(origin: DeviceIntPoint, size: DeviceIntSize) -> (r: DeviceIntRect)
    requires
        i32::MIN <= origin.x + size.width <= i32::MAX,
        i32::MIN <= origin.y + size.height <= i32::MAX,
    ensures
        r.min == origin,
        r.max.x == origin.x + size.width,
        r.max.y == origin.y + size.height,
{
    let b = euclid::default::Box2D::from_origin_and_size(
        euclid::default::Point2D::new(origin.x, origin.y),
        euclid::default::Size2D::new(size.width, size.height),
    );
    DeviceIntRect {
        min: DeviceIntPoint { x: b.min.x, y: b.min.y },
        max: DeviceIntPoint { x: b.max.x, y: b.max.y },
    }
}

/// Calls `euclid::Box2D::intersection`: the greatest of the minima and the least of the maxima,
/// or `None` where the box so made is empty.
#[verifier::external_body]
fn box_intersection(a: DeviceIntRect, b: DeviceIntRect) -> (r: Option<DeviceIntRect>)
    ensures
        r == (if a.meet(b).empty() { None::<DeviceIntRect> } else { Some(a.meet(b)) }),
{
    let p = euclid::default::Point2D::<i32>::new;
    let a = euclid::default::Box2D::new(p(a.min.x, a.min.y), p(a.max.x, a.max.y));
    let b = euclid::default::Box2D::new(p(b.min.x, b.min.y), p(b.max.x, b.max.y));
    a.intersection(&b).map(|c| DeviceIntRect {
        min: DeviceIntPoint { x: c.min.x, y: c.min.y },
        max: DeviceIntPoint { x: c.max.x, y: c.max.y },
    })
}

/// Calls `euclid::Box2D::union`: the bounding box of both, where an empty box is passed over.
#[verifier::external_body]
fn box_union(a: DeviceIntRect, b: DeviceIntRect) -> (r: DeviceIntRect)
    ensures
        r == a.join(b),
{
    let p = euclid::default::Point2D::<i32>::new;
    let a = euclid::default::Box2D::new(p(a.min.x, a.min.y), p(a.max.x, a.max.y));
    let b = euclid::default::Box2D::new(p(b.min.x, b.min.y), p(b.max.x, b.max.y));
    let c = a.union(&b);
    DeviceIntRect {
        min: DeviceIntPoint { x: c.min.x, y: c.min.y },
        max: DeviceIntPoint { x: c.max.x, y: c.max.y },
    }
}

/// Calls `euclid::Box2D::contains_box`: whether `a` holds the interior of `b`, an empty `b`
/// always.
#[verifier::external_body]
fn box_contains_box(a: DeviceIntRect, b: DeviceIntRect) -> (r: bool)
    ensures
        r == a.covers(b),
{
    let p = euclid::default::Point2D::<i32>::new;
    let a = euclid::default::Box2D::new(p(a.min.x, a.min.y), p(a.max.x, a.max.y));
    let b = euclid::default::Box2D::new(p(b.min.x, b.min.y), p(b.max.x, b.max.y));
    a.contains_box(&b)
}

/// The corner tests decide the pixel sets: a rectangle covers another exactly where it holds
/// all of its pixels, and the meet holds exactly the common pixels.
pub proof fn law_corners_decide_pixels(a: DeviceIntRect, b: DeviceIntRect)
    ensures
        a.covers(b) <==> forall|x: int, y: int| #[trigger] b.has(x, y) ==> a.has(x, y),
        forall|x: int, y: int| a.meet(b).has(x, y) <==> a.has(x, y) && b.has(x, y),
        forall|x: int, y: int| a.has(x, y) || b.has(x, y) ==> a.join(b).has(x, y),
        a.empty() <==> forall|x: int, y: int| !a.has(x, y),
{
    if !b.empty() {
        assert(b.has(b.min.x as int, b.min.y as int));
        assert(b.has(b.max.x - 1, b.max.y - 1));
    }
    if !a.empty() {
        assert(a.has(a.min.x as int, a.min.y as int));
    }
}

} // verus!
