use vstd::prelude::*;

verus! {

/// A cell position on a text pane; `x` is the column, `y` the row.
#[derive(Clone, Copy, Debug, Default, PartialEq, Eq, Structural)]
pub struct Position {
    pub x: i32,
    pub y: i32,
}

impl Position {
    pub fn new(x: i32, y: i32) -> (res: Self)
        ensures
            res.x == x,
            res.y == y,
    {
        Position { x, y }
    }
}

/// A width and a height in cells.
#[derive(Clone, Copy, Debug, Default, PartialEq, Eq, Structural)]
pub struct Size {
    pub width: usize,
    pub height: usize,
}

impl Size {
    pub fn new(width: usize, height: usize) -> (res: Self)
        ensures
            res.width == width,
            res.height == height,
    {
        Size { width, height }
    }
}

/// A rectangle given by its upper left corner and its size.
#[derive(Clone, Copy, Debug, Default, PartialEq, Eq, Structural)]
pub struct Rectangle {
    pub start: Position,
    pub size: Size,
}

/// The rectangle's extent fits the coordinate range: its lower right corner is
/// a valid position.
pub open spec fn rect_in_range(r: Rectangle) -> bool {
    &&& r.size.width <= i32::MAX
    &&& r.size.height <= i32::MAX
    &&& r.start.x + r.size.width <= i32::MAX
    &&& r.start.y + r.size.height <= i32::MAX
}

/// Whether `p` lies inside `r`, both borders included.
pub open spec fn rect_has_point(r: Rectangle, p: Position) -> bool {
    &&& r.start.x <= p.x <= r.start.x + r.size.width
    &&& r.start.y <= p.y <= r.start.y + r.size.height
}

/// Whether `p` lies inside `r`: from its start up to, not including, its end.
pub open spec fn rect_is_inside(r: Rectangle, p: Position) -> bool {
    &&& r.start.x <= p.x < r.start.x + r.size.width
    &&& r.start.y <= p.y < r.start.y + r.size.height
}

pub open spec fn max_int(a: int, b: int) -> int {
    if a < b { b } else { a }
}

pub open spec fn min_int2(a: int, b: int) -> int {
    if a < b { a } else { b }
}

/// The rectangle that `a` and `b` share: it starts at the larger start of
/// each axis and ends at the smaller end; where they do not overlap on an
/// axis its extent there is 0.
pub open spec fn rect_intersect(a: Rectangle, b: Rectangle) -> Rectangle {
    let x0 = max_int(a.start.x as int, b.start.x as int);
    let y0 = max_int(a.start.y as int, b.start.y as int);
    let x1 = min_int2(a.start.x + a.size.width, b.start.x + b.size.width);
    let y1 = min_int2(a.start.y + a.size.height, b.start.y + b.size.height);
    Rectangle {
        start: Position { x: x0 as i32, y: y0 as i32 },
        size: Size {
            width: if x1 > x0 { (x1 - x0) as usize } else { 0 },
            height: if y1 > y0 { (y1 - y0) as usize } else { 0 },
        },
    }
}

pub open spec fn abs_int(v: int) -> int {
    if v < 0 { -v } else { v }
}

impl Rectangle {
    pub fn new(start: Position, size: Size) -> (res: Self)
        ensures
            res.start == start,
            res.size == size,
    {
        Rectangle { start, size }
    }

    pub fn from(x: i32, y: i32, width: usize, height: usize) -> (res: Self)
        ensures
            res.start == (Position { x, y }),
            res.size == (Size { width, height }),
    {
        Rectangle { start: Position::new(x, y), size: Size::new(width, height) }
    }

    /// The rectangle whose upper left corner is `(x1, y1)` and whose lower
    /// right corner is `(x2, y2)`, both included.
    pub fn from_coords(x1: i32, y1: i32, x2: i32, y2: i32) -> (res: Self)
        requires
            x1 <= x2,
            y1 <= y2,
            x2 - x1 <= i32::MAX,
            y2 - y1 <= i32::MAX,
        ensures
            res.start == (Position { x: x1, y: y1 }),
            res.size.width == x2 - x1 + 1,
            res.size.height == y2 - y1 + 1,
    {
        let w = (x2 - x1) as usize + 1;
        let h = (y2 - y1) as usize + 1;
        Rectangle { start: Position::new(x1, y1), size: Size::new(w, h) }
    }

    /// The rectangle that starts at the smaller coordinates of both points; its
    /// size is the distance between the points on each axis.
    pub fn from_pt(p1: Position, p2: Position) -> (res: Self)
        requires
            i32::MIN <= p1.x - p2.x <= i32::MAX,
            i32::MIN <= p1.y - p2.y <= i32::MAX,
        ensures
            res.start.x == if p1.x <= p2.x { p1.x } else { p2.x },
            res.start.y == if p1.y <= p2.y { p1.y } else { p2.y },
            res.size.width == abs_int(p1.x - p2.x),
            res.size.height == abs_int(p1.y - p2.y),
    {
        let sx = if p1.x <= p2.x { p1.x } else { p2.x };
        let sy = if p1.y <= p2.y { p1.y } else { p2.y };
        let ddx: i32 = p1.x - p2.x;
        let ddy: i32 = p1.y - p2.y;
        let dx: usize = if ddx < 0 { (-(ddx as i64)) as usize } else { ddx as usize };
        let dy: usize = if ddy < 0 { (-(ddy as i64)) as usize } else { ddy as usize };
        Rectangle { start: Position::new(sx, sy), size: Size::new(dx, dy) }
    }

    pub fn lower_right(&self) -> (res: Position)
        requires
            rect_in_range(*self),
        ensures
            res.x == self.start.x + self.size.width,
            res.y == self.start.y + self.size.height,
    {
        Position { x: self.start.x + self.size.width as i32, y: self.start.y + self.size.height as i32 }
    }

    pub fn contains_pt(&self, point: Position) -> (res: bool)
        requires
            rect_in_range(*self),
        ensures
            res == rect_has_point(*self, point),
    {
        let right = self.start.x + self.size.width as i32;
        let bottom = self.start.y + self.size.height as i32;
        self.start.x <= point.x && point.x <= right && self.start.y <= point.y && point.y <= bottom
    }

    pub fn contains_rect(&self, other: &Rectangle) -> (res: bool)
        requires
            rect_in_range(*self),
            rect_in_range(*other),
        ensures
            res == (rect_has_point(*self, other.start) && rect_has_point(
                *self,
                Position {
                    x: (other.start.x + other.size.width) as i32,
                    y: (other.start.y + other.size.height) as i32,
                },
            )),
    {
        self.contains_pt(other.start) && self.contains_pt(other.lower_right())
    }

    /// Whether `p` lies inside the rectangle, its end excluded.
    pub fn is_inside(&self, p: Position) -> (res: bool)
        ensures
            res == rect_is_inside(*self, p),
    {
        if p.x < self.start.x || p.y < self.start.y {
            return false;
        }
        let dx = (p.x as i64 - self.start.x as i64) as u64;
        let dy = (p.y as i64 - self.start.y as i64) as u64;
        dx < self.size.width as u64 && dy < self.size.height as u64
    }

    /// Whether the rectangle holds no cell.
    pub fn is_empty(&self) -> (res: bool)
        ensures
            res == (self.size.width == 0 || self.size.height == 0),
    {
        self.size.width == 0 || self.size.height == 0
    }

    /// The rectangle this one shares with `other`; see `rect_intersect`.
    pub fn intersect(&self, other: &Rectangle) -> (res: Rectangle)
        requires
            rect_in_range(*self),
            rect_in_range(*other),
        ensures
            res == rect_intersect(*self, *other),
    {
        let x0 = if self.start.x < other.start.x { other.start.x } else { self.start.x };
        let y0 = if self.start.y < other.start.y { other.start.y } else { self.start.y };
        let ax1 = self.start.x as i64 + self.size.width as i64;
        let bx1 = other.start.x as i64 + other.size.width as i64;
        let ay1 = self.start.y as i64 + self.size.height as i64;
        let by1 = other.start.y as i64 + other.size.height as i64;
        let x1 = if ax1 < bx1 { ax1 } else { bx1 };
        let y1 = if ay1 < by1 { ay1 } else { by1 };
        let width: usize = if x1 > x0 as i64 { (x1 - x0 as i64) as usize } else { 0 };
        let height: usize = if y1 > y0 as i64 { (y1 - y0 as i64) as usize } else { 0 };
        Rectangle { start: Position { x: x0, y: y0 }, size: Size { width, height } }
    }

    pub fn get_width(&self) -> (res: usize)
        ensures
            res == self.size.width,
    {
        self.size.width
    }

    pub fn get_height(&self) -> (res: usize)
        ensures
            res == self.size.height,
    {
        self.size.height
    }
}

/// Containment of rectangles is reflexive: every rectangle in range holds
/// itself.
pub proof fn law_rect_contains_itself(r: Rectangle)
    requires
        rect_in_range(r),
    ensures
        rect_has_point(r, r.start),
        rect_has_point(r, Position { x: (r.start.x + r.size.width) as i32, y: (r.start.y + r.size.height) as i32 }),
{
}

} // verus!
