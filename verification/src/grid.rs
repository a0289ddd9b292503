//! The bounded coordinate space in which every agent lives.

use vstd::prelude::*;

verus! {

/// A cell, by column and row.
#[derive(Clone, Copy, Debug, PartialEq, Eq, Structural)]
pub struct Position {
    pub x: u32,
    pub y: u32,
}

/// The extent of the map: columns `0..width` and rows `0..height`.
#[derive(Clone, Copy, Debug, PartialEq, Eq, Structural)]
pub struct Grid {
    pub width: u32,
    pub height: u32,
}

/// The distance between two coordinates on one axis.
pub open spec fn axis_gap(a: u32, b: u32) -> nat {
    if a <= b {
        (b - a) as nat
    } else {
        (a - b) as nat
    }
}

/// The number of single-cell steps between two cells.
pub open spec fn manhattan(a: Position, b: Position) -> nat {
    axis_gap(a.x, b.x) + axis_gap(a.y, b.y)
}

/// The square of the straight-line distance between two cells.
pub open spec fn distance_squared(a: Position, b: Position) -> nat {
    axis_gap(a.x, b.x) * axis_gap(a.x, b.x) + axis_gap(a.y, b.y) * axis_gap(a.y, b.y)
}

/// A coordinate pulled back into `0..size`.
pub open spec fn clamp_axis(v: int, size: u32) -> u32
    recommends
        size >= 1,
{
    if v < 0 {
        0
    } else if v >= size {
        (size - 1) as u32
    } else {
        v as u32
    }
}

impl Position {
    pub fn new(x: u32, y: u32) -> (p: Position)
        ensures
            p.x == x,
            p.y == y,
    {
        Position { x, y }
    }

    /// The number of single-cell steps from here to `other`.
    pub fn manhattan_to(&self, other: Position) -> (d: u64)
        ensures
            d == manhattan(*self, other),
    {
        let dx: u64 = gap(self.x, other.x);
        let dy: u64 = gap(self.y, other.y);
        dx + dy
    }

    /// The square of the straight-line distance from here to `other`.
    pub fn distance_squared_to(&self, other: Position) -> (d: u128)
        ensures
            d == distance_squared(*self, other),
    {
        let dx: u128 = gap(self.x, other.x) as u128;
        let dy: u128 = gap(self.y, other.y) as u128;
        assert(dx * dx <= 0xffff_ffff * 0xffff_ffff) by (nonlinear_arith)
            requires
                dx <= 0xffff_ffff,
        ;
        assert(dy * dy <= 0xffff_ffff * 0xffff_ffff) by (nonlinear_arith)
            requires
                dy <= 0xffff_ffff,
        ;
        dx * dx + dy * dy
    }
}

/// The distance between two coordinates on one axis.
pub fn gap(a: u32, b: u32) -> (d: u64)
    ensures
        d == axis_gap(a, b),
        d <= u32::MAX,
{
    if a <= b {
        (b - a) as u64
    } else {
        (a - b) as u64
    }
}

impl Grid {
    /// A grid has at least one column and one row.
    pub open spec fn wf(&self) -> bool {
        self.width >= 1 && self.height >= 1
    }

    /// Whether `p` lies on the map.
    pub open spec fn holds(&self, p: Position) -> bool {
        p.x < self.width && p.y < self.height
    }

    /// The cell of the map nearest to the point `(x, y)`.
    pub open spec fn nearest(&self, x: int, y: int) -> Position {
        Position { x: clamp_axis(x, self.width), y: clamp_axis(y, self.height) }
    }

    /// A grid of the given extent, or nothing where it would have no cell.
    pub fn new(width: u32, height: u32) -> (g: Option<Grid>)
        ensures
            (width >= 1 && height >= 1) ==> g == Some(Grid { width, height }),
            !(width >= 1 && height >= 1) ==> g.is_none(),
    {
        if width >= 1 && height >= 1 {
            Some(Grid { width, height })
        } else {
            None
        }
    }

    pub fn is_valid(&self) -> (b: bool)
        ensures
            b == self.wf(),
    {
        self.width >= 1 && self.height >= 1
    }

    pub fn contains(&self, p: Position) -> (b: bool)
        ensures
            b == self.holds(p),
    {
        p.x < self.width && p.y < self.height
    }

    /// Pulls a cell back onto the map, axis by axis.
    pub fn clamp(&self, p: Position) -> (q: Position)
        requires
            self.wf(),
        ensures
            q == self.nearest(p.x as int, p.y as int),
            self.holds(q),
    {
        self.clamp_point(p.x as i64, p.y as i64)
    }

    /// The cell of the map nearest to a point that may lie off it.
    pub fn clamp_point(&self, x: i64, y: i64) -> (q: Position)
        requires
            self.wf(),
        ensures
            q == self.nearest(x as int, y as int),
            self.holds(q),
    {
        Position { x: clamp_coordinate(x, self.width), y: clamp_coordinate(y, self.height) }
    }
}

/// A coordinate pulled back into `0..size`.
pub fn clamp_coordinate(v: i64, size: u32) -> (c: u32)
    requires
        size >= 1,
    ensures
        c == clamp_axis(v as int, size),
        c < size,
{
    if v < 0 {
        0
    } else if v >= size as i64 {
        size - 1
    } else {
        v as u32
    }
}

/// Clamping leaves a cell of the map where it is.
pub proof fn lemma_clamp_inside(g: Grid, p: Position)
    requires
        g.wf(),
        g.holds(p),
    ensures
        g.nearest(p.x as int, p.y as int) == p,
{
}

} // verus!
