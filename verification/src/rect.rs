//! Axis-aligned rectangles in cell coordinates.

use vstd::prelude::*;

verus! {

/// The largest coordinate a cell or an edge can have.
pub open spec fn coord_max() -> int {
    u16::MAX as int
}

/// One cell of the drawing surface: column `x`, row `y`.
#[derive(Debug, Clone, Copy, PartialEq, Eq, Structural)]
pub struct Position {
    pub x: u16,
    pub y: u16,
}

/// A rectangular region: origin `(x, y)`, `width` columns, `height` rows.
///
/// A rectangle with no width or no height covers no cell and is still a
/// valid value.
#[derive(Debug, Clone, Copy, PartialEq, Eq, Structural)]
pub struct Rect {
    pub x: u16,
    pub y: u16,
    pub width: u16,
    pub height: u16,
}

impl Rect {
    /// First column of the rectangle.
    pub open spec fn left_edge(self) -> int {
        self.x as int
    }

    /// First column to the right of the rectangle.
    pub open spec fn right_edge(self) -> int {
        self.x + self.width
    }

    /// First row of the rectangle.
    pub open spec fn top_edge(self) -> int {
        self.y as int
    }

    /// First row below the rectangle.
    pub open spec fn bottom_edge(self) -> int {
        self.y + self.height
    }

    /// Both far edges are coordinates a `u16` can hold.
    pub open spec fn in_bounds(self) -> bool {
        self.right_edge() <= coord_max() && self.bottom_edge() <= coord_max()
    }

    /// The cell at column `col`, row `row` lies in the rectangle.
    pub open spec fn covers(self, col: int, row: int) -> bool {
        self.left_edge() <= col < self.right_edge() && self.top_edge() <= row < self.bottom_edge()
    }

    /// The set of cells the rectangle covers.
    pub open spec fn cells(self) -> Set<(int, int)> {
        Set::new(|c: (int, int)| self.covers(c.0, c.1))
    }

    /// Every cell of `self` is a cell of `outer`.
    pub open spec fn within(self, outer: Rect) -> bool {
        forall|col: int, row: int| self.covers(col, row) ==> outer.covers(col, row)
    }

    /// The rectangle at `(x, y)`, its width and height cut back so that the
    /// far edges stay representable.
    pub fn new(x: u16, y: u16, width: u16, height: u16) -> (r: Rect)
        ensures
            r.x == x,
            r.y == y,
            r.width as int == if x + width <= coord_max() { width as int } else { coord_max() - x },
            r.height as int == if y + height <= coord_max() { height as int } else { coord_max() - y },
            r.in_bounds(),
    {
        let max_width: u16 = u16::MAX - x;
        let max_height: u16 = u16::MAX - y;
        Rect {
            x,
            y,
            width: if width <= max_width { width } else { max_width },
            height: if height <= max_height { height } else { max_height },
        }
    }

    /// Number of cells covered.
    pub fn area(&self) -> (a: u32)
        ensures
            a as int == self.width * self.height,
    {
        assert(self.width * self.height <= 0xffff * 0xffff) by (nonlinear_arith)
            requires
                self.width <= 0xffff,
                self.height <= 0xffff,
        ;
        (self.width as u32) * (self.height as u32)
    }

    /// Whether the rectangle covers no cell at all.
    pub fn is_empty(&self) -> (e: bool)
        ensures
            e <==> (self.width == 0 || self.height == 0),
            e <==> self.cells() =~= Set::<(int, int)>::empty(),
    {
        proof {
            if self.width != 0 && self.height != 0 {
                assert(self.cells().contains((self.x as int, self.y as int)));
            }
        }
        self.width == 0 || self.height == 0
    }

    /// First column of the rectangle.
    pub fn left(&self) -> (v: u16)
        ensures
            v as int == self.left_edge(),
    {
        self.x
    }

    /// First column to the right of the rectangle, or the largest coordinate
    /// where that column is past it.
    pub fn right(&self) -> (v: u16)
        ensures
            v as int == if self.right_edge() <= coord_max() { self.right_edge() } else { coord_max() },
    {
        self.x.saturating_add(self.width)
    }

    /// First row of the rectangle.
    pub fn top(&self) -> (v: u16)
        ensures
            v as int == self.top_edge(),
    {
        self.y
    }

    /// First row below the rectangle, or the largest coordinate where that
    /// row is past it.
    pub fn bottom(&self) -> (v: u16)
        ensures
            v as int == if self.bottom_edge() <= coord_max() { self.bottom_edge() } else { coord_max() },
    {
        self.y.saturating_add(self.height)
    }

    /// Whether the cell at `position` lies in the rectangle.
    pub fn contains(&self, position: Position) -> (b: bool)
        ensures
            b == self.covers(position.x as int, position.y as int),
    {
        let col: u32 = position.x as u32;
        let row: u32 = position.y as u32;
        let x: u32 = self.x as u32;
        let y: u32 = self.y as u32;
        col >= x && col < x + self.width as u32 && row >= y && row < y + self.height as u32
    }

    /// Whether the two rectangles share a cell.
    pub fn intersects(&self, other: &Rect) -> (b: bool)
        ensures
            b <==> exists|col: int, row: int| self.covers(col, row) && other.covers(col, row),
    {
        let l: u32 = if self.x >= other.x { self.x as u32 } else { other.x as u32 };
        let t: u32 = if self.y >= other.y { self.y as u32 } else { other.y as u32 };
        let r1: u32 = self.x as u32 + self.width as u32;
        let r2: u32 = other.x as u32 + other.width as u32;
        let b1: u32 = self.y as u32 + self.height as u32;
        let b2: u32 = other.y as u32 + other.height as u32;
        let r: u32 = if r1 <= r2 { r1 } else { r2 };
        let b: u32 = if b1 <= b2 { b1 } else { b2 };
        proof {
            if l < r && t < b {
                assert(self.covers(l as int, t as int) && other.covers(l as int, t as int));
            }
        }
        l < r && t < b
    }

    /// The rectangle of the cells that both cover. Where they share none, the
    /// result has no width or no height.
    pub fn intersection(&self, other: &Rect) -> (r: Rect)
        ensures
            r.cells() =~= self.cells().intersect(other.cells()),
            r.x as int == if self.x >= other.x { self.x as int } else { other.x as int },
            r.y as int == if self.y >= other.y { self.y as int } else { other.y as int },
            (self.in_bounds() || other.in_bounds()) ==> r.in_bounds(),
    {
        let l: u32 = if self.x >= other.x { self.x as u32 } else { other.x as u32 };
        let t: u32 = if self.y >= other.y { self.y as u32 } else { other.y as u32 };
        let r1: u32 = self.x as u32 + self.width as u32;
        let r2: u32 = other.x as u32 + other.width as u32;
        let b1: u32 = self.y as u32 + self.height as u32;
        let b2: u32 = other.y as u32 + other.height as u32;
        let r: u32 = if r1 <= r2 { r1 } else { r2 };
        let b: u32 = if b1 <= b2 { b1 } else { b2 };
        let out = Rect {
            x: l as u16,
            y: t as u16,
            width: if r > l { (r - l) as u16 } else { 0 },
            height: if b > t { (b - t) as u16 } else { 0 },
        };
        out
    }
}

} // verus!
