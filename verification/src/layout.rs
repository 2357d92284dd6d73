//! Cell coordinates and rectangular areas of the terminal.
//!
//! These are the plain-value forms of the positions and areas that the widgets of this crate
//! read. The terminal's origin is the top-left corner; `x` grows to the right, `y` downwards.
use vstd::prelude::*;

verus! {

/// A cell position on the terminal.
#[derive(Clone, Copy, Debug, PartialEq, Eq, Structural)]
pub struct Position {
    pub x: u16,
    pub y: u16,
}

impl Position {
    /// A position from its column and row.
    pub fn new(x: u16, y: u16) -> (p: Position)
        ensures
            p.x == x,
            p.y == y,
    {
        Position { x, y }
    }
}

/// A rectangular area of the terminal: its top-left corner and its size in cells.
#[derive(Clone, Copy, Debug, PartialEq, Eq, Structural)]
pub struct Rect {
    pub x: u16,
    pub y: u16,
    pub width: u16,
    pub height: u16,
}

/// `a + b`, held at `u16::MAX` where it would go beyond it.
pub open spec fn sat_add(a: u16, b: u16) -> u16 {
    if a + b > u16::MAX {
        u16::MAX
    } else {
        (a + b) as u16
    }
}

impl Rect {
    /// The first column right of the area (held at `u16::MAX`).
    pub open spec fn right_spec(self) -> u16 {
        sat_add(self.x, self.width)
    }

    /// The first row below the area (held at `u16::MAX`).
    pub open spec fn bottom_spec(self) -> u16 {
        sat_add(self.y, self.height)
    }

    /// Whether the cell at column `x` and row `y` lies inside the area.
    pub open spec fn holds(self, x: int, y: int) -> bool {
        &&& self.x <= x < self.right_spec()
        &&& self.y <= y < self.bottom_spec()
    }

    /// The number of columns that the area really spans.
    pub open spec fn cols(self) -> nat {
        (self.right_spec() - self.x) as nat
    }

    /// The number of rows that the area really spans.
    pub open spec fn rows(self) -> nat {
        (self.bottom_spec() - self.y) as nat
    }

    /// The cells of the area, row by row from the top, each row from the left.
    pub open spec fn cells(self) -> Seq<Position> {
        Seq::new(
            self.cols() * self.rows(),
            |i: int|
                Position {
                    x: (self.x + i % (self.cols() as int)) as u16,
                    y: (self.y + i / (self.cols() as int)) as u16,
                },
        )
    }

    /// An area from its corner and size; the size is cut so that the area ends within `u16`.
    pub fn new(x: u16, y: u16, width: u16, height: u16) -> (r: Rect)
        ensures
            r.x == x,
            r.y == y,
            r.width == sat_add(x, width) - x,
            r.height == sat_add(y, height) - y,
    {
        let w: u16 = x.saturating_add(width) - x;
        let h: u16 = y.saturating_add(height) - y;
        Rect { x, y, width: w, height: h }
    }

    /// The first column right of the area.
    pub fn right(self) -> (r: u16)
        ensures
            r == self.right_spec(),
    {
        self.x.saturating_add(self.width)
    }

    /// The first row below the area.
    pub fn bottom(self) -> (r: u16)
        ensures
            r == self.bottom_spec(),
    {
        self.y.saturating_add(self.height)
    }

    /// Whether `p` lies inside the area (on its border counts as inside).
    pub fn contains(self, p: Position) -> (r: bool)
        ensures
            r == self.holds(p.x as int, p.y as int),
    {
        p.x >= self.x && p.x < self.right() && p.y >= self.y && p.y < self.bottom()
    }

    /// Every cell of the area, row by row from the top, each row from the left.
    pub fn positions(self) -> (v: Vec<Position>)
        ensures
            v@ == self.cells(),
    {
        let right = self.right();
        let bottom = self.bottom();
        let ghost cols = self.cols() as int;
        let mut v: Vec<Position> = Vec::new();
        if right == self.x {
            assert(self.cells() =~= Seq::<Position>::empty());
            return v;
        }
        let mut y = self.y;
        while y < bottom
            invariant
                right == self.right_spec(),
                bottom == self.bottom_spec(),
                cols == self.cols(),
                cols > 0,
                self.y <= y <= bottom,
                v@ =~= self.cells().take((y - self.y) * cols),
            decreases bottom - y,
        {
            let mut x = self.x;
            while x < right
                invariant
                    right == self.right_spec(),
                    bottom == self.bottom_spec(),
                    cols == self.cols(),
                    cols > 0,
                    self.y <= y < bottom,
                    self.x <= x <= right,
                    v@ =~= self.cells().take((y - self.y) * cols + (x - self.x)),
                decreases right - x,
            {
                proof {
                    let i = (y - self.y) * cols + (x - self.x);
                    lemma_cell_index(self, y - self.y, x - self.x);
                    assert(self.cells().take(i + 1) =~= self.cells().take(i).push(
                        Position { x, y },
                    ));
                }
                v.push(Position { x, y });
                x = x + 1;
            }
            proof {
                let r = y - self.y;
                assert(r * cols + cols == (r + 1) * cols) by (nonlinear_arith);
            }
            y = y + 1;
        }
        proof {
            assert((bottom - self.y) * cols == self.cols() * self.rows()) by (nonlinear_arith)
                requires
                    cols == self.cols(),
                    bottom - self.y == self.rows(),
            ;
        }
        v
    }
}

/// The cell in row `r` and column `c` of an area stands at index `r * cols + c` of its cells.
pub proof fn lemma_cell_index(area: Rect, r: int, c: int)
    requires
        0 <= r < area.rows(),
        0 <= c < area.cols(),
    ensures
        0 <= r * area.cols() + c < area.cols() * area.rows(),
        area.cells()[r * area.cols() + c] == (Position {
            x: (area.x + c) as u16,
            y: (area.y + r) as u16,
        }),
{
    let n = area.cols() as int;
    let i = r * n + c;
    assert(0 <= i < n * area.rows()) by (nonlinear_arith)
        requires
            0 <= r < area.rows(),
            0 <= c < n,
            i == r * n + c,
    ;
    assert(i % n == c && i / n == r) by (nonlinear_arith)
        requires
            0 <= c < n,
            i == r * n + c,
            0 <= r,
    ;
}

/// The `i`-th cell of an area lies in the area.
pub proof fn lemma_cell_in_area(area: Rect, i: int)
    requires
        0 <= i < area.cells().len(),
    ensures
        area.holds(area.cells()[i].x as int, area.cells()[i].y as int),
{
    let n = area.cols() as int;
    let r = i / n;
    let c = i % n;
    assert(n > 0 && area.rows() > 0) by (nonlinear_arith)
        requires
            0 <= i < n * area.rows(),
            n >= 0,
    ;
    assert(0 <= r < area.rows() && 0 <= c < n && i == r * n + c) by (nonlinear_arith)
        requires
            0 <= i < n * area.rows(),
            n > 0,
            r == i / n,
            c == i % n,
    ;
    lemma_cell_index(area, r, c);
}

/// The cells of an area are exactly the positions that it contains: each listed cell lies in
/// the area, and each position in the area is listed.
pub proof fn lemma_cells_are_area(area: Rect)
    ensures
        forall|i: int|
            0 <= i < area.cells().len() ==> area.holds(
                #[trigger] area.cells()[i].x as int,
                area.cells()[i].y as int,
            ),
        forall|x: int, y: int|
            #[trigger] area.holds(x, y) ==> exists|i: int|
                0 <= i < area.cells().len() && #[trigger] area.cells()[i] == (Position {
                    x: x as u16,
                    y: y as u16,
                }),
{
    assert forall|i: int| 0 <= i < area.cells().len() implies area.holds(
        #[trigger] area.cells()[i].x as int,
        area.cells()[i].y as int,
    ) by {
        lemma_cell_in_area(area, i);
    }
    assert forall|x: int, y: int| #[trigger] area.holds(x, y) implies exists|i: int|
        0 <= i < area.cells().len() && #[trigger] area.cells()[i] == (Position {
            x: x as u16,
            y: y as u16,
        }) by {
        lemma_cell_index(area, y - area.y, x - area.x);
        let i = (y - area.y) * area.cols() + (x - area.x);
        assert(area.cells()[i] == Position { x: x as u16, y: y as u16 });
    }
}

} // verus!
