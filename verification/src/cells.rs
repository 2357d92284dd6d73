//! A canvas shape that paints whole cells given by integer indices.
//!
//! Points given by cell indices rather than by floating-point coordinates are not subject to
//! rounding, which a tile map rendered on a canvas needs. A cell `(x, y)` is painted at grid
//! point `(x - left, top - y)`, where `left` and `top` are the canvas's left and top bounds;
//! cells left of or above the canvas are not painted.
use vstd::prelude::*;

use ratatui_core::style::Color;

verus! {

/// The grid point at which the cell `cell` is painted on a canvas with left bound `left` and top
/// bound `top`, if it is not left of or above the canvas.
pub open spec fn grid_point(cell: (isize, isize), left: int, top: int) -> Option<(usize, usize)> {
    let x = cell.0 - left;
    let y = top - cell.1;
    if x >= 0 && y >= 0 {
        Some((x as usize, y as usize))
    } else {
        None
    }
}

/// The grid points at which `cells` are painted, in the order of the cells.
pub open spec fn grid_points(cells: Seq<(isize, isize)>, left: int, top: int) -> Seq<(usize, usize)>
    decreases cells.len(),
{
    if cells.len() == 0 {
        Seq::empty()
    } else {
        let rest = grid_points(cells.drop_last(), left, top);
        match grid_point(cells.last(), left, top) {
            Some(p) => rest.push(p),
            None => rest,
        }
    }
}

/// Whether `x - left` and `top - y` fit in an `isize` for every cell `(x, y)`.
pub open spec fn offsets_fit(cells: Seq<(isize, isize)>, left: int, top: int) -> bool {
    forall|i: int|
        0 <= i < cells.len() ==> isize::MIN <= #[trigger] cells[i].0 - left <= isize::MAX
            && isize::MIN <= top - cells[i].1 <= isize::MAX
}

/// A canvas shape painting the cells at the given indices in one colour.
pub struct Cells<'a> {
    cells: &'a [(isize, isize)],
    color: Color,
}

impl<'a> Cells<'a> {
    /// The cell indices.
    pub closed spec fn indices(self) -> Seq<(isize, isize)> {
        self.cells@
    }

    /// The colour the cells are painted in.
    pub closed spec fn paint_color(self) -> Color {
        self.color
    }

    /// A shape painting `cells` in `color`.
    pub fn new(cells: &'a [(isize, isize)], color: Color) -> (s: Cells<'a>)
        ensures
            s.indices() == cells@,
            s.paint_color() == color,
    {
        Cells { cells, color }
    }

    /// The cell indices.
    pub fn cells(&self) -> (c: &'a [(isize, isize)])
        ensures
            c@ == self.indices(),
    {
        self.cells
    }

    /// The colour the cells are painted in.
    pub fn color(&self) -> (c: Color)
        ensures
            c == self.paint_color(),
    {
        self.color
    }

    /// The grid points to paint on a canvas with left bound `left` and top bound `top`, in the
    /// order of the cells. The offsets of every cell must fit in an `isize` (computing them
    /// overflows otherwise).
    pub fn points(&self, left: isize, top: isize) -> (v: Vec<(usize, usize)>)
        requires
            offsets_fit(self.indices(), left as int, top as int),
        ensures
            v@ == grid_points(self.indices(), left as int, top as int),
    {
        let mut v: Vec<(usize, usize)> = Vec::new();
        let mut i: usize = 0;
        while i < self.cells.len()
            invariant
                0 <= i <= self.cells@.len(),
                offsets_fit(self.cells@, left as int, top as int),
                v@ == grid_points(self.cells@.take(i as int), left as int, top as int),
            decreases self.cells@.len() - i,
        {
            let (x, y) = self.cells[i];
            proof {
                assert(self.cells@.take(i + 1).drop_last() =~= self.cells@.take(i as int));
                assert(self.cells@[i as int] == (x, y));
            }
            let dx = x - left;
            let dy = top - y;
            if dx >= 0 && dy >= 0 {
                v.push((dx as usize, dy as usize));
            }
            i = i + 1;
        }
        proof {
            assert(self.cells@.take(self.cells@.len() as int) =~= self.cells@);
        }
        v
    }

    /// The grid points to paint as `points` gives them, where every offset fits in an `isize`;
    /// `None` where one does not.
    pub fn points_checked(&self, left: isize, top: isize) -> (v: Option<Vec<(usize, usize)>>)
        ensures
            v is Some == offsets_fit(self.indices(), left as int, top as int),
            v matches Some(p) ==> p@ == grid_points(self.indices(), left as int, top as int),
    {
        let mut i: usize = 0;
        while i < self.cells.len()
            invariant
                0 <= i <= self.cells@.len(),
                forall|j: int|
                    0 <= j < i ==> isize::MIN <= #[trigger] self.cells@[j].0 - left <= isize::MAX
                        && isize::MIN <= top - self.cells@[j].1 <= isize::MAX,
            decreases self.cells@.len() - i,
        {
            let (x, y) = self.cells[i];
            if x.checked_sub(left).is_none() || top.checked_sub(y).is_none() {
                return None;
            }
            i = i + 1;
        }
        Some(self.points(left, top))
    }
}

/// Every painted point is the offset of one of the cells from the canvas's top-left corner, and
/// a cell is painted exactly when it is not left of or above the canvas.
pub proof fn lemma_points_are_offsets(cells: Seq<(isize, isize)>, left: int, top: int)
    ensures
        forall|j: int|
            0 <= j < grid_points(cells, left, top).len() ==> exists|i: int|
                0 <= i < cells.len() && grid_point(cells[i], left, top) == Some(
                    #[trigger] grid_points(cells, left, top)[j],
                ),
        grid_points(cells, left, top).len() <= cells.len(),
    decreases cells.len(),
{
    if cells.len() > 0 {
        let rest = cells.drop_last();
        lemma_points_are_offsets(rest, left, top);
        let g = grid_points(cells, left, top);
        let gr = grid_points(rest, left, top);
        assert forall|j: int| 0 <= j < g.len() implies exists|i: int|
            0 <= i < cells.len() && grid_point(cells[i], left, top) == Some(#[trigger] g[j]) by {
            if j < gr.len() {
                assert(g[j] == gr[j]);
                let i = choose|i: int|
                    0 <= i < rest.len() && grid_point(rest[i], left, top) == Some(#[trigger] gr[j]);
                assert(rest[i] == cells[i]);
            } else {
                assert(grid_point(cells[cells.len() - 1], left, top) == Some(g[j]));
            }
        }
    }
}

/// Whether an offset stays within `2^29` of zero, in either direction.
pub open spec fn small(v: int) -> bool {
    -0x2000_0000 <= v <= 0x2000_0000
}

/// Offsets fit whatever their sign: for cells and canvas bounds of moderate size, `points_checked`
/// refuses nothing, also where cells lie left of or above the canvas (they only lose their own
/// point).
pub proof fn lemma_offsets_fit_either_side(cells: Seq<(isize, isize)>, left: int, top: int)
    requires
        small(left),
        small(top),
        forall|i: int| 0 <= i < cells.len() ==> small(#[trigger] cells[i].0 as int) && small(
            cells[i].1 as int,
        ),
    ensures
        offsets_fit(cells, left, top),
{
    assert(isize::MAX >= 0x7fff_ffff);
    assert(isize::MIN <= -0x8000_0000);
}

/// Where cells land on the canvas: the cell at the canvas's left and top bounds is the grid's
/// origin; a cell one column right lands one point right, and a cell one row lower (a smaller
/// `y`) one point lower; cells left of or above the canvas land nowhere.
pub proof fn lemma_grid_point_geometry(cell: (isize, isize), left: int, top: int)
    ensures
        isize::MIN <= left <= isize::MAX && isize::MIN <= top <= isize::MAX ==> grid_point(
            (left as isize, top as isize),
            left,
            top,
        ) == Some((0usize, 0usize)),
        cell.0 < left || cell.1 > top ==> grid_point(cell, left, top) is None,
        cell.0 < isize::MAX && cell.0 - left < usize::MAX ==> match grid_point(cell, left, top) {
            Some(p) => grid_point(((cell.0 + 1) as isize, cell.1), left, top) == Some(
                ((p.0 + 1) as usize, p.1),
            ),
            None => true,
        },
        cell.1 > isize::MIN && top - cell.1 < usize::MAX ==> match grid_point(cell, left, top) {
            Some(p) => grid_point((cell.0, (cell.1 - 1) as isize), left, top) == Some(
                (p.0, (p.1 + 1) as usize),
            ),
            None => true,
        },
{
}

} // verus!
