use vstd::prelude::*;

use crate::geometry::Coordinate;
use crate::piece::{
    lemma_visible_position_bounds, spec_cells, spec_color, Piece,
};

verus! {

/// Columns of the playing field.
pub const WIDTH: usize = 10;

/// Visible rows of the playing field.
pub const HEIGHT: usize = 20;

/// Cells of the playing field, row-major.
pub const SIZE: usize = WIDTH * HEIGHT;

/// The seven display colors, one per piece kind. A placed cell carries one;
/// an empty cell carries none.
#[derive(Clone, Copy, Debug, PartialEq, Eq, Structural)]
pub enum Color {
    Yellow,
    Cyan,
    Purple,
    Orange,
    Blue,
    Green,
    Red,
}

/// The playing field: a fixed-size grid of optional cell colors, stored
/// row-major with row 0 at the bottom.
pub struct Matrix {
    cells: Vec<Option<Color>>,
}

impl View for Matrix {
    type V = Seq<Option<Color>>;

    closed spec fn view(&self) -> Seq<Option<Color>> {
        self.cells@
    }
}

/// The piece covers the coordinate `(x, y)` with one of its resolved cells.
pub open spec fn spec_piece_covers(p: Piece, x: int, y: int) -> bool {
    match spec_cells(p) {
        Some(cs) => exists|i: int| 0 <= i < 4 && #[trigger] cs[i] == (x, y),
        None => false,
    }
}

/// `m1` is `m0` with every cell of `p` painted in `p`'s kind color and no
/// other cell changed.
pub open spec fn spec_committed(m0: Matrix, m1: Matrix, p: Piece) -> bool {
    &&& m1.wf()
    &&& forall|x: int, y: int|
        spec_in_bounds(x, y) ==> #[trigger] m1.spec_cell(x, y) == (if spec_piece_covers(p, x, y) {
            Some(spec_color(p.kind))
        } else {
            m0.spec_cell(x, y)
        })
}

/// Row-major index of a coordinate.
pub open spec fn spec_index(x: int, y: int) -> int {
    y * WIDTH + x
}

/// The rows among the bottom `y` rows that survive removing `removed`,
/// lowest first.
pub open spec fn spec_kept_rows(removed: Seq<usize>, y: int) -> Seq<int>
    decreases y,
{
    if y <= 0 {
        Seq::empty()
    } else {
        let prev = spec_kept_rows(removed, y - 1);
        if removed.contains((y - 1) as usize) {
            prev
        } else {
            prev.push(y - 1)
        }
    }
}

/// The full rows among the bottom `y` rows come in strictly increasing
/// order, each below `y`.
pub(crate) proof fn lemma_full_rows_below_sorted(m: Matrix, y: int)
    requires
        y <= HEIGHT,
    ensures
        forall|i: int|
            0 <= i < m.spec_full_rows_below(y).len() ==> #[trigger] m.spec_full_rows_below(y)[i]
                < y,
        forall|i: int, j: int|
            0 <= i < j < m.spec_full_rows_below(y).len() ==> m.spec_full_rows_below(y)[i]
                < m.spec_full_rows_below(y)[j],
    decreases y,
{
    if y > 0 {
        lemma_full_rows_below_sorted(m, y - 1);
        let prev = m.spec_full_rows_below(y - 1);
        let cur = m.spec_full_rows_below(y);
        assert forall|i: int| 0 <= i < cur.len() implies #[trigger] cur[i] < y by {
            if m.spec_row_full(y - 1) {
                assert(cur == prev.push((y - 1) as usize));
                if i < prev.len() {
                    assert(cur[i] == prev[i]);
                } else {
                    assert(cur[i] == (y - 1) as usize);
                }
            } else {
                assert(cur == prev);
            }
        }
        assert forall|i: int, j: int| 0 <= i < j < cur.len() implies cur[i] < cur[j] by {
            if m.spec_row_full(y - 1) {
                assert(cur == prev.push((y - 1) as usize));
                assert(cur[i] == prev[i]);
                if j < prev.len() {
                    assert(cur[j] == prev[j]);
                } else {
                    assert(cur[j] == (y - 1) as usize);
                    assert(prev[i] < y - 1);
                }
            } else {
                assert(cur == prev);
            }
        }
    }
}

/// `m1` is `m0` with the rows `removed` deleted, every surviving row shifted
/// down past them in its original relative order, and as many empty rows
/// added at the top as were removed.
pub open spec fn spec_cleared(m0: Matrix, m1: Matrix, removed: Seq<usize>) -> bool {
    let kept = spec_kept_rows(removed, HEIGHT as int);
    &&& m1.wf()
    &&& kept.len() == HEIGHT - removed.len()
    &&& forall|j: int, x: int|
        0 <= j < kept.len() && 0 <= x < WIDTH ==> #[trigger] m1.spec_cell(x, j) == m0.spec_cell(
            x,
            kept[j],
        )
    &&& forall|j: int, x: int|
        kept.len() <= j < HEIGHT && 0 <= x < WIDTH ==> #[trigger] m1.spec_cell(x, j) is None
}

/// A coordinate lies inside the visible field.
pub open spec fn spec_in_bounds(x: int, y: int) -> bool {
    0 <= x < WIDTH && 0 <= y < HEIGHT
}

impl Matrix {
    /// The grid always holds exactly one entry per cell.
    pub open spec fn wf(&self) -> bool {
        self@.len() == SIZE
    }

    /// The cell at a coordinate, as the view sees it.
    pub open spec fn spec_cell(&self, x: int, y: int) -> Option<Color>
        recommends
            self.wf(),
            spec_in_bounds(x, y),
    {
        self@[spec_index(x, y)]
    }

    /// A matrix with all cells unoccupied.
    pub fn blank() -> (r: Matrix)
        ensures
            r.wf(),
            forall|i: int| 0 <= i < SIZE ==> r@[i] is None,
    {
        let mut cells: Vec<Option<Color>> = Vec::new();
        let mut i: usize = 0;
        while i < SIZE
            invariant
                cells@.len() == i,
                i <= SIZE,
                forall|j: int| 0 <= j < i ==> cells@[j] is None,
            decreases SIZE - i,
        {
            cells.push(None);
            i += 1;
        }
        Matrix { cells }
    }

    /// Reads the cell at a visible coordinate.
    pub fn cell(&self, coord: Coordinate) -> (r: Option<Color>)
        requires
            self.wf(),
            spec_in_bounds(coord.x as int, coord.y as int),
        ensures
            r == self.spec_cell(coord.x as int, coord.y as int),
    {
        self.cells[coord.y * WIDTH + coord.x]
    }

    /// A piece is clipping when its cells fail to resolve at all, or when
    /// one of its cells below the visible ceiling is already occupied.
    /// Cells above the ceiling do not clip by themselves.
    pub open spec fn spec_is_clipping(&self, p: Piece) -> bool {
        match spec_cells(p) {
            Some(cs) => exists|i: int|
                0 <= i < 4 && (#[trigger] cs[i]).1 < HEIGHT && self.spec_cell(
                    cs[i].0,
                    cs[i].1,
                ) is Some,
            None => true,
        }
    }

    /// A piece is placeable only when every one of its cells lies inside the
    /// full visible bounds and is unoccupied.
    pub open spec fn spec_is_placeable(&self, p: Piece) -> bool {
        match spec_cells(p) {
            Some(cs) => forall|i: int|
                0 <= i < 4 ==> (#[trigger] cs[i]).1 < HEIGHT && self.spec_cell(
                    cs[i].0,
                    cs[i].1,
                ) is None,
            None => false,
        }
    }

    /// True if the piece overlaps an occupied cell below the ceiling or
    /// cannot exist at its position at all.
    pub fn is_clipping(&self, piece: &Piece) -> (r: bool)
        requires
            self.wf(),
            piece.position.x <= isize::MAX - 3,
            piece.position.y <= isize::MAX - 3,
        ensures
            r == self.spec_is_clipping(*piece),
    {
        let cells = match piece.cells() {
            Some(cells) => cells,
            None => {
                return true;
            },
        };
        let mut i: usize = 0;
        while i < 4
            invariant
                self.wf(),
                i <= 4,
                spec_cells(*piece) matches Some(cs) && crate::piece::coords_match(cs, cells@),
                forall|j: int|
                    0 <= j < i ==> !((#[trigger] spec_cells(*piece)->Some_0[j]).1 < HEIGHT
                        && self.spec_cell(
                        spec_cells(*piece)->Some_0[j].0,
                        spec_cells(*piece)->Some_0[j].1,
                    ) is Some),
            decreases 4 - i,
        {
            let c = cells[i];
            if c.y < HEIGHT {
                if self.cell(c).is_some() {
                    return true;
                }
            }
            i += 1;
        }
        false
    }

    /// True only if every cell of the piece is inside the visible field and
    /// unoccupied; a piece that is partially out of bounds is rejected
    /// outright, never truncated.
    pub fn is_placeable(&self, piece: &Piece) -> (r: bool)
        requires
            self.wf(),
            piece.position.x <= isize::MAX - 3,
            piece.position.y <= isize::MAX - 3,
        ensures
            r == self.spec_is_placeable(*piece),
    {
        let cells = match piece.cells() {
            Some(cells) => cells,
            None => {
                return false;
            },
        };
        let mut i: usize = 0;
        while i < 4
            invariant
                self.wf(),
                i <= 4,
                spec_cells(*piece) matches Some(cs) && crate::piece::coords_match(cs, cells@),
                forall|j: int|
                    0 <= j < i ==> (#[trigger] spec_cells(*piece)->Some_0[j]).1 < HEIGHT
                        && self.spec_cell(
                        spec_cells(*piece)->Some_0[j].0,
                        spec_cells(*piece)->Some_0[j].1,
                    ) is None,
            decreases 4 - i,
        {
            let c = cells[i];
            if c.y >= HEIGHT {
                return false;
            }
            if self.cell(c).is_some() {
                return false;
            }
            i += 1;
        }
        true
    }

    /// Writes the piece kind's color into every one of its four cells; no
    /// other cell changes. Callers must have established placeability.
    pub fn commit(&mut self, piece: &Piece)
        requires
            old(self).wf(),
            old(self).spec_is_placeable(*piece),
        ensures
            final(self).wf(),
            spec_committed(*old(self), *final(self), *piece),
    {
        proof {
            let cs = spec_cells(*piece)->Some_0;
            assert forall|i: int| 0 <= i < 4 implies (#[trigger] crate::piece::spec_piece_cell(
                *piece,
                i,
            )).1 < HEIGHT by {
                assert(cs[i] == crate::piece::spec_piece_cell(*piece, i));
            }
            lemma_visible_position_bounds(*piece);
        }
        let cells = piece.cells().unwrap();
        let color = piece.kind.color();
        let mut i: usize = 0;
        while i < 4
            invariant
                self.wf(),
                i <= 4,
                old(self).wf(),
                old(self).spec_is_placeable(*piece),
                spec_cells(*piece) matches Some(cs) && crate::piece::coords_match(cs, cells@),
                color == spec_color(piece.kind),
                forall|x: int, y: int|
                    spec_in_bounds(x, y) ==> #[trigger] self.spec_cell(x, y) == (
                    if (exists|j: int|
                        0 <= j < i && #[trigger] spec_cells(*piece)->Some_0[j] == (x, y)) {
                        Some(color)
                    } else {
                        old(self).spec_cell(x, y)
                    }),
            decreases 4 - i,
        {
            let c = cells[i];
            let ghost prev = *self;
            proof {
                let cs = spec_cells(*piece)->Some_0;
                let ci = cs[i as int];
                assert(ci == crate::piece::spec_piece_cell(*piece, i as int));
                assert(0 <= ci.0 < WIDTH && 0 <= ci.1 < HEIGHT);
            }
            self.set_cell(c, Some(color));
            proof {
                let cs = spec_cells(*piece)->Some_0;
                let ci = cs[i as int];
                assert(self@ == prev@.update(spec_index(ci.0, ci.1), Some(color)));
                assert forall|x: int, y: int| spec_in_bounds(x, y) implies #[trigger] self
                    .spec_cell(x, y) == (if (exists|j: int|
                    0 <= j < i + 1 && #[trigger] cs[j] == (x, y)) {
                    Some(color)
                } else {
                    old(self).spec_cell(x, y)
                }) by {
                    if x == ci.0 && y == ci.1 {
                        assert(cs[i as int] == (x, y));
                        assert(self.spec_cell(x, y) == Some(color));
                    } else {
                        assert(spec_index(x, y) != spec_index(ci.0, ci.1));
                        assert(self.spec_cell(x, y) == prev.spec_cell(x, y));
                        if exists|j: int| 0 <= j < i + 1 && #[trigger] cs[j] == (x, y) {
                            let j = choose|j: int| 0 <= j < i + 1 && #[trigger] cs[j] == (x, y);
                            assert(j < i);
                        }
                    }
                }
            }
            i += 1;
        }
    }

    /// Every column of row `y` is occupied.
    pub open spec fn spec_row_full(&self, y: int) -> bool {
        forall|x: int| 0 <= x < WIDTH ==> #[trigger] self.spec_cell(x, y) is Some
    }

    /// The full rows among the bottom `y` rows, lowest first.
    pub open spec fn spec_full_rows_below(&self, y: int) -> Seq<usize>
        decreases y,
    {
        if y <= 0 {
            Seq::empty()
        } else {
            let prev = self.spec_full_rows_below(y - 1);
            if self.spec_row_full(y - 1) {
                prev.push((y - 1) as usize)
            } else {
                prev
            }
        }
    }

    /// Every full row of the field, lowest first.
    pub open spec fn spec_full_rows(&self) -> Seq<usize> {
        self.spec_full_rows_below(HEIGHT as int)
    }

    /// True when every column of row `y` is occupied.
    pub fn row_full(&self, y: usize) -> (r: bool)
        requires
            self.wf(),
            y < HEIGHT,
        ensures
            r == self.spec_row_full(y as int),
    {
        let mut x: usize = 0;
        while x < WIDTH
            invariant
                self.wf(),
                y < HEIGHT,
                x <= WIDTH,
                forall|x0: int| 0 <= x0 < x ==> #[trigger] self.spec_cell(x0, y as int) is Some,
            decreases WIDTH - x,
        {
            if self.cell(Coordinate { x, y }).is_none() {
                proof {
                    assert(self.spec_cell(x as int, y as int) is None);
                }
                return false;
            }
            x += 1;
        }
        true
    }

    /// The indices of all full rows, lowest first.
    pub fn full_rows(&self) -> (r: Vec<usize>)
        requires
            self.wf(),
        ensures
            r@ == self.spec_full_rows(),
    {
        let mut rows: Vec<usize> = Vec::new();
        let mut y: usize = 0;
        while y < HEIGHT
            invariant
                self.wf(),
                y <= HEIGHT,
                rows@ == self.spec_full_rows_below(y as int),
            decreases HEIGHT - y,
        {
            if self.row_full(y) {
                rows.push(y);
            }
            y += 1;
        }
        rows
    }

    /// Removes the listed rows and shifts everything above them down, as one
    /// atomic compaction; the vacated rows reappear empty at the top. Rows
    /// must be listed lowest first, without repeats, all below the ceiling.
    pub fn clear_rows(&mut self, rows: &Vec<usize>)
        requires
            old(self).wf(),
            forall|i: int, j: int| 0 <= i < j < rows@.len() ==> rows@[i] < rows@[j],
            forall|i: int| 0 <= i < rows@.len() ==> #[trigger] rows@[i] < HEIGHT,
        ensures
            final(self).wf(),
            spec_cleared(*old(self), *final(self), rows@),
    {
        let mut kept: Vec<Option<Color>> = Vec::new();
        let mut ri: usize = 0;
        let mut y: usize = 0;
        while y < HEIGHT
            invariant
                self.wf(),
                *self == *old(self),
                y <= HEIGHT,
                ri <= rows@.len(),
                forall|i: int, j: int| 0 <= i < j < rows@.len() ==> rows@[i] < rows@[j],
                forall|i: int| 0 <= i < rows@.len() ==> #[trigger] rows@[i] < HEIGHT,
                forall|i: int| 0 <= i < ri ==> #[trigger] rows@[i] < y,
                forall|i: int| ri <= i < rows@.len() ==> #[trigger] rows@[i] >= y,
                spec_kept_rows(rows@, y as int).len() == y - ri,
                kept@.len() == (y - ri) * (WIDTH as int),
                forall|j: int, x: int|
                    0 <= j < y - ri && 0 <= x < WIDTH ==> #[trigger] kept@[j * (WIDTH as int) + x]
                        == old(self).spec_cell(x, spec_kept_rows(rows@, y as int)[j]),
            decreases HEIGHT - y,
        {
            let ghost ky = spec_kept_rows(rows@, y as int);
            if ri < rows.len() && rows[ri] == y {
                proof {
                    assert(rows@.contains(y)) by {
                        assert(rows@[ri as int] == y);
                    }
                    assert(spec_kept_rows(rows@, y as int + 1) == ky);
                }
                ri += 1;
            } else {
                proof {
                    assert(!rows@.contains(y)) by {
                        if rows@.contains(y) {
                            let i = choose|i: int| 0 <= i < rows@.len() && rows@[i] == y;
                            assert(i >= ri);
                            if i > ri {
                                assert(rows@[ri as int] < rows@[i]);
                            }
                        }
                    }
                    assert(spec_kept_rows(rows@, y as int + 1) == ky.push(y as int));
                }
                let base = kept.len();
                let mut x: usize = 0;
                while x < WIDTH
                    invariant
                        self.wf(),
                        *self == *old(self),
                        y < HEIGHT,
                        x <= WIDTH,
                        ri <= rows@.len(),
                        base == (y - ri) * (WIDTH as int),
                        kept@.len() == base + x,
                        spec_kept_rows(rows@, y as int).len() == y - ri,
                        forall|j: int, x0: int|
                            0 <= j < y - ri && 0 <= x0 < WIDTH ==> #[trigger] kept@[j * (
                            WIDTH as int) + x0] == old(self).spec_cell(
                                x0,
                                spec_kept_rows(rows@, y as int)[j],
                            ),
                        forall|x0: int|
                            0 <= x0 < x ==> #[trigger] kept@[base + x0] == old(self).spec_cell(
                                x0,
                                y as int,
                            ),
                    decreases WIDTH - x,
                {
                    kept.push(self.cell(Coordinate { x, y }));
                    x += 1;
                }
                proof {
                    let ky1 = spec_kept_rows(rows@, y as int + 1);
                    assert(ky1 == ky.push(y as int));
                    assert(ky1.len() == (y as int + 1) - ri);
                    assert forall|j: int, x0: int|
                        0 <= j < (y as int + 1) - ri && 0 <= x0
                            < WIDTH implies #[trigger] kept@[j * (WIDTH as int) + x0] == old(
                        self,
                    ).spec_cell(x0, ky1[j]) by {
                        if j < y - ri {
                            assert(ky1[j] == ky[j]);
                            assert(j * (WIDTH as int) + x0 < (y - ri) * (WIDTH as int));
                        } else {
                            assert(j == y - ri);
                            assert(ky1[j] == y as int);
                            assert(j * (WIDTH as int) == base);
                        }
                    }
                }
            }
            y += 1;
        }
        proof {
            if ri < rows@.len() {
                assert(rows@[ri as int] >= HEIGHT);
            }
            assert(ri == rows@.len());
        }
        while kept.len() < SIZE
            invariant
                (HEIGHT - rows@.len()) * (WIDTH as int) <= kept@.len() <= SIZE,
                spec_kept_rows(rows@, HEIGHT as int).len() == HEIGHT - rows@.len(),
                forall|j: int, x0: int|
                    0 <= j < HEIGHT - rows@.len() && 0 <= x0 < WIDTH ==> #[trigger] kept@[j * (
                    WIDTH as int) + x0] == old(self).spec_cell(
                        x0,
                        spec_kept_rows(rows@, HEIGHT as int)[j],
                    ),
                forall|i: int|
                    (HEIGHT - rows@.len()) * (WIDTH as int) <= i < kept@.len()
                        ==> #[trigger] kept@[i] is None,
            decreases SIZE - kept@.len(),
        {
            kept.push(None);
        }
        self.cells = kept;
        proof {
            let kfull = spec_kept_rows(rows@, HEIGHT as int);
            assert forall|j: int, x: int|
                0 <= j < kfull.len() && 0 <= x < WIDTH implies #[trigger] self.spec_cell(x, j)
                == old(self).spec_cell(x, kfull[j]) by {
                assert(self.spec_cell(x, j) == kept@[j * (WIDTH as int) + x]);
            }
            assert forall|j: int, x: int|
                kfull.len() <= j < HEIGHT && 0 <= x < WIDTH implies #[trigger] self.spec_cell(
                x,
                j,
            ) is None by {
                assert(j * (WIDTH as int) + x >= (HEIGHT - rows@.len()) * (WIDTH as int));
            }
        }
    }

    /// Every cell with its coordinate, row-major starting at the origin.
    pub fn cells(&self) -> (r: Vec<(Coordinate, Option<Color>)>)
        requires
            self.wf(),
        ensures
            r@.len() == SIZE,
            forall|i: int|
                0 <= i < SIZE ==> {
                    &&& (#[trigger] r@[i]).0.x == i % (WIDTH as int)
                    &&& r@[i].0.y == i / (WIDTH as int)
                    &&& r@[i].1 == self@[i]
                },
    {
        let mut out: Vec<(Coordinate, Option<Color>)> = Vec::new();
        let mut i: usize = 0;
        while i < SIZE
            invariant
                self.wf(),
                i <= SIZE,
                out@.len() == i,
                forall|k: int|
                    0 <= k < i ==> {
                        &&& (#[trigger] out@[k]).0.x == k % (WIDTH as int)
                        &&& out@[k].0.y == k / (WIDTH as int)
                        &&& out@[k].1 == self@[k]
                    },
            decreases SIZE - i,
        {
            let x = i % WIDTH;
            let y = i / WIDTH;
            let cell = self.cell(Coordinate { x, y });
            proof {
                assert(spec_index(x as int, y as int) == i);
            }
            out.push((Coordinate { x, y }, cell));
            i += 1;
        }
        out
    }

    /// Writes the cell at a visible coordinate; every other cell keeps its
    /// value.
    pub fn set_cell(&mut self, coord: Coordinate, value: Option<Color>)
        requires
            old(self).wf(),
            spec_in_bounds(coord.x as int, coord.y as int),
        ensures
            final(self).wf(),
            final(self)@ == old(self)@.update(
                spec_index(coord.x as int, coord.y as int),
                value,
            ),
    {
        let idx: usize = coord.y * WIDTH + coord.x;
        self.cells.set(idx, value);
    }
}

} // verus!
