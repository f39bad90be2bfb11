use vstd::prelude::*;

use crate::geometry::{Coordinate, Offset};
use crate::matrix;
use crate::matrix::Color;

verus! {

/// The seven tetromino shapes.
#[derive(Clone, Copy, Debug, PartialEq, Eq, Structural)]
pub enum Kind {
    O,
    I,
    T,
    L,
    J,
    S,
    Z,
}

/// The four rotation states: spawn, 180 degrees, clockwise and
/// counter-clockwise from spawn.
#[derive(Clone, Copy, Debug, PartialEq, Eq, Structural)]
pub enum Rotation {
    N,
    S,
    E,
    W,
}

/// One tetromino instance: shape kind, anchor position and rotation state.
/// Pieces are plain values; movement and rotation build new pieces.
#[derive(Clone, Copy, Debug, PartialEq, Eq, Structural)]
pub struct Piece {
    pub kind: Kind,
    pub position: Offset,
    pub rotation: Rotation,
}

/// The four relative cells of a kind's unrotated shape, in a local frame
/// whose origin is the shape's bottom-left bounding cell.
pub open spec fn spec_kind_cells(k: Kind) -> Seq<(int, int)> {
    match k {
        Kind::O => seq![(1int, 1int), (1int, 2int), (2int, 1int), (2int, 2int)],
        Kind::I => seq![(0int, 2int), (1int, 2int), (2int, 2int), (3int, 2int)],
        Kind::T => seq![(0int, 1int), (1int, 1int), (2int, 1int), (1int, 2int)],
        Kind::L => seq![(0int, 1int), (1int, 1int), (2int, 1int), (2int, 2int)],
        Kind::J => seq![(0int, 2int), (0int, 1int), (1int, 1int), (2int, 1int)],
        Kind::S => seq![(0int, 1int), (1int, 1int), (1int, 2int), (2int, 2int)],
        Kind::Z => seq![(0int, 2int), (1int, 2int), (1int, 1int), (2int, 1int)],
    }
}

/// Side of the bounding grid a kind rotates inside.
pub open spec fn spec_grid_size(k: Kind) -> int {
    if k is I {
        4
    } else {
        3
    }
}

/// Quarter-turn matrix applied to a local offset.
pub open spec fn spec_rotate(r: Rotation, o: (int, int)) -> (int, int) {
    match r {
        Rotation::N => o,
        Rotation::S => (-o.0, -o.1),
        Rotation::E => (o.1, -o.0),
        Rotation::W => (-o.1, o.0),
    }
}

/// Correction vector that re-centers the bounding box after rotation,
/// scaled by `grid_size - 1`.
pub open spec fn spec_intrinsic(r: Rotation) -> (int, int) {
    match r {
        Rotation::N => (0, 0),
        Rotation::E => (0, 1),
        Rotation::S => (1, 1),
        Rotation::W => (1, 0),
    }
}

/// The next rotation state a quarter turn clockwise.
pub open spec fn spec_cw(r: Rotation) -> Rotation {
    match r {
        Rotation::N => Rotation::E,
        Rotation::E => Rotation::S,
        Rotation::S => Rotation::W,
        Rotation::W => Rotation::N,
    }
}

/// A local shape cell after rotation and re-centering. The O kind is
/// rotationally symmetric, so the transform is skipped for it.
pub open spec fn spec_rotated_cell(k: Kind, r: Rotation, o: (int, int)) -> (int, int) {
    if k is O {
        o
    } else {
        let g = spec_grid_size(k) - 1;
        let q = spec_rotate(r, o);
        let c = spec_intrinsic(r);
        (q.0 + c.0 * g, q.1 + c.1 * g)
    }
}

/// Absolute cell `i` of a piece, before any bounds check.
pub open spec fn spec_piece_cell(p: Piece, i: int) -> (int, int) {
    let o = spec_rotated_cell(p.kind, p.rotation, spec_kind_cells(p.kind)[i]);
    (o.0 + p.position.x, o.1 + p.position.y)
}

/// Whether all four absolute cells resolve to coordinates: non-negative, with
/// the column inside the field. Rows above the visible ceiling are tolerated.
pub open spec fn spec_cells_valid(p: Piece) -> bool {
    forall|i: int|
        0 <= i < 4 ==> {
            let c = #[trigger] spec_piece_cell(p, i);
            &&& 0 <= c.0 < matrix::WIDTH
            &&& 0 <= c.1
        }
}

/// The absolute cells of a piece, or `None` when the piece cannot exist at
/// its position.
pub open spec fn spec_cells(p: Piece) -> Option<Seq<(int, int)>> {
    if spec_cells_valid(p) {
        Some(Seq::new(4, |i: int| spec_piece_cell(p, i)))
    } else {
        None
    }
}

/// The piece with the same kind and position, rotated a quarter turn
/// clockwise.
pub open spec fn spec_rotated_cw(p: Piece) -> Piece {
    Piece { rotation: spec_cw(p.rotation), ..p }
}

/// Executable offsets agree, entry by entry, with a spec sequence of cells.
pub open spec fn offsets_match(s: Seq<(int, int)>, v: Seq<Offset>) -> bool {
    &&& v.len() == s.len()
    &&& forall|i: int|
        0 <= i < s.len() ==> (#[trigger] v[i]).x == s[i].0 && v[i].y == s[i].1
}

/// Executable coordinates agree, entry by entry, with a spec sequence of
/// cells.
pub open spec fn coords_match(s: Seq<(int, int)>, v: Seq<Coordinate>) -> bool {
    &&& v.len() == s.len()
    &&& forall|i: int|
        0 <= i < s.len() ==> (#[trigger] v[i]).x == s[i].0 && v[i].y == s[i].1
}

impl Kind {
    /// All seven kinds, in declaration order.
    pub fn all() -> (r: Vec<Kind>)
        ensures
            r@ =~= seq![Kind::O, Kind::I, Kind::T, Kind::L, Kind::J, Kind::S, Kind::Z],
    {
        let mut v: Vec<Kind> = Vec::new();
        v.push(Kind::O);
        v.push(Kind::I);
        v.push(Kind::T);
        v.push(Kind::L);
        v.push(Kind::J);
        v.push(Kind::S);
        v.push(Kind::Z);
        v
    }

    /// The relative cells of the kind's unrotated shape.
    pub fn cells(&self) -> (r: Vec<Offset>)
        ensures
            offsets_match(spec_kind_cells(*self), r@),
    {
        match self {
            Kind::O => shape(1, 1, 1, 2, 2, 1, 2, 2),
            Kind::I => shape(0, 2, 1, 2, 2, 2, 3, 2),
            Kind::T => shape(0, 1, 1, 1, 2, 1, 1, 2),
            Kind::L => shape(0, 1, 1, 1, 2, 1, 2, 2),
            Kind::J => shape(0, 2, 0, 1, 1, 1, 2, 1),
            Kind::S => shape(0, 1, 1, 1, 1, 2, 2, 2),
            Kind::Z => shape(0, 2, 1, 2, 1, 1, 2, 1),
        }
    }

    /// Side of the bounding grid used to compute the rotation pivot
    /// correction.
    pub fn grid_size(&self) -> (r: isize)
        ensures
            r == spec_grid_size(*self),
    {
        match self {
            Kind::I => 4,
            _ => 3,
        }
    }

    /// The display color attached to cells of this kind.
    pub fn color(&self) -> (r: Color)
        ensures
            r == spec_color(*self),
    {
        match self {
            Kind::O => Color::Yellow,
            Kind::I => Color::Cyan,
            Kind::T => Color::Purple,
            Kind::L => Color::Orange,
            Kind::J => Color::Blue,
            Kind::S => Color::Green,
            Kind::Z => Color::Red,
        }
    }
}

/// The fixed display color of each kind.
pub open spec fn spec_color(k: Kind) -> Color {
    match k {
        Kind::O => Color::Yellow,
        Kind::I => Color::Cyan,
        Kind::T => Color::Purple,
        Kind::L => Color::Orange,
        Kind::J => Color::Blue,
        Kind::S => Color::Green,
        Kind::Z => Color::Red,
    }
}

/// Builds the four local offsets of one shape.
fn shape(x0: isize, y0: isize, x1: isize, y1: isize, x2: isize, y2: isize, x3: isize, y3: isize) -> (r: Vec<Offset>)
    ensures
        r@.len() == 4,
        r@[0].x == x0 && r@[0].y == y0,
        r@[1].x == x1 && r@[1].y == y1,
        r@[2].x == x2 && r@[2].y == y2,
        r@[3].x == x3 && r@[3].y == y3,
{
    let mut v: Vec<Offset> = Vec::new();
    v.push(Offset { x: x0, y: y0 });
    v.push(Offset { x: x1, y: y1 });
    v.push(Offset { x: x2, y: y2 });
    v.push(Offset { x: x3, y: y3 });
    v
}

impl Rotation {
    /// Correction vector that re-centers the bounding box after rotation.
    pub fn intrinsic_offset(&self) -> (r: Offset)
        ensures
            r.x == spec_intrinsic(*self).0,
            r.y == spec_intrinsic(*self).1,
    {
        match self {
            Rotation::N => Offset::new(0, 0),
            Rotation::E => Offset::new(0, 1),
            Rotation::S => Offset::new(1, 1),
            Rotation::W => Offset::new(1, 0),
        }
    }

    /// Quarter-turn matrix applied to a local offset.
    pub fn apply(&self, o: Offset) -> (r: Offset)
        requires
            o.x > isize::MIN,
            o.y > isize::MIN,
        ensures
            r.x == spec_rotate(*self, (o.x as int, o.y as int)).0,
            r.y == spec_rotate(*self, (o.x as int, o.y as int)).1,
    {
        match self {
            Rotation::N => o,
            Rotation::S => Offset::new(-o.x, -o.y),
            Rotation::E => Offset::new(o.y, -o.x),
            Rotation::W => Offset::new(-o.y, o.x),
        }
    }

    /// The next rotation state clockwise.
    pub fn rotated_cw(&self) -> (r: Rotation)
        ensures
            r == spec_cw(*self),
    {
        match self {
            Rotation::N => Rotation::E,
            Rotation::E => Rotation::S,
            Rotation::S => Rotation::W,
            Rotation::W => Rotation::N,
        }
    }
}

impl Piece {
    /// The piece moved by `offset`, with the same kind and rotation.
    /// Legality at the new position is the caller's business.
    pub fn moved_by(&self, offset: Offset) -> (r: Piece)
        requires
            isize::MIN <= self.position.x + offset.x <= isize::MAX,
            isize::MIN <= self.position.y + offset.y <= isize::MAX,
        ensures
            r.kind == self.kind,
            r.rotation == self.rotation,
            r.position.x == self.position.x + offset.x,
            r.position.y == self.position.y + offset.y,
    {
        Piece { position: self.position.plus(offset), ..*self }
    }

    /// The piece rotated a quarter turn clockwise in place.
    pub fn rotated_cw(&self) -> (r: Piece)
        ensures
            r == spec_rotated_cw(*self),
    {
        Piece { rotation: self.rotation.rotated_cw(), ..*self }
    }

    /// Local cell after rotation and re-centering for this piece's kind and
    /// rotation.
    fn rotated_cell(&self, o: Offset) -> (r: Offset)
        requires
            0 <= o.x < spec_grid_size(self.kind),
            0 <= o.y < spec_grid_size(self.kind),
        ensures
            r.x == spec_rotated_cell(self.kind, self.rotation, (o.x as int, o.y as int)).0,
            r.y == spec_rotated_cell(self.kind, self.rotation, (o.x as int, o.y as int)).1,
            0 <= r.x < spec_grid_size(self.kind),
            0 <= r.y < spec_grid_size(self.kind),
    {
        match self.kind {
            Kind::O => o,
            _ => {
                let g = self.kind.grid_size() - 1;
                let q = self.rotation.apply(o);
                let c = self.rotation.intrinsic_offset();
                Offset::new(q.x + c.x * g, q.y + c.y * g)
            },
        }
    }

    /// The four absolute cells of the piece, or `None` when some cell fails
    /// to resolve to a coordinate (negative component, or column outside the
    /// field). Rows above the visible ceiling still resolve.
    pub fn cells(&self) -> (r: Option<Vec<Coordinate>>)
        requires
            self.position.x <= isize::MAX - 3,
            self.position.y <= isize::MAX - 3,
        ensures
            match r {
                Some(v) => spec_cells(*self) == Some(Seq::new(4, |i: int| spec_piece_cell(*self, i)))
                    && coords_match(spec_cells(*self)->Some_0, v@),
                None => spec_cells(*self) is None,
            },
    {
        let offsets = self.kind.cells();
        let mut coords: Vec<Coordinate> = Vec::new();
        let mut idx: usize = 0;
        proof {
            lemma_kind_cells_in_grid(self.kind);
        }
        while idx < 4
            invariant
                0 <= idx <= 4,
                offsets_match(spec_kind_cells(self.kind), offsets@),
                self.position.x <= isize::MAX - 3,
                self.position.y <= isize::MAX - 3,
                coords@.len() == idx,
                forall|i: int|
                    0 <= i < 4 ==> {
                        let c = #[trigger] spec_kind_cells(self.kind)[i];
                        0 <= c.0 < spec_grid_size(self.kind) && 0 <= c.1 < spec_grid_size(
                            self.kind,
                        )
                    },
                forall|i: int|
                    0 <= i < idx ==> {
                        let c = #[trigger] spec_piece_cell(*self, i);
                        &&& 0 <= c.0 < matrix::WIDTH
                        &&& 0 <= c.1
                        &&& coords@[i].x == c.0
                        &&& coords@[i].y == c.1
                    },
            decreases 4 - idx,
        {
            let o = offsets[idx];
            let rc = self.rotated_cell(o);
            let ax = self.position.x + rc.x;
            let ay = self.position.y + rc.y;
            if ax < 0 || ay < 0 || ax >= (matrix::WIDTH as isize) {
                proof {
                    assert(!spec_cells_valid(*self)) by {
                        let c = spec_piece_cell(*self, idx as int);
                        assert(!(0 <= c.0 < matrix::WIDTH && 0 <= c.1));
                    }
                }
                return None;
            }
            coords.push(Coordinate { x: ax as usize, y: ay as usize });
            idx += 1;
        }
        proof {
            assert(spec_cells_valid(*self));
        }
        Some(coords)
    }
}

/// Rotation and re-centering keep a local cell inside the kind's bounding
/// grid.
pub(crate) proof fn lemma_rotated_cell_in_grid(k: Kind, r: Rotation, o: (int, int))
    requires
        0 <= o.0 < spec_grid_size(k),
        0 <= o.1 < spec_grid_size(k),
    ensures
        0 <= spec_rotated_cell(k, r, o).0 < spec_grid_size(k),
        0 <= spec_rotated_cell(k, r, o).1 < spec_grid_size(k),
{
}

/// A piece whose cells all resolve keeps its anchor within three cells of
/// the field: each local cell lies in the bounding grid, so the anchor can
/// stray at most `grid_size - 1` below or left of a resolved cell.
pub(crate) proof fn lemma_valid_position_bounds(p: Piece)
    requires
        spec_cells_valid(p),
    ensures
        -3 <= p.position.x < matrix::WIDTH,
        p.position.y >= -3,
{
    lemma_kind_cells_in_grid(p.kind);
    lemma_rotated_cell_in_grid(p.kind, p.rotation, spec_kind_cells(p.kind)[0]);
    let c = spec_piece_cell(p, 0);
    assert(0 <= c.0 < matrix::WIDTH && 0 <= c.1);
}

/// A piece placed wholly below the ceiling keeps its anchor below it too.
pub(crate) proof fn lemma_visible_position_bounds(p: Piece)
    requires
        spec_cells_valid(p),
        forall|i: int| 0 <= i < 4 ==> (#[trigger] spec_piece_cell(p, i)).1 < matrix::HEIGHT,
    ensures
        -3 <= p.position.x < matrix::WIDTH,
        -3 <= p.position.y < matrix::HEIGHT,
{
    lemma_valid_position_bounds(p);
    lemma_kind_cells_in_grid(p.kind);
    lemma_rotated_cell_in_grid(p.kind, p.rotation, spec_kind_cells(p.kind)[0]);
    let c = spec_piece_cell(p, 0);
    assert(c.1 < matrix::HEIGHT);
}

/// Law: whenever a piece's cells resolve, the four coordinates are pairwise
/// distinct and lie within the horizontal bounds of the field.
pub proof fn lemma_cells_distinct(p: Piece)
    ensures
        match spec_cells(p) {
            Some(s) => {
                &&& s.len() == 4
                &&& forall|i: int, j: int| 0 <= i < j < 4 ==> s[i] != s[j]
                &&& forall|i: int|
                    0 <= i < 4 ==> 0 <= (#[trigger] s[i]).0 < matrix::WIDTH && 0 <= s[i].1
            },
            None => true,
        },
{
    if spec_cells_valid(p) {
        let s = spec_cells(p)->Some_0;
        assert forall|i: int, j: int| 0 <= i < j < 4 implies s[i] != s[j] by {
            lemma_kind_cells_distinct(p.kind);
            let a = spec_kind_cells(p.kind)[i];
            let b = spec_kind_cells(p.kind)[j];
            if s[i] == s[j] {
                assert(spec_piece_cell(p, i) == spec_piece_cell(p, j));
                assert(spec_rotated_cell(p.kind, p.rotation, a) == spec_rotated_cell(
                    p.kind,
                    p.rotation,
                    b,
                ));
                assert(a == b);
            }
        }
        assert forall|i: int| 0 <= i < 4 implies 0 <= (#[trigger] s[i]).0 < matrix::WIDTH && 0
            <= s[i].1 by {
            assert(s[i] == spec_piece_cell(p, i));
        }
    }
}

/// Law: four clockwise quarter turns return a piece to its original state,
/// and with it to its original absolute cell set.
pub proof fn lemma_four_rotations_identity(p: Piece)
    ensures
        spec_rotated_cw(spec_rotated_cw(spec_rotated_cw(spec_rotated_cw(p)))) == p,
        spec_cells(spec_rotated_cw(spec_rotated_cw(spec_rotated_cw(spec_rotated_cw(p)))))
            == spec_cells(p),
{
}

/// The four base cells of every kind are pairwise distinct.
proof fn lemma_kind_cells_distinct(k: Kind)
    ensures
        forall|i: int, j: int|
            0 <= i < j < 4 ==> spec_kind_cells(k)[i] != spec_kind_cells(k)[j],
{
    lemma_kind_cells_in_grid(k);
    assert forall|i: int, j: int| 0 <= i < j < 4 implies spec_kind_cells(k)[i]
        != spec_kind_cells(k)[j] by {
        let ci = spec_kind_cells(k)[i];
        let cj = spec_kind_cells(k)[j];
        match k {
            Kind::O => {
                assert(spec_kind_cells(k)[0] == (1int, 1int));
                assert(spec_kind_cells(k)[1] == (1int, 2int));
                assert(spec_kind_cells(k)[2] == (2int, 1int));
                assert(spec_kind_cells(k)[3] == (2int, 2int));
            },
            Kind::I => {
                assert(spec_kind_cells(k)[0] == (0int, 2int));
                assert(spec_kind_cells(k)[1] == (1int, 2int));
                assert(spec_kind_cells(k)[2] == (2int, 2int));
                assert(spec_kind_cells(k)[3] == (3int, 2int));
            },
            Kind::T => {
                assert(spec_kind_cells(k)[0] == (0int, 1int));
                assert(spec_kind_cells(k)[1] == (1int, 1int));
                assert(spec_kind_cells(k)[2] == (2int, 1int));
                assert(spec_kind_cells(k)[3] == (1int, 2int));
            },
            Kind::L => {
                assert(spec_kind_cells(k)[0] == (0int, 1int));
                assert(spec_kind_cells(k)[1] == (1int, 1int));
                assert(spec_kind_cells(k)[2] == (2int, 1int));
                assert(spec_kind_cells(k)[3] == (2int, 2int));
            },
            Kind::J => {
                assert(spec_kind_cells(k)[0] == (0int, 2int));
                assert(spec_kind_cells(k)[1] == (0int, 1int));
                assert(spec_kind_cells(k)[2] == (1int, 1int));
                assert(spec_kind_cells(k)[3] == (2int, 1int));
            },
            Kind::S => {
                assert(spec_kind_cells(k)[0] == (0int, 1int));
                assert(spec_kind_cells(k)[1] == (1int, 1int));
                assert(spec_kind_cells(k)[2] == (1int, 2int));
                assert(spec_kind_cells(k)[3] == (2int, 2int));
            },
            Kind::Z => {
                assert(spec_kind_cells(k)[0] == (0int, 2int));
                assert(spec_kind_cells(k)[1] == (1int, 2int));
                assert(spec_kind_cells(k)[2] == (1int, 1int));
                assert(spec_kind_cells(k)[3] == (2int, 1int));
            },
        }
    }
}

/// The base cells of every kind lie inside its rotation grid.
proof fn lemma_kind_cells_in_grid(k: Kind)
    ensures
        forall|i: int|
            0 <= i < 4 ==> {
                let c = #[trigger] spec_kind_cells(k)[i];
                0 <= c.0 < spec_grid_size(k) && 0 <= c.1 < spec_grid_size(k)
            },
{
    assert forall|i: int| 0 <= i < 4 implies {
        let c = #[trigger] spec_kind_cells(k)[i];
        0 <= c.0 < spec_grid_size(k) && 0 <= c.1 < spec_grid_size(k)
    } by {
        match k {
            Kind::O => {
                assert(spec_kind_cells(k)[0] == (1int, 1int));
                assert(spec_kind_cells(k)[1] == (1int, 2int));
                assert(spec_kind_cells(k)[2] == (2int, 1int));
                assert(spec_kind_cells(k)[3] == (2int, 2int));
            },
            Kind::I => {
                assert(spec_kind_cells(k)[0] == (0int, 2int));
                assert(spec_kind_cells(k)[1] == (1int, 2int));
                assert(spec_kind_cells(k)[2] == (2int, 2int));
                assert(spec_kind_cells(k)[3] == (3int, 2int));
            },
            Kind::T => {
                assert(spec_kind_cells(k)[0] == (0int, 1int));
                assert(spec_kind_cells(k)[1] == (1int, 1int));
                assert(spec_kind_cells(k)[2] == (2int, 1int));
                assert(spec_kind_cells(k)[3] == (1int, 2int));
            },
            Kind::L => {
                assert(spec_kind_cells(k)[0] == (0int, 1int));
                assert(spec_kind_cells(k)[1] == (1int, 1int));
                assert(spec_kind_cells(k)[2] == (2int, 1int));
                assert(spec_kind_cells(k)[3] == (2int, 2int));
            },
            Kind::J => {
                assert(spec_kind_cells(k)[0] == (0int, 2int));
                assert(spec_kind_cells(k)[1] == (0int, 1int));
                assert(spec_kind_cells(k)[2] == (1int, 1int));
                assert(spec_kind_cells(k)[3] == (2int, 1int));
            },
            Kind::S => {
                assert(spec_kind_cells(k)[0] == (0int, 1int));
                assert(spec_kind_cells(k)[1] == (1int, 1int));
                assert(spec_kind_cells(k)[2] == (1int, 2int));
                assert(spec_kind_cells(k)[3] == (2int, 2int));
            },
            Kind::Z => {
                assert(spec_kind_cells(k)[0] == (0int, 2int));
                assert(spec_kind_cells(k)[1] == (1int, 2int));
                assert(spec_kind_cells(k)[2] == (1int, 1int));
                assert(spec_kind_cells(k)[3] == (2int, 1int));
            },
        }
    }
}

} // verus!
