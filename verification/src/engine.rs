use vstd::multiset::Multiset;
use vstd::prelude::*;

use crate::geometry::{Coordinate, Offset};
use crate::matrix::{Color, Matrix, HEIGHT, SIZE, WIDTH};
use crate::piece::{
    lemma_valid_position_bounds, spec_cells, spec_color, Kind, Piece, Rotation,
};
use crate::rng::{new_rng, shuffle_kinds};

verus! {

/// Spawn column of a fresh piece's anchor.
pub const SPAWN_X: isize = 3;

/// Spawn row of a fresh piece's anchor; the piece's cells sit on the top
/// visible row and may stick out above it.
pub const SPAWN_Y: isize = 18;

/// A horizontal move command.
#[derive(Clone, Copy, Debug, PartialEq, Eq, Structural)]
pub enum MoveKind {
    Left,
    Right,
}

/// The terminal outcome where a piece cannot legally occupy the cells it
/// needs: the match is over.
#[derive(Clone, Copy, Debug, PartialEq, Eq, Structural)]
pub struct TopOut;

/// The column displacement of a horizontal move.
pub open spec fn spec_move_dx(m: MoveKind) -> int {
    match m {
        MoveKind::Left => -1,
        MoveKind::Right => 1,
    }
}

impl MoveKind {
    /// The unit displacement of this move.
    pub fn offset(&self) -> (r: Offset)
        ensures
            r.x == spec_move_dx(*self),
            r.y == 0,
    {
        match self {
            MoveKind::Left => Offset::new(-1, 0),
            MoveKind::Right => Offset::new(1, 0),
        }
    }
}

/// The piece one column aside, when the sum stays in range.
pub open spec fn spec_moved_x(p: Piece, dx: int) -> Piece {
    Piece { position: Offset { x: (p.position.x + dx) as isize, y: p.position.y }, ..p }
}

/// The piece one row further down.
pub open spec fn spec_down(p: Piece) -> Piece {
    Piece { position: Offset { x: p.position.x, y: (p.position.y - 1) as isize }, ..p }
}

/// A fresh piece of `kind` at the spawn position, in spawn rotation.
pub open spec fn spec_spawn_piece(kind: Kind) -> Piece {
    Piece { kind, position: Offset { x: SPAWN_X, y: SPAWN_Y }, rotation: Rotation::N }
}

/// Multiset holding one of each of the seven kinds.
pub open spec fn all_kinds_mset() -> Multiset<Kind> {
    seq![Kind::O, Kind::I, Kind::T, Kind::L, Kind::J, Kind::S, Kind::Z].to_multiset()
}

/// How one draw relates the bag before and after it: from a non-empty bag
/// the last kind is taken; an empty bag is first refilled with one of each
/// of the seven kinds in an order left open.
pub open spec fn spec_bag_draw(b0: Seq<Kind>, b1: Seq<Kind>, k: Kind) -> bool {
    if b0.len() > 0 {
        k == b0.last() && b1 == b0.drop_last()
    } else {
        b1.push(k).to_multiset() == all_kinds_mset()
    }
}

/// A falling piece is never clipping and keeps its anchor inside the band
/// the engine can reach: spawn happens at `SPAWN_Y` and pieces only ever
/// move down from there.
pub open spec fn cursor_ok(m: Matrix, p: Piece) -> bool {
    &&& !m.spec_is_clipping(p)
    &&& -3 <= p.position.x < WIDTH
    &&& -3 <= p.position.y <= SPAWN_Y
}

/// Where a piece comes to rest: moved down one row at a time for as long as
/// the next step would not clip.
pub open spec fn spec_dropped(m: Matrix, p: Piece) -> Piece
    decreases p.position.y + 3,
    when !m.spec_is_clipping(p) && p.position.y >= -3
    via spec_dropped_decreases
{
    if !m.spec_is_clipping(spec_down(p)) {
        spec_dropped(m, spec_down(p))
    } else {
        p
    }
}

/// A piece that is not clipping has resolved cells, so its anchor row sits
/// at least at -3 and each drop step keeps the measure non-negative.
#[via_fn]
proof fn spec_dropped_decreases(m: Matrix, p: Piece) {
    if !m.spec_is_clipping(spec_down(p)) {
        assert(crate::piece::spec_cells_valid(spec_down(p)));
        lemma_valid_position_bounds(spec_down(p));
    }
}

/// The simulation core: playing field, piece supply, the falling piece and
/// the difficulty level.
pub struct Engine {
    pub(crate) matrix: Matrix,
    pub(crate) bag: Vec<Kind>,
    pub(crate) rng: rand::rngs::ThreadRng,
    pub(crate) cursor: Option<Piece>,
    pub(crate) level: u32,
}

impl Engine {
    /// The playing field.
    pub closed spec fn spec_matrix(&self) -> Matrix {
        self.matrix
    }

    /// The piece supply for the current shuffle epoch.
    pub closed spec fn spec_bag(&self) -> Seq<Kind> {
        self.bag@
    }

    /// The falling piece, when one is falling.
    pub closed spec fn spec_cursor(&self) -> Option<Piece> {
        self.cursor
    }

    /// The difficulty level, at least 1.
    pub closed spec fn spec_level(&self) -> u32 {
        self.level
    }

    /// The engine's invariant: a well-formed field, a level of at least 1,
    /// and a falling piece that is never clipping.
    pub closed spec fn wf(&self) -> bool {
        &&& self.matrix.wf()
        &&& self.level >= 1
        &&& match self.cursor {
            Some(p) => cursor_ok(self.matrix, p),
            None => true,
        }
    }

    /// A fresh engine: blank field, empty bag, no falling piece, level 1.
    pub fn new() -> (r: Engine)
        ensures
            r.wf(),
            r.spec_cursor() is None,
            r.spec_bag() == Seq::<Kind>::empty(),
            r.spec_level() == 1,
            forall|i: int| 0 <= i < SIZE ==> r.spec_matrix()@[i] is None,
    {
        Engine { matrix: Matrix::blank(), bag: Vec::new(), rng: new_rng(), cursor: None, level: 1 }
    }

    /// An engine over a pre-seeded field, for tests and tools.
    pub fn with_matrix(matrix: Matrix) -> (r: Engine)
        requires
            matrix.wf(),
        ensures
            r.wf(),
            r.spec_matrix() == matrix,
            r.spec_cursor() is None,
            r.spec_bag() == Seq::<Kind>::empty(),
            r.spec_level() == 1,
    {
        Engine { matrix, bag: Vec::new(), rng: new_rng(), cursor: None, level: 1 }
    }

    /// Sets the difficulty level.
    pub fn set_level(&mut self, level: u32)
        requires
            old(self).wf(),
            level >= 1,
        ensures
            final(self).wf(),
            final(self).spec_level() == level,
            final(self).spec_matrix() == old(self).spec_matrix(),
            final(self).spec_bag() == old(self).spec_bag(),
            final(self).spec_cursor() == old(self).spec_cursor(),
    {
        self.level = level;
    }

    /// Moves the falling piece one column aside. With no falling piece this
    /// is a no-op success; a move into a clipping position fails and leaves
    /// the piece exactly where it was.
    pub fn move_cursor(&mut self, kind: MoveKind) -> (r: Result<(), ()>)
        requires
            old(self).wf(),
        ensures
            final(self).wf(),
            final(self).spec_matrix() == old(self).spec_matrix(),
            final(self).spec_bag() == old(self).spec_bag(),
            final(self).spec_level() == old(self).spec_level(),
            match old(self).spec_cursor() {
                None => r is Ok && final(self).spec_cursor() is None,
                Some(c) => {
                    let moved = spec_moved_x(c, spec_move_dx(kind));
                    if old(self).spec_matrix().spec_is_clipping(moved) {
                        r is Err && final(self).spec_cursor() == Some(c)
                    } else {
                        r is Ok && final(self).spec_cursor() == Some(moved)
                    }
                },
            },
    {
        let cursor = match self.cursor {
            Some(cursor) => cursor,
            None => {
                return Ok(());
            },
        };
        let moved = cursor.moved_by(kind.offset());
        proof {
            assert(moved == spec_moved_x(cursor, spec_move_dx(kind)));
        }
        if self.matrix.is_clipping(&moved) {
            return Err(());
        }
        proof {
            assert(crate::piece::spec_cells_valid(moved));
            lemma_valid_position_bounds(moved);
        }
        self.cursor = Some(moved);
        Ok(())
    }

    /// The falling piece moved one row down, when that would not clip.
    pub fn ticked_down_cursor(&self) -> (r: Option<Piece>)
        requires
            self.wf(),
        ensures
            match self.spec_cursor() {
                None => r is None,
                Some(c) => {
                    if self.spec_matrix().spec_is_clipping(spec_down(c)) {
                        r is None
                    } else {
                        r == Some(spec_down(c))
                    }
                },
            },
    {
        let cursor = match self.cursor {
            Some(cursor) => cursor,
            None => {
                return None;
            },
        };
        let down = cursor.moved_by(Offset::new(0, -1));
        proof {
            assert(down == spec_down(cursor));
        }
        if !self.matrix.is_clipping(&down) {
            Some(down)
        } else {
            None
        }
    }

    /// Moves the falling piece one row down. Only legal when a downward
    /// step exists; callers check `cursor_has_hit_bottom` first.
    pub fn tick_down(&mut self)
        requires
            old(self).wf(),
            old(self).spec_cursor() is Some,
            !old(self).spec_matrix().spec_is_clipping(spec_down(old(self).spec_cursor()->Some_0)),
        ensures
            final(self).wf(),
            final(self).spec_matrix() == old(self).spec_matrix(),
            final(self).spec_bag() == old(self).spec_bag(),
            final(self).spec_level() == old(self).spec_level(),
            final(self).spec_cursor() == Some(spec_down(old(self).spec_cursor()->Some_0)),
    {
        let down = self.ticked_down_cursor().unwrap();
        proof {
            assert(crate::piece::spec_cells_valid(down));
            lemma_valid_position_bounds(down);
        }
        self.cursor = Some(down);
    }

    /// True iff a piece is falling and moving it down one row would clip.
    pub fn cursor_has_hit_bottom(&self) -> (r: bool)
        requires
            self.wf(),
        ensures
            r == match self.spec_cursor() {
                Some(c) => self.spec_matrix().spec_is_clipping(spec_down(c)),
                None => false,
            },
    {
        self.cursor.is_some() && self.ticked_down_cursor().is_none()
    }

    /// True iff a piece is falling and rests wholly inside the visible
    /// field on unoccupied cells.
    pub fn cursor_placeable(&self) -> (r: bool)
        requires
            self.wf(),
        ensures
            r == match self.spec_cursor() {
                Some(c) => self.spec_matrix().spec_is_placeable(c),
                None => false,
            },
    {
        match self.cursor {
            Some(cursor) => self.matrix.is_placeable(&cursor),
            None => false,
        }
    }

    /// The falling piece's four cells and its color, when one is falling.
    pub fn cursor_info(&self) -> (r: Option<(Vec<Coordinate>, Color)>)
        requires
            self.wf(),
        ensures
            match self.spec_cursor() {
                None => r is None,
                Some(c) => {
                    &&& r matches Some(info)
                    &&& info.1 == spec_color(c.kind)
                    &&& spec_cells(c) matches Some(s) && crate::piece::coords_match(s, info.0@)
                },
            },
    {
        let cursor = match self.cursor {
            Some(cursor) => cursor,
            None => {
                return None;
            },
        };
        proof {
            assert(spec_cells(cursor) is Some);
        }
        let cells = cursor.cells().unwrap();
        Some((cells, cursor.kind.color()))
    }

    /// Snapshot of every cell with its coordinate, row-major from the
    /// origin, for the presentation layer to render.
    pub fn cells(&self) -> (r: Vec<(Coordinate, Option<Color>)>)
        requires
            self.wf(),
        ensures
            r@.len() == SIZE,
            forall|i: int|
                0 <= i < SIZE ==> {
                    &&& (#[trigger] r@[i]).0.x == i % (WIDTH as int)
                    &&& r@[i].0.y == i / (WIDTH as int)
                    &&& r@[i].1 == self.spec_matrix()@[i]
                },
    {
        self.matrix.cells()
    }

    /// The indices of all full rows, lowest first, for the presentation
    /// layer to animate before they are cleared.
    pub fn full_rows(&self) -> (r: Vec<usize>)
        requires
            self.wf(),
        ensures
            r@ == self.spec_matrix().spec_full_rows(),
    {
        self.matrix.full_rows()
    }

    /// Draws the next kind from the bag, refilling it with one shuffled
    /// copy of each of the seven kinds when it is empty.
    pub fn next_kind(&mut self) -> (k: Kind)
        requires
            old(self).wf(),
        ensures
            final(self).wf(),
            final(self).spec_matrix() == old(self).spec_matrix(),
            final(self).spec_cursor() == old(self).spec_cursor(),
            final(self).spec_level() == old(self).spec_level(),
            spec_bag_draw(old(self).spec_bag(), final(self).spec_bag(), k),
    {
        if self.bag.len() == 0 {
            let mut fresh = Kind::all();
            shuffle_kinds(&mut fresh, &mut self.rng);
            proof {
                assert(fresh@.to_multiset() == all_kinds_mset());
            }
            self.bag = fresh;
        }
        let ghost pre = self.bag@;
        let k = self.bag.pop().unwrap();
        proof {
            assert(self.bag@ == pre.drop_last());
            if old(self).bag@.len() == 0 {
                assert(pre.drop_last().push(k) =~= pre);
                assert(self.bag@.push(k).to_multiset() == all_kinds_mset());
            }
        }
        k
    }

    /// Puts a fresh piece of `kind` at the spawn position, in spawn
    /// rotation. Fails with the top-out outcome, leaving no falling piece,
    /// when the spawned piece already clips the field.
    pub fn spawn_kind(&mut self, kind: Kind) -> (r: Result<(), TopOut>)
        requires
            old(self).wf(),
            old(self).spec_cursor() is None,
        ensures
            final(self).wf(),
            final(self).spec_matrix() == old(self).spec_matrix(),
            final(self).spec_bag() == old(self).spec_bag(),
            final(self).spec_level() == old(self).spec_level(),
            ({
                let p = spec_spawn_piece(kind);
                if old(self).spec_matrix().spec_is_clipping(p) {
                    r is Err && final(self).spec_cursor() is None
                } else {
                    r is Ok && final(self).spec_cursor() == Some(p)
                }
            }),
    {
        let piece = Piece {
            kind,
            position: Offset::new(SPAWN_X, SPAWN_Y),
            rotation: Rotation::N,
        };
        proof {
            assert(piece == spec_spawn_piece(kind));
        }
        if self.matrix.is_clipping(&piece) {
            Err(TopOut)
        } else {
            self.cursor = Some(piece);
            Ok(())
        }
    }

    /// Draws the next kind from the bag and spawns it. The top-out outcome
    /// is terminal: the drawn piece cannot occupy its spawn cells.
    pub fn spawn(&mut self) -> (r: Result<Kind, TopOut>)
        requires
            old(self).wf(),
            old(self).spec_cursor() is None,
        ensures
            final(self).wf(),
            final(self).spec_matrix() == old(self).spec_matrix(),
            final(self).spec_level() == old(self).spec_level(),
            exists|k: Kind|
                {
                    &&& #[trigger] spec_bag_draw(old(self).spec_bag(), final(self).spec_bag(), k)
                    &&& ({
                        let p = spec_spawn_piece(k);
                        if old(self).spec_matrix().spec_is_clipping(p) {
                            r is Err && final(self).spec_cursor() is None
                        } else {
                            r == Ok::<Kind, TopOut>(k) && final(self).spec_cursor() == Some(p)
                        }
                    })
                },
    {
        let k = self.next_kind();
        match self.spawn_kind(k) {
            Ok(()) => Ok(k),
            Err(t) => Err(t),
        }
    }

    /// Commits the falling piece's color into the field and clears the
    /// cursor. Callers must have established placeability first: committing
    /// an unplaceable piece would corrupt the grid.
    pub fn place_cursor(&mut self)
        requires
            old(self).wf(),
            old(self).spec_cursor() matches Some(c) && old(self).spec_matrix().spec_is_placeable(
                c,
            ),
        ensures
            final(self).wf(),
            final(self).spec_bag() == old(self).spec_bag(),
            final(self).spec_level() == old(self).spec_level(),
            final(self).spec_cursor() is None,
            crate::matrix::spec_committed(
                old(self).spec_matrix(),
                final(self).spec_matrix(),
                old(self).spec_cursor()->Some_0,
            ),
    {
        let cursor = self.cursor.unwrap();
        self.matrix.commit(&cursor);
        self.cursor = None;
    }

    /// Drops the falling piece straight down to its resting position and
    /// commits it there. Fails with the top-out outcome, changing nothing,
    /// when the rested piece does not lie wholly inside the visible field.
    pub fn hard_drop(&mut self) -> (r: Result<(), TopOut>)
        requires
            old(self).wf(),
            old(self).spec_cursor() is Some,
        ensures
            final(self).wf(),
            final(self).spec_bag() == old(self).spec_bag(),
            final(self).spec_level() == old(self).spec_level(),
            ({
                let rest = spec_dropped(
                    old(self).spec_matrix(),
                    old(self).spec_cursor()->Some_0,
                );
                if old(self).spec_matrix().spec_is_placeable(rest) {
                    &&& r is Ok
                    &&& final(self).spec_cursor() is None
                    &&& crate::matrix::spec_committed(
                        old(self).spec_matrix(),
                        final(self).spec_matrix(),
                        rest,
                    )
                } else {
                    &&& r is Err
                    &&& *final(self) == *old(self)
                }
            }),
    {
        let c0 = self.cursor.unwrap();
        let mut cur = c0;
        loop
            invariant
                self.wf(),
                *self == *old(self),
                cursor_ok(self.matrix, cur),
                spec_dropped(self.matrix, cur) == spec_dropped(self.matrix, c0),
            ensures
                self.wf(),
                *self == *old(self),
                cursor_ok(self.matrix, cur),
                cur == spec_dropped(self.matrix, c0),
            decreases cur.position.y + 3,
        {
            let down = cur.moved_by(Offset::new(0, -1));
            proof {
                assert(down == spec_down(cur));
            }
            if self.matrix.is_clipping(&down) {
                proof {
                    assert(spec_dropped(self.matrix, cur) == cur);
                }
                break;
            }
            proof {
                assert(crate::piece::spec_cells_valid(down));
                lemma_valid_position_bounds(down);
                assert(spec_dropped(self.matrix, cur) == spec_dropped(self.matrix, down));
            }
            cur = down;
        }
        if self.matrix.is_placeable(&cur) {
            self.matrix.commit(&cur);
            self.cursor = None;
            Ok(())
        } else {
            Err(TopOut)
        }
    }

    /// Scans for full rows and removes them as one atomic compaction,
    /// returning the removed row indices, lowest first. Run after a piece
    /// has been placed; the presentation layer may query `full_rows` first
    /// to animate the clear.
    pub fn line_clear(&mut self) -> (r: Vec<usize>)
        requires
            old(self).wf(),
            old(self).spec_cursor() is None,
        ensures
            final(self).wf(),
            final(self).spec_bag() == old(self).spec_bag(),
            final(self).spec_level() == old(self).spec_level(),
            final(self).spec_cursor() is None,
            r@ == old(self).spec_matrix().spec_full_rows(),
            crate::matrix::spec_cleared(
                old(self).spec_matrix(),
                final(self).spec_matrix(),
                r@,
            ),
    {
        let rows = self.matrix.full_rows();
        proof {
            crate::matrix::lemma_full_rows_below_sorted(self.matrix, HEIGHT as int);
        }
        self.matrix.clear_rows(&rows);
        rows
    }

    /// Advisory gravity interval for the current level, in whole
    /// nanoseconds: (0.8 - (level - 1) * 0.007) ^ (level - 1) seconds,
    /// computed in fixed point, truncating to whole nanoseconds after each
    /// multiplication.
    pub fn drop_time(&self) -> (r: u64)
        requires
            self.wf(),
        ensures
            r == spec_drop_nanos(self.spec_level() as int),
    {
        let n: u32 = self.level - 1;
        let base: u64 = if 7 * (n as u64) <= 800 {
            800 - 7 * (n as u64)
        } else {
            0
        };
        proof {
            assert(base == spec_drop_base(self.level as int));
        }
        let mut r: u64 = 1_000_000_000;
        let mut k: u32 = 0;
        while k < n
            invariant
                base == spec_drop_base(self.spec_level() as int),
                base <= 800,
                k <= n,
                n == self.spec_level() - 1,
                r == spec_drop_steps(base as int, k as nat),
                r <= 1_000_000_000,
            decreases n - k,
        {
            proof {
                assert(r * base <= 800_000_000_000) by (nonlinear_arith)
                    requires
                        r <= 1_000_000_000,
                        base <= 800,
                ;
                assert((r * base) / 1000 <= r) by (nonlinear_arith)
                    requires
                        r <= 1_000_000_000,
                        base <= 800,
                ;
            }
            r = (r * base) / 1000;
            k += 1;
        }
        r
    }
}

/// One fixed-point step of the gravity curve: starting from one second in
/// whole nanoseconds, multiply `k` times by `base` thousandths, truncating
/// after each multiplication.
pub open spec fn spec_drop_steps(base: int, k: nat) -> int
    decreases k,
{
    if k == 0 {
        1_000_000_000
    } else {
        spec_drop_steps(base, (k - 1) as nat) * base / 1000
    }
}

/// Thousandths of a second per row before exponentiation: 800, less 7 per
/// level above one, floored at zero.
pub open spec fn spec_drop_base(level: int) -> int {
    if 7 * (level - 1) <= 800 {
        800 - 7 * (level - 1)
    } else {
        0
    }
}

/// Whole nanoseconds between gravity ticks at `level`.
pub open spec fn spec_drop_nanos(level: int) -> int {
    spec_drop_steps(spec_drop_base(level), (level - 1) as nat)
}

/// Law: gravity at level 2 is strictly faster than at level 1.
pub proof fn lemma_drop_time_level_two_faster()
    ensures
        spec_drop_nanos(2) < spec_drop_nanos(1),
{
    assert(spec_drop_steps(800, 0nat) == 1_000_000_000);
    assert(spec_drop_steps(793, 0nat) == 1_000_000_000);
    assert(spec_drop_steps(793, 1nat) == 793_000_000);
}

/// Law: in a well-formed engine the falling piece, when present, is never
/// clipping: its four cells resolve within horizontal bounds and none of
/// its cells below the ceiling overlaps an occupied cell.
pub proof fn lemma_cursor_never_clips(e: Engine)
    requires
        e.wf(),
    ensures
        match e.spec_cursor() {
            Some(c) => !e.spec_matrix().spec_is_clipping(c),
            None => true,
        },
{
}

/// Law: a bag refilled to one copy of each kind holds exactly seven
/// entries, one of every kind; the next seven draws therefore yield each of
/// the seven kinds exactly once, in some order.
pub proof fn lemma_bag_fairness(bag: Seq<Kind>)
    requires
        bag.to_multiset() == all_kinds_mset(),
    ensures
        bag.len() == 7,
        forall|k: Kind| #[trigger] bag.to_multiset().count(k) == 1,
{
    broadcast use vstd::seq_lib::group_to_multiset_ensures;

    let all = seq![Kind::O, Kind::I, Kind::T, Kind::L, Kind::J, Kind::S, Kind::Z];
    assert(all[0] == Kind::O);
    assert(all[1] == Kind::I);
    assert(all[2] == Kind::T);
    assert(all[3] == Kind::L);
    assert(all[4] == Kind::J);
    assert(all[5] == Kind::S);
    assert(all[6] == Kind::Z);
    assert(all.no_duplicates());
    all.lemma_multiset_has_no_duplicates();
    assert(bag.len() == bag.to_multiset().len());
    assert(all.to_multiset().len() == all.len());
    assert forall|k: Kind| #[trigger] bag.to_multiset().count(k) == 1 by {
        match k {
            Kind::O => assert(all[0] == k),
            Kind::I => assert(all[1] == k),
            Kind::T => assert(all[2] == k),
            Kind::L => assert(all[3] == k),
            Kind::J => assert(all[4] == k),
            Kind::S => assert(all[5] == k),
            Kind::Z => assert(all[6] == k),
        }
        assert(all.contains(k));
        assert(all.to_multiset().count(k) > 0);
    }
}

} // verus!
