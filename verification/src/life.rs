//! Conway's game of life on a bounded board: every cell beyond the edge
//! counts as dead.

use vstd::prelude::*;
use vstd::arithmetic::div_mod::lemma_fundamental_div_mod_converse;
use crate::buffer::{Buffer, Fragment};

verus! {

/// A cell of the board.
#[derive(Debug, Clone, Copy, PartialEq, Eq, Structural)]
pub enum Cell {
    Dead,
    Alive,
}

impl Cell {
    pub fn is_dead(&self) -> (b: bool)
        ensures
            b == (*self == Cell::Dead),
    {
        *self == Cell::Dead
    }

    pub fn is_alive(&self) -> (b: bool)
        ensures
            b == (*self == Cell::Alive),
    {
        *self == Cell::Alive
    }

    pub fn kill(&mut self)
        ensures
            *final(self) == Cell::Dead,
    {
        *self = Cell::Dead;
    }

    pub fn revive(&mut self)
        ensures
            *final(self) == Cell::Alive,
    {
        *self = Cell::Alive;
    }
}

/// The colour word that a live cell is drawn in.
pub const LIVE: u32 = 0xffdddddd;

/// The rule of the game: a live cell lives on with two or three live
/// neighbours, a dead cell comes to life with exactly three, and every
/// other cell is dead in the next generation.
pub open spec fn fate(cell: Cell, neighbors: int) -> Cell {
    if cell == Cell::Alive {
        if 2 <= neighbors <= 3 {
            Cell::Alive
        } else {
            Cell::Dead
        }
    } else if neighbors == 3 {
        Cell::Alive
    } else {
        Cell::Dead
    }
}

/// The mathematical content of a world: its cells row by row.
pub struct Board {
    pub width: int,
    pub height: int,
    pub cells: Seq<Cell>,
}

impl Board {
    /// The board has one cell for every position.
    pub open spec fn wf(self) -> bool {
        &&& 0 <= self.width
        &&& 0 <= self.height
        &&& self.cells.len() == self.width * self.height
    }

    /// The position `(x, y)` lies on the board.
    pub open spec fn inbounds(self, x: int, y: int) -> bool {
        0 <= x < self.width && 0 <= y < self.height
    }

    /// The place of the position `(x, y)` among the cells.
    pub open spec fn index(self, x: int, y: int) -> int {
        y * self.width + x
    }

    /// `1` where `(x, y)` lies on the board and its cell is alive, `0`
    /// elsewhere.
    pub open spec fn live(self, x: int, y: int) -> int {
        if self.inbounds(x, y) && self.cells[self.index(x, y)] == Cell::Alive {
            1
        } else {
            0
        }
    }

    /// The number of live cells among the eight neighbours of `(x, y)`.
    pub open spec fn live_neighbors(self, x: int, y: int) -> int {
        self.live(x - 1, y - 1) + self.live(x, y - 1) + self.live(x + 1, y - 1) + self.live(
            x - 1,
            y,
        ) + self.live(x + 1, y) + self.live(x - 1, y + 1) + self.live(x, y + 1) + self.live(
            x + 1,
            y + 1,
        )
    }

    /// The cell at `(x, y)` in the next generation.
    pub open spec fn next_cell(self, x: int, y: int) -> Cell {
        fate(self.cells[self.index(x, y)], self.live_neighbors(x, y))
    }

    /// The next generation.
    pub open spec fn step(self) -> Board {
        Board {
            cells: Seq::new(
                self.cells.len(),
                |i: int| self.next_cell(i % self.width, i / self.width),
            ),
            ..self
        }
    }

    /// A board with no live cell.
    pub open spec fn barren(width: int, height: int) -> Board {
        Board { width, height, cells: Seq::new((width * height) as nat, |i: int| Cell::Dead) }
    }

    /// The board with the cell at `(x, y)` brought to life where `toss`
    /// says so.
    pub open spec fn seeded(self, x: int, y: int, toss: bool) -> Board {
        if toss {
            Board { cells: self.cells.update(self.index(x, y), Cell::Alive), ..self }
        } else {
            self
        }
    }

    /// Every position of the board has a place among the cells, and is
    /// found again from that place.
    pub proof fn lemma_index(self, x: int, y: int)
        requires
            self.wf(),
            self.inbounds(x, y),
        ensures
            0 <= self.index(x, y) < self.cells.len(),
            self.index(x, y) % self.width == x,
            self.index(x, y) / self.width == y,
    {
        let w = self.width;
        assert(0 <= y * w) by (nonlinear_arith)
            requires
                0 <= y,
                0 <= w,
        ;
        assert(y * w + w <= self.height * w) by (nonlinear_arith)
            requires
                y + 1 <= self.height,
                0 <= w,
        ;
        assert(self.height * w == w * self.height) by (nonlinear_arith);
        lemma_fundamental_div_mod_converse(y * w + x, w, y, x);
    }
}

/// A toss of a coin. It calls `rand::random::<bool>()`, of which nothing
/// is claimed: either answer may come.
#[verifier::external_body]
fn coin() -> bool {
    rand::random::<bool>()
}

/// A world of cells.
pub struct World {
    height: usize,
    width: usize,
    worker: Vec<Cell>,
    next: Vec<Cell>,
}

impl View for World {
    type V = Board;

    closed spec fn view(&self) -> Board {
        Board { width: self.width as int, height: self.height as int, cells: self.worker@ }
    }
}

impl World {
    /// What holds of every world: its board is well formed, and the
    /// generation in the making has a cell for every position too.
    #[verifier::type_invariant]
    closed spec fn inv(self) -> bool {
        &&& self@.wf()
        &&& self.next@.len() == self.worker@.len()
    }

    /// A world of `height` rows and `width` columns with no live cell.
    pub fn cons(height: usize, width: usize) -> (w: World)
        requires
            width * height <= usize::MAX,
        ensures
            w@ == Board::barren(width as int, height as int),
            w@.wf(),
    {
        let w = World {
            height,
            width,
            worker: vec![Cell::Dead; width * height],
            next: vec![Cell::Dead; width * height],
        };
        assert(w@.cells =~= Board::barren(width as int, height as int).cells);
        w
    }

    pub fn width(&self) -> (w: usize)
        ensures
            w == self@.width,
            self@.wf(),
    {
        proof {
            use_type_invariant(self);
        }
        self.width
    }

    pub fn height(&self) -> (h: usize)
        ensures
            h == self@.height,
            self@.wf(),
    {
        proof {
            use_type_invariant(self);
        }
        self.height
    }

    /// The cell at `(x, y)`.
    pub fn get(&self, x: usize, y: usize) -> (c: Cell)
        requires
            self@.inbounds(x as int, y as int),
        ensures
            c == self@.cells[self@.index(x as int, y as int)],
    {
        let i = self.idx(x, y);
        self.worker[i]
    }

    /// Brings the cell at `(x, y)` to life where `toss` says so.
    pub fn seed(&mut self, x: usize, y: usize, toss: bool)
        requires
            old(self)@.inbounds(x as int, y as int),
        ensures
            final(self)@ == old(self)@.seeded(x as int, y as int, toss),
            final(self)@.wf(),
    {
        proof {
            use_type_invariant(&*self);
        }
        if toss {
            let idx = self.idx(x, y);
            self.worker[idx] = Cell::Alive;
        }
    }

    /// Brings every cell to life for which a coin says so. No cell dies
    /// of it.
    pub fn randomize(&mut self)
        ensures
            final(self)@.wf(),
            final(self)@.width == old(self)@.width,
            final(self)@.height == old(self)@.height,
            forall|i: int|
                0 <= i < old(self)@.cells.len() ==> #[trigger] final(self)@.cells[i] == old(
                    self,
                )@.cells[i] || final(self)@.cells[i] == Cell::Alive,
    {
        proof {
            use_type_invariant(&*self);
        }
        let height = self.height;
        let width = self.width;
        let mut y: usize = 0;
        while y < height
            invariant
                self@.wf(),
                self@.width == old(self)@.width,
                self@.height == old(self)@.height,
                height == self@.height,
                width == self@.width,
                self@.cells.len() == old(self)@.cells.len(),
                forall|i: int|
                    0 <= i < old(self)@.cells.len() ==> #[trigger] self@.cells[i] == old(
                        self,
                    )@.cells[i] || self@.cells[i] == Cell::Alive,
            decreases height - y,
        {
            let mut x: usize = 0;
            while x < width
                invariant
                    y < height,
                    self@.wf(),
                    self@.width == old(self)@.width,
                    self@.height == old(self)@.height,
                    height == self@.height,
                    width == self@.width,
                    self@.cells.len() == old(self)@.cells.len(),
                    forall|i: int|
                        0 <= i < old(self)@.cells.len() ==> #[trigger] self@.cells[i] == old(
                            self,
                        )@.cells[i] || self@.cells[i] == Cell::Alive,
                decreases width - x,
            {
                proof {
                    self@.lemma_index(x as int, y as int);
                }
                let toss = coin();
                self.seed(x, y, toss);
                x += 1;
            }
            y += 1;
        }
    }

    /// Replaces the board by its next generation.
    pub fn update(&mut self)
        ensures
            final(self)@ == old(self)@.step(),
            final(self)@.wf(),
    {
        proof {
            use_type_invariant(&*self);
        }
        let height = self.height;
        let width = self.width;
        let ghost target = self@.step().cells;
        let mut y: usize = 0;
        while y < height
            invariant
                y <= height,
                self@ == old(self)@,
                self@.wf(),
                self.next@.len() == self.worker@.len(),
                height == self@.height,
                width == self@.width,
                target == self@.step().cells,
                forall|i: int| 0 <= i < y * width ==> self.next@[i] == target[i],
            decreases height - y,
        {
            let mut x: usize = 0;
            while x < width
                invariant
                    x <= width,
                    y < height,
                    self@ == old(self)@,
                    self@.wf(),
                    self.next@.len() == self.worker@.len(),
                    height == self@.height,
                    width == self@.width,
                    target == self@.step().cells,
                    forall|i: int| 0 <= i < y * width + x ==> self.next@[i] == target[i],
                decreases width - x,
            {
                proof {
                    self@.lemma_index(x as int, y as int);
                }
                let cell = self.next_state(x, y);
                let idx = self.idx(x, y);
                self.next[idx] = cell;
                x += 1;
            }
            proof {
                assert(y * width + width == (y + 1) * width) by (nonlinear_arith);
            }
            y += 1;
        }
        proof {
            assert(height * width == width * height) by (nonlinear_arith);
            assert(self.next@ =~= target);
        }
        self.flip();
    }

    /// The cell at `(x, y)` in the next generation.
    fn next_state(&self, x: usize, y: usize) -> (c: Cell)
        requires
            self@.inbounds(x as int, y as int),
        ensures
            c == self@.next_cell(x as int, y as int),
    {
        let neighbors = self.count_live_neighbors(x, y);
        let idx = self.idx(x, y);
        let curr = self.worker[idx];
        if curr.is_alive() {
            if !(2 <= neighbors && neighbors <= 3) {
                Cell::Dead
            } else {
                Cell::Alive
            }
        } else if neighbors == 3 {
            Cell::Alive
        } else {
            Cell::Dead
        }
    }

    /// Draws every live cell that has a pixel on `buffer` in the colour
    /// `LIVE`, and leaves every other pixel as it is.
    pub fn render(&self, buffer: &mut Buffer)
        ensures
            final(buffer)@.wf(),
            final(buffer)@.width == old(buffer)@.width,
            final(buffer)@.height == old(buffer)@.height,
            forall|u: int, v: int|
                old(buffer)@.inbounds(u, v) ==> #[trigger] final(buffer)@.at(u, v) == (if self@.live(
                    u,
                    v,
                ) == 1 {
                    Fragment { color: LIVE, depth: old(buffer)@.at(u, v).depth }
                } else {
                    old(buffer)@.at(u, v)
                }),
    {
        proof {
            use_type_invariant(self);
            use_type_invariant(&*buffer);
        }
        let height = self.height;
        let width = self.width;
        let mut y: usize = 0;
        while y < height
            invariant
                y <= height,
                height == self@.height,
                width == self@.width,
                self@.wf(),
                buffer@.wf(),
                old(buffer)@.wf(),
                buffer@.width == old(buffer)@.width,
                buffer@.height == old(buffer)@.height,
                forall|u: int, v: int|
                    old(buffer)@.inbounds(u, v) ==> #[trigger] buffer@.at(u, v) == (if self@.live(
                        u,
                        v,
                    ) == 1 && v < y {
                        Fragment { color: LIVE, depth: old(buffer)@.at(u, v).depth }
                    } else {
                        old(buffer)@.at(u, v)
                    }),
            decreases height - y,
        {
            let mut x: usize = 0;
            while x < width
                invariant
                    x <= width,
                    y < height,
                    height == self@.height,
                    width == self@.width,
                    self@.wf(),
                    buffer@.wf(),
                    old(buffer)@.wf(),
                    buffer@.width == old(buffer)@.width,
                    buffer@.height == old(buffer)@.height,
                    forall|u: int, v: int|
                        old(buffer)@.inbounds(u, v) ==> #[trigger] buffer@.at(u, v) == (if self@.live(
                            u,
                            v,
                        ) == 1 && (v < y || (v == y && u < x)) {
                            Fragment { color: LIVE, depth: old(buffer)@.at(u, v).depth }
                        } else {
                            old(buffer)@.at(u, v)
                        }),
                decreases width - x,
            {
                let idx = self.idx(x, y);
                let ghost before = buffer@;
                if !self.worker[idx].is_dead() && buffer.inbounds(x, y) {
                    buffer.place_pixel(x, y, LIVE);
                }
                proof {
                    assert forall|u: int, v: int| old(buffer)@.inbounds(u, v) implies #[trigger] buffer@.at(
                        u,
                        v,
                    ) == (if self@.live(u, v) == 1 && (v < y || (v == y && u < x + 1)) {
                        Fragment { color: LIVE, depth: old(buffer)@.at(u, v).depth }
                    } else {
                        old(buffer)@.at(u, v)
                    }) by {
                        before.lemma_put_at(x as int, y as int, LIVE, u, v);
                        assert(before.at(u, v) == (if self@.live(u, v) == 1 && (v < y || (v == y
                            && u < x)) {
                            Fragment { color: LIVE, depth: old(buffer)@.at(u, v).depth }
                        } else {
                            old(buffer)@.at(u, v)
                        }));
                    }
                }
                x += 1;
            }
            y += 1;
        }
    }

    /// The number of live cells among the eight neighbours of `(x, y)`.
    pub fn count_live_neighbors(&self, x: usize, y: usize) -> (n: usize)
        requires
            self@.inbounds(x as int, y as int),
        ensures
            n == self@.live_neighbors(x as int, y as int),
            n <= 8,
    {
        let mut neighbors: usize = 0;
        neighbors += self.probe(x, y, -1, -1);
        neighbors += self.probe(x, y, 0, -1);
        neighbors += self.probe(x, y, 1, -1);
        neighbors += self.probe(x, y, -1, 0);
        neighbors += self.probe(x, y, 1, 0);
        neighbors += self.probe(x, y, -1, 1);
        neighbors += self.probe(x, y, 0, 1);
        neighbors += self.probe(x, y, 1, 1);
        neighbors
    }

    /// `1` where the neighbour of `(x, y)` at the offset `(dx, dy)` lies on
    /// the board and is alive, `0` elsewhere.
    fn probe(&self, x: usize, y: usize, dx: i8, dy: i8) -> (n: usize)
        requires
            self@.inbounds(x as int, y as int),
            -1 <= dx <= 1,
            -1 <= dy <= 1,
        ensures
            n == self@.live(x + dx, y + dy),
            n <= 1,
    {
        if (dx < 0 && x == 0) || (dy < 0 && y == 0) {
            return 0;
        }
        if (dx > 0 && x == usize::MAX) || (dy > 0 && y == usize::MAX) {
            return 0;
        }
        let nx: usize = if dx < 0 {
            x - 1
        } else if dx > 0 {
            x + 1
        } else {
            x
        };
        let ny: usize = if dy < 0 {
            y - 1
        } else if dy > 0 {
            y + 1
        } else {
            y
        };
        if self.inbounds(nx, ny) && self.worker[self.idx(nx, ny)].is_alive() {
            1
        } else {
            0
        }
    }

    /// The position `(x, y)` lies on the board.
    pub fn inbounds(&self, x: usize, y: usize) -> (b: bool)
        ensures
            b == self@.inbounds(x as int, y as int),
    {
        x < self.width && y < self.height
    }

    /// The place of the position `(x, y)` among the cells.
    pub fn idx(&self, x: usize, y: usize) -> (i: usize)
        requires
            self@.inbounds(x as int, y as int),
        ensures
            i == self@.index(x as int, y as int),
            i < self@.cells.len(),
    {
        let n = self.worker.len();
        proof {
            use_type_invariant(self);
            self@.lemma_index(x as int, y as int);
            assert(0 <= y * self.width) by (nonlinear_arith)
                requires
                    0 <= y,
                    0 <= self.width,
            ;
        }
        y * self.width + x
    }

    /// Makes the generation in the making the current one.
    fn flip(&mut self)
        ensures
            final(self).worker@ == old(self).next@,
            final(self).next@ == old(self).worker@,
            final(self).width == old(self).width,
            final(self).height == old(self).height,
    {
        proof {
            use_type_invariant(&*self);
        }
        core::mem::swap(&mut self.worker, &mut self.next);
    }
}

} // verus!
