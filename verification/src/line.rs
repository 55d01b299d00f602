//! The line stepper for points of any size, such as the positions on a
//! buffer: the stepping rule of the edge walker, on coordinates as wide as
//! a `usize`. Each step doubles the error term, moves along x where that is
//! at least `dy`, and along y where it is at most `dx`.

use vstd::prelude::*;
use crate::arith::abs;

verus! {

/// The mathematical state of a line in the drawing: its two ends and the
/// point that is drawn next.
pub struct Stroke {
    pub x1: int,
    pub y1: int,
    pub x2: int,
    pub y2: int,
    pub x: int,
    pub y: int,
}

impl Stroke {
    /// A stroke that stands at its first end.
    pub open spec fn begin(x1: int, y1: int, x2: int, y2: int) -> Stroke {
        Stroke { x1, y1, x2, y2, x: x1, y: y1 }
    }

    /// The horizontal extent of the line, never negative.
    pub open spec fn dx(self) -> int {
        abs(self.x2 - self.x1)
    }

    /// The vertical extent of the line, negated: never positive.
    pub open spec fn dy(self) -> int {
        -abs(self.y2 - self.y1)
    }

    /// The direction of a horizontal move.
    pub open spec fn step_x(self) -> int {
        if self.x1 < self.x2 {
            1
        } else {
            -1
        }
    }

    /// The direction of a vertical move.
    pub open spec fn step_y(self) -> int {
        if self.y1 < self.y2 {
            1
        } else {
            -1
        }
    }

    /// The number of horizontal moves made so far.
    pub open spec fn taken_x(self) -> int {
        if self.x1 < self.x2 {
            self.x - self.x1
        } else {
            self.x1 - self.x
        }
    }

    /// The number of vertical moves made so far.
    pub open spec fn taken_y(self) -> int {
        if self.y1 < self.y2 {
            self.y - self.y1
        } else {
            self.y1 - self.y
        }
    }

    /// The error term, in closed form: it starts at `dx + dy`, every
    /// horizontal move adds `dy` to it and every vertical move adds `dx`.
    pub open spec fn error(self) -> int {
        self.dx() + self.dy() + self.taken_x() * self.dy() + self.taken_y() * self.dx()
    }

    /// The number of moves along either axis between the current point and
    /// the far end.
    pub open spec fn left(self) -> int {
        (self.dx() - self.taken_x()) + (-self.dy() - self.taken_y())
    }

    /// The states a stroke can be in: the current point lies between the
    /// ends on both axes, and the error term stays in the band that the
    /// stepping rule keeps it in.
    pub open spec fn wf(self) -> bool {
        &&& 0 <= self.taken_x() <= self.dx()
        &&& 0 <= self.taken_y() <= -self.dy()
        &&& 3 * self.dy() <= 2 * self.error() <= 3 * self.dx()
    }

    /// The stroke has arrived at its far end.
    pub open spec fn done(self) -> bool {
        self.x == self.x2 && self.y == self.y2
    }

    /// The next step moves along x.
    pub open spec fn moves_x(self) -> bool {
        2 * self.error() >= self.dy()
    }

    /// The next step moves along y.
    pub open spec fn moves_y(self) -> bool {
        2 * self.error() <= self.dx()
    }

    /// The stroke after one more step.
    pub open spec fn next(self) -> Stroke {
        Stroke {
            x: if self.moves_x() {
                self.x + self.step_x()
            } else {
                self.x
            },
            y: if self.moves_y() {
                self.y + self.step_y()
            } else {
                self.y
            },
            ..self
        }
    }

    /// A stroke at its first end is well formed.
    pub proof fn lemma_begin(x1: int, y1: int, x2: int, y2: int)
        ensures
            Stroke::begin(x1, y1, x2, y2).wf(),
            Stroke::begin(x1, y1, x2, y2).error() == Stroke::begin(x1, y1, x2, y2).dx()
                + Stroke::begin(x1, y1, x2, y2).dy(),
    {
        let s = Stroke::begin(x1, y1, x2, y2);
        assert(s.taken_x() * s.dy() == 0) by (nonlinear_arith)
            requires
                s.taken_x() == 0,
        ;
        assert(s.taken_y() * s.dx() == 0) by (nonlinear_arith)
            requires
                s.taken_y() == 0,
        ;
    }

    /// Short of its far end a stroke moves at every step, and never along
    /// an axis that it has finished.
    pub proof fn lemma_axes(self)
        requires
            self.wf(),
            !self.done(),
        ensures
            self.moves_x() || self.moves_y(),
            self.moves_x() ==> self.taken_x() < self.dx(),
            self.moves_y() ==> self.taken_y() < -self.dy(),
    {
        let dx = self.dx();
        let d = -self.dy();
        let tx = self.taken_x();
        let ty = self.taken_y();
        if tx == dx {
            assert(ty < d);
            assert(self.error() == dx * (1 + ty - d) - d) by (nonlinear_arith)
                requires
                    self.error() == dx + (-d) + tx * (-d) + ty * dx,
                    tx == dx,
            ;
            assert(dx * (1 + ty - d) <= 0) by (nonlinear_arith)
                requires
                    dx >= 0,
                    1 + ty - d <= 0,
            ;
        }
        if ty == d {
            assert(tx < dx);
            assert(self.error() == dx + d * (dx - tx - 1)) by (nonlinear_arith)
                requires
                    self.error() == dx + (-d) + tx * (-d) + ty * dx,
                    ty == d,
            ;
            assert(d * (dx - tx - 1) >= 0) by (nonlinear_arith)
                requires
                    d >= 0,
                    dx - tx - 1 >= 0,
            ;
        }
    }

    /// One step keeps the stroke well formed and brings it nearer to its
    /// far end.
    pub proof fn lemma_next(self)
        requires
            self.wf(),
            !self.done(),
        ensures
            self.next().wf(),
            self.next().left() < self.left(),
            self.next().error() == self.error() + (if self.moves_x() {
                self.dy()
            } else {
                0
            }) + (if self.moves_y() {
                self.dx()
            } else {
                0
            }),
    {
        self.lemma_axes();
        let n = self.next();
        let dx = self.dx();
        let dy = self.dy();
        let tx = self.taken_x();
        let ty = self.taken_y();
        assert((tx + 1) * dy == tx * dy + dy) by (nonlinear_arith);
        assert((ty + 1) * dx == ty * dx + dx) by (nonlinear_arith);
        if self.moves_x() {
            assert(n.taken_x() == tx + 1);
        } else {
            assert(n.taken_x() == tx);
        }
        if self.moves_y() {
            assert(n.taken_y() == ty + 1);
        } else {
            assert(n.taken_y() == ty);
        }
    }
}

/// A stroke in the making.
pub struct Stepper {
    x: i128,
    y: i128,
    x2: i128,
    y2: i128,
    sx: i128,
    sy: i128,
    dx: i128,
    dy: i128,
    error: i128,
    first: Ghost<(int, int)>,
}

/// The largest size of a coordinate that a stepper takes: every `usize`
/// and every `i64` lies within it.
pub const REACH: i128 = 0x1_0000_0000_0000_0000;

impl View for Stepper {
    type V = Stroke;

    closed spec fn view(&self) -> Stroke {
        Stroke {
            x1: self.first@.0,
            y1: self.first@.1,
            x2: self.x2 as int,
            y2: self.y2 as int,
            x: self.x as int,
            y: self.y as int,
        }
    }
}

impl Stepper {
    #[verifier::type_invariant]
    closed spec fn inv(self) -> bool {
        &&& self@.wf()
        &&& -REACH <= self@.x1 <= REACH
        &&& -REACH <= self@.y1 <= REACH
        &&& -REACH <= self@.x2 <= REACH
        &&& -REACH <= self@.y2 <= REACH
        &&& self.sx == self@.step_x()
        &&& self.sy == self@.step_y()
        &&& self.dx == self@.dx()
        &&& self.dy == self@.dy()
        &&& self.error == self@.error()
    }

    /// A stepper at `(x1, y1)`, bound for `(x2, y2)`.
    pub fn cons(x1: i128, y1: i128, x2: i128, y2: i128) -> (s: Stepper)
        requires
            -REACH <= x1 <= REACH,
            -REACH <= y1 <= REACH,
            -REACH <= x2 <= REACH,
            -REACH <= y2 <= REACH,
        ensures
            s@ == Stroke::begin(x1 as int, y1 as int, x2 as int, y2 as int),
            s@.wf(),
    {
        let dx: i128 = if x2 < x1 {
            x1 - x2
        } else {
            x2 - x1
        };
        let dy: i128 = if y2 < y1 {
            y2 - y1
        } else {
            y1 - y2
        };
        proof {
            Stroke::lemma_begin(x1 as int, y1 as int, x2 as int, y2 as int);
        }
        Stepper {
            x: x1,
            y: y1,
            x2,
            y2,
            sx: if x1 < x2 {
                1
            } else {
                -1
            },
            sy: if y1 < y2 {
                1
            } else {
                -1
            },
            dx,
            dy,
            error: dx + dy,
            first: Ghost((x1 as int, y1 as int)),
        }
    }

    /// The column of the current point.
    pub fn x(&self) -> (x: i128)
        ensures
            x == self@.x,
            self@.wf(),
            -REACH <= x <= REACH,
    {
        proof {
            use_type_invariant(self);
        }
        self.x
    }

    /// The row of the current point.
    pub fn y(&self) -> (y: i128)
        ensures
            y == self@.y,
            self@.wf(),
            -REACH <= y <= REACH,
    {
        proof {
            use_type_invariant(self);
        }
        self.y
    }

    /// The stepper stands on its far end.
    pub fn done(&self) -> (b: bool)
        ensures
            b == self@.done(),
    {
        self.x == self.x2 && self.y == self.y2
    }

    /// Makes one step.
    pub fn advance(&mut self)
        requires
            !old(self)@.done(),
        ensures
            old(self)@.wf(),
            final(self)@ == old(self)@.next(),
            final(self)@.wf(),
            final(self)@.left() < old(self)@.left(),
    {
        proof {
            use_type_invariant(&*self);
            self@.lemma_axes();
            self@.lemma_next();
        }
        let twice: i128 = 2 * self.error;
        let mut x = self.x;
        let mut y = self.y;
        let mut error = self.error;
        if twice >= self.dy {
            error = error + self.dy;
            x = x + self.sx;
        }
        if twice <= self.dx {
            error = error + self.dx;
            y = y + self.sy;
        }
        *self = Stepper {
            x,
            y,
            x2: self.x2,
            y2: self.y2,
            sx: self.sx,
            sy: self.sy,
            dx: self.dx,
            dy: self.dy,
            error,
            first: self.first,
        };
    }
}

} // verus!
