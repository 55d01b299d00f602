//! The edge walker: an incremental-error line stepper that moves from a
//! start point to a target. Each step doubles the error term, moves one
//! pixel along x where that is at least `dy`, and one pixel along y where it
//! is at most `dx`; a step may do both.

use vstd::prelude::*;
use crate::arith::abs;
use crate::math::{Int, Vec2i};

verus! {

/// The mathematical state of a walk: where it began, where it stands and
/// where it is bound. Everything else that a walker keeps (its step
/// directions, its deltas, its error term) is a function of these three.
pub struct Walk {
    pub start: Vec2i,
    pub current: Vec2i,
    pub target: Vec2i,
}

impl Walk {
    /// A walk that has not moved yet.
    pub open spec fn begin(start: Vec2i, target: Vec2i) -> Walk {
        Walk { start, current: start, target }
    }

    /// The horizontal extent of the whole walk, never negative.
    pub open spec fn dx(self) -> int {
        abs(self.target.x - self.start.x)
    }

    /// The vertical extent of the whole walk, negated: never positive.
    pub open spec fn dy(self) -> int {
        -abs(self.target.y - self.start.y)
    }

    /// The direction of a horizontal step.
    pub open spec fn step_x(self) -> int {
        if self.start.x < self.target.x {
            1
        } else {
            -1
        }
    }

    /// The direction of a vertical step.
    pub open spec fn step_y(self) -> int {
        if self.start.y < self.target.y {
            1
        } else {
            -1
        }
    }

    /// The number of horizontal steps made so far.
    pub open spec fn taken_x(self) -> int {
        if self.start.x < self.target.x {
            self.current.x - self.start.x
        } else {
            self.start.x - self.current.x
        }
    }

    /// The number of vertical steps made so far.
    pub open spec fn taken_y(self) -> int {
        if self.start.y < self.target.y {
            self.current.y - self.start.y
        } else {
            self.start.y - self.current.y
        }
    }

    /// The error term, in closed form: it starts at `dx + dy`, every
    /// horizontal step adds `dy` to it and every vertical step adds `dx`.
    pub open spec fn error(self) -> int {
        self.dx() + self.dy() + self.taken_x() * self.dy() + self.taken_y() * self.dx()
    }

    /// How far the walk has run ahead of the straight line along y, weighed
    /// against how far it has run ahead along x; the error term is
    /// `dx + dy` more.
    pub open spec fn lean(self) -> int {
        self.taken_x() * self.dy() + self.taken_y() * self.dx()
    }

    /// The side of the straight line from start to target that the point
    /// `(x, y)` lies on: the determinant of the line's direction and the
    /// vector from the start to the point, which is zero on the line.
    pub open spec fn side_of(self, x: int, y: int) -> int {
        (self.target.x - self.start.x) * (y - self.start.y) - (self.target.y - self.start.y) * (x
            - self.start.x)
    }

    /// The number of moves along either axis between the current point
    /// and the target.
    pub open spec fn left(self) -> int {
        (self.dx() - self.taken_x()) + (-self.dy() - self.taken_y())
    }

    /// The states a walk can be in: the current point lies between start
    /// and target on both axes, and the error term stays in the band that
    /// the stepping rule keeps it in.
    pub open spec fn wf(self) -> bool {
        &&& 0 <= self.taken_x() <= self.dx()
        &&& 0 <= self.taken_y() <= -self.dy()
        &&& 3 * self.dy() <= 2 * self.error() <= 3 * self.dx()
    }

    /// The walk has arrived.
    pub open spec fn done(self) -> bool {
        self.current == self.target
    }

    /// The next step moves along x: twice the error is at least `dy`.
    pub open spec fn wants_x(self) -> bool {
        2 * self.error() >= self.dy()
    }

    /// The next step moves along y: twice the error is at most `dx`.
    pub open spec fn wants_y(self) -> bool {
        2 * self.error() <= self.dx()
    }

    /// The larger of the two extents of the walk.
    pub open spec fn reach(self) -> int {
        if self.dx() >= -self.dy() {
            self.dx()
        } else {
            -self.dy()
        }
    }

    /// The walk after one more step: along x, along y or along both, as the
    /// error term before the step asks.
    pub open spec fn next(self) -> Walk {
        Walk {
            current: Vec2i {
                x: if self.wants_x() {
                    (self.current.x + self.step_x()) as Int
                } else {
                    self.current.x
                },
                y: if self.wants_y() {
                    (self.current.y + self.step_y()) as Int
                } else {
                    self.current.y
                },
            },
            ..self
        }
    }

    /// The walk at its target.
    pub open spec fn finish(self) -> Walk {
        Walk { current: self.target, ..self }
    }

    /// The walk as it enters the next row, or `None` where it reaches its
    /// target without leaving the row it is on.
    pub open spec fn next_row(self) -> Option<Walk>
        decreases self.left(),
    {
        if !self.wf() || self.done() {
            None
        } else {
            proof {
                self.lemma_next();
            }
            let n = self.next();
            if n.current.y != self.current.y {
                Some(n)
            } else {
                n.next_row()
            }
        }
    }

    /// A walk along a row never leaves it: where start and target share
    /// their row, every step is a step along x and along x only.
    pub proof fn lemma_level(self)
        requires
            self.wf(),
            !self.done(),
            self.start.y == self.target.y,
        ensures
            self.wants_x(),
            !self.wants_y(),
            self.next().current.y == self.current.y,
            self.next().current.x == self.current.x + self.step_x(),
    {
        self.lemma_next();
        assert(self.taken_x() * self.dy() == 0) by (nonlinear_arith)
            requires
                self.dy() == 0,
        ;
        assert(self.taken_y() * self.dx() == 0) by (nonlinear_arith)
            requires
                self.taken_y() == 0,
        ;
    }

    /// A walk that has not moved is well formed.
    pub proof fn lemma_begin(start: Vec2i, target: Vec2i)
        ensures
            Walk::begin(start, target).wf(),
            Walk::begin(start, target).error() == Walk::begin(start, target).dx() + Walk::begin(
                start,
                target,
            ).dy(),
    {
        let w = Walk::begin(start, target);
        assert(w.taken_x() * w.dy() == 0) by (nonlinear_arith)
            requires
                w.taken_x() == 0,
        ;
        assert(w.taken_y() * w.dx() == 0) by (nonlinear_arith)
            requires
                w.taken_y() == 0,
        ;
    }

    /// Short of its target a walk moves at every step, and never along an
    /// axis that it has finished: it stops exactly at its target.
    pub proof fn lemma_axis_open(self)
        requires
            self.wf(),
            !self.done(),
        ensures
            self.wants_x() || self.wants_y(),
            self.wants_x() ==> self.taken_x() < self.dx(),
            self.wants_y() ==> self.taken_y() < -self.dy(),
    {
        let dx = self.dx();
        let d = -self.dy();
        let tx = self.taken_x();
        let ty = self.taken_y();
        if tx == dx {
            // The x axis is finished, so the y axis is not.
            assert(ty < d);
            assert(self.error() == dx * (1 + ty - d) - d) by (nonlinear_arith)
                requires
                    self.error() == dx + (-d) + tx * (-d) + ty * dx,
                    tx == dx,
            ;
            assert(dx * (1 + ty - d) <= 0) by (nonlinear_arith)
                requires
                    dx >= 0,
                    1 + ty - d <= 0,
            ;
        }
        if ty == d {
            assert(tx < dx);
            assert(self.error() == dx + d * (dx - tx - 1)) by (nonlinear_arith)
                requires
                    self.error() == dx + (-d) + tx * (-d) + ty * dx,
                    ty == d,
            ;
            assert(d * (dx - tx - 1) >= 0) by (nonlinear_arith)
                requires
                    d >= 0,
                    dx - tx - 1 >= 0,
            ;
        }
    }

    /// One step keeps the walk well formed, brings it nearer to its target,
    /// and moves the error term by `dy` for a move along x and by `dx` for
    /// a move along y.
    pub proof fn lemma_next(self)
        requires
            self.wf(),
            !self.done(),
        ensures
            self.next().wf(),
            self.next().left() < self.left(),
            self.next().start == self.start,
            self.next().target == self.target,
            self.next().error() == self.error() + (if self.wants_x() {
                self.dy()
            } else {
                0
            }) + (if self.wants_y() {
                self.dx()
            } else {
                0
            }),
            self.next().current.x == self.current.x + (if self.wants_x() {
                self.step_x()
            } else {
                0
            }),
            self.next().current.y == self.current.y + (if self.wants_y() {
                self.step_y()
            } else {
                0
            }),
            self.next().taken_x() >= self.taken_x(),
    {
        self.lemma_axis_open();
        let n = self.next();
        let dx = self.dx();
        let dy = self.dy();
        let tx = self.taken_x();
        let ty = self.taken_y();
        assert((tx + 1) * dy == tx * dy + dy) by (nonlinear_arith);
        assert((ty + 1) * dx == ty * dx + dx) by (nonlinear_arith);
        if self.wants_x() {
            assert(n.taken_x() == tx + 1);
        } else {
            assert(n.taken_x() == tx);
        }
        if self.wants_y() {
            assert(n.taken_y() == ty + 1);
        } else {
            assert(n.taken_y() == ty);
        }
    }

    /// The side of the line that the current point lies on is the lean of the
    /// walk, up to the sign that the two step directions give it.
    pub proof fn lemma_side_is_lean(self)
        requires
            self.wf(),
        ensures
            self.step_x() == self.step_y() ==> self.side_of(
                self.current.x as int,
                self.current.y as int,
            ) == self.lean(),
            self.step_x() != self.step_y() ==> self.side_of(
                self.current.x as int,
                self.current.y as int,
            ) == -self.lean(),
    {
        let dx = self.dx();
        let d = -self.dy();
        let nx = self.taken_x();
        let ny = self.taken_y();
        let big_x = self.target.x - self.start.x;
        let big_y = self.target.y - self.start.y;
        let px = self.current.x - self.start.x;
        let py = self.current.y - self.start.y;
        if self.start.x < self.target.x {
            if self.start.y < self.target.y {
                assert(big_x * py - big_y * px == nx * (-d) + ny * dx) by (nonlinear_arith)
                    requires
                        big_x == dx,
                        big_y == d,
                        px == nx,
                        py == ny,
                ;
            } else {
                assert(big_x * py - big_y * px == -(nx * (-d) + ny * dx)) by (nonlinear_arith)
                    requires
                        big_x == dx,
                        big_y == -d,
                        px == nx,
                        py == -ny,
                ;
            }
        } else {
            if self.start.y < self.target.y {
                assert(big_x * py - big_y * px == -(nx * (-d) + ny * dx)) by (nonlinear_arith)
                    requires
                        big_x == -dx,
                        big_y == d,
                        px == -nx,
                        py == ny,
                ;
            } else {
                assert(big_x * py - big_y * px == nx * (-d) + ny * dx) by (nonlinear_arith)
                    requires
                        big_x == -dx,
                        big_y == -d,
                        px == -nx,
                        py == -ny,
                ;
            }
        }
    }

    /// Where a walk enters a row it stands within half its reach of the
    /// straight line: twice its lean is at least `dy` and at most the
    /// larger of `dx` and `-dy`.
    pub proof fn lemma_next_row_lean(self)
        requires
            self.wf(),
        ensures
            self.next_row() matches Some(n) ==> self.dy() <= 2 * n.lean() <= self.reach(),
        decreases self.left(),
    {
        if !self.done() {
            self.lemma_next();
            let n = self.next();
            if n.current.y == self.current.y {
                n.lemma_next_row_lean();
            }
        }
    }

    /// Entering the next row moves the walk by exactly one row towards its
    /// target and never past the target's column.
    pub proof fn lemma_next_row(self)
        requires
            self.wf(),
        ensures
            match self.next_row() {
                Some(n) => {
                    &&& n.wf()
                    &&& n.start == self.start
                    &&& n.target == self.target
                    &&& n.current.y == self.current.y + self.step_y()
                    &&& n.left() < self.left()
                    &&& self.current.y != self.target.y
                    &&& n.taken_x() >= self.taken_x()
                },
                None => true,
            },
        decreases self.left(),
    {
        if !self.done() {
            self.lemma_next();
            let n = self.next();
            if n.current.y == self.current.y {
                n.lemma_next_row();
            }
        }
    }
}

/// A walker along the line from a start point to a target.
pub struct EdgeTracer {
    current: Vec2i,
    target: Vec2i,
    steps: Vec2i,
    dx: i64,
    dy: i64,
    error: i64,
    start: Ghost<Vec2i>,
}

impl View for EdgeTracer {
    type V = Walk;

    closed spec fn view(&self) -> Walk {
        Walk { start: self.start@, current: self.current, target: self.target }
    }
}

impl EdgeTracer {
    #[verifier::type_invariant]
    closed spec fn inv(self) -> bool {
        &&& self@.wf()
        &&& self.steps.x == self@.step_x()
        &&& self.steps.y == self@.step_y()
        &&& self.dx == self@.dx()
        &&& self.dy == self@.dy()
        &&& self.error == self@.error()
    }

    /// A walker that stands on `start` and is bound for `end`.
    pub fn cons(start: Vec2i, end: Vec2i) -> (e: EdgeTracer)
        ensures
            e@ == Walk::begin(start, end),
            e@.wf(),
    {
        let wide_dx: i64 = end.x as i64 - start.x as i64;
        let wide_dy: i64 = end.y as i64 - start.y as i64;
        let dx: i64 = if wide_dx < 0 {
            -wide_dx
        } else {
            wide_dx
        };
        let dy: i64 = if wide_dy < 0 {
            wide_dy
        } else {
            -wide_dy
        };
        let int_step_x: Int = if start.x < end.x {
            1
        } else {
            -1
        };
        let int_step_y: Int = if start.y < end.y {
            1
        } else {
            -1
        };
        let error: i64 = dx + dy;
        proof {
            Walk::lemma_begin(start, end);
        }
        EdgeTracer {
            current: start,
            target: end,
            steps: Vec2i::cons(int_step_x, int_step_y),
            dx,
            dy,
            error,
            start: Ghost(start),
        }
    }

    /// Makes one step and returns the point reached, or returns `None`,
    /// without moving, where the walker stands on its target. The step
    /// doubles the error; where that is at least `dy` it moves one pixel
    /// along x and adds `dy` to the error; where it is at most `dx` it moves
    /// one pixel along y and adds `dx` to the error.
    pub fn step_once(&mut self) -> (r: Option<Vec2i>)
        ensures
            old(self)@.wf(),
            final(self)@.wf(),
            old(self)@.done() ==> r.is_none() && final(self)@ == old(self)@,
            !old(self)@.done() ==> r == Some(final(self)@.current) && final(self)@ == old(
                self,
            )@.next(),
    {
        proof {
            use_type_invariant(&*self);
            if !self@.done() {
                self@.lemma_axis_open();
                self@.lemma_next();
            }
        }
        let twice_error: i64 = 2 * self.error;
        let mut current = self.current;
        let mut error = self.error;
        if twice_error >= self.dy {
            if self.current.x == self.target.x {
                return None;
            }
            error = error + self.dy;
            current.x = current.x + self.steps.x;
        }
        if twice_error <= self.dx {
            if self.current.y == self.target.y {
                return None;
            }
            error = error + self.dx;
            current.y = current.y + self.steps.y;
        }
        *self = EdgeTracer {
            current,
            target: self.target,
            steps: self.steps,
            dx: self.dx,
            dy: self.dy,
            error,
            start: self.start,
        };
        Some(self.current)
    }

    /// Steps until the walker enters the next row and returns the first
    /// point reached there, or walks to the target and returns `None` where
    /// the target lies on the row that the walker is on.
    pub fn step_constant(&mut self) -> (r: Option<Vec2i>)
        ensures
            old(self)@.wf(),
            final(self)@.wf(),
            match old(self)@.next_row() {
                Some(n) => r == Some(n.current) && final(self)@ == n,
                None => r.is_none() && final(self)@ == old(self)@.finish(),
            },
    {
        proof {
            use_type_invariant(&*self);
        }
        let startingy: Int = self.current.y;
        while self.current.y == startingy
            invariant
                self@.wf(),
                old(self)@.wf(),
                self@.start == old(self)@.start,
                self@.target == old(self)@.target,
                startingy == old(self)@.current.y,
                self.current.y == startingy ==> self@.next_row() == old(self)@.next_row(),
                self.current.y != startingy ==> old(self)@.next_row() == Some(self@),
            decreases self@.left(),
        {
            proof {
                if !self@.done() {
                    self@.lemma_next();
                }
            }
            if self.step_once().is_none() {
                return None;
            }
        }
        Some(self.current)
    }
}

} // verus!
