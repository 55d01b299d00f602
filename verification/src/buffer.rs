//! The frame buffer: a grid of colour words and a grid of depths of the
//! same shape. Row 0 is the bottom scanline; storage is row-major with the
//! top scanline first, which is the order a display wants.

use vstd::prelude::*;
use crate::color::{color_tag, tag_color, Color};
use crate::line::{Stepper, Stroke};
use crate::math::Int;

verus! {

/// The colour word that `Buffer::clear` leaves in every pixel.
pub const BACKGROUND: u32 = 0xffbbbbbb;

/// The depth of a pixel that nothing has been drawn on: farther than any
/// sample.
pub const FAR: i64 = 0x7fff_ffff_ffff_ffff;

/// What is stored for one pixel, and what a drawing offers for one pixel.
pub struct Fragment {
    pub color: u32,
    pub depth: i64,
}

/// The mathematical content of a frame buffer.
pub struct Grid {
    pub width: int,
    pub height: int,
    pub pixels: Seq<u32>,
    pub depth: Seq<i64>,
}

impl Grid {
    /// Both grids have one entry for every pixel.
    pub open spec fn wf(self) -> bool {
        &&& 0 <= self.width
        &&& 0 <= self.height
        &&& self.pixels.len() == self.width * self.height
        &&& self.depth.len() == self.width * self.height
    }

    /// The pixel `(x, y)` lies on the grid.
    pub open spec fn inbounds(self, x: int, y: int) -> bool {
        0 <= x < self.width && 0 <= y < self.height
    }

    /// The place of the pixel `(x, y)` in storage: rows are flipped, so
    /// that `y == 0` is the last stored row.
    pub open spec fn index(self, x: int, y: int) -> int {
        (self.height - 1 - y) * self.width + x
    }

    /// What is stored for the pixel `(x, y)`.
    pub open spec fn at(self, x: int, y: int) -> Fragment {
        Fragment { color: self.pixels[self.index(x, y)], depth: self.depth[self.index(x, y)] }
    }

    /// A grid with one colour and one depth throughout.
    pub open spec fn filled(width: int, height: int, color: u32, depth: i64) -> Grid {
        Grid {
            width,
            height,
            pixels: Seq::new((width * height) as nat, |i: int| color),
            depth: Seq::new((width * height) as nat, |i: int| depth),
        }
    }

    /// The grid after an unconditional write of a colour to `(x, y)`. A
    /// pixel off the grid is left out.
    pub open spec fn put(self, x: int, y: int, color: u32) -> Grid {
        if self.inbounds(x, y) {
            Grid { pixels: self.pixels.update(self.index(x, y), color), ..self }
        } else {
            self
        }
    }

    /// The grid after the depth-tested write of a fragment to `(x, y)`:
    /// colour and depth are replaced where the fragment is strictly nearer
    /// than what is stored, and nothing changes otherwise. A pixel off the
    /// grid is left out.
    pub open spec fn plot(self, x: int, y: int, f: Fragment) -> Grid {
        if self.inbounds(x, y) && f.depth < self.depth[self.index(x, y)] {
            Grid {
                pixels: self.pixels.update(self.index(x, y), f.color),
                depth: self.depth.update(self.index(x, y), f.depth),
                ..self
            }
        } else {
            self
        }
    }

    /// The grid after the line `s` was drawn from its current point on in
    /// one colour: point after point until the far end is drawn, or up to
    /// the first point that lies off the grid.
    pub open spec fn stroked(self, s: Stroke, color: u32) -> Grid
        decreases s.left(),
    {
        if !s.wf() || !self.inbounds(s.x, s.y) {
            self
        } else if s.done() {
            self.put(s.x, s.y, color)
        } else {
            proof {
                s.lemma_next();
            }
            self.put(s.x, s.y, color).stroked(s.next(), color)
        }
    }

    /// The pixel whose place in storage is `i`.
    pub open spec fn pixel_of(self, i: int) -> (int, int) {
        (i % self.width, self.height - 1 - i / self.width)
    }

    /// Every pixel of the grid has a place in storage.
    pub proof fn lemma_index_in_range(self, x: int, y: int)
        requires
            self.wf(),
            self.inbounds(x, y),
        ensures
            0 <= self.index(x, y) < self.width * self.height,
            self.index(x, y) < self.pixels.len(),
            self.index(x, y) < self.depth.len(),
    {
        let row = self.height - 1 - y;
        assert(0 <= row * self.width) by (nonlinear_arith)
            requires
                0 <= row,
                0 <= self.width,
        ;
        assert(row * self.width + self.width <= self.height * self.width) by (nonlinear_arith)
            requires
                row + 1 <= self.height,
                0 <= self.width,
        ;
        assert(self.height * self.width == self.width * self.height) by (nonlinear_arith);
    }

    /// Two pixels of the grid never share a place in storage.
    pub proof fn lemma_index_injective(self, x1: int, y1: int, x2: int, y2: int)
        requires
            self.wf(),
            self.inbounds(x1, y1),
            self.inbounds(x2, y2),
            self.index(x1, y1) == self.index(x2, y2),
        ensures
            x1 == x2,
            y1 == y2,
    {
        let r1 = self.height - 1 - y1;
        let r2 = self.height - 1 - y2;
        let w = self.width;
        if r1 < r2 {
            assert(r2 * w >= r1 * w + w) by (nonlinear_arith)
                requires
                    r1 + 1 <= r2,
                    0 <= w,
            ;
        }
        if r2 < r1 {
            assert(r1 * w >= r2 * w + w) by (nonlinear_arith)
                requires
                    r2 + 1 <= r1,
                    0 <= w,
            ;
        }
    }

    /// Every place in storage belongs to a pixel of the grid.
    pub proof fn lemma_index_onto(self, i: int)
        requires
            self.wf(),
            0 <= i < self.width * self.height,
        ensures
            self.inbounds(self.pixel_of(i).0, self.pixel_of(i).1),
            self.index(self.pixel_of(i).0, self.pixel_of(i).1) == i,
    {
        let w = self.width;
        let h = self.height;
        if w <= 0 {
            assert(w * h == 0) by (nonlinear_arith)
                requires
                    w == 0,
            ;
        }
        vstd::arithmetic::div_mod::lemma_fundamental_div_mod(i, w);
        vstd::arithmetic::div_mod::lemma_mod_bound(i, w);
        let q = i / w;
        assert(w * q == q * w) by (nonlinear_arith);
        if q < 0 {
            assert(q * w <= -w) by (nonlinear_arith)
                requires
                    q <= -1,
                    w > 0,
            ;
        }
        if q >= h {
            assert(q * w >= h * w) by (nonlinear_arith)
                requires
                    q >= h,
                    w > 0,
            ;
            assert(h * w == w * h) by (nonlinear_arith);
        }
    }

    /// Two grids of one shape that agree on every pixel are the same grid.
    pub proof fn lemma_equal(self, other: Grid)
        requires
            self.wf(),
            other.wf(),
            self.width == other.width,
            self.height == other.height,
            forall|x: int, y: int| self.inbounds(x, y) ==> #[trigger] self.at(x, y) == other.at(x, y),
        ensures
            self == other,
    {
        assert forall|i: int| 0 <= i < self.pixels.len() implies self.pixels[i] == other.pixels[i]
            && self.depth[i] == other.depth[i] by {
            self.lemma_index_onto(i);
            let p = self.pixel_of(i);
            assert(self.at(p.0, p.1) == other.at(p.0, p.1));
        }
        assert(self.pixels =~= other.pixels);
        assert(self.depth =~= other.depth);
    }

    /// A depth-tested write changes the pixel it aims at and no other.
    pub proof fn lemma_plot_at(self, x: int, y: int, f: Fragment, u: int, v: int)
        requires
            self.wf(),
            self.inbounds(u, v),
        ensures
            self.plot(x, y, f).wf(),
            self.plot(x, y, f).width == self.width,
            self.plot(x, y, f).height == self.height,
            self.plot(x, y, f).at(u, v) == if u == x && v == y && f.depth < self.at(x, y).depth {
                f
            } else {
                self.at(u, v)
            },
    {
        self.lemma_index_in_range(u, v);
        if self.inbounds(x, y) {
            self.lemma_index_in_range(x, y);
            if self.index(x, y) == self.index(u, v) {
                self.lemma_index_injective(x, y, u, v);
            }
        }
    }

    /// An unconditional write changes the colour of the pixel it aims at
    /// and nothing else.
    pub proof fn lemma_put_at(self, x: int, y: int, color: u32, u: int, v: int)
        requires
            self.wf(),
            self.inbounds(u, v),
        ensures
            self.put(x, y, color).wf(),
            self.put(x, y, color).at(u, v) == if u == x && v == y {
                (Fragment { color, depth: self.at(u, v).depth })
            } else {
                self.at(u, v)
            },
    {
        self.lemma_index_in_range(u, v);
        if self.inbounds(x, y) {
            self.lemma_index_in_range(x, y);
            if self.index(x, y) == self.index(u, v) {
                self.lemma_index_injective(x, y, u, v);
            }
        }
    }
}

/// How far a cluster of the size `size` reaches to each side of its
/// centre: half the size, rounded towards zero; below zero, where there is
/// no cluster.
pub open spec fn cluster_reach(size: int) -> int {
    if size >= 0 {
        size / 2
    } else if size == -1 {
        0
    } else {
        -1
    }
}

/// The pixel `(u, v)` belongs to the cluster of the size `size` about
/// `(x, y)`.
pub open spec fn in_cluster(x: int, y: int, size: int, u: int, v: int) -> bool {
    &&& x - cluster_reach(size) <= u <= x + cluster_reach(size)
    &&& y - cluster_reach(size) <= v <= y + cluster_reach(size)
}

/// A frame buffer.
pub struct Buffer {
    height: usize,
    width: usize,
    pixels: Vec<u32>,
    depth: Vec<i64>,
}

impl View for Buffer {
    type V = Grid;

    closed spec fn view(&self) -> Grid {
        Grid {
            width: self.width as int,
            height: self.height as int,
            pixels: self.pixels@,
            depth: self.depth@,
        }
    }
}

impl Buffer {
    /// What holds of every buffer: its content is well formed.
    #[verifier::type_invariant]
    pub open spec fn inv(self) -> bool {
        self@.wf()
    }

    /// A buffer of `height` rows and `width` columns, every pixel colour
    /// zero and every depth `FAR`.
    pub fn cons(height: usize, width: usize) -> (b: Buffer)
        requires
            width * height <= usize::MAX,
        ensures
            b@ == Grid::filled(width as int, height as int, 0, FAR),
            b@.wf(),
    {
        let b = Buffer {
            height,
            width,
            pixels: vec![0u32; width * height],
            depth: vec![FAR; width * height],
        };
        assert(b@.pixels =~= Grid::filled(width as int, height as int, 0, FAR).pixels);
        assert(b@.depth =~= Grid::filled(width as int, height as int, 0, FAR).depth);
        b
    }

    pub fn width(&self) -> (w: usize)
        ensures
            w == self@.width,
            self@.wf(),
    {
        proof {
            use_type_invariant(self);
        }
        self.width
    }

    pub fn height(&self) -> (h: usize)
        ensures
            h == self@.height,
            self@.wf(),
    {
        proof {
            use_type_invariant(self);
        }
        self.height
    }

    /// Half the width, rounded down: the column of the screen's centre.
    pub fn halfwidth(&self) -> (w: usize)
        ensures
            w == self@.width / 2,
    {
        self.width / 2
    }

    /// Half the height, rounded down: the row of the screen's centre.
    pub fn halfheight(&self) -> (h: usize)
        ensures
            h == self@.height / 2,
    {
        self.height / 2
    }

    /// The colour words in display order: row-major, top scanline first.
    pub fn pixels(&self) -> (p: &Vec<u32>)
        ensures
            p@ == self@.pixels,
    {
        &self.pixels
    }

    /// The colour words in display order: row-major, top scanline first.
    pub fn get_pixels(&self) -> (p: &Vec<u32>)
        ensures
            p@ == self@.pixels,
    {
        &self.pixels
    }

    /// The pixel `(x, y)` lies on the buffer.
    pub fn inbounds(&self, x: usize, y: usize) -> (b: bool)
        ensures
            b == self@.inbounds(x as int, y as int),
    {
        x < self.width && y < self.height
    }

    /// The place in storage of the pixel `(x, y)`, given in signed
    /// coordinates, or `None` where the pixel lies off the buffer.
    pub fn inboundsdex(&self, x: Int, y: Int) -> (r: Option<usize>)
        ensures
            self@.wf(),
            self@.inbounds(x as int, y as int) ==> r == Some(self@.index(x as int, y as int) as usize)
                && self@.index(x as int, y as int) < self@.pixels.len(),
            !self@.inbounds(x as int, y as int) ==> r.is_none(),
    {
        proof {
            use_type_invariant(self);
        }
        if x < 0 || y < 0 {
            return None;
        }
        let (ux, uy): (usize, usize) = (x as usize, y as usize);
        if ux < self.width && uy < self.height {
            Some(self.idx(ux, uy))
        } else {
            None
        }
    }

    /// The place in storage of the pixel `(x, y)`.
    pub fn idx(&self, x: usize, y: usize) -> (i: usize)
        requires
            self@.inbounds(x as int, y as int),
        ensures
            i == self@.index(x as int, y as int),
            i < self@.pixels.len(),
            i < self@.depth.len(),
    {
        let n = self.pixels.len();
        proof {
            use_type_invariant(self);
            self@.lemma_index_in_range(x as int, y as int);
            let row = self.height - 1 - y;
            assert(0 <= row * self.width) by (nonlinear_arith)
                requires
                    0 <= row,
                    0 <= self.width,
            ;
            assert(row * self.width + x < n);
        }
        (self.height - 1 - y) * self.width + x
    }

    /// The depth stored for the pixel `(x, y)`.
    pub fn get_depth(&self, x: usize, y: usize) -> (d: i64)
        requires
            self@.inbounds(x as int, y as int),
        ensures
            d == self@.at(x as int, y as int).depth,
    {
        let i = self.idx(x, y);
        self.depth[i]
    }

    /// Writes the colour word `data` to the pixel `(x, y)` whatever is
    /// there, and leaves the depth as it is.
    pub fn place_pixel(&mut self, x: usize, y: usize, data: u32)
        requires
            old(self)@.inbounds(x as int, y as int),
        ensures
            final(self)@ == old(self)@.put(x as int, y as int, data),
            final(self)@.wf(),
    {
        proof {
            use_type_invariant(&*self);
        }
        let i = self.idx(x, y);
        self.pixels[i] = data;
    }

    /// Offers a sample to the pixel `(x, y)`: colour and depth are written
    /// where the sample is strictly nearer than what is stored.
    pub fn set(&mut self, x: usize, y: usize, color: Color, depth: i64)
        requires
            old(self)@.inbounds(x as int, y as int),
        ensures
            final(self)@ == old(self)@.plot(
                x as int,
                y as int,
                Fragment { color: color.packed(), depth },
            ),
            final(self)@.wf(),
    {
        proof {
            use_type_invariant(&*self);
        }
        let i = self.idx(x, y);
        if self.depth[i] <= depth {
            return ;
        }
        self.depth[i] = depth;
        self.pixels[i] = color.to_u32();
    }

    /// Draws the line from `(x1, y1)` to `(x2, y2)` in the colour of tag
    /// 1, both ends included. The drawing ends at the first point that
    /// lies off the buffer.
    pub fn draw_line(&mut self, x1: usize, y1: usize, x2: usize, y2: usize)
        ensures
            final(self)@ == old(self)@.stroked(
                Stroke::begin(x1 as int, y1 as int, x2 as int, y2 as int),
                tag_color(1),
            ),
            final(self)@.wf(),
    {
        proof {
            use_type_invariant(&*self);
        }
        let color = color_tag(1);
        let mut stepper = Stepper::cons(x1 as i128, y1 as i128, x2 as i128, y2 as i128);
        let ghost whole = self@.stroked(stepper@, color);
        let mut more = true;
        while more
            invariant
                self@.wf(),
                stepper@.wf(),
                color == tag_color(1),
                more ==> whole == self@.stroked(stepper@, color),
                !more ==> whole == self@,
            decreases stepper@.left() + (if more { 1int } else { 0int }),
        {
            let x = stepper.x();
            let y = stepper.y();
            if x < 0 || y < 0 || x >= self.width as i128 || y >= self.height as i128 {
                more = false;
            } else {
                let ghost before = self@;
                self.place_pixel(x as usize, y as usize, color);
                proof {
                    before.lemma_put_at(x as int, y as int, color, x as int, y as int);
                }
                if stepper.done() {
                    more = false;
                } else {
                    stepper.advance();
                }
            }
        }
    }

    /// Draws a square of `size / 2` pixels to each side about `(x, y)`.
    /// Pixels off the buffer are left out; a negative `size` below `-1`
    /// draws nothing.
    pub fn draw_cluster(&mut self, x: usize, y: usize, size: isize, color: u32)
        ensures
            final(self)@.wf(),
            final(self)@.width == old(self)@.width,
            final(self)@.height == old(self)@.height,
            forall|u: int, v: int|
                old(self)@.inbounds(u, v) ==> #[trigger] final(self)@.at(u, v) == (if in_cluster(
                    x as int,
                    y as int,
                    size as int,
                    u,
                    v,
                ) {
                    Fragment { color, depth: old(self)@.at(u, v).depth }
                } else {
                    old(self)@.at(u, v)
                }),
    {
        proof {
            use_type_invariant(&*self);
        }
        if size < -1 || self.width == 0 || self.height == 0 {
            return ;
        }
        let range: usize = if size < 0 {
            0
        } else {
            (size / 2) as usize
        };
        if x >= self.width && x - self.width >= range {
            return ;
        }
        if y >= self.height && y - self.height >= range {
            return ;
        }
        // The rows and columns of the square that lie on the buffer.
        let left: usize = if x >= range {
            x - range
        } else {
            0
        };
        let bottom: usize = if y >= range {
            y - range
        } else {
            0
        };
        let right: usize = if self.width - 1 >= range && x <= self.width - 1 - range {
            x + range
        } else {
            self.width - 1
        };
        let top: usize = if self.height - 1 >= range && y <= self.height - 1 - range {
            y + range
        } else {
            self.height - 1
        };
        let mut v: usize = bottom;
        while v <= top
            invariant
                bottom <= v <= top + 1,
                top < self.height,
                right < self.width,
                self@.wf(),
                self@.width == old(self)@.width,
                self@.height == old(self)@.height,
                range == cluster_reach(size as int),
                left == (if x - range > 0 { x - range } else { 0 }),
                bottom == (if y - range > 0 { y - range } else { 0 }),
                right == (if x + range < self.width - 1 { x + range } else { self.width - 1 }),
                top == (if y + range < self.height - 1 { y + range } else { self.height - 1 }),
                forall|p: int, q: int|
                    old(self)@.inbounds(p, q) ==> #[trigger] self@.at(p, q) == (if in_cluster(
                        x as int,
                        y as int,
                        size as int,
                        p,
                        q,
                    ) && q < v {
                        Fragment { color, depth: old(self)@.at(p, q).depth }
                    } else {
                        old(self)@.at(p, q)
                    }),
            decreases top + 1 - v,
        {
            let mut u: usize = left;
            while u <= right
                invariant
                    left <= u <= right + 1 || (left > right && u == left),
                    bottom <= v <= top,
                    top < self.height,
                    right < self.width,
                    self@.wf(),
                    self@.width == old(self)@.width,
                    self@.height == old(self)@.height,
                    range == cluster_reach(size as int),
                    left == (if x - range > 0 { x - range } else { 0 }),
                    bottom == (if y - range > 0 { y - range } else { 0 }),
                    right == (if x + range < self.width - 1 { x + range } else { self.width - 1 }),
                    top == (if y + range < self.height - 1 { y + range } else { self.height - 1 }),
                    forall|p: int, q: int|
                        old(self)@.inbounds(p, q) ==> #[trigger] self@.at(p, q) == (if in_cluster(
                            x as int,
                            y as int,
                            size as int,
                            p,
                            q,
                        ) && (q < v || (q == v && p < u)) {
                            Fragment { color, depth: old(self)@.at(p, q).depth }
                        } else {
                            old(self)@.at(p, q)
                        }),
                decreases right + 1 - u,
            {
                let ghost before = self@;
                self.place_pixel(u, v, color);
                proof {
                    assert forall|p: int, q: int| old(self)@.inbounds(p, q) implies #[trigger] self@.at(
                        p,
                        q,
                    ) == (if in_cluster(x as int, y as int, size as int, p, q) && (q < v || (q == v
                        && p < u + 1)) {
                        Fragment { color, depth: old(self)@.at(p, q).depth }
                    } else {
                        old(self)@.at(p, q)
                    }) by {
                        before.lemma_put_at(u as int, v as int, color, p, q);
                        assert(before.at(p, q) == (if in_cluster(
                            x as int,
                            y as int,
                            size as int,
                            p,
                            q,
                        ) && (q < v || (q == v && p < u)) {
                            Fragment { color, depth: old(self)@.at(p, q).depth }
                        } else {
                            old(self)@.at(p, q)
                        }));
                    }
                }
                u += 1;
            }
            v += 1;
        }
    }

    /// Fills the buffer with `BACKGROUND` and every depth with `FAR`.
    pub fn clear(&mut self)
        ensures
            final(self)@ == Grid::filled(old(self)@.width, old(self)@.height, BACKGROUND, FAR),
            final(self)@.wf(),
    {
        self.fill(BACKGROUND);
    }

    /// Fills the buffer with black and every depth with `FAR`.
    pub fn blackout(&mut self)
        ensures
            final(self)@ == Grid::filled(old(self)@.width, old(self)@.height, tag_color(99), FAR),
            final(self)@.wf(),
    {
        self.fill(color_tag(99));
    }

    fn fill(&mut self, color: u32)
        ensures
            final(self)@ == Grid::filled(old(self)@.width, old(self)@.height, color, FAR),
            final(self)@.wf(),
    {
        proof {
            use_type_invariant(&*self);
        }
        let n = self.pixels.len();
        let mut i: usize = 0;
        while i < n
            invariant
                i <= n,
                self@.wf(),
                self@.width == old(self)@.width,
                self@.height == old(self)@.height,
                n == self@.pixels.len(),
                forall|j: int| 0 <= j < i ==> self@.pixels[j] == color && self@.depth[j] == FAR,
            decreases n - i,
        {
            self.pixels[i] = color;
            self.depth[i] = FAR;
            i += 1;
        }
        assert(self@.pixels =~= Grid::filled(old(self)@.width, old(self)@.height, color, FAR).pixels);
        assert(self@.depth =~= Grid::filled(old(self)@.width, old(self)@.height, color, FAR).depth);
    }
}

} // verus!
