//! Scan conversion by table: the edges of a triangle are drawn into a table
//! that holds, for every row of the screen, the first and the last column
//! to look at; the rows are then filled from the table, pixel by pixel,
//! wherever the pixel lies inside the triangle.

use vstd::prelude::*;
use crate::buffer::Fragment;
use crate::geometry::{Barycentric, Tri, Weights};
use crate::line::{Stepper, Stroke};
use crate::math::{det2, det_wide, Int, Vec2i};
use crate::raster::{
    flat, lemma_paint, lemma_painted_agree, lemma_painted_off_grid, lemma_painted_plot, paint,
    painted, Ink, Pixel,
};
use crate::renderer::{tex_of, Renderer};
use crate::texture::Texture;

verus! {

/// The columns to look at on one row: from the first to the second, both
/// included.
pub type Columns = (usize, usize);

/// The column that a point of an edge is entered at: its x, and zero
/// where that is negative.
pub open spec fn column(x: int) -> usize {
    if x < 0 {
        0
    } else {
        x as usize
    }
}

/// The table after the point `(x, y)` of an edge was entered: as the first
/// column of its row or, with `high`, as the last. A point on no row of the
/// table is left out.
pub open spec fn entered(table: Seq<Columns>, x: int, y: int, high: bool) -> Seq<Columns> {
    if 0 <= y < table.len() {
        table.update(
            y,
            if high {
                (table[y].0, column(x))
            } else {
                (column(x), table[y].1)
            },
        )
    } else {
        table
    }
}

/// The table after every point of the line `s`, from its current point to
/// its far end, was entered in turn.
pub open spec fn traced(table: Seq<Columns>, s: Stroke, high: bool) -> Seq<Columns>
    decreases s.left(),
{
    if !s.wf() {
        table
    } else if s.done() {
        entered(table, s.x, s.y, high)
    } else {
        proof {
            s.lemma_next();
        }
        traced(entered(table, s.x, s.y, high), s.next(), high)
    }
}

/// The line from `start` to `end`, at its first point.
pub open spec fn edge(start: Vec2i, end: Vec2i) -> Stroke {
    Stroke::begin(start.x as int, start.y as int, end.x as int, end.y as int)
}

/// The table after the three edges of the sorted triangle `t` were entered:
/// the long edge on one side and the two short edges on the other, the
/// side that the middle corner lies on.
pub open spec fn outlined_table(table: Seq<Columns>, a: Vec2i, b: Vec2i, c: Vec2i) -> Seq<Columns> {
    if det2(b.x - a.x, b.y - a.y, c.x - a.x, c.y - a.y) >= 0 {
        traced(traced(traced(table, edge(a, c), true), edge(a, b), false), edge(b, c), false)
    } else {
        traced(traced(traced(table, edge(a, c), false), edge(a, b), true), edge(b, c), true)
    }
}

/// No weight of the pixel is negative: the pixel lies inside the triangle
/// or on its border.
pub open spec fn inside(w: Weights) -> bool {
    if w.den > 0 {
        w.w1 >= 0 && w.w2 >= 0 && w.w3 >= 0
    } else {
        w.w1 <= 0 && w.w2 <= 0 && w.w3 <= 0
    }
}

/// The pixels that filling from a table covers: on every row of the
/// triangle below its top corner, the pixels between the row's two columns
/// that lie inside the triangle, as far as an `Int` can name their column.
pub open spec fn scanned(table: Seq<Columns>, t: Tri) -> Set<Pixel> {
    Set::new(
        |p: Pixel|
            {
                &&& t.c.pos.y <= p.1 < t.a.pos.y
                &&& 0 <= p.1 < table.len()
                &&& table[p.1].0 <= p.0 <= table[p.1].1
                &&& p.0 <= Int::MAX
                &&& inside(t.weights_at(p.0, p.1))
            },
    )
}

/// Filling from a table draws no pixel outside the triangle: every pixel
/// that it covers lies on a row of the triangle and has no negative weight.
pub proof fn lemma_scanned_inside(table: Seq<Columns>, t: Tri, x: int, y: int)
    requires
        scanned(table, t).contains((x, y)),
    ensures
        t.c.pos.y <= y < t.a.pos.y,
        inside(t.weights_at(x, y)),
{
}

/// The table of a scan conversion.
pub struct ScanBuffer {
    height: usize,
    scan: Vec<Columns>,
}

impl View for ScanBuffer {
    type V = Seq<Columns>;

    closed spec fn view(&self) -> Seq<Columns> {
        self.scan@
    }
}

impl ScanBuffer {
    /// What holds of every table: it has one entry for every row.
    #[verifier::type_invariant]
    pub open spec fn inv(self) -> bool {
        self@.len() == self.spec_height()
    }

    /// The number of rows.
    pub closed spec fn spec_height(self) -> int {
        self.height as int
    }

    /// A table of `height` rows, every row from column 0 to column 0.
    pub fn cons(height: usize) -> (s: ScanBuffer)
        ensures
            s@ == Seq::new(height as nat, |i: int| (0usize, 0usize)),
            s@.len() == height,
    {
        let mut scan: Vec<Columns> = Vec::new();
        let mut y: usize = 0;
        while y < height
            invariant
                y <= height,
                scan@.len() == y,
                forall|i: int| 0 <= i < y ==> scan@[i] == (0usize, 0usize),
            decreases height - y,
        {
            scan.push((0, 0));
            y += 1;
        }
        let s = ScanBuffer { height, scan };
        assert(s@ =~= Seq::new(height as nat, |i: int| (0usize, 0usize)));
        s
    }

    pub fn height(&self) -> (h: usize)
        ensures
            h == self@.len(),
    {
        proof {
            use_type_invariant(self);
        }
        self.height
    }

    /// The two columns of the row `y`.
    pub fn row(&self, y: usize) -> (r: Columns)
        requires
            y < self@.len(),
        ensures
            r == self@[y as int],
    {
        self.scan[y]
    }

    /// Sets the first column of the row `y`.
    pub fn set_low(&mut self, y: usize, value: usize)
        requires
            y < old(self)@.len(),
        ensures
            final(self)@ == old(self)@.update(y as int, (value, old(self)@[y as int].1)),
            final(self).spec_height() == old(self).spec_height(),
    {
        proof {
            use_type_invariant(&*self);
        }
        let high = self.scan[y].1;
        self.scan[y] = (value, high);
    }

    /// Sets the last column of the row `y`.
    pub fn set_high(&mut self, y: usize, value: usize)
        requires
            y < old(self)@.len(),
        ensures
            final(self)@ == old(self)@.update(y as int, (old(self)@[y as int].0, value)),
            final(self).spec_height() == old(self).spec_height(),
    {
        proof {
            use_type_invariant(&*self);
        }
        let low = self.scan[y].0;
        self.scan[y] = (low, value);
    }

    /// Enters every point of the line from `start` to `end` as the first
    /// column of its row.
    pub fn scan_convert_low(&mut self, start: &Vec2i, end: &Vec2i)
        ensures
            final(self)@ == traced(old(self)@, edge(*start, *end), false),
            final(self)@.len() == old(self)@.len(),
    {
        self.scan_convert(start, end, false);
    }

    /// Enters every point of the line from `start` to `end` as the last
    /// column of its row.
    pub fn scan_convert_high(&mut self, start: &Vec2i, end: &Vec2i)
        ensures
            final(self)@ == traced(old(self)@, edge(*start, *end), true),
            final(self)@.len() == old(self)@.len(),
    {
        self.scan_convert(start, end, true);
    }

    fn scan_convert(&mut self, start: &Vec2i, end: &Vec2i, high: bool)
        ensures
            final(self)@ == traced(old(self)@, edge(*start, *end), high),
            final(self)@.len() == old(self)@.len(),
    {
        proof {
            use_type_invariant(&*self);
        }
        let mut stepper = Stepper::cons(
            start.x as i128,
            start.y as i128,
            end.x as i128,
            end.y as i128,
        );
        let ghost whole = traced(self@, stepper@, high);
        let mut more = true;
        while more
            invariant
                stepper@.wf(),
                self@.len() == old(self)@.len(),
                self@.len() == self.spec_height(),
                Int::MIN <= stepper@.x1 <= Int::MAX,
                Int::MIN <= stepper@.x2 <= Int::MAX,
                more ==> whole == traced(self@, stepper@, high),
                !more ==> whole == self@,
            decreases stepper@.left() + (if more { 1int } else { 0int }),
        {
            let x = stepper.x();
            let y = stepper.y();
            if 0 <= y && y < self.height as i128 {
                let value: usize = if x < 0 {
                    0
                } else {
                    x as usize
                };
                if high {
                    self.set_high(y as usize, value);
                } else {
                    self.set_low(y as usize, value);
                }
            }
            if stepper.done() {
                more = false;
            } else {
                stepper.advance();
            }
        }
    }

    /// Enters the three edges of a triangle whose corners stand in the
    /// order of descending y: the long edge from `a` to `c` on one side,
    /// the short edges on the side of `b`.
    pub fn outline(&mut self, a: &Vec2i, b: &Vec2i, c: &Vec2i)
        ensures
            final(self)@ == outlined_table(old(self)@, *a, *b, *c),
            final(self)@.len() == old(self)@.len(),
    {
        let ux: i64 = b.x as i64 - a.x as i64;
        let uy: i64 = b.y as i64 - a.y as i64;
        let vx: i64 = c.x as i64 - a.x as i64;
        let vy: i64 = c.y as i64 - a.y as i64;
        if det_wide(ux, uy, vx, vy) >= 0 {
            self.scan_convert_high(a, c);
            self.scan_convert_low(a, b);
            self.scan_convert_low(b, c);
        } else {
            self.scan_convert_low(a, c);
            self.scan_convert_high(a, b);
            self.scan_convert_high(b, c);
        }
    }
}

/// The part of `scanned` that lies below the row `y`, or on it and left of
/// the column `x`.
pub open spec fn scanned_before(table: Seq<Columns>, t: Tri, y: int, x: int) -> Set<Pixel> {
    Set::new(|p: Pixel| scanned(table, t).contains(p) && (p.1 < y || (p.1 == y && p.0 < x)))
}

/// No weight of the pixel is negative.
fn is_inside(w: &Weights) -> (b: bool)
    ensures
        b == inside(*w),
{
    if w.den > 0 {
        w.w1 >= 0 && w.w2 >= 0 && w.w3 >= 0
    } else {
        w.w1 <= 0 && w.w2 <= 0 && w.w3 <= 0
    }
}

impl Renderer {
    /// Fills the rows of a sorted screen-space triangle from the table:
    /// every pixel between the two columns of its row that lies inside the
    /// triangle is shaded and offered to the buffer. Pixels off the buffer
    /// are left out.
    pub fn fill_scan_convert(
        &mut self,
        scan: &ScanBuffer,
        triangle: &Tri,
        lighting: u8,
        bary: &Barycentric,
        texture: &Option<Texture>,
    )
        requires
            bary@ == *triangle,
        ensures
            painted(
                old(self).buffer@,
                final(self).buffer@,
                scanned(scan@, *triangle),
                Ink::Shaded { tri: *triangle, tex: tex_of(*texture), lighting },
            ),
            final(self).lighting_vec == old(self).lighting_vec,
            final(self).scale == old(self).scale,
            final(self).lens() == old(self).lens(),
    {
        let ghost ink = Ink::Shaded { tri: *triangle, tex: tex_of(*texture), lighting };
        let ghost before = self.buffer@;
        let ghost table = scan@;
        proof {
            use_type_invariant(&self.buffer);
            use_type_invariant(scan);
        }
        let width = self.buffer.width();
        let height = self.buffer.height();
        let rows = scan.height();
        let bottom: Int = triangle.c.pos.y;
        let top: Int = triangle.a.pos.y;
        if width == 0 || top <= 0 {
            proof {
                lemma_painted_off_grid(before, scanned(table, *triangle), ink);
            }
            return ;
        }
        // The rows to fill: those of the triangle, of the table and of the
        // buffer at once.
        let first: usize = if bottom < 0 {
            0
        } else {
            bottom as usize
        };
        let mut last: usize = top as usize;
        if last > rows {
            last = rows;
        }
        if last > height {
            last = height;
        }
        let mut y: usize = first;
        proof {
            lemma_painted_off_grid(before, scanned_before(table, *triangle, y as int, 0), ink);
        }
        while y < last
            invariant
                first <= y,
                y <= last || y == first,
                last <= rows,
                last <= height,
                last <= top,
                first >= bottom,
                first >= 0,
                top == triangle.a.pos.y,
                bottom == triangle.c.pos.y,
                0 < width,
                width == before.width,
                height == before.height,
                rows == table.len(),
                table == scan@,
                before.wf(),
                before == old(self).buffer@,
                bary@ == *triangle,
                self.lighting_vec == old(self).lighting_vec,
                self.scale == old(self).scale,
                self.lens() == old(self).lens(),
                ink == (Ink::Shaded { tri: *triangle, tex: tex_of(*texture), lighting }),
                painted(before, self.buffer@, scanned_before(table, *triangle, y as int, 0), ink),
            decreases last - y,
        {
            let columns = scan.row(y);
            let mut end: usize = columns.1;
            if end > width - 1 {
                end = width - 1;
            }
            if end > Int::MAX as usize {
                end = Int::MAX as usize;
            }
            let mut x: usize = columns.0;
            proof {
                lemma_painted_agree(
                    before,
                    self.buffer@,
                    scanned_before(table, *triangle, y as int, 0),
                    scanned_before(table, *triangle, y as int, x as int),
                    ink,
                );
            }
            while x <= end
                invariant
                    columns == table[y as int],
                    columns.0 <= x,
                    x <= end + 1 || x == columns.0,
                    end <= columns.1,
                    end < width,
                    end <= Int::MAX,
                    first <= y < last,
                    last <= rows,
                    last <= height,
                    last <= top,
                    first >= bottom,
                    top == triangle.a.pos.y,
                    bottom == triangle.c.pos.y,
                    width == before.width,
                    height == before.height,
                    rows == table.len(),
                    table == scan@,
                    before.wf(),
                    before == old(self).buffer@,
                    bary@ == *triangle,
                    self.lighting_vec == old(self).lighting_vec,
                    self.scale == old(self).scale,
                    self.lens() == old(self).lens(),
                    ink == (Ink::Shaded { tri: *triangle, tex: tex_of(*texture), lighting }),
                    painted(
                        before,
                        self.buffer@,
                        scanned_before(table, *triangle, y as int, x as int),
                        ink,
                    ),
                decreases end + 1 - x,
            {
                let ghost now = self.buffer@;
                let weights = bary.weights(x as Int, y as Int);
                if is_inside(&weights) {
                    let mut color = match texture {
                        Some(texture) => texture.get_at(
                            triangle.interpolate_x(&weights),
                            triangle.interpolate_y(&weights),
                        ),
                        None => triangle.interpolate_color(&weights),
                    };
                    color.lighting(lighting);
                    let depth = triangle.interpolate_depth_inverse(&weights);
                    self.buffer.set(x, y, color, depth);
                    proof {
                        assert(Fragment { color: color.packed(), depth } == ink.at(x as int, y as int));
                        lemma_painted_plot(
                            before,
                            now,
                            scanned_before(table, *triangle, y as int, x as int),
                            ink,
                            x as int,
                            y as int,
                        );
                        assert(scanned_before(table, *triangle, y as int, x as int).insert(
                            (x as int, y as int),
                        ) =~= scanned_before(table, *triangle, y as int, x + 1));
                    }
                } else {
                    proof {
                        assert(scanned_before(table, *triangle, y as int, x as int)
                            =~= scanned_before(table, *triangle, y as int, x + 1));
                    }
                }
                x += 1;
            }
            proof {
                lemma_painted_agree(
                    before,
                    self.buffer@,
                    scanned_before(table, *triangle, y as int, x as int),
                    scanned_before(table, *triangle, y + 1, 0),
                    ink,
                );
            }
            y += 1;
        }
        proof {
            lemma_painted_agree(
                before,
                self.buffer@,
                scanned_before(table, *triangle, y as int, 0),
                scanned(table, *triangle),
                ink,
            );
        }
    }

    /// Draws one triangle, given in camera space, by way of the table
    /// `scan`: the triangle is culled, projected and sorted, its edges are
    /// entered into the table, and its rows are filled from the table. A
    /// triangle that is culled, not seen or without area on the screen
    /// leaves the buffer and the table as they are.
    pub fn render_scanned(
        &mut self,
        scan: &mut ScanBuffer,
        tri: &Tri,
        lighting: u8,
        texture: &Option<Texture>,
    )
        ensures
            match old(self).lens().prepared(*tri) {
                Some(t) => if t.den() == 0 {
                    final(self).buffer@ == old(self).buffer@ && final(scan)@ == old(scan)@
                } else {
                    &&& final(scan)@ == outlined_table(old(scan)@, flat(t.a), flat(t.b), flat(t.c))
                    &&& final(self).buffer@ == paint(
                        old(self).buffer@,
                        scanned(final(scan)@, t),
                        Ink::Shaded { tri: t, tex: tex_of(*texture), lighting },
                    )
                },
                None => final(self).buffer@ == old(self).buffer@ && final(scan)@ == old(scan)@,
            },
            final(self).lighting_vec == old(self).lighting_vec,
            final(self).scale == old(self).scale,
    {
        let ghost before = self.buffer@;
        proof {
            use_type_invariant(&self.buffer);
        }
        if let Some(triangle) = self.prep_triangle(tri) {
            if let Some(bary) = Barycentric::cons(&triangle) {
                let a = Vec2i::cons(triangle.a.pos.x, triangle.a.pos.y);
                let b = Vec2i::cons(triangle.b.pos.x, triangle.b.pos.y);
                let c = Vec2i::cons(triangle.c.pos.x, triangle.c.pos.y);
                scan.outline(&a, &b, &c);
                self.fill_scan_convert(scan, &triangle, lighting, &bary, texture);
                proof {
                    lemma_paint(
                        before,
                        scanned(scan@, triangle),
                        Ink::Shaded { tri: triangle, tex: tex_of(*texture), lighting },
                    );
                }
            }
        }
    }
}

} // verus!
