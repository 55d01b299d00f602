//! The mesh data model and the barycentric interpolator.
//!
//! A vertex carries a position, a colour and a texture coordinate. Its
//! position is a point of the mesh at rest, then a point of camera space
//! (x is the depth axis), and after projection a point of the screen (x and
//! y are pixel coordinates, z is the depth). Barycentric weights are kept
//! exact, as numerators over one common denominator.

use vstd::prelude::*;
use crate::arith::{
    abs, clamp, clamp_i64, div_floor, floor_div, lemma_floor_div_bounds, lemma_floor_div_size,
    lemma_mul_bounds,
};
use crate::buffer::FAR;
use crate::light::{isqrt, lemma_root, root, Wide};
use crate::transform::{lemma_within_length, TRIG_ONE};
use crate::color::Color;
use crate::math::{det2, det_wide, wrapping_sum, Int, Vec2i, Vec3i, SPAN};
use crate::texture::Texture;

verus! {

/// The number that the inverse of a depth is counted in: the inverse of
/// the depth `z` is `DEPTH_ONE / z`.
pub const DEPTH_ONE: i64 = 0x100_0000_0000;

/// The inverse of the depth `z`, rounded down; nothing for a depth that
/// is not in front of the camera.
pub open spec fn inverse_depth(z: Int) -> int {
    if z > 0 {
        (DEPTH_ONE as int) / (z as int)
    } else {
        0
    }
}

/// The inverse of the depth `z`.
fn invert(z: Int) -> (r: i64)
    ensures
        r == inverse_depth(z),
        0 <= r <= DEPTH_ONE,
{
    if z > 0 {
        proof {
            lemma_floor_div_size(DEPTH_ONE as int, z as int, DEPTH_ONE as int);
            lemma_floor_div_bounds(DEPTH_ONE as int, z as int);
            let q = (DEPTH_ONE as int) / (z as int);
            if q < 0 {
                assert(q * z + z <= 0) by (nonlinear_arith)
                    requires
                        q + 1 <= 0,
                        z > 0,
                ;
            }
        }
        DEPTH_ONE / (z as i64)
    } else {
        0
    }
}

/// A corner of a triangle.
#[derive(Debug, Clone, Copy, PartialEq, Eq, Structural)]
pub struct Vert {
    pub pos: Vec3i,
    pub texpos: Vec2i,
    pub color: Color,
}

impl Vert {
    pub fn cons(pos: Vec3i, color: Color, texpos: Vec2i) -> (v: Vert)
        ensures
            v == (Vert { pos, texpos, color }),
    {
        Vert { pos, texpos, color }
    }
}

/// A vector of integer space with components wide enough for the products
/// of coordinate differences.
#[derive(Debug, Clone, Copy, PartialEq, Eq, Structural)]
pub struct Vec3w {
    pub x: i128,
    pub y: i128,
    pub z: i128,
}

/// The three barycentric weights of a pixel as numerators over the common
/// denominator `den`: the weight of corner `a` is `w1 / den`, and so on.
#[derive(Debug, Clone, Copy, PartialEq, Eq, Structural)]
pub struct Weights {
    pub w1: i128,
    pub w2: i128,
    pub w3: i128,
    pub den: i128,
}

impl Weights {
    /// The weights of a triangle with a positive or negative area, within
    /// the sizes that `Int` coordinates can give them.
    pub open spec fn wf(self) -> bool {
        &&& self.den != 0
        &&& -2 * SPAN * SPAN <= self.den <= 2 * SPAN * SPAN
        &&& -2 * SPAN * SPAN <= self.w1 <= 2 * SPAN * SPAN
        &&& -2 * SPAN * SPAN <= self.w2 <= 2 * SPAN * SPAN
        &&& -6 * SPAN * SPAN <= self.w3 <= 6 * SPAN * SPAN
    }

    /// The weighted mean of one value per corner, rounded down.
    pub open spec fn mean(self, va: int, vb: int, vc: int) -> int {
        floor_div(self.w1 * va + self.w2 * vb + self.w3 * vc, self.den as int)
    }

    /// The weighted mean of one value per corner, rounded down, for
    /// values of up to 40 bits.
    pub fn interpolate_wide(&self, va: i64, vb: i64, vc: i64) -> (m: i128)
        requires
            self.wf(),
            -DEPTH_ONE <= va <= DEPTH_ONE,
            -DEPTH_ONE <= vb <= DEPTH_ONE,
            -DEPTH_ONE <= vc <= DEPTH_ONE,
        ensures
            m == self.mean(va as int, vb as int, vc as int),
    {
        proof {
            lemma_mul_bounds(self.w1 as int, va as int, 2 * SPAN * SPAN, 0x100_0000_0000);
            lemma_mul_bounds(self.w2 as int, vb as int, 2 * SPAN * SPAN, 0x100_0000_0000);
            lemma_mul_bounds(self.w3 as int, vc as int, 6 * SPAN * SPAN, 0x100_0000_0000);
        }
        let sum: i128 = self.w1 * (va as i128) + self.w2 * (vb as i128) + self.w3 * (vc as i128);
        if self.den > 0 {
            div_floor(sum, self.den)
        } else {
            div_floor(-sum, -self.den)
        }
    }

    /// The weighted mean of one value per corner, rounded down.
    pub fn interpolate(&self, va: Int, vb: Int, vc: Int) -> (m: i128)
        requires
            self.wf(),
        ensures
            m == self.mean(va as int, vb as int, vc as int),
    {
        proof {
            lemma_mul_bounds(self.w1 as int, va as int, 2 * SPAN * SPAN, 0x8000_0000);
            lemma_mul_bounds(self.w2 as int, vb as int, 2 * SPAN * SPAN, 0x8000_0000);
            lemma_mul_bounds(self.w3 as int, vc as int, 6 * SPAN * SPAN, 0x8000_0000);
        }
        let sum: i128 = self.w1 * (va as i128) + self.w2 * (vb as i128) + self.w3 * (vc as i128);
        if self.den > 0 {
            div_floor(sum, self.den)
        } else {
            div_floor(-sum, -self.den)
        }
    }
}

/// The size below which every coordinate of a vector lies whose length
/// can be taken.
pub const FIT: i128 = 0x2000_0000_0000_0000;

/// The vector halved, each coordinate rounded down, until every
/// coordinate is smaller than `FIT`: the vector itself where it is short
/// enough, and a vector of all but the same direction where it is not.
pub open spec fn fitted(v: Wide) -> Wide
    decreases abs(v.0) + abs(v.1) + abs(v.2),
{
    if abs(v.0) < FIT && abs(v.1) < FIT && abs(v.2) < FIT {
        v
    } else {
        fitted((v.0 / 2, v.1 / 2, v.2 / 2))
    }
}

/// The vector, fitted.
fn fit(x: i128, y: i128, z: i128) -> (r: (i128, i128, i128))
    requires
        -2 * SPAN * SPAN <= x <= 2 * SPAN * SPAN,
        -2 * SPAN * SPAN <= y <= 2 * SPAN * SPAN,
        -2 * SPAN * SPAN <= z <= 2 * SPAN * SPAN,
    ensures
        (r.0 as int, r.1 as int, r.2 as int) == fitted((x as int, y as int, z as int)),
        -FIT < r.0 < FIT,
        -FIT < r.1 < FIT,
        -FIT < r.2 < FIT,
{
    let mut x = x;
    let mut y = y;
    let mut z = z;
    let ghost first = (x as int, y as int, z as int);
    while !(-FIT < x && x < FIT && -FIT < y && y < FIT && -FIT < z && z < FIT)
        invariant
            fitted(first) == fitted((x as int, y as int, z as int)),
            -2 * SPAN * SPAN <= x <= 2 * SPAN * SPAN,
            -2 * SPAN * SPAN <= y <= 2 * SPAN * SPAN,
            -2 * SPAN * SPAN <= z <= 2 * SPAN * SPAN,
        decreases abs(x as int) + abs(y as int) + abs(z as int),
    {
        x = div_floor(x, 2);
        y = div_floor(y, 2);
        z = div_floor(z, 2);
    }
    (x, y, z)
}

/// A coordinate times `TRIG_ONE` over the length of its vector.
fn part(c: i128, length: u64) -> (r: Int)
    requires
        0 < length,
        -length <= c <= length,
    ensures
        r == floor_div(c * TRIG_ONE, length as int),
        -TRIG_ONE <= r <= TRIG_ONE,
{
    proof {
        lemma_mul_bounds(c as int, TRIG_ONE as int, 0xffff_ffff_ffff_ffff, 0x4000_0000);
        lemma_floor_div_bounds(c * TRIG_ONE, length as int);
        let q = floor_div(c * TRIG_ONE, length as int);
        assert(c * TRIG_ONE <= length * TRIG_ONE) by (nonlinear_arith)
            requires
                c <= length,
        ;
        assert(c * TRIG_ONE >= -(length * TRIG_ONE)) by (nonlinear_arith)
            requires
                c >= -length,
        ;
        if q > TRIG_ONE {
            assert(q * length >= (TRIG_ONE + 1) * length) by (nonlinear_arith)
                requires
                    q >= TRIG_ONE + 1,
                    length > 0,
            ;
            assert((TRIG_ONE + 1) * length == length * TRIG_ONE + length) by (nonlinear_arith);
        }
        if q < -TRIG_ONE {
            assert(q * length + length <= (-TRIG_ONE) * length) by (nonlinear_arith)
                requires
                    q + 1 <= -TRIG_ONE,
                    length > 0,
            ;
            assert((-TRIG_ONE) * length == -(length * TRIG_ONE)) by (nonlinear_arith);
        }
    }
    div_floor(c * (TRIG_ONE as i128), length as i128) as Int
}

/// A triangle: three corners in the order `a`, `b`, `c`, which gives the
/// normal its direction.
#[derive(Debug, Clone, Copy, PartialEq, Eq, Structural)]
pub struct Tri {
    pub a: Vert,
    pub b: Vert,
    pub c: Vert,
}

impl Tri {
    /// Twice the signed area of the triangle on the xy plane: the common
    /// denominator of its barycentric weights.
    pub open spec fn den(self) -> int {
        (self.b.pos.y - self.c.pos.y) * (self.a.pos.x - self.c.pos.x) + (self.c.pos.x
            - self.b.pos.x) * (self.a.pos.y - self.c.pos.y)
    }

    /// The numerator of the weight of corner `a` at the pixel `(x, y)`.
    pub open spec fn weight_a(self, x: int, y: int) -> int {
        (self.b.pos.y - self.c.pos.y) * (x - self.c.pos.x) + (self.c.pos.x - self.b.pos.x) * (y
            - self.c.pos.y)
    }

    /// The numerator of the weight of corner `b` at the pixel `(x, y)`.
    pub open spec fn weight_b(self, x: int, y: int) -> int {
        (self.c.pos.y - self.a.pos.y) * (x - self.c.pos.x) + (self.a.pos.x - self.c.pos.x) * (y
            - self.c.pos.y)
    }

    /// The numerator of the weight of corner `c` at the pixel `(x, y)`:
    /// what the other two leave of the whole.
    pub open spec fn weight_c(self, x: int, y: int) -> int {
        self.den() - self.weight_a(x, y) - self.weight_b(x, y)
    }

    /// The three weights of the pixel `(x, y)`.
    pub open spec fn weights_at(self, x: int, y: int) -> Weights {
        Weights {
            w1: self.weight_a(x, y) as i128,
            w2: self.weight_b(x, y) as i128,
            w3: self.weight_c(x, y) as i128,
            den: self.den() as i128,
        }
    }

    /// The corners stand in the order of descending y.
    pub open spec fn sorted(self) -> bool {
        self.a.pos.y >= self.b.pos.y >= self.c.pos.y
    }

    /// The x component of the cross product `(a - b) x (a - c)`.
    pub open spec fn normal_x(self) -> int {
        det2(
            self.a.pos.y - self.b.pos.y,
            self.a.pos.z - self.b.pos.z,
            self.a.pos.y - self.c.pos.y,
            self.a.pos.z - self.c.pos.z,
        )
    }

    /// The y component of the cross product `(a - b) x (a - c)`.
    pub open spec fn normal_y(self) -> int {
        det2(
            self.a.pos.z - self.b.pos.z,
            self.a.pos.x - self.b.pos.x,
            self.a.pos.z - self.c.pos.z,
            self.a.pos.x - self.c.pos.x,
        )
    }

    /// The z component of the cross product `(a - b) x (a - c)`.
    pub open spec fn normal_z(self) -> int {
        det2(
            self.a.pos.x - self.b.pos.x,
            self.a.pos.y - self.b.pos.y,
            self.a.pos.x - self.c.pos.x,
            self.a.pos.y - self.c.pos.y,
        )
    }

    /// The normal of the triangle: the cross product `(a - b) x (a - c)`,
    /// each coordinate times `TRIG_ONE` over the whole-number length of the
    /// product, rounded down. A product too long for its length to be
    /// taken is halved first, which keeps its direction; a product of no
    /// length gives the vector of no length.
    pub open spec fn unit_normal(self) -> Vec3i {
        let n = fitted((self.normal_x(), self.normal_y(), self.normal_z()));
        let square = n.0 * n.0 + n.1 * n.1 + n.2 * n.2;
        if square == 0 {
            Vec3i { x: 0, y: 0, z: 0 }
        } else {
            Vec3i {
                x: floor_div(n.0 * TRIG_ONE, root(square as nat) as int) as Int,
                y: floor_div(n.1 * TRIG_ONE, root(square as nat) as int) as Int,
                z: floor_div(n.2 * TRIG_ONE, root(square as nat) as int) as Int,
            }
        }
    }

    /// The triangle shows its back to a camera that looks down the
    /// positive x axis: its normal has no component towards the camera.
    pub open spec fn spec_faces_away(self) -> bool {
        self.normal_x() >= 0
    }

    /// The long edge, from `a` to `c`, bounds the triangle on the left.
    pub open spec fn spec_long_left(self) -> bool {
        det2(
            self.a.pos.x - self.b.pos.x,
            self.a.pos.y - self.b.pos.y,
            self.a.pos.x - self.c.pos.x,
            self.a.pos.y - self.c.pos.y,
        ) <= 0
    }

    /// The triangle moved by `v`.
    pub open spec fn moved(self, v: Vec3i) -> Tri {
        Tri {
            a: Vert { pos: shifted(self.a.pos, v), ..self.a },
            b: Vert { pos: shifted(self.b.pos, v), ..self.b },
            c: Vert { pos: shifted(self.c.pos, v), ..self.c },
        }
    }

    /// Moving the triangle by `v` keeps every coordinate within `Int`.
    pub open spec fn can_move(self, v: Vec3i) -> bool {
        &&& fits(self.a.pos, v)
        &&& fits(self.b.pos, v)
        &&& fits(self.c.pos, v)
    }

    /// The depth of the triangle under the weights `w`: the weighted mean
    /// of the corners' depths, held to the range of an `i64`.
    pub open spec fn depth_at(self, w: Weights) -> i64 {
        clamp(
            w.mean(self.a.pos.z as int, self.b.pos.z as int, self.c.pos.z as int),
            i64::MIN as int,
            i64::MAX as int,
        ) as i64
    }

    /// The depth of the triangle under the weights `w` as perspective has
    /// it: the inverse of the weighted mean of the inverses of the corners'
    /// depths. `FAR` where that mean is not positive.
    pub open spec fn depth_inverse_at(self, w: Weights) -> i64 {
        let mean = w.mean(
            inverse_depth(self.a.pos.z),
            inverse_depth(self.b.pos.z),
            inverse_depth(self.c.pos.z),
        );
        if mean > 0 {
            ((DEPTH_ONE as int) / mean) as i64
        } else {
            FAR
        }
    }

    /// The horizontal texture coordinate under the weights `w`.
    pub open spec fn tex_u_at(self, w: Weights) -> i64 {
        clamp(
            w.mean(self.a.texpos.x as int, self.b.texpos.x as int, self.c.texpos.x as int),
            i64::MIN as int,
            i64::MAX as int,
        ) as i64
    }

    /// The vertical texture coordinate under the weights `w`.
    pub open spec fn tex_v_at(self, w: Weights) -> i64 {
        clamp(
            w.mean(self.a.texpos.y as int, self.b.texpos.y as int, self.c.texpos.y as int),
            i64::MIN as int,
            i64::MAX as int,
        ) as i64
    }

    /// The blend of the corners' colours under the weights `w`: channel by
    /// channel the weighted mean, held to the range of a channel.
    pub open spec fn color_at(self, w: Weights) -> Color {
        Color {
            red: clamp(
                w.mean(self.a.color.red as int, self.b.color.red as int, self.c.color.red as int),
                0,
                255,
            ) as u8,
            green: clamp(
                w.mean(
                    self.a.color.green as int,
                    self.b.color.green as int,
                    self.c.color.green as int,
                ),
                0,
                255,
            ) as u8,
            blue: clamp(
                w.mean(
                    self.a.color.blue as int,
                    self.b.color.blue as int,
                    self.c.color.blue as int,
                ),
                0,
                255,
            ) as u8,
        }
    }

    /// A triangle with the corners `a`, `b`, `c`, coloured red, green and
    /// blue, all three at the origin of the texture.
    pub fn cons(a: Vec3i, b: Vec3i, c: Vec3i) -> (t: Tri)
        ensures
            t.a == (Vert { pos: a, texpos: Vec2i { x: 0, y: 0 }, color: Color { red: 255, green: 0, blue: 0 } }),
            t.b == (Vert { pos: b, texpos: Vec2i { x: 0, y: 0 }, color: Color { red: 0, green: 255, blue: 0 } }),
            t.c == (Vert { pos: c, texpos: Vec2i { x: 0, y: 0 }, color: Color { red: 0, green: 0, blue: 255 } }),
    {
        Tri {
            a: Vert::cons(a, Color::cons(255, 0, 0), Vec2i::cons(0, 0)),
            b: Vert::cons(b, Color::cons(0, 255, 0), Vec2i::cons(0, 0)),
            c: Vert::cons(c, Color::cons(0, 0, 255), Vec2i::cons(0, 0)),
        }
    }

    pub fn cons_verts(a: Vert, b: Vert, c: Vert) -> (t: Tri)
        ensures
            t == (Tri { a, b, c }),
    {
        Tri { a, b, c }
    }

    /// The red channels of the three corners.
    pub fn get_color_red(&self) -> (v: Vec3i)
        ensures
            v.x == self.a.color.red,
            v.y == self.b.color.red,
            v.z == self.c.color.red,
    {
        Vec3i::cons(self.a.color.red as Int, self.b.color.red as Int, self.c.color.red as Int)
    }

    /// The green channels of the three corners.
    pub fn get_color_green(&self) -> (v: Vec3i)
        ensures
            v.x == self.a.color.green,
            v.y == self.b.color.green,
            v.z == self.c.color.green,
    {
        Vec3i::cons(self.a.color.green as Int, self.b.color.green as Int, self.c.color.green as Int)
    }

    /// The blue channels of the three corners.
    pub fn get_color_blue(&self) -> (v: Vec3i)
        ensures
            v.x == self.a.color.blue,
            v.y == self.b.color.blue,
            v.z == self.c.color.blue,
    {
        Vec3i::cons(self.a.color.blue as Int, self.b.color.blue as Int, self.c.color.blue as Int)
    }

    /// The normal of the triangle: the cross product `(a - b) x (a - c)`,
    /// scaled to the length `TRIG_ONE`, which stands for one. A triangle
    /// without area has no direction to give; its normal is the vector of no
    /// length.
    pub fn get_normal(&self) -> (n: Vec3i)
        ensures
            n == self.unit_normal(),
            -TRIG_ONE <= n.x <= TRIG_ONE,
            -TRIG_ONE <= n.y <= TRIG_ONE,
            -TRIG_ONE <= n.z <= TRIG_ONE,
            self.normal_x() == 0 && self.normal_y() == 0 && self.normal_z() == 0 ==> n == (Vec3i {
                x: 0,
                y: 0,
                z: 0,
            }),
    {
        let raw = self.edge_cross();
        let (x, y, z) = fit(raw.x, raw.y, raw.z);
        proof {
            lemma_mul_bounds(x as int, x as int, FIT as int, FIT as int);
            lemma_mul_bounds(y as int, y as int, FIT as int, FIT as int);
            lemma_mul_bounds(z as int, z as int, FIT as int, FIT as int);
            assert(x * x >= 0 && y * y >= 0 && z * z >= 0) by (nonlinear_arith);
            assert(FIT * FIT == 0x400_0000_0000_0000_0000_0000_0000_0000);
        }
        let square: i128 = x * x + y * y + z * z;
        if square == 0 {
            return Vec3i::cons(0, 0, 0);
        }
        let length: u64 = isqrt(square as u128);
        proof {
            lemma_root(square as nat);
            if length == 0 {
                assert((length + 1) * (length + 1) == 1) by (nonlinear_arith)
                    requires
                        length == 0,
                ;
            }
            lemma_within_length(x as int, y as int, z as int, length as int);
            lemma_within_length(y as int, z as int, x as int, length as int);
            lemma_within_length(z as int, x as int, y as int, length as int);
        }
        Vec3i::cons(part(x, length), part(y, length), part(z, length))
    }

    /// The cross product `(a - b) x (a - c)` as the corners give it, of
    /// whatever length: what the normal is scaled from, and what tells the
    /// side that the triangle shows.
    pub fn edge_cross(&self) -> (n: Vec3w)
        ensures
            n.x == self.normal_x(),
            n.y == self.normal_y(),
            n.z == self.normal_z(),
            -2 * SPAN * SPAN <= n.x <= 2 * SPAN * SPAN,
            -2 * SPAN * SPAN <= n.y <= 2 * SPAN * SPAN,
            -2 * SPAN * SPAN <= n.z <= 2 * SPAN * SPAN,
    {
        let px: i64 = self.a.pos.x as i64 - self.b.pos.x as i64;
        let py: i64 = self.a.pos.y as i64 - self.b.pos.y as i64;
        let pz: i64 = self.a.pos.z as i64 - self.b.pos.z as i64;
        let qx: i64 = self.a.pos.x as i64 - self.c.pos.x as i64;
        let qy: i64 = self.a.pos.y as i64 - self.c.pos.y as i64;
        let qz: i64 = self.a.pos.z as i64 - self.c.pos.z as i64;
        Vec3w {
            x: det_wide(py, pz, qy, qz),
            y: det_wide(pz, px, qz, qx),
            z: det_wide(px, py, qx, qy),
        }
    }

    /// The triangle shows its back to a camera that looks down the
    /// positive x axis.
    pub fn faces_away(&self) -> (b: bool)
        ensures
            b == self.spec_faces_away(),
    {
        self.edge_cross().x >= 0
    }

    /// The depth of the triangle under `weights`.
    pub fn interpolate_depth(&self, weights: &Weights) -> (d: i64)
        requires
            weights.wf(),
        ensures
            d == self.depth_at(*weights),
    {
        clamp_i64(weights.interpolate(self.a.pos.z, self.b.pos.z, self.c.pos.z))
    }

    /// The depth of the triangle under `weights` as perspective has it:
    /// inverse depth is what is interpolated.
    pub fn interpolate_depth_inverse(&self, weights: &Weights) -> (d: i64)
        requires
            weights.wf(),
        ensures
            d == self.depth_inverse_at(*weights),
    {
        let mean: i128 = weights.interpolate_wide(
            invert(self.a.pos.z),
            invert(self.b.pos.z),
            invert(self.c.pos.z),
        );
        if mean > 0 {
            proof {
                lemma_floor_div_size(DEPTH_ONE as int, mean as int, DEPTH_ONE as int);
            }
            (DEPTH_ONE as i128 / mean) as i64
        } else {
            FAR
        }
    }

    /// The horizontal texture coordinate under `weights`.
    pub fn interpolate_x(&self, weights: &Weights) -> (u: i64)
        requires
            weights.wf(),
        ensures
            u == self.tex_u_at(*weights),
    {
        clamp_i64(weights.interpolate(self.a.texpos.x, self.b.texpos.x, self.c.texpos.x))
    }

    /// The vertical texture coordinate under `weights`.
    pub fn interpolate_y(&self, weights: &Weights) -> (v: i64)
        requires
            weights.wf(),
        ensures
            v == self.tex_v_at(*weights),
    {
        clamp_i64(weights.interpolate(self.a.texpos.y, self.b.texpos.y, self.c.texpos.y))
    }

    /// The blend of the corners' colours under `weights`.
    pub fn interpolate_color(&self, weights: &Weights) -> (c: Color)
        requires
            weights.wf(),
        ensures
            c == self.color_at(*weights),
    {
        Color::cons(
            channel(
                weights.interpolate(
                    self.a.color.red as Int,
                    self.b.color.red as Int,
                    self.c.color.red as Int,
                ),
            ),
            channel(
                weights.interpolate(
                    self.a.color.green as Int,
                    self.b.color.green as Int,
                    self.c.color.green as Int,
                ),
            ),
            channel(
                weights.interpolate(
                    self.a.color.blue as Int,
                    self.b.color.blue as Int,
                    self.c.color.blue as Int,
                ),
            ),
        )
    }

    /// Moves every corner by `vec`.
    pub fn translate(&mut self, vec: Vec3i)
        requires
            old(self).can_move(vec),
        ensures
            *final(self) == old(self).moved(vec),
    {
        self.a.pos = self.a.pos + vec;
        self.b.pos = self.b.pos + vec;
        self.c.pos = self.c.pos + vec;
    }

    /// Moves every corner by `vec` backwards.
    pub fn translate_negative(&mut self, vec: Vec3i)
        requires
            old(self).can_move_back(vec),
        ensures
            *final(self) == old(self).moved_back(vec),
    {
        self.a.pos = self.a.pos - vec;
        self.b.pos = self.b.pos - vec;
        self.c.pos = self.c.pos - vec;
    }

    /// The triangle moved by `v` backwards.
    pub open spec fn moved_back(self, v: Vec3i) -> Tri {
        Tri {
            a: Vert { pos: shifted_back(self.a.pos, v), ..self.a },
            b: Vert { pos: shifted_back(self.b.pos, v), ..self.b },
            c: Vert { pos: shifted_back(self.c.pos, v), ..self.c },
        }
    }

    /// Moving the triangle by `v` backwards keeps every coordinate within
    /// `Int`.
    pub open spec fn can_move_back(self, v: Vec3i) -> bool {
        &&& fits_back(self.a.pos, v)
        &&& fits_back(self.b.pos, v)
        &&& fits_back(self.c.pos, v)
    }

    /// The long edge, from `a` to `c`, bounds the triangle on the left:
    /// the signed area of `a - b` and `a - c` is not positive.
    pub fn long_left(&self) -> (b: bool)
        ensures
            b == self.spec_long_left(),
    {
        let v1x: i64 = self.a.pos.x as i64 - self.b.pos.x as i64;
        let v1y: i64 = self.a.pos.y as i64 - self.b.pos.y as i64;
        let v2x: i64 = self.a.pos.x as i64 - self.c.pos.x as i64;
        let v2y: i64 = self.a.pos.y as i64 - self.c.pos.y as i64;
        det_wide(v1x, v1y, v2x, v2y) <= 0
    }
}

/// The point `p` moved by `v`.
pub open spec fn shifted(p: Vec3i, v: Vec3i) -> Vec3i {
    Vec3i { x: (p.x + v.x) as Int, y: (p.y + v.y) as Int, z: (p.z + v.z) as Int }
}

/// The point `p` moved by `v` backwards.
pub open spec fn shifted_back(p: Vec3i, v: Vec3i) -> Vec3i {
    Vec3i { x: (p.x - v.x) as Int, y: (p.y - v.y) as Int, z: (p.z - v.z) as Int }
}

/// The point `p` moved by `v` has its coordinates within `Int`.
pub open spec fn fits(p: Vec3i, v: Vec3i) -> bool {
    &&& Int::MIN <= p.x + v.x <= Int::MAX
    &&& Int::MIN <= p.y + v.y <= Int::MAX
    &&& Int::MIN <= p.z + v.z <= Int::MAX
}

/// The point `p` moved by `v` backwards has its coordinates within `Int`.
pub open spec fn fits_back(p: Vec3i, v: Vec3i) -> bool {
    &&& Int::MIN <= p.x - v.x <= Int::MAX
    &&& Int::MIN <= p.y - v.y <= Int::MAX
    &&& Int::MIN <= p.z - v.z <= Int::MAX
}

/// A value held to the range of a colour channel.
fn channel(a: i128) -> (r: u8)
    ensures
        r == clamp(a as int, 0, 255),
{
    if a < 0 {
        0
    } else if a > 255 {
        255
    } else {
        a as u8
    }
}

/// A mesh at rest: its triangles, the offset of its centre, the rotation
/// that has been asked of it so far, and its texture if it has one. The
/// triangles are never rewritten; whoever draws the mesh applies the
/// rotation afresh. Angles are binary: a full turn is `2^32` units, so that
/// adding angles wraps as turning does.
pub struct Mesh {
    pub tris: Vec<Tri>,
    pub center: Vec3i,
    pub rotation: Vec3i,
    pub texture: Option<Texture>,
}

/// The sum of two binary angles, a full turn being `2^32`.
pub open spec fn turned(angle: Int, by: Int) -> Int {
    wrapping_sum(angle, by)
}

/// The binary angle that undoes `angle`.
pub open spec fn turned_back(angle: Int) -> Int {
    if angle == Int::MIN {
        angle
    } else {
        (-angle) as Int
    }
}

impl Mesh {
    /// A mesh that has not been rotated.
    pub fn cons(tris: Vec<Tri>, center: Vec3i, texture: Option<Texture>) -> (m: Mesh)
        ensures
            m.tris == tris,
            m.center == center,
            m.rotation == (Vec3i { x: 0, y: 0, z: 0 }),
            m.texture == texture,
    {
        Mesh { tris, center, rotation: Vec3i::cons(0, 0, 0), texture }
    }

    /// Turns the mesh about the x axis by `angle`.
    pub fn rotatex(&mut self, angle: Int)
        ensures
            final(self).rotation == (Vec3i { x: turned(old(self).rotation.x, angle), ..old(self).rotation }),
            final(self).tris == old(self).tris,
            final(self).center == old(self).center,
            final(self).texture == old(self).texture,
    {
        self.rotation.x = self.rotation.x.wrapping_add(angle);
    }

    /// Turns the mesh about the y axis by `angle`.
    pub fn rotatey(&mut self, angle: Int)
        ensures
            final(self).rotation == (Vec3i { y: turned(old(self).rotation.y, angle), ..old(self).rotation }),
            final(self).tris == old(self).tris,
            final(self).center == old(self).center,
            final(self).texture == old(self).texture,
    {
        self.rotation.y = self.rotation.y.wrapping_add(angle);
    }

    /// Turns the mesh about the z axis by `angle`.
    pub fn rotatez(&mut self, angle: Int)
        ensures
            final(self).rotation == (Vec3i { z: turned(old(self).rotation.z, angle), ..old(self).rotation }),
            final(self).tris == old(self).tris,
            final(self).center == old(self).center,
            final(self).texture == old(self).texture,
    {
        self.rotation.z = self.rotation.z.wrapping_add(angle);
    }
}

/// Turning by an angle and then by the angle that undoes it leaves every
/// angle where it was.
pub proof fn lemma_turn_round_trip(angle: Int, by: Int)
    ensures
        turned(turned(angle, by), turned_back(by)) == angle,
{
}

/// A camera: where it stands and how it is turned, in binary angles.
#[derive(Debug, Clone, Copy, PartialEq, Eq, Structural)]
pub struct Camera {
    pub position: Vec3i,
    pub rotation: Vec3i,
}

impl Camera {
    /// A camera at `position` that looks down the positive x axis.
    pub fn cons(position: Vec3i) -> (c: Camera)
        ensures
            c.position == position,
            c.rotation == (Vec3i { x: 0, y: 0, z: 0 }),
    {
        Camera { position, rotation: Vec3i::cons(0, 0, 0) }
    }
}

/// A frame of reference to draw: three axes of one length about a centre.
#[derive(Debug, Clone, Copy, PartialEq, Eq, Structural)]
pub struct RefFrame {
    pub center: Vec3i,
    pub length: Int,
}

impl RefFrame {
    pub fn cons(center: Vec3i, length: Int) -> (f: RefFrame)
        ensures
            f == (RefFrame { center, length }),
    {
        RefFrame { center, length }
    }
}

/// The interpolator of one triangle: the triangle with the denominator of
/// its weights worked out once.
pub struct Barycentric {
    triangle: Tri,
    den: i128,
}

impl View for Barycentric {
    type V = Tri;

    closed spec fn view(&self) -> Tri {
        self.triangle
    }
}

impl Barycentric {
    #[verifier::type_invariant]
    closed spec fn inv(self) -> bool {
        &&& self.den == self.triangle.den()
        &&& self.den != 0
        &&& -2 * SPAN * SPAN <= self.den <= 2 * SPAN * SPAN
    }

    /// The interpolator of `triangle`, or `None` where the triangle has no
    /// area on the xy plane and so no weights.
    pub fn cons(triangle: &Tri) -> (r: Option<Barycentric>)
        ensures
            triangle.den() == 0 <==> r.is_none(),
            r matches Some(b) ==> b@ == *triangle,
    {
        let a = triangle.a.pos;
        let b = triangle.b.pos;
        let c = triangle.c.pos;
        let den: i128 = det_wide(
            a.x as i64 - c.x as i64,
            a.y as i64 - c.y as i64,
            b.x as i64 - c.x as i64,
            b.y as i64 - c.y as i64,
        );
        proof {
            lemma_den_is_det(*triangle);
        }
        if den == 0 {
            None
        } else {
            Some(Barycentric { triangle: *triangle, den })
        }
    }

    /// The weights of the pixel `(x, y)`. They sum to the whole, which is
    /// `den`.
    pub fn weights(&self, x: Int, y: Int) -> (w: Weights)
        ensures
            w == self@.weights_at(x as int, y as int),
            w.wf(),
            w.w1 + w.w2 + w.w3 == w.den,
            w.den == self@.den(),
    {
        proof {
            use_type_invariant(self);
            lemma_den_is_det(self.triangle);
            lemma_weights_are_dets(self.triangle, x as int, y as int);
        }
        let a = self.triangle.a.pos;
        let b = self.triangle.b.pos;
        let c = self.triangle.c.pos;
        let w1: i128 = det_wide(
            x as i64 - c.x as i64,
            y as i64 - c.y as i64,
            b.x as i64 - c.x as i64,
            b.y as i64 - c.y as i64,
        );
        let w2: i128 = det_wide(
            a.x as i64 - c.x as i64,
            a.y as i64 - c.y as i64,
            x as i64 - c.x as i64,
            y as i64 - c.y as i64,
        );
        Weights { w1, w2, w3: self.den - w1 - w2, den: self.den }
    }
}

/// The denominator is a determinant of two edges.
pub proof fn lemma_den_is_det(t: Tri)
    ensures
        t.den() == det2(
            t.a.pos.x - t.c.pos.x,
            t.a.pos.y - t.c.pos.y,
            t.b.pos.x - t.c.pos.x,
            t.b.pos.y - t.c.pos.y,
        ),
        t.spec_long_left() <==> t.den() <= 0,
{
    let (ax, ay) = (t.a.pos.x as int, t.a.pos.y as int);
    let (bx, by) = (t.b.pos.x as int, t.b.pos.y as int);
    let (cx, cy) = (t.c.pos.x as int, t.c.pos.y as int);
    assert((by - cy) * (ax - cx) + (cx - bx) * (ay - cy) == (ax - cx) * (by - cy) - (ay - cy) * (bx
        - cx)) by (nonlinear_arith);
    assert((ax - bx) * (ay - cy) - (ay - by) * (ax - cx) == (ax - cx) * (by - cy) - (ay - cy) * (bx
        - cx)) by (nonlinear_arith);
}

/// The numerators of the first two weights are determinants of an edge and
/// the vector from `c` to the pixel.
pub proof fn lemma_weights_are_dets(t: Tri, x: int, y: int)
    ensures
        t.weight_a(x, y) == det2(
            x - t.c.pos.x,
            y - t.c.pos.y,
            t.b.pos.x - t.c.pos.x,
            t.b.pos.y - t.c.pos.y,
        ),
        t.weight_b(x, y) == det2(
            t.a.pos.x - t.c.pos.x,
            t.a.pos.y - t.c.pos.y,
            x - t.c.pos.x,
            y - t.c.pos.y,
        ),
{
    let (ax, ay) = (t.a.pos.x as int, t.a.pos.y as int);
    let (bx, by) = (t.b.pos.x as int, t.b.pos.y as int);
    let (cx, cy) = (t.c.pos.x as int, t.c.pos.y as int);
    assert((by - cy) * (x - cx) + (cx - bx) * (y - cy) == (x - cx) * (by - cy) - (y - cy) * (bx
        - cx)) by (nonlinear_arith);
    assert((cy - ay) * (x - cx) + (ax - cx) * (y - cy) == (ax - cx) * (y - cy) - (ay - cy) * (x
        - cx)) by (nonlinear_arith);
}

/// At each corner of a triangle the weight of that corner is the whole and
/// the other two are nothing.
pub proof fn lemma_weights_at_corners(t: Tri)
    ensures
        t.weight_a(t.a.pos.x as int, t.a.pos.y as int) == t.den(),
        t.weight_b(t.a.pos.x as int, t.a.pos.y as int) == 0,
        t.weight_c(t.a.pos.x as int, t.a.pos.y as int) == 0,
        t.weight_a(t.b.pos.x as int, t.b.pos.y as int) == 0,
        t.weight_b(t.b.pos.x as int, t.b.pos.y as int) == t.den(),
        t.weight_c(t.b.pos.x as int, t.b.pos.y as int) == 0,
        t.weight_a(t.c.pos.x as int, t.c.pos.y as int) == 0,
        t.weight_b(t.c.pos.x as int, t.c.pos.y as int) == 0,
        t.weight_c(t.c.pos.x as int, t.c.pos.y as int) == t.den(),
{
    let (ax, ay) = (t.a.pos.x as int, t.a.pos.y as int);
    let (bx, by) = (t.b.pos.x as int, t.b.pos.y as int);
    let (cx, cy) = (t.c.pos.x as int, t.c.pos.y as int);
    assert((cy - ay) * (ax - cx) + (ax - cx) * (ay - cy) == 0) by (nonlinear_arith);
    assert((by - cy) * (bx - cx) + (cx - bx) * (by - cy) == 0) by (nonlinear_arith);
    assert((cy - ay) * (bx - cx) + (ax - cx) * (by - cy) == (by - cy) * (ax - cx) + (cx - bx) * (ay
        - cy)) by (nonlinear_arith);
    assert((by - cy) * (cx - cx) + (cx - bx) * (cy - cy) == 0) by (nonlinear_arith);
    assert((cy - ay) * (cx - cx) + (ax - cx) * (cy - cy) == 0) by (nonlinear_arith);
}

} // verus!
