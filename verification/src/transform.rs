//! Vectors in fixed point: rotation, inner and cross product, scaling and
//! normalising. An angle enters as its sine and cosine, each a whole number
//! of `1 / TRIG_ONE`; a rotation about an axis is the standard rotation of
//! the plane across that axis, rounded down and held to the range of a
//! coordinate.

use vstd::prelude::*;
use crate::arith::{div_floor, floor_div, lemma_floor_div_bounds, lemma_mul_bounds};
use crate::geometry::{Tri, Vec3w, Vert};
use crate::light::{isqrt, lemma_root, root};
use crate::math::{det2, det_wide, held, hold, Int, Vec3i};

verus! {

/// The number that stands for one in a sine or a cosine.
pub const TRIG_ONE: Int = 0x4000_0000;

/// An angle as its sine and its cosine.
#[derive(Debug, Clone, Copy, PartialEq, Eq, Structural)]
pub struct Turn {
    pub sin: Int,
    pub cos: Int,
}

/// The angles of a rotation about the three axes.
#[derive(Debug, Clone, Copy, PartialEq, Eq, Structural)]
pub struct Turns {
    pub x: Turn,
    pub y: Turn,
    pub z: Turn,
}

/// The first coordinate of the point `(u, v)` of a plane after the turn
/// `t`: `u * cos - v * sin`, rounded down.
pub open spec fn turned_first(t: Turn, u: int, v: int) -> int {
    floor_div(u * t.cos - v * t.sin, TRIG_ONE as int)
}

/// The second coordinate of the point `(u, v)` of a plane after the turn
/// `t`: `u * sin + v * cos`, rounded down.
pub open spec fn turned_second(t: Turn, u: int, v: int) -> int {
    floor_div(u * t.sin + v * t.cos, TRIG_ONE as int)
}

impl Turn {
    pub fn cons(sin: Int, cos: Int) -> (t: Turn)
        ensures
            t == (Turn { sin, cos }),
    {
        Turn { sin, cos }
    }

    /// The angle zero.
    pub fn none() -> (t: Turn)
        ensures
            t == (Turn { sin: 0, cos: TRIG_ONE }),
    {
        Turn { sin: 0, cos: TRIG_ONE }
    }

    /// The turn the other way round.
    pub open spec fn back(self) -> Turn {
        Turn { sin: held(-self.sin), cos: self.cos }
    }

    /// The turn the other way round.
    pub fn reversed(&self) -> (t: Turn)
        ensures
            t == self.back(),
    {
        Turn {
            sin: if self.sin == Int::MIN {
                Int::MAX
            } else {
                -self.sin
            },
            cos: self.cos,
        }
    }

    /// Sine and cosine are those of an angle, as nearly as whole numbers
    /// can be: neither exceeds one, and their squares sum to one but for
    /// what rounding takes or adds.
    pub open spec fn unit(self) -> bool {
        &&& -TRIG_ONE <= self.sin <= TRIG_ONE
        &&& -TRIG_ONE <= self.cos <= TRIG_ONE
        &&& -2 * TRIG_ONE <= self.sin * self.sin + self.cos * self.cos - TRIG_ONE * TRIG_ONE <= 2
            * TRIG_ONE
    }
}

impl Turns {
    pub fn cons(x: Turn, y: Turn, z: Turn) -> (t: Turns)
        ensures
            t == (Turns { x, y, z }),
    {
        Turns { x, y, z }
    }

    /// No rotation at all.
    pub fn none() -> (t: Turns)
        ensures
            t.x == (Turn { sin: 0, cos: TRIG_ONE }),
            t.y == t.x,
            t.z == t.x,
    {
        Turns { x: Turn::none(), y: Turn::none(), z: Turn::none() }
    }

    /// The three turns the other way round.
    pub open spec fn back(self) -> Turns {
        Turns { x: self.x.back(), y: self.y.back(), z: self.z.back() }
    }

    /// The three turns the other way round.
    pub fn reversed(&self) -> (t: Turns)
        ensures
            t == self.back(),
    {
        Turns { x: self.x.reversed(), y: self.y.reversed(), z: self.z.reversed() }
    }
}

/// The point `p` turned about the x axis: y and z turn, x stays.
pub open spec fn about_x(p: Vec3i, t: Turn) -> Vec3i {
    Vec3i {
        x: p.x,
        y: held(turned_first(t, p.y as int, p.z as int)),
        z: held(turned_second(t, p.y as int, p.z as int)),
    }
}

/// The point `p` turned about the y axis: z and x turn, y stays.
pub open spec fn about_y(p: Vec3i, t: Turn) -> Vec3i {
    Vec3i {
        x: held(turned_second(t, p.z as int, p.x as int)),
        y: p.y,
        z: held(turned_first(t, p.z as int, p.x as int)),
    }
}

/// The point `p` turned about the z axis: x and y turn, z stays.
pub open spec fn about_z(p: Vec3i, t: Turn) -> Vec3i {
    Vec3i {
        x: held(turned_first(t, p.x as int, p.y as int)),
        y: held(turned_second(t, p.x as int, p.y as int)),
        z: p.z,
    }
}

/// The point `p` turned about z, then y, then x.
pub open spec fn about_zyx(p: Vec3i, t: Turns) -> Vec3i {
    about_x(about_y(about_z(p, t.z), t.y), t.x)
}

/// The point `p` turned about x, then y, then z.
pub open spec fn about_xyz(p: Vec3i, t: Turns) -> Vec3i {
    about_z(about_y(about_x(p, t.x), t.y), t.z)
}

/// The inner product of two vectors.
pub open spec fn dot(a: Vec3i, b: Vec3i) -> int {
    a.x * b.x + a.y * b.y + a.z * b.z
}

/// Both coordinates of a point of a plane after a turn.
fn turn_pair(t: Turn, u: Int, v: Int) -> (r: (Int, Int))
    ensures
        r.0 == held(turned_first(t, u as int, v as int)),
        r.1 == held(turned_second(t, u as int, v as int)),
{
    proof {
        lemma_mul_bounds(u as int, t.cos as int, 0x8000_0000, 0x8000_0000);
        lemma_mul_bounds(v as int, t.sin as int, 0x8000_0000, 0x8000_0000);
        lemma_mul_bounds(u as int, t.sin as int, 0x8000_0000, 0x8000_0000);
        lemma_mul_bounds(v as int, t.cos as int, 0x8000_0000, 0x8000_0000);
    }
    let first: i128 = div_floor(
        (u as i128) * (t.cos as i128) - (v as i128) * (t.sin as i128),
        TRIG_ONE as i128,
    );
    let second: i128 = div_floor(
        (u as i128) * (t.sin as i128) + (v as i128) * (t.cos as i128),
        TRIG_ONE as i128,
    );
    (hold(first), hold(second))
}

impl Vec3i {
    /// Turns the vector about the x axis.
    pub fn rotatex(&mut self, a: Turn)
        ensures
            *final(self) == about_x(*old(self), a),
    {
        let (y, z) = turn_pair(a, self.y, self.z);
        self.y = y;
        self.z = z;
    }

    /// Turns the vector about the y axis.
    pub fn rotatey(&mut self, b: Turn)
        ensures
            *final(self) == about_y(*old(self), b),
    {
        let (z, x) = turn_pair(b, self.z, self.x);
        self.x = x;
        self.z = z;
    }

    /// Turns the vector about the z axis.
    pub fn rotatez(&mut self, c: Turn)
        ensures
            *final(self) == about_z(*old(self), c),
    {
        let (x, y) = turn_pair(c, self.x, self.y);
        self.x = x;
        self.y = y;
    }

    /// Turns the vector about x, then y, then z.
    pub fn rotationmatxyz(&mut self, angles: Turns)
        ensures
            *final(self) == about_xyz(*old(self), angles),
    {
        self.rotatex(angles.x);
        self.rotatey(angles.y);
        self.rotatez(angles.z);
    }

    /// Turns the vector about z, then y, then x: the order of every
    /// transform of the renderer.
    pub fn rotationmatzyx(&mut self, angles: Turns)
        ensures
            *final(self) == about_zyx(*old(self), angles),
    {
        self.rotatez(angles.z);
        self.rotatey(angles.y);
        self.rotatex(angles.x);
    }

    /// Mirrors the vector at the plane across the x axis.
    pub fn reflex(&mut self)
        ensures
            *final(self) == (Vec3i { x: held(-old(self).x), ..*old(self) }),
    {
        self.x = hold(-(self.x as i128));
    }

    /// Mirrors the vector at the plane across the y axis.
    pub fn refley(&mut self)
        ensures
            *final(self) == (Vec3i { y: held(-old(self).y), ..*old(self) }),
    {
        self.y = hold(-(self.y as i128));
    }

    /// Mirrors the vector at the plane across the z axis.
    pub fn reflez(&mut self)
        ensures
            *final(self) == (Vec3i { z: held(-old(self).z), ..*old(self) }),
    {
        self.z = hold(-(self.z as i128));
    }

    /// The inner product with `other`.
    pub fn inner_prod(&self, other: &Vec3i) -> (d: i128)
        ensures
            d == dot(*self, *other),
    {
        proof {
            lemma_mul_bounds(self.x as int, other.x as int, 0x8000_0000, 0x8000_0000);
            lemma_mul_bounds(self.y as int, other.y as int, 0x8000_0000, 0x8000_0000);
            lemma_mul_bounds(self.z as int, other.z as int, 0x8000_0000, 0x8000_0000);
        }
        (self.x as i128) * (other.x as i128) + (self.y as i128) * (other.y as i128) + (
        self.z as i128) * (other.z as i128)
    }

    /// The sum with `other`, each coordinate held to its range.
    pub fn plus(&self, other: &Vec3i) -> (r: Vec3i)
        ensures
            r == held_sum(*self, *other),
    {
        Vec3i {
            x: hold(self.x as i128 + other.x as i128),
            y: hold(self.y as i128 + other.y as i128),
            z: hold(self.z as i128 + other.z as i128),
        }
    }

    /// The difference from `other`, each coordinate held to its range.
    pub fn minus(&self, other: &Vec3i) -> (r: Vec3i)
        ensures
            r == held_difference(*self, *other),
    {
        Vec3i {
            x: hold(self.x as i128 - other.x as i128),
            y: hold(self.y as i128 - other.y as i128),
            z: hold(self.z as i128 - other.z as i128),
        }
    }
}

/// The vector `v` scaled to the length `TRIG_ONE`: each coordinate times
/// `TRIG_ONE` over the whole-number length of `v`, rounded down.
pub open spec fn unit_of(v: Vec3i) -> Vec3i {
    let length = root(dot(v, v) as nat) as int;
    Vec3i {
        x: floor_div(v.x * TRIG_ONE, length) as Int,
        y: floor_div(v.y * TRIG_ONE, length) as Int,
        z: floor_div(v.z * TRIG_ONE, length) as Int,
    }
}

impl Vec3i {
    /// The cross product with `other`.
    pub fn cross(&self, other: &Vec3i) -> (n: Vec3w)
        ensures
            n.x == det2(self.y as int, self.z as int, other.y as int, other.z as int),
            n.y == det2(self.z as int, self.x as int, other.z as int, other.x as int),
            n.z == det2(self.x as int, self.y as int, other.x as int, other.y as int),
    {
        Vec3w {
            x: det_wide(self.y as i64, self.z as i64, other.y as i64, other.z as i64),
            y: det_wide(self.z as i64, self.x as i64, other.z as i64, other.x as i64),
            z: det_wide(self.x as i64, self.y as i64, other.x as i64, other.y as i64),
        }
    }

    /// The vector times `k`, each coordinate held to its range.
    pub fn times(&self, k: Int) -> (r: Vec3i)
        ensures
            r.x == held(self.x * k),
            r.y == held(self.y * k),
            r.z == held(self.z * k),
    {
        proof {
            lemma_mul_bounds(self.x as int, k as int, 0x8000_0000, 0x8000_0000);
            lemma_mul_bounds(self.y as int, k as int, 0x8000_0000, 0x8000_0000);
            lemma_mul_bounds(self.z as int, k as int, 0x8000_0000, 0x8000_0000);
        }
        Vec3i {
            x: hold((self.x as i128) * (k as i128)),
            y: hold((self.y as i128) * (k as i128)),
            z: hold((self.z as i128) * (k as i128)),
        }
    }

    /// The vector over `k`, each coordinate rounded down and held to its
    /// range.
    pub fn over(&self, k: Int) -> (r: Vec3i)
        requires
            k != 0,
        ensures
            r.x == held(floor_div(self.x as int, k as int)),
            r.y == held(floor_div(self.y as int, k as int)),
            r.z == held(floor_div(self.z as int, k as int)),
    {
        if k > 0 {
            Vec3i {
                x: hold(div_floor(self.x as i128, k as i128)),
                y: hold(div_floor(self.y as i128, k as i128)),
                z: hold(div_floor(self.z as i128, k as i128)),
            }
        } else {
            Vec3i {
                x: hold(div_floor(-(self.x as i128), -(k as i128))),
                y: hold(div_floor(-(self.y as i128), -(k as i128))),
                z: hold(div_floor(-(self.z as i128), -(k as i128))),
            }
        }
    }

    /// Scales the vector to the length `TRIG_ONE`, which stands for one,
    /// and returns `true`; a vector of no length has no direction, is left
    /// as it is, and `false` is returned.
    pub fn normalize(&mut self) -> (done: bool)
        ensures
            done == (dot(*old(self), *old(self)) != 0),
            done ==> *final(self) == unit_of(*old(self)),
            done ==> -TRIG_ONE <= final(self).x <= TRIG_ONE && -TRIG_ONE <= final(self).y
                <= TRIG_ONE && -TRIG_ONE <= final(self).z <= TRIG_ONE,
            !done ==> *final(self) == *old(self),
    {
        let square: i128 = self.inner_prod(self);
        proof {
            lemma_mul_bounds(self.x as int, self.x as int, 0x8000_0000, 0x8000_0000);
            lemma_mul_bounds(self.y as int, self.y as int, 0x8000_0000, 0x8000_0000);
            lemma_mul_bounds(self.z as int, self.z as int, 0x8000_0000, 0x8000_0000);
            assert(self.x * self.x >= 0 && self.y * self.y >= 0 && self.z * self.z >= 0)
                by (nonlinear_arith);
        }
        if square == 0 {
            return false;
        }
        let length: u64 = isqrt(square as u128);
        proof {
            lemma_root(square as nat);
            if length == 0 {
                assert((length + 1) * (length + 1) == 1) by (nonlinear_arith)
                    requires
                        length == 0,
                ;
            }
            lemma_within_length(self.x as int, self.y as int, self.z as int, length as int);
            lemma_within_length(self.y as int, self.z as int, self.x as int, length as int);
            lemma_within_length(self.z as int, self.x as int, self.y as int, length as int);
        }
        let x = scale_to_one(self.x, length);
        let y = scale_to_one(self.y, length);
        let z = scale_to_one(self.z, length);
        self.x = x;
        self.y = y;
        self.z = z;
        true
    }
}

/// No coordinate of a vector is longer than the vector.
pub proof fn lemma_within_length(x: int, y: int, z: int, length: int)
    requires
        0 <= length,
        x * x + y * y + z * z < (length + 1) * (length + 1),
    ensures
        -length <= x <= length,
{
    assert(y * y >= 0 && z * z >= 0) by (nonlinear_arith);
    if x > length {
        assert(x * x >= (length + 1) * (length + 1)) by (nonlinear_arith)
            requires
                x >= length + 1,
                length >= 0,
        ;
    }
    if x < -length {
        assert(x * x >= (length + 1) * (length + 1)) by (nonlinear_arith)
            requires
                -x >= length + 1,
                length >= 0,
        ;
    }
}

/// A coordinate times `TRIG_ONE` over the length of its vector.
fn scale_to_one(c: Int, length: u64) -> (r: Int)
    requires
        0 < length,
        -length <= c <= length,
    ensures
        r == floor_div(c * TRIG_ONE, length as int),
        -TRIG_ONE <= r <= TRIG_ONE,
{
    proof {
        lemma_mul_bounds(c as int, TRIG_ONE as int, 0x8000_0000, 0x4000_0000);
        lemma_floor_div_bounds(c * TRIG_ONE, length as int);
        let q = floor_div(c * TRIG_ONE, length as int);
        assert(c * TRIG_ONE <= length * TRIG_ONE) by (nonlinear_arith)
            requires
                c <= length,
        ;
        assert(c * TRIG_ONE >= -(length * TRIG_ONE)) by (nonlinear_arith)
            requires
                c >= -length,
        ;
        if q > TRIG_ONE {
            assert(q * length >= (TRIG_ONE + 1) * length) by (nonlinear_arith)
                requires
                    q >= TRIG_ONE + 1,
                    length > 0,
            ;
            assert((TRIG_ONE + 1) * length == length * TRIG_ONE + length) by (nonlinear_arith);
        }
        if q < -TRIG_ONE {
            assert(q * length + length <= (-TRIG_ONE) * length) by (nonlinear_arith)
                requires
                    q + 1 <= -TRIG_ONE,
                    length > 0,
            ;
            assert((-TRIG_ONE) * length == -(length * TRIG_ONE)) by (nonlinear_arith);
        }
    }
    div_floor((c as i128) * (TRIG_ONE as i128), length as i128) as Int
}

/// The sum of two vectors, each coordinate held to its range.
pub open spec fn held_sum(a: Vec3i, b: Vec3i) -> Vec3i {
    Vec3i { x: held(a.x + b.x), y: held(a.y + b.y), z: held(a.z + b.z) }
}

/// The difference of two vectors, each coordinate held to its range.
pub open spec fn held_difference(a: Vec3i, b: Vec3i) -> Vec3i {
    Vec3i { x: held(a.x - b.x), y: held(a.y - b.y), z: held(a.z - b.z) }
}

impl Tri {
    /// The triangle with each corner's position replaced.
    pub open spec fn placed(self, a: Vec3i, b: Vec3i, c: Vec3i) -> Tri {
        Tri {
            a: Vert { pos: a, ..self.a },
            b: Vert { pos: b, ..self.b },
            c: Vert { pos: c, ..self.c },
        }
    }

    /// Turns every corner about the x axis.
    pub fn rotatex(&mut self, angle: Turn)
        ensures
            *final(self) == old(self).turned_x(angle),
    {
        self.a.pos.rotatex(angle);
        self.b.pos.rotatex(angle);
        self.c.pos.rotatex(angle);
    }

    /// Turns every corner about the y axis.
    pub fn rotatey(&mut self, angle: Turn)
        ensures
            *final(self) == old(self).turned_y(angle),
    {
        self.a.pos.rotatey(angle);
        self.b.pos.rotatey(angle);
        self.c.pos.rotatey(angle);
    }

    /// Turns every corner about the z axis.
    pub fn rotatez(&mut self, angle: Turn)
        ensures
            *final(self) == old(self).turned_z(angle),
    {
        self.a.pos.rotatez(angle);
        self.b.pos.rotatez(angle);
        self.c.pos.rotatez(angle);
    }

    /// Turns every corner about z, then y, then x.
    pub fn rotatezyx(&mut self, angles: Turns)
        ensures
            *final(self) == old(self).placed(
                about_zyx(old(self).a.pos, angles),
                about_zyx(old(self).b.pos, angles),
                about_zyx(old(self).c.pos, angles),
            ),
    {
        self.rotatez(angles.z);
        self.rotatey(angles.y);
        self.rotatex(angles.x);
    }
}

/// Turning a point of a plane by an angle and then back by the same angle
/// restores it within seven units, whatever rounding took: in a
/// coordinate that counts 256 units to the unit of length, within three
/// hundredths of a unit of length.
pub proof fn lemma_turn_and_back(t: Turn, u: int, v: int)
    requires
        t.unit(),
        Int::MIN <= u <= Int::MAX,
        Int::MIN <= v <= Int::MAX,
    ensures
        -7 <= turned_first(t.back(), turned_first(t, u, v), turned_second(t, u, v)) - u <= 7,
        -7 <= turned_second(t.back(), turned_first(t, u, v), turned_second(t, u, v)) - v <= 7,
{
    let k = TRIG_ONE as int;
    let c = t.cos as int;
    let s = t.sin as int;
    let u1 = turned_first(t, u, v);
    let v1 = turned_second(t, u, v);
    let u2 = turned_first(t.back(), u1, v1);
    let v2 = turned_second(t.back(), u1, v1);
    assert(t.back().sin == -s);
    assert(t.back().cos == c);
    lemma_floor_div_bounds(u * c - v * s, k);
    lemma_floor_div_bounds(u * s + v * c, k);
    lemma_floor_div_bounds(u1 * c - v1 * (-s), k);
    lemma_floor_div_bounds(u1 * (-s) + v1 * c, k);
    // What rounding took in the first turn.
    let e1 = (u * c - v * s) - u1 * k;
    let e2 = (u * s + v * c) - v1 * k;
    assert(0 <= e1 < k && 0 <= e2 < k);
    // What rounding took in the second turn.
    let e3 = (u1 * c - v1 * (-s)) - u2 * k;
    let e4 = (u1 * (-s) + v1 * c) - v2 * k;
    assert(0 <= e3 < k && 0 <= e4 < k);
    let n = s * s + c * c;
    // k * (u1 * c + v1 * s) == u * n - (e1 * c + e2 * s)
    assert(k * (u1 * c) == (u * c - v * s - e1) * c) by (nonlinear_arith)
        requires
            u1 * k == u * c - v * s - e1,
    ;
    assert(k * (v1 * s) == (u * s + v * c - e2) * s) by (nonlinear_arith)
        requires
            v1 * k == u * s + v * c - e2,
    ;
    assert((u * c - v * s - e1) * c + (u * s + v * c - e2) * s == u * (s * s + c * c) - (e1 * c
        + e2 * s)) by (nonlinear_arith);
    assert(v1 * (-s) == -(v1 * s)) by (nonlinear_arith);
    assert(u1 * (-s) == -(u1 * s)) by (nonlinear_arith);
    assert(k * (u1 * c + v1 * s) == u * n - (e1 * c + e2 * s));
    // k * (v1 * c - u1 * s) == v * n - (e2 * c - e1 * s)
    assert(k * (v1 * c) == (u * s + v * c - e2) * c) by (nonlinear_arith)
        requires
            v1 * k == u * s + v * c - e2,
    ;
    assert(k * (u1 * s) == (u * c - v * s - e1) * s) by (nonlinear_arith)
        requires
            u1 * k == u * c - v * s - e1,
    ;
    assert((u * s + v * c - e2) * c - (u * c - v * s - e1) * s == v * (s * s + c * c) - (e2 * c
        - e1 * s)) by (nonlinear_arith);
    assert(k * (v1 * c - u1 * s) == v * n - (e2 * c - e1 * s));
    // The sizes of what rounding took, times sine and cosine.
    lemma_mul_bounds(e1, c, k, k);
    lemma_mul_bounds(e2, s, k, k);
    lemma_mul_bounds(e2, c, k, k);
    lemma_mul_bounds(e1, s, k, k);
    // The sum of the squares is one but for 2 * k.
    let d = n - k * k;
    assert(-2 * k <= d <= 2 * k);
    lemma_mul_bounds(u, d, 0x8000_0000, 2 * k);
    lemma_mul_bounds(v, d, 0x8000_0000, 2 * k);
    assert(u * n == u * (k * k) + u * d) by (nonlinear_arith)
        requires
            n == k * k + d,
    ;
    assert(v * n == v * (k * k) + v * d) by (nonlinear_arith)
        requires
            n == k * k + d,
    ;
    // Together: k * k * (u2 - u) lies within 7 * k * k.
    assert(k * (u2 * k) == k * (u1 * c + v1 * s) - k * e3) by (nonlinear_arith)
        requires
            u2 * k == u1 * c + v1 * s - e3,
    ;
    assert(k * (v2 * k) == k * (v1 * c - u1 * s) - k * e4) by (nonlinear_arith)
        requires
            v2 * k == v1 * c - u1 * s - e4,
    ;
    assert(k * e3 < k * k && k * e3 >= 0) by (nonlinear_arith)
        requires
            0 <= e3 < k,
            k > 0,
    ;
    assert(k * e4 < k * k && k * e4 >= 0) by (nonlinear_arith)
        requires
            0 <= e4 < k,
            k > 0,
    ;
    assert(k * (u2 * k) == (u2 - u) * (k * k) + u * (k * k)) by (nonlinear_arith);
    assert(k * (v2 * k) == (v2 - v) * (k * k) + v * (k * k)) by (nonlinear_arith);
    assert(0x8000_0000 * (2 * k) == 4 * (k * k));
    assert(k * k == 0x1000_0000_0000_0000);
    let du = u2 - u;
    let dv = v2 - v;
    assert(-7 * (k * k) <= du * (k * k) <= 7 * (k * k));
    assert(-7 * (k * k) <= dv * (k * k) <= 7 * (k * k));
    assert(-7 <= du <= 7) by (nonlinear_arith)
        requires
            -7 * (k * k) <= du * (k * k) <= 7 * (k * k),
            k * k > 0,
    ;
    assert(-7 <= dv <= 7) by (nonlinear_arith)
        requires
            -7 * (k * k) <= dv * (k * k) <= 7 * (k * k),
            k * k > 0,
    ;
}

/// The turn `t` of the point `(u, v)` of a plane stays within the range of
/// a coordinate: nothing of it is held back.
pub open spec fn unheld(t: Turn, u: int, v: int) -> bool {
    &&& Int::MIN <= turned_first(t, u, v) <= Int::MAX
    &&& Int::MIN <= turned_second(t, u, v) <= Int::MAX
}

/// The two points lie within seven units of each other on every axis.
pub open spec fn near(p: Vec3i, q: Vec3i) -> bool {
    &&& -7 <= p.x - q.x <= 7
    &&& -7 <= p.y - q.y <= 7
    &&& -7 <= p.z - q.z <= 7
}

/// Turning a vector about the z axis and back restores it within seven
/// units and keeps its z, wherever the first turn stays within the range
/// of a coordinate.
pub proof fn lemma_about_z_and_back(p: Vec3i, t: Turn)
    requires
        t.unit(),
        unheld(t, p.x as int, p.y as int),
    ensures
        near(about_z(about_z(p, t), t.back()), p),
        about_z(about_z(p, t), t.back()).z == p.z,
{
    lemma_turn_and_back(t, p.x as int, p.y as int);
}

/// Turning a vector about the x axis and back restores it within seven
/// units and keeps its x, wherever the first turn stays within the range
/// of a coordinate.
pub proof fn lemma_about_x_and_back(p: Vec3i, t: Turn)
    requires
        t.unit(),
        unheld(t, p.y as int, p.z as int),
    ensures
        near(about_x(about_x(p, t), t.back()), p),
        about_x(about_x(p, t), t.back()).x == p.x,
{
    lemma_turn_and_back(t, p.y as int, p.z as int);
}

/// Turning a vector about the y axis and back restores it within seven
/// units and keeps its y, wherever the first turn stays within the range
/// of a coordinate.
pub proof fn lemma_about_y_and_back(p: Vec3i, t: Turn)
    requires
        t.unit(),
        unheld(t, p.z as int, p.x as int),
    ensures
        near(about_y(about_y(p, t), t.back()), p),
        about_y(about_y(p, t), t.back()).y == p.y,
{
    lemma_turn_and_back(t, p.z as int, p.x as int);
}

impl Tri {
    /// The triangle turned about the x axis.
    pub open spec fn turned_x(self, t: Turn) -> Tri {
        self.placed(about_x(self.a.pos, t), about_x(self.b.pos, t), about_x(self.c.pos, t))
    }

    /// The triangle turned about the y axis.
    pub open spec fn turned_y(self, t: Turn) -> Tri {
        self.placed(about_y(self.a.pos, t), about_y(self.b.pos, t), about_y(self.c.pos, t))
    }

    /// The triangle turned about the z axis.
    pub open spec fn turned_z(self, t: Turn) -> Tri {
        self.placed(about_z(self.a.pos, t), about_z(self.b.pos, t), about_z(self.c.pos, t))
    }

    /// The corners of the two triangles lie within seven units of each
    /// other, and have the same colours and texture coordinates.
    pub open spec fn near(self, other: Tri) -> bool {
        &&& near(self.a.pos, other.a.pos) && self.a.color == other.a.color && self.a.texpos
            == other.a.texpos
        &&& near(self.b.pos, other.b.pos) && self.b.color == other.b.color && self.b.texpos
            == other.b.texpos
        &&& near(self.c.pos, other.c.pos) && self.c.color == other.c.color && self.c.texpos
            == other.c.texpos
    }
}

/// Turning a triangle about the x axis and back restores every corner
/// within seven units, keeps every x exactly and changes no colour and no
/// texture coordinate, wherever the first turn keeps every corner within
/// the range of a coordinate.
pub proof fn lemma_tri_about_x_and_back(tri: Tri, t: Turn)
    requires
        t.unit(),
        unheld(t, tri.a.pos.y as int, tri.a.pos.z as int),
        unheld(t, tri.b.pos.y as int, tri.b.pos.z as int),
        unheld(t, tri.c.pos.y as int, tri.c.pos.z as int),
    ensures
        tri.turned_x(t).turned_x(t.back()).near(tri),
        tri.turned_x(t).turned_x(t.back()).a.pos.x == tri.a.pos.x,
        tri.turned_x(t).turned_x(t.back()).b.pos.x == tri.b.pos.x,
        tri.turned_x(t).turned_x(t.back()).c.pos.x == tri.c.pos.x,
{
    lemma_about_x_and_back(tri.a.pos, t);
    lemma_about_x_and_back(tri.b.pos, t);
    lemma_about_x_and_back(tri.c.pos, t);
}

/// Turning a triangle about the y axis and back restores every corner
/// within seven units, keeps every y exactly and changes no colour and no
/// texture coordinate, wherever the first turn keeps every corner within
/// the range of a coordinate.
pub proof fn lemma_tri_about_y_and_back(tri: Tri, t: Turn)
    requires
        t.unit(),
        unheld(t, tri.a.pos.z as int, tri.a.pos.x as int),
        unheld(t, tri.b.pos.z as int, tri.b.pos.x as int),
        unheld(t, tri.c.pos.z as int, tri.c.pos.x as int),
    ensures
        tri.turned_y(t).turned_y(t.back()).near(tri),
        tri.turned_y(t).turned_y(t.back()).a.pos.y == tri.a.pos.y,
        tri.turned_y(t).turned_y(t.back()).b.pos.y == tri.b.pos.y,
        tri.turned_y(t).turned_y(t.back()).c.pos.y == tri.c.pos.y,
{
    lemma_about_y_and_back(tri.a.pos, t);
    lemma_about_y_and_back(tri.b.pos, t);
    lemma_about_y_and_back(tri.c.pos, t);
}

/// Turning a triangle about the z axis and back restores every corner
/// within seven units, keeps every z exactly and changes no colour and no
/// texture coordinate, wherever the first turn keeps every corner within
/// the range of a coordinate.
pub proof fn lemma_tri_about_z_and_back(tri: Tri, t: Turn)
    requires
        t.unit(),
        unheld(t, tri.a.pos.x as int, tri.a.pos.y as int),
        unheld(t, tri.b.pos.x as int, tri.b.pos.y as int),
        unheld(t, tri.c.pos.x as int, tri.c.pos.y as int),
    ensures
        tri.turned_z(t).turned_z(t.back()).near(tri),
        tri.turned_z(t).turned_z(t.back()).a.pos.z == tri.a.pos.z,
        tri.turned_z(t).turned_z(t.back()).b.pos.z == tri.b.pos.z,
        tri.turned_z(t).turned_z(t.back()).c.pos.z == tri.c.pos.z,
{
    lemma_about_z_and_back(tri.a.pos, t);
    lemma_about_z_and_back(tri.b.pos, t);
    lemma_about_z_and_back(tri.c.pos, t);
}

} // verus!
