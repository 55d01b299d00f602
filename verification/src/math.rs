//! Integer vectors of the pixel grid and of fixed-point space.

use vstd::prelude::*;
use vstd::std_specs::ops::{AddSpecImpl, SubSpecImpl};
use crate::arith::lemma_mul_bounds;

verus! {

/// The integer type of every coordinate.
pub type Int = i32;

/// A point or a displacement of the integer plane.
#[derive(Debug, Clone, Copy, PartialEq, Eq, Structural)]
pub struct Vec2i {
    pub x: Int,
    pub y: Int,
}

/// A pixel position, counted from the origin of a buffer.
#[derive(Debug, Clone, Copy, PartialEq, Eq, Structural)]
pub struct Vec2u {
    pub x: usize,
    pub y: usize,
}

/// A point or a displacement of integer space.
#[derive(Debug, Clone, Copy, PartialEq, Eq, Structural)]
pub struct Vec3i {
    pub x: Int,
    pub y: Int,
    pub z: Int,
}

/// The sum of two `Int`s as the machine wraps it: the sum itself where it
/// fits, and `2^32` more or less where it does not.
pub open spec fn wrapping_sum(a: Int, b: Int) -> Int {
    if a + b > Int::MAX {
        (a + b - 0x1_0000_0000) as Int
    } else if a + b < Int::MIN {
        (a + b + 0x1_0000_0000) as Int
    } else {
        (a + b) as Int
    }
}

/// A value held to the range of a coordinate: the value itself where it
/// fits, and the nearest end of the range where it does not.
pub open spec fn held(a: int) -> Int {
    if a > Int::MAX {
        Int::MAX
    } else if a < Int::MIN {
        Int::MIN
    } else {
        a as Int
    }
}

/// A value held to the range of a coordinate.
pub fn hold(a: i128) -> (r: Int)
    ensures
        r == held(a as int),
{
    if a > Int::MAX as i128 {
        Int::MAX
    } else if a < Int::MIN as i128 {
        Int::MIN
    } else {
        a as Int
    }
}

/// The determinant of the two plane vectors `(ax, ay)` and `(bx, by)`:
/// twice the signed area of the triangle that they span.
pub open spec fn det2(ax: int, ay: int, bx: int, by: int) -> int {
    ax * by - ay * bx
}

/// The largest size of a difference of two coordinates.
pub const SPAN: i64 = 0xffff_ffff;

/// The determinant `ax * by - ay * bx` of two vectors of differences.
pub fn det_wide(ax: i64, ay: i64, bx: i64, by: i64) -> (d: i128)
    requires
        -SPAN <= ax <= SPAN,
        -SPAN <= ay <= SPAN,
        -SPAN <= bx <= SPAN,
        -SPAN <= by <= SPAN,
    ensures
        d == det2(ax as int, ay as int, bx as int, by as int),
        -2 * SPAN * SPAN <= d <= 2 * SPAN * SPAN,
{
    proof {
        lemma_mul_bounds(ax as int, by as int, SPAN as int, SPAN as int);
        lemma_mul_bounds(ay as int, bx as int, SPAN as int, SPAN as int);
    }
    (ax as i128) * (by as i128) - (ay as i128) * (bx as i128)
}

impl Vec2i {
    pub fn cons(x: Int, y: Int) -> (v: Vec2i)
        ensures
            v == (Vec2i { x, y }),
    {
        Vec2i { x, y }
    }

    /// Reinterprets a pixel position as a signed vector. A component beyond
    /// `Int::MAX` keeps its low 32 bits, as the cast does.
    pub fn fromvec2u(vec: Vec2u) -> (v: Vec2i)
        ensures
            v.x == vec.x as Int,
            v.y == vec.y as Int,
            vec.x <= Int::MAX ==> v.x == vec.x,
            vec.y <= Int::MAX ==> v.y == vec.y,
    {
        Vec2i::cons(
            #[verifier::truncate]
            (vec.x as Int),
            #[verifier::truncate]
            (vec.y as Int),
        )
    }

    /// The determinant of `self` and `other`, wide enough never to overflow.
    pub fn det(&self, other: &Self) -> (d: i64)
        ensures
            d == det2(self.x as int, self.y as int, other.x as int, other.y as int),
    {
        proof {
            lemma_mul_bounds(self.x as int, other.y as int, 0x8000_0000, 0x8000_0000);
            lemma_mul_bounds(self.y as int, other.x as int, 0x8000_0000, 0x8000_0000);
            lemma_det_fits(self.x as int, self.y as int, other.x as int, other.y as int);
        }
        (self.x as i64) * (other.y as i64) - (self.y as i64) * (other.x as i64)
    }
}

/// The determinant of two vectors with `Int` components fits in an `i64`.
pub proof fn lemma_det_fits(ax: int, ay: int, bx: int, by: int)
    requires
        Int::MIN <= ax <= Int::MAX,
        Int::MIN <= ay <= Int::MAX,
        Int::MIN <= bx <= Int::MAX,
        Int::MIN <= by <= Int::MAX,
    ensures
        i64::MIN <= det2(ax, ay, bx, by) <= i64::MAX,
{
    assert(ax * by <= 0x4000_0000_0000_0000) by (nonlinear_arith)
        requires
            -0x8000_0000 <= ax <= 0x7fff_ffff,
            -0x8000_0000 <= by <= 0x7fff_ffff,
    ;
    assert(ax * by >= -0x3fff_ffff_8000_0000) by (nonlinear_arith)
        requires
            -0x8000_0000 <= ax <= 0x7fff_ffff,
            -0x8000_0000 <= by <= 0x7fff_ffff,
    ;
    assert(ay * bx <= 0x4000_0000_0000_0000) by (nonlinear_arith)
        requires
            -0x8000_0000 <= ay <= 0x7fff_ffff,
            -0x8000_0000 <= bx <= 0x7fff_ffff,
    ;
    assert(ay * bx >= -0x3fff_ffff_8000_0000) by (nonlinear_arith)
        requires
            -0x8000_0000 <= ay <= 0x7fff_ffff,
            -0x8000_0000 <= bx <= 0x7fff_ffff,
    ;
}

impl core::ops::Add for Vec2i {
    type Output = Vec2i;

    fn add(self, other: Vec2i) -> (r: Vec2i) {
        Vec2i::cons(self.x + other.x, self.y + other.y)
    }
}

impl AddSpecImpl for Vec2i {
    open spec fn obeys_add_spec() -> bool {
        true
    }

    open spec fn add_req(self, other: Vec2i) -> bool {
        &&& Int::MIN <= self.x + other.x <= Int::MAX
        &&& Int::MIN <= self.y + other.y <= Int::MAX
    }

    open spec fn add_spec(self, other: Vec2i) -> Vec2i {
        Vec2i { x: (self.x + other.x) as Int, y: (self.y + other.y) as Int }
    }
}

impl core::ops::Sub for Vec2i {
    type Output = Vec2i;

    fn sub(self, other: Vec2i) -> (r: Vec2i) {
        Vec2i::cons(self.x - other.x, self.y - other.y)
    }
}

impl SubSpecImpl for Vec2i {
    open spec fn obeys_sub_spec() -> bool {
        true
    }

    open spec fn sub_req(self, other: Vec2i) -> bool {
        &&& Int::MIN <= self.x - other.x <= Int::MAX
        &&& Int::MIN <= self.y - other.y <= Int::MAX
    }

    open spec fn sub_spec(self, other: Vec2i) -> Vec2i {
        Vec2i { x: (self.x - other.x) as Int, y: (self.y - other.y) as Int }
    }
}

impl Vec2u {
    pub fn cons(x: usize, y: usize) -> (v: Vec2u)
        ensures
            v == (Vec2u { x, y }),
    {
        Vec2u { x, y }
    }
}

impl Vec3i {
    pub fn cons(x: Int, y: Int, z: Int) -> (v: Vec3i)
        ensures
            v == (Vec3i { x, y, z }),
    {
        Vec3i { x, y, z }
    }

    /// The determinant of the projections of `self` and `other` onto the
    /// xy plane, wide enough never to overflow.
    pub fn detxy(&self, other: &Self) -> (d: i64)
        ensures
            d == det2(self.x as int, self.y as int, other.x as int, other.y as int),
    {
        proof {
            lemma_mul_bounds(self.x as int, other.y as int, 0x8000_0000, 0x8000_0000);
            lemma_mul_bounds(self.y as int, other.x as int, 0x8000_0000, 0x8000_0000);
            lemma_det_fits(self.x as int, self.y as int, other.x as int, other.y as int);
        }
        (self.x as i64) * (other.y as i64) - (self.y as i64) * (other.x as i64)
    }
}

impl core::ops::Add for Vec3i {
    type Output = Vec3i;

    fn add(self, other: Vec3i) -> (r: Vec3i) {
        Vec3i::cons(self.x + other.x, self.y + other.y, self.z + other.z)
    }
}

impl AddSpecImpl for Vec3i {
    open spec fn obeys_add_spec() -> bool {
        true
    }

    open spec fn add_req(self, other: Vec3i) -> bool {
        &&& Int::MIN <= self.x + other.x <= Int::MAX
        &&& Int::MIN <= self.y + other.y <= Int::MAX
        &&& Int::MIN <= self.z + other.z <= Int::MAX
    }

    open spec fn add_spec(self, other: Vec3i) -> Vec3i {
        Vec3i {
            x: (self.x + other.x) as Int,
            y: (self.y + other.y) as Int,
            z: (self.z + other.z) as Int,
        }
    }
}

impl core::ops::AddAssign for Vec3i {
    /// Adds `other` to `self` in place. A sum that leaves the range of
    /// `Int` wraps around.
    fn add_assign(&mut self, other: Vec3i)
        ensures
            final(self).x == wrapping_sum(old(self).x, other.x),
            final(self).y == wrapping_sum(old(self).y, other.y),
            final(self).z == wrapping_sum(old(self).z, other.z),
    {
        self.x = self.x.wrapping_add(other.x);
        self.y = self.y.wrapping_add(other.y);
        self.z = self.z.wrapping_add(other.z);
    }
}

impl core::ops::Sub for Vec3i {
    type Output = Vec3i;

    fn sub(self, other: Vec3i) -> (r: Vec3i) {
        Vec3i::cons(self.x - other.x, self.y - other.y, self.z - other.z)
    }
}

impl SubSpecImpl for Vec3i {
    open spec fn obeys_sub_spec() -> bool {
        true
    }

    open spec fn sub_req(self, other: Vec3i) -> bool {
        &&& Int::MIN <= self.x - other.x <= Int::MAX
        &&& Int::MIN <= self.y - other.y <= Int::MAX
        &&& Int::MIN <= self.z - other.z <= Int::MAX
    }

    open spec fn sub_spec(self, other: Vec3i) -> Vec3i {
        Vec3i {
            x: (self.x - other.x) as Int,
            y: (self.y - other.y) as Int,
            z: (self.z - other.z) as Int,
        }
    }
}

} // verus!
