//! The light that falls on a triangle: the cosine of the angle between the
//! direction of the light and the normal of the triangle, as a lighting
//! level. Lengths are taken with a whole-number square root; the vectors
//! are shortened first, which keeps their directions, so that the squares
//! of their lengths can be multiplied.

use vstd::prelude::*;
use crate::arith::{abs, div_floor, lemma_floor_div_bounds, lemma_mul_bounds};
use crate::geometry::Tri;
use crate::math::{det2, Vec3i};

verus! {

/// The size below which every coordinate of a shortened vector lies.
pub const SHORT: i64 = 0x10_0000;

/// A vector of whole numbers of any size.
pub type Wide = (int, int, int);

/// The whole-number square root of `n`: the greatest number whose square
/// is at most `n`.
pub open spec fn root(n: nat) -> nat
    decreases n,
{
    if n == 0 {
        0
    } else {
        let r = 2 * root(n / 4);
        if (r + 1) * (r + 1) <= n {
            r + 1
        } else {
            r
        }
    }
}

/// The square of the root is at most the number, and the square of the
/// next number is more.
pub proof fn lemma_root(n: nat)
    ensures
        root(n) * root(n) <= n < (root(n) + 1) * (root(n) + 1),
    decreases n,
{
    if n != 0 {
        lemma_root(n / 4);
        let q = root(n / 4);
        let r = 2 * q;
        let found = root(n);
        assert(r * r == 4 * (q * q)) by (nonlinear_arith)
            requires
                r == 2 * q,
        ;
        assert((r + 2) * (r + 2) == 4 * ((q + 1) * (q + 1))) by (nonlinear_arith)
            requires
                r == 2 * q,
        ;
        assert(4 * (n / 4) <= n < 4 * (n / 4) + 4);
        assert(r * r <= n);
        assert((r + 2) * (r + 2) > n);
        if (r + 1) * (r + 1) <= n {
            assert(found == r + 1);
            assert(found * found == (r + 1) * (r + 1)) by (nonlinear_arith)
                requires
                    found == r + 1,
            ;
            assert((found + 1) * (found + 1) == (r + 2) * (r + 2)) by (nonlinear_arith)
                requires
                    found == r + 1,
            ;
        } else {
            assert(found == r);
            assert(found * found == r * r) by (nonlinear_arith)
                requires
                    found == r,
            ;
            assert((found + 1) * (found + 1) == (r + 1) * (r + 1)) by (nonlinear_arith)
                requires
                    found == r,
            ;
        }
    } else {
        assert(root(0) == 0);
        assert(root(0) * root(0) == 0) by (nonlinear_arith)
            requires
                root(0) == 0,
        ;
        assert((root(0) + 1) * (root(0) + 1) == 1) by (nonlinear_arith)
            requires
                root(0) == 0,
        ;
    }
}

/// There is one number only whose square is at most `n` while the square
/// of the next is more.
pub proof fn lemma_root_unique(n: nat, r: nat)
    requires
        r * r <= n < (r + 1) * (r + 1),
    ensures
        r == root(n),
{
    lemma_root(n);
    let s = root(n);
    if r < s {
        assert((r + 1) * (r + 1) <= s * s) by (nonlinear_arith)
            requires
                r + 1 <= s,
        ;
    }
    if s < r {
        assert((s + 1) * (s + 1) <= r * r) by (nonlinear_arith)
            requires
                s + 1 <= r,
        ;
    }
}

/// The whole-number square root of `n`.
pub fn isqrt(n: u128) -> (r: u64)
    requires
        n < 0x4000_0000_0000_0000_0000_0000_0000_0000,
    ensures
        r == root(n as nat),
        r * r <= n < (r + 1) * (r + 1),
{
    // Bisection between a number whose square is at most `n` and one whose
    // square is more.
    let mut low: u128 = 0;
    let mut high: u128 = 0x8000_0000_0000_0000;
    assert(high * high == 0x4000_0000_0000_0000_0000_0000_0000_0000) by (nonlinear_arith)
        requires
            high == 0x8000_0000_0000_0000,
    ;
    while high - low > 1
        invariant
            low < high <= 0x8000_0000_0000_0000,
            low * low <= n < high * high,
        decreases high - low,
    {
        let middle: u128 = low + (high - low) / 2;
        assert(middle * middle <= 0x8000_0000_0000_0000 * 0x8000_0000_0000_0000)
            by (nonlinear_arith)
            requires
                0 <= middle <= 0x8000_0000_0000_0000,
        ;
        if middle * middle <= n {
            low = middle;
        } else {
            high = middle;
        }
    }
    proof {
        lemma_root_unique(n as nat, low as nat);
    }
    low as u64
}

/// The vector halved, each coordinate rounded down, until every
/// coordinate is smaller than `SHORT`: a vector of nearly the same
/// direction.
pub open spec fn shortened(v: Wide) -> Wide
    decreases abs(v.0) + abs(v.1) + abs(v.2),
{
    if abs(v.0) < SHORT && abs(v.1) < SHORT && abs(v.2) < SHORT {
        v
    } else {
        shortened((v.0 / 2, v.1 / 2, v.2 / 2))
    }
}

/// The vector `v`, shortened.
fn shorten(x: i64, y: i64, z: i64) -> (r: (i64, i64, i64))
    ensures
        (r.0 as int, r.1 as int, r.2 as int) == shortened((x as int, y as int, z as int)),
        -SHORT < r.0 < SHORT,
        -SHORT < r.1 < SHORT,
        -SHORT < r.2 < SHORT,
{
    let mut x = x;
    let mut y = y;
    let mut z = z;
    let ghost first = (x as int, y as int, z as int);
    while !(within(x) && within(y) && within(z))
        invariant
            shortened(first) == shortened((x as int, y as int, z as int)),
        decreases abs(x as int) + abs(y as int) + abs(z as int),
    {
        x = div_floor(x as i128, 2) as i64;
        y = div_floor(y as i128, 2) as i64;
        z = div_floor(z as i128, 2) as i64;
    }
    (x, y, z)
}

/// The coordinate is smaller than `SHORT`.
fn within(a: i64) -> (b: bool)
    ensures
        b == (abs(a as int) < SHORT),
{
    -SHORT < a && a < SHORT
}

/// The lighting level of a surface with the normal `n` under light from
/// the direction `l`: 255 times the cosine of the angle between the two,
/// rounded down, and nothing where the surface is turned away from the
/// light or a vector has no length.
pub open spec fn cosine_level(l: Wide, n: Wide) -> u8 {
    let d = l.0 * n.0 + l.1 * n.1 + l.2 * n.2;
    let ll = l.0 * l.0 + l.1 * l.1 + l.2 * l.2;
    let nn = n.0 * n.0 + n.1 * n.1 + n.2 * n.2;
    if d <= 0 || ll * nn <= 0 {
        0
    } else if (255 * d) / (root((ll * nn) as nat) as int) >= 255 {
        255
    } else {
        ((255 * d) / (root((ll * nn) as nat) as int)) as u8
    }
}

/// The normal that the lighting of a triangle is taken from: the cross
/// product of the shortened edges `a - b` and `a - c`.
pub open spec fn light_normal(t: Tri) -> Wide {
    let p = shortened((t.a.pos.x - t.b.pos.x, t.a.pos.y - t.b.pos.y, t.a.pos.z - t.b.pos.z));
    let q = shortened((t.a.pos.x - t.c.pos.x, t.a.pos.y - t.c.pos.y, t.a.pos.z - t.c.pos.z));
    (det2(p.1, p.2, q.1, q.2), det2(p.2, p.0, q.2, q.0), det2(p.0, p.1, q.0, q.1))
}

/// The lighting level of the triangle `t` under light from the direction
/// `light`.
pub open spec fn light_level(light: Vec3i, t: Tri) -> u8 {
    cosine_level(shortened((light.x as int, light.y as int, light.z as int)), light_normal(t))
}

/// The determinant of two short vectors.
fn det_short(ax: i64, ay: i64, bx: i64, by: i64) -> (d: i64)
    requires
        -SHORT < ax < SHORT,
        -SHORT < ay < SHORT,
        -SHORT < bx < SHORT,
        -SHORT < by < SHORT,
    ensures
        d == det2(ax as int, ay as int, bx as int, by as int),
        -2 * SHORT * SHORT <= d <= 2 * SHORT * SHORT,
{
    proof {
        lemma_mul_bounds(ax as int, by as int, SHORT as int, SHORT as int);
        lemma_mul_bounds(ay as int, bx as int, SHORT as int, SHORT as int);
    }
    ax * by - ay * bx
}

/// The lighting level of the triangle `t` under light from the direction
/// `light`: 255 times the inner product of the two directions, each of
/// length one.
pub fn lambert(light: &Vec3i, t: &Tri) -> (level: u8)
    ensures
        level == light_level(*light, *t),
{
    let (lx, ly, lz) = shorten(light.x as i64, light.y as i64, light.z as i64);
    let (px, py, pz) = shorten(
        t.a.pos.x as i64 - t.b.pos.x as i64,
        t.a.pos.y as i64 - t.b.pos.y as i64,
        t.a.pos.z as i64 - t.b.pos.z as i64,
    );
    let (qx, qy, qz) = shorten(
        t.a.pos.x as i64 - t.c.pos.x as i64,
        t.a.pos.y as i64 - t.c.pos.y as i64,
        t.a.pos.z as i64 - t.c.pos.z as i64,
    );
    let nx: i64 = det_short(py, pz, qy, qz);
    let ny: i64 = det_short(pz, px, qz, qx);
    let nz: i64 = det_short(px, py, qx, qy);
    proof {
        lemma_mul_bounds(lx as int, nx as int, 0x10_0000, 0x200_0000_0000);
        lemma_mul_bounds(ly as int, ny as int, 0x10_0000, 0x200_0000_0000);
        lemma_mul_bounds(lz as int, nz as int, 0x10_0000, 0x200_0000_0000);
        lemma_mul_bounds(lx as int, lx as int, 0x10_0000, 0x10_0000);
        lemma_mul_bounds(ly as int, ly as int, 0x10_0000, 0x10_0000);
        lemma_mul_bounds(lz as int, lz as int, 0x10_0000, 0x10_0000);
        lemma_mul_bounds(nx as int, nx as int, 0x200_0000_0000, 0x200_0000_0000);
        lemma_mul_bounds(ny as int, ny as int, 0x200_0000_0000, 0x200_0000_0000);
        lemma_mul_bounds(nz as int, nz as int, 0x200_0000_0000, 0x200_0000_0000);
        assert(lx * lx >= 0 && ly * ly >= 0 && lz * lz >= 0) by (nonlinear_arith);
        assert(nx * nx >= 0 && ny * ny >= 0 && nz * nz >= 0) by (nonlinear_arith);
    }
    let d: i128 = (lx as i128) * (nx as i128) + (ly as i128) * (ny as i128) + (lz as i128) * (
    nz as i128);
    let ll: i128 = (lx as i128) * (lx as i128) + (ly as i128) * (ly as i128) + (lz as i128) * (
    lz as i128);
    let nn: i128 = (nx as i128) * (nx as i128) + (ny as i128) * (ny as i128) + (nz as i128) * (
    nz as i128);
    proof {
        lemma_mul_bounds(
            ll as int,
            nn as int,
            0x300_0000_0000,
            0xc_0000_0000_0000_0000_0000,
        );
        assert(ll * nn >= 0) by (nonlinear_arith)
            requires
                ll >= 0,
                nn >= 0,
        ;
    }
    if d <= 0 || ll * nn <= 0 {
        return 0;
    }
    let length: u64 = isqrt((ll * nn) as u128);
    proof {
        lemma_root((ll * nn) as nat);
        if length == 0 {
            assert((length + 1) * (length + 1) == 1) by (nonlinear_arith)
                requires
                    length == 0,
            ;
        }
        lemma_floor_div_bounds(255 * d, length as int);
    }
    let ratio: i128 = (255 * d) / (length as i128);
    if ratio >= 255 {
        255
    } else {
        ratio as u8
    }
}

} // verus!
