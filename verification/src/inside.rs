//! Where the scan conversion puts its pixels: every covered pixel lies
//! within the rows of the triangle and, up to the half run by which an edge
//! walker may stand off its edge where it enters a row, inside the
//! triangle.

use vstd::prelude::*;
use crate::edge::Walk;
use crate::geometry::Tri;
use crate::math::Vec2i;
use crate::raster::{coverage, flat, rows, span};

verus! {

/// Along a row, the side function of a walk changes by the walk's vertical
/// extent per column.
proof fn lemma_side_along_row(w: Walk, x0: int, x: int, y: int)
    ensures
        w.side_of(x, y) == w.side_of(x0, y) - (w.target.y - w.start.y) * (x - x0),
{
    let big_x = w.target.x - w.start.x;
    let big_y = w.target.y - w.start.y;
    let sx = w.start.x as int;
    let sy = w.start.y as int;
    assert(big_x * (y - sy) - big_y * (x - sx) == big_x * (y - sy) - big_y * (x0 - sx) - big_y * (x
        - x0)) by (nonlinear_arith);
}

/// Every pixel between two walkers in lock-step lies on a row that both
/// walkers pass. It lies no farther than half the first walker's reach
/// beyond the first walker's line, and no farther than half the second
/// walker's reach, less one column, beyond the second walker's line.
pub proof fn lemma_rows_bounds(e1: Walk, e2: Walk, x: int, y: int)
    requires
        e1.wf(),
        e2.wf(),
        e1.current.y == e2.current.y,
        e1.step_y() == e2.step_y(),
        rows(e1, e2).contains((x, y)),
    ensures
        e1.step_y() == 1 ==> e1.current.y < y <= e1.target.y && y <= e2.target.y,
        e1.step_y() != 1 ==> e1.current.y > y >= e1.target.y && y >= e2.target.y,
        e1.step_y() == 1 ==> 2 * e1.side_of(x, y) <= e1.reach() && 2 * e2.side_of(x, y) >= -2
            * e2.dy() - e2.reach(),
        e1.step_y() != 1 ==> -2 * e1.side_of(x, y) <= e1.reach() && -2 * e2.side_of(x, y) >= -2
            * e2.dy() - e2.reach(),
    decreases e1.left(),
{
    e1.lemma_next_row();
    e2.lemma_next_row();
    e1.lemma_next_row_lean();
    e2.lemma_next_row_lean();
    match (e1.next_row(), e2.next_row()) {
        (Some(n1), Some(n2)) => {
            if span(n1.current, n2.current).contains((x, y)) {
                n1.lemma_side_is_lean();
                n2.lemma_side_is_lean();
                lemma_side_along_row(e1, n1.current.x as int, x, y);
                lemma_side_along_row(e2, n2.current.x as int, x, y);
                let d1 = -e1.dy();
                let d2 = -e2.dy();
                let big1 = e1.target.y - e1.start.y;
                let big2 = e2.target.y - e2.start.y;
                let run1 = x - n1.current.x;
                let run2 = x - n2.current.x;
                assert(n1.side_of(n1.current.x as int, y) == e1.side_of(n1.current.x as int, y));
                assert(n2.side_of(n2.current.x as int, y) == e2.side_of(n2.current.x as int, y));
                assert(n1.reach() == e1.reach() && n2.reach() == e2.reach());
                assert(n1.dy() == e1.dy() && n2.dy() == e2.dy());
                if e1.step_y() == 1 {
                    assert(big1 == d1 && big2 == d2);
                    assert(big1 * run1 >= 0) by (nonlinear_arith)
                        requires
                            big1 >= 0,
                            run1 >= 0,
                    ;
                    assert(big2 * run2 <= -big2) by (nonlinear_arith)
                        requires
                            big2 >= 0,
                            run2 <= -1,
                    ;
                } else {
                    assert(big1 == -d1 && big2 == -d2);
                    assert(big1 * run1 <= 0) by (nonlinear_arith)
                        requires
                            big1 <= 0,
                            run1 >= 0,
                    ;
                    assert(big2 * run2 >= -big2) by (nonlinear_arith)
                        requires
                            big2 <= 0,
                            run2 <= -1,
                    ;
                }
            } else {
                assert(rows(n1, n2).contains((x, y)));
                lemma_rows_bounds(n1, n2, x, y);
                assert(n1.side_of(x, y) == e1.side_of(x, y));
                assert(n2.side_of(x, y) == e2.side_of(x, y));
                assert(n1.reach() == e1.reach() && n2.reach() == e2.reach());
                assert(n1.dy() == e1.dy() && n2.dy() == e2.dy());
            }
        },
        _ => {},
    }
}

/// The denominator and the numerators of the weights, written in
/// coordinates that count from the corner `c`.
proof fn lemma_from_c(t: Tri, x: int, y: int)
    ensures
        ({
            let u = t.a.pos.x - t.c.pos.x;
            let v = t.a.pos.y - t.c.pos.y;
            let p = t.b.pos.x - t.c.pos.x;
            let q = t.b.pos.y - t.c.pos.y;
            let h = x - t.c.pos.x;
            let k = y - t.c.pos.y;
            &&& t.den() == q * u - p * v
            &&& t.weight_a(x, y) == q * h - p * k
            &&& t.weight_b(x, y) == u * k - v * h
        }),
{
    let u = t.a.pos.x - t.c.pos.x;
    let v = t.a.pos.y - t.c.pos.y;
    let p = t.b.pos.x - t.c.pos.x;
    let q = t.b.pos.y - t.c.pos.y;
    let h = x - t.c.pos.x;
    let k = y - t.c.pos.y;
    assert((-p) * v == -(p * v)) by (nonlinear_arith);
    assert((-p) * k == -(p * k)) by (nonlinear_arith);
    assert((-v) * h == -(v * h)) by (nonlinear_arith);
    assert(t.c.pos.x - t.b.pos.x == -p);
    assert(t.c.pos.y - t.a.pos.y == -v);
}

/// The product of two differences, multiplied out.
proof fn lemma_expand(a: int, b: int, c: int, d: int)
    ensures
        (a - b) * (c - d) == a * c - a * d - b * c + b * d,
{
    assert((a - b) * (c - d) == a * c - a * d - b * c + b * d) by (nonlinear_arith);
}

/// The numerators of the weights of a pixel are the side functions of the
/// edges' lines, whichever corner an edge is walked from.
proof fn lemma_weights_are_sides(t: Tri, x: int, y: int)
    ensures
        Walk::begin(flat(t.a), flat(t.c)).side_of(x, y) == -t.weight_b(x, y),
        Walk::begin(flat(t.c), flat(t.a)).side_of(x, y) == t.weight_b(x, y),
        Walk::begin(flat(t.a), flat(t.b)).side_of(x, y) == t.weight_c(x, y),
        Walk::begin(flat(t.c), flat(t.b)).side_of(x, y) == -t.weight_a(x, y),
{
    let u = t.a.pos.x - t.c.pos.x;
    let v = t.a.pos.y - t.c.pos.y;
    let p = t.b.pos.x - t.c.pos.x;
    let q = t.b.pos.y - t.c.pos.y;
    let h = x - t.c.pos.x;
    let k = y - t.c.pos.y;
    lemma_from_c(t, x, y);
    // From c to a and from c to b.
    assert(Walk::begin(flat(t.c), flat(t.a)).side_of(x, y) == u * k - v * h);
    assert(Walk::begin(flat(t.c), flat(t.b)).side_of(x, y) == p * k - q * h);
    // From a to c.
    assert(Walk::begin(flat(t.a), flat(t.c)).side_of(x, y) == (0 - u) * (k - v) - (0 - v) * (h
        - u));
    lemma_expand(0, u, k, v);
    lemma_expand(0, v, h, u);
    assert(0 * k == 0 && 0 * v == 0 && 0 * h == 0 && 0 * u == 0) by (nonlinear_arith);
    assert(u * v == v * u) by (nonlinear_arith);
    // From a to b.
    assert(Walk::begin(flat(t.a), flat(t.b)).side_of(x, y) == (p - u) * (k - v) - (q - v) * (h
        - u));
    lemma_expand(p, u, k, v);
    lemma_expand(q, v, h, u);
}

/// The weights of a pixel give its row back as the mean of the corners'
/// rows: `(y - b.y) * den == w_a * (a.y - b.y) + w_c * (c.y - b.y)`.
proof fn lemma_weights_give_row(t: Tri, x: int, y: int)
    ensures
        (y - t.b.pos.y) * t.den() == t.weight_a(x, y) * (t.a.pos.y - t.b.pos.y) + t.weight_c(x, y)
            * (t.c.pos.y - t.b.pos.y),
{
    let u = t.a.pos.x - t.c.pos.x;
    let v = t.a.pos.y - t.c.pos.y;
    let p = t.b.pos.x - t.c.pos.x;
    let q = t.b.pos.y - t.c.pos.y;
    let h = x - t.c.pos.x;
    let k = y - t.c.pos.y;
    lemma_from_c(t, x, y);
    let den = t.den();
    let wa = t.weight_a(x, y);
    let wb = t.weight_b(x, y);
    let wc = t.weight_c(x, y);
    // k * den == wa * v + wb * q, monomial by monomial.
    assert(wa * v == (q * v) * h - (p * v) * k) by (nonlinear_arith)
        requires
            wa == q * h - p * k,
    ;
    assert(wb * q == (q * u) * k - (q * v) * h) by (nonlinear_arith)
        requires
            wb == u * k - v * h,
    ;
    assert(k * den == (q * u) * k - (p * v) * k) by (nonlinear_arith)
        requires
            den == q * u - p * v,
    ;
    assert(k * den == wa * v + wb * q);
    // The same with b.y taken off the row.
    assert((k - q) * den == k * den - q * den) by (nonlinear_arith);
    assert(wa * (v - q) == wa * v - wa * q) by (nonlinear_arith);
    assert(wc * (0 - q) == -(den * q) + wa * q + wb * q) by (nonlinear_arith)
        requires
            wc == den - wa - wb,
    ;
    assert(q * den == den * q) by (nonlinear_arith);
    assert(y - t.b.pos.y == k - q);
    assert(t.a.pos.y - t.b.pos.y == v - q);
    assert(t.c.pos.y - t.b.pos.y == 0 - q);
}

/// The numerator `w` of a weight with the sign of the denominator taken
/// out of it: `w / den` is this over `|den|`.
pub open spec fn weight_with_sign(den: int, w: int) -> int {
    if den < 0 {
        -w
    } else {
        w
    }
}

/// The extent of the edge from `p` to `q`: the larger of its width and its
/// height.
pub open spec fn extent(p: Vec2i, q: Vec2i) -> int {
    Walk::begin(p, q).reach()
}

/// The larger of the extents of the two short edges of a sorted triangle,
/// from `a` to `b` and from `c` to `b`.
pub open spec fn short_extent(t: Tri) -> int {
    if extent(flat(t.a), flat(t.b)) >= extent(flat(t.c), flat(t.b)) {
        extent(flat(t.a), flat(t.b))
    } else {
        extent(flat(t.c), flat(t.b))
    }
}

/// Every pixel that the scan conversion of a sorted triangle with area
/// covers lies on a row of the triangle, and its three weights sum to one
/// by their definition. A walker enters a row up to half a run off its
/// edge, so a weight can fall below nothing, by this much at most: the
/// weight of the middle corner `b`, which the long edge lies opposite, is
/// at least `-extent(a, c) / (2 * |den|)`; the weights of `a` and `c` are at
/// least `-short_extent * (a.y - c.y) / (2 * |den|)`.
pub proof fn lemma_covered_weights(t: Tri, x: int, y: int)
    requires
        t.sorted(),
        t.den() != 0,
        coverage(t).contains((x, y)),
    ensures
        t.c.pos.y <= y <= t.a.pos.y,
        t.weight_a(x, y) + t.weight_b(x, y) + t.weight_c(x, y) == t.den(),
        2 * weight_with_sign(t.den(), t.weight_b(x, y)) >= -extent(flat(t.a), flat(t.c)),
        2 * weight_with_sign(t.den(), t.weight_a(x, y)) >= -(short_extent(t) * (t.a.pos.y
            - t.c.pos.y)),
        2 * weight_with_sign(t.den(), t.weight_c(x, y)) >= -(short_extent(t) * (t.a.pos.y
            - t.c.pos.y)),
{
    let a = flat(t.a);
    let b = flat(t.b);
    let c = flat(t.c);
    let den = t.den();
    let wa = t.weight_a(x, y);
    let wb = t.weight_b(x, y);
    let wc = t.weight_c(x, y);
    let up = t.a.pos.y - t.b.pos.y;
    let low = t.b.pos.y - t.c.pos.y;
    let height = t.a.pos.y - t.c.pos.y;
    let m_ab = extent(a, b);
    let m_cb = extent(c, b);
    let s = short_extent(t);
    crate::geometry::lemma_den_is_det(t);
    lemma_weights_are_sides(t, x, y);
    lemma_weights_give_row(t, x, y);
    Walk::lemma_begin(a, c);
    Walk::lemma_begin(a, b);
    Walk::lemma_begin(c, a);
    Walk::lemma_begin(c, b);
    let ac = Walk::begin(a, c);
    let ab = Walk::begin(a, b);
    let ca = Walk::begin(c, a);
    let cb = Walk::begin(c, b);
    assert(ca.reach() == ac.reach());
    assert(0 <= m_ab <= s && 0 <= m_cb <= s);
    // The row identity, with the weight of `c` on the left.
    assert(wc * (t.c.pos.y - t.b.pos.y) == -(wc * low)) by (nonlinear_arith)
        requires
            t.c.pos.y - t.b.pos.y == -low,
    ;
    assert(wa * up == (y - t.b.pos.y) * den + wc * low);
    let first = if t.spec_long_left() {
        rows(ac, ab).contains((x, y))
    } else {
        rows(ab, ac).contains((x, y))
    };
    if !first && ca.step_y() != cb.step_y() {
        ca.lemma_next_row();
        cb.lemma_next_row();
        assert(false);
    }
    if first {
        // The upper half: rows at or above `b`, below `a`.
        if t.spec_long_left() {
            lemma_rows_bounds(ac, ab, x, y);
        } else {
            lemma_rows_bounds(ab, ac, x, y);
        }
        assert(up >= 1 && height >= 1);
        assert(m_ab * low <= s * height) by (nonlinear_arith)
            requires
                0 <= m_ab <= s,
                0 <= low <= height,
        ;
        if den < 0 {
            // 2 wb <= extent(a, c), 2 wc <= m_ab - 2 up.
            assert((y - t.b.pos.y) * den <= 0) by (nonlinear_arith)
                requires
                    y - t.b.pos.y >= 0,
                    den < 0,
            ;
            assert(2 * (wc * low) <= m_ab * low) by (nonlinear_arith)
                requires
                    2 * wc <= m_ab,
                    low >= 0,
            ;
            if wa > 0 {
                assert(wa * up >= wa) by (nonlinear_arith)
                    requires
                        wa > 0,
                        up >= 1,
                ;
            }
        } else {
            // 2 wc >= -m_ab, 2 wb >= 2 height - extent(a, c).
            assert((y - t.b.pos.y) * den >= 0) by (nonlinear_arith)
                requires
                    y - t.b.pos.y >= 0,
                    den > 0,
            ;
            assert(2 * (wc * low) >= -(m_ab * low)) by (nonlinear_arith)
                requires
                    2 * wc >= -m_ab,
                    low >= 0,
            ;
            if wa < 0 {
                assert(wa * up <= wa) by (nonlinear_arith)
                    requires
                        wa < 0,
                        up >= 1,
                ;
            }
        }
        assert(s <= s * height) by (nonlinear_arith)
            requires
                s >= 0,
                height >= 1,
        ;
    } else {
        // The lower half: rows above `c`, at or below `b`.
        if t.spec_long_left() {
            assert(rows(ca, cb).contains((x, y)));
            lemma_rows_bounds(ca, cb, x, y);
        } else {
            assert(rows(cb, ca).contains((x, y)));
            lemma_rows_bounds(cb, ca, x, y);
        }
        assert(low >= 1 && height >= 1);
        assert(m_cb * up <= s * height) by (nonlinear_arith)
            requires
                0 <= m_cb <= s,
                0 <= up <= height,
        ;
        if den < 0 {
            // 2 wb <= extent(a, c), 2 wa <= m_cb - 2 low.
            assert((y - t.b.pos.y) * den >= 0) by (nonlinear_arith)
                requires
                    y - t.b.pos.y <= 0,
                    den < 0,
            ;
            assert(2 * (wa * up) <= m_cb * up) by (nonlinear_arith)
                requires
                    2 * wa <= m_cb,
                    up >= 0,
            ;
            if wc > 0 {
                assert(wc * low >= wc) by (nonlinear_arith)
                    requires
                        wc > 0,
                        low >= 1,
                ;
            }
        } else {
            // 2 wa >= -m_cb, 2 wb >= 2 height - extent(a, c).
            assert((y - t.b.pos.y) * den <= 0) by (nonlinear_arith)
                requires
                    y - t.b.pos.y <= 0,
                    den > 0,
            ;
            assert(2 * (wa * up) >= -(m_cb * up)) by (nonlinear_arith)
                requires
                    2 * wa >= -m_cb,
                    up >= 0,
            ;
            if wc < 0 {
                assert(wc * low <= wc) by (nonlinear_arith)
                    requires
                        wc < 0,
                        low >= 1,
                ;
            }
        }
        assert(s <= s * height) by (nonlinear_arith)
            requires
                s >= 0,
                height >= 1,
        ;
    }
}

} // verus!
