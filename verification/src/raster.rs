//! What drawing means: which pixels a triangle or a line covers, what it
//! offers at each of them, and what a depth-tested drawing of an area
//! leaves in a grid.

use vstd::prelude::*;
use crate::buffer::{Fragment, Grid};
use crate::color::{floored_light, Color};
use crate::edge::Walk;
use crate::geometry::{Tri, Vert};
use crate::math::Vec2i;
use crate::texture::TextureGrid;

verus! {

/// A pixel position.
pub type Pixel = (int, int);

/// What is drawn with: the shading of a triangle, or one fragment
/// everywhere.
pub enum Ink {
    /// The shading of the screen-space triangle `tri` under the lighting
    /// level `lighting`, from `tex` or, without a texture, from the
    /// corners' colours.
    Shaded { tri: Tri, tex: Option<TextureGrid>, lighting: u8 },
    /// The same fragment at every pixel.
    Flat { fragment: Fragment },
}

/// What the triangle `tri` offers at the pixel `(x, y)`: the depth and the
/// colour that its barycentric weights there give, the depth interpolated
/// by its inverse and the colour dimmed to the lighting level.
pub open spec fn shade(tri: Tri, tex: Option<TextureGrid>, lighting: u8, x: int, y: int) -> Fragment {
    let w = tri.weights_at(x, y);
    let base: Color = match tex {
        Some(g) => g.sample(tri.tex_u_at(w) as int, tri.tex_v_at(w) as int),
        None => tri.color_at(w),
    };
    Fragment {
        color: base.attenuated(floored_light(lighting)).packed(),
        depth: tri.depth_inverse_at(w),
    }
}

impl Ink {
    /// What the ink offers at the pixel `(x, y)`.
    pub open spec fn at(self, x: int, y: int) -> Fragment {
        match self {
            Ink::Shaded { tri, tex, lighting } => shade(tri, tex, lighting, x, y),
            Ink::Flat { fragment } => fragment,
        }
    }
}

/// The pixels of one scanline from `p1` up to, not including, the column
/// of `p2`, on the row of `p1`.
pub open spec fn span(p1: Vec2i, p2: Vec2i) -> Set<Pixel> {
    Set::new(|p: Pixel| p.1 == p1.y && p1.x <= p.0 < p2.x)
}

/// The pixels between two walkers that descend or climb in lock-step: for
/// each row that both enter, the span from the first to the second.
pub open spec fn rows(e1: Walk, e2: Walk) -> Set<Pixel>
    decreases e1.left(),
{
    if !e1.wf() {
        Set::empty()
    } else {
        match (e1.next_row(), e2.next_row()) {
            (Some(n1), Some(n2)) => {
                proof {
                    e1.lemma_next_row();
                }
                span(n1.current, n2.current).union(rows(n1, n2))
            },
            _ => Set::empty(),
        }
    }
}

/// The points that a walker reaches from where it stands, its target
/// last.
pub open spec fn path(e: Walk) -> Set<Pixel>
    decreases e.left(),
{
    if !e.wf() || e.done() {
        Set::empty()
    } else {
        proof {
            e.lemma_next();
        }
        path(e.next()).insert((e.next().current.x as int, e.next().current.y as int))
    }
}

/// The position of a corner on the screen.
pub open spec fn flat(t: Vert) -> Vec2i {
    Vec2i { x: t.pos.x, y: t.pos.y }
}

/// The pixels that the scan conversion of a sorted screen-space triangle
/// covers: the rows between the long edge and the upper short edge, walked
/// down from `a`, and the rows between the long edge and the lower short
/// edge, walked up from `c`; the edge on the left comes first.
pub open spec fn coverage(t: Tri) -> Set<Pixel> {
    let a = flat(t.a);
    let b = flat(t.b);
    let c = flat(t.c);
    if t.spec_long_left() {
        rows(Walk::begin(a, c), Walk::begin(a, b)).union(
            rows(Walk::begin(c, a), Walk::begin(c, b)),
        )
    } else {
        rows(Walk::begin(a, b), Walk::begin(a, c)).union(
            rows(Walk::begin(c, b), Walk::begin(c, a)),
        )
    }
}

/// The outline of a triangle: its three edges as walked from `a` to `b`,
/// from `a` to `c` and from `c` to `b`.
pub open spec fn outline(t: Tri) -> Set<Pixel> {
    path(Walk::begin(flat(t.a), flat(t.b))).union(path(Walk::begin(flat(t.a), flat(t.c)))).union(
        path(Walk::begin(flat(t.c), flat(t.b))),
    )
}

/// What a pixel holds after `ink` was drawn over `area`: the ink's
/// fragment where the pixel lies in the area and the fragment is strictly
/// nearer than what was there, and what was there otherwise.
pub open spec fn drawn_at(before: Grid, area: Set<Pixel>, ink: Ink, x: int, y: int) -> Fragment {
    if area.contains((x, y)) && ink.at(x, y).depth < before.at(x, y).depth {
        ink.at(x, y)
    } else {
        before.at(x, y)
    }
}

/// `after` is `before` with `ink` drawn over `area`, through the depth
/// test.
pub open spec fn painted(before: Grid, after: Grid, area: Set<Pixel>, ink: Ink) -> bool {
    &&& after.wf()
    &&& after.width == before.width
    &&& after.height == before.height
    &&& forall|x: int, y: int|
        before.inbounds(x, y) ==> #[trigger] after.at(x, y) == drawn_at(before, area, ink, x, y)
}

/// The grid `before` with `ink` drawn over `area`, through the depth test.
pub open spec fn paint(before: Grid, area: Set<Pixel>, ink: Ink) -> Grid {
    Grid {
        width: before.width,
        height: before.height,
        pixels: Seq::new(
            before.pixels.len(),
            |i: int| drawn_at(before, area, ink, before.pixel_of(i).0, before.pixel_of(i).1).color,
        ),
        depth: Seq::new(
            before.depth.len(),
            |i: int| drawn_at(before, area, ink, before.pixel_of(i).0, before.pixel_of(i).1).depth,
        ),
    }
}

/// `paint` is the one grid that is `painted`.
pub proof fn lemma_paint(before: Grid, area: Set<Pixel>, ink: Ink)
    requires
        before.wf(),
    ensures
        painted(before, paint(before, area, ink), area, ink),
        forall|after: Grid| painted(before, after, area, ink) ==> after == paint(before, area, ink),
{
    let g = paint(before, area, ink);
    assert forall|x: int, y: int| before.inbounds(x, y) implies #[trigger] g.at(x, y) == drawn_at(
        before,
        area,
        ink,
        x,
        y,
    ) by {
        before.lemma_index_in_range(x, y);
        let i = before.index(x, y);
        before.lemma_index_onto(i);
        let p = before.pixel_of(i);
        before.lemma_index_injective(x, y, p.0, p.1);
    }
    assert forall|after: Grid| painted(before, after, area, ink) implies after == g by {
        assert forall|x: int, y: int| after.inbounds(x, y) implies #[trigger] after.at(x, y)
            == g.at(x, y) by {
            assert(before.inbounds(x, y));
            assert(g.at(x, y) == drawn_at(before, area, ink, x, y));
        }
        after.lemma_equal(g);
    }
}

/// Drawing over no pixel of the grid changes nothing.
pub proof fn lemma_painted_off_grid(g: Grid, area: Set<Pixel>, ink: Ink)
    requires
        g.wf(),
        forall|x: int, y: int| g.inbounds(x, y) ==> !area.contains((x, y)),
    ensures
        painted(g, g, area, ink),
{
}

/// Only the pixels of an area that lie on the grid matter.
pub proof fn lemma_painted_agree(before: Grid, after: Grid, a: Set<Pixel>, b: Set<Pixel>, ink: Ink)
    requires
        painted(before, after, a, ink),
        forall|x: int, y: int| before.inbounds(x, y) ==> (a.contains((x, y)) <==> b.contains((x, y))),
    ensures
        painted(before, after, b, ink),
{
    assert forall|x: int, y: int| before.inbounds(x, y) implies #[trigger] after.at(x, y)
        == drawn_at(before, b, ink, x, y) by {
        assert(after.at(x, y) == drawn_at(before, a, ink, x, y));
    }
}

/// One more depth-tested write of the ink draws one more pixel.
pub proof fn lemma_painted_plot(before: Grid, now: Grid, area: Set<Pixel>, ink: Ink, x: int, y: int)
    requires
        before.wf(),
        painted(before, now, area, ink),
    ensures
        painted(before, now.plot(x, y, ink.at(x, y)), area.insert((x, y)), ink),
{
    let next = now.plot(x, y, ink.at(x, y));
    assert forall|u: int, v: int| before.inbounds(u, v) implies #[trigger] next.at(u, v)
        == drawn_at(before, area.insert((x, y)), ink, u, v) by {
        now.lemma_plot_at(x, y, ink.at(x, y), u, v);
        assert(now.at(u, v) == drawn_at(before, area, ink, u, v));
        if now.inbounds(x, y) {
            assert(now.at(x, y) == drawn_at(before, area, ink, x, y));
        }
    }
    if now.inbounds(x, y) {
        now.lemma_plot_at(x, y, ink.at(x, y), x, y);
    }
}

/// Drawing over one area and then over another is drawing over both.
pub proof fn lemma_painted_union(
    g0: Grid,
    g1: Grid,
    g2: Grid,
    a: Set<Pixel>,
    b: Set<Pixel>,
    ink: Ink,
)
    requires
        painted(g0, g1, a, ink),
        painted(g1, g2, b, ink),
    ensures
        painted(g0, g2, a.union(b), ink),
{
    assert forall|x: int, y: int| g0.inbounds(x, y) implies #[trigger] g2.at(x, y) == drawn_at(
        g0,
        a.union(b),
        ink,
        x,
        y,
    ) by {
        assert(g1.at(x, y) == drawn_at(g0, a, ink, x, y));
        assert(g1.inbounds(x, y));
        assert(g2.at(x, y) == drawn_at(g1, b, ink, x, y));
    }
}

/// Drawing never moves a pixel farther away: the depth of every pixel
/// after a drawing is at most what it was, and a pixel whose depth has not
/// changed has kept its colour.
pub proof fn lemma_painted_nearer(before: Grid, after: Grid, area: Set<Pixel>, ink: Ink, x: int, y: int)
    requires
        painted(before, after, area, ink),
        before.inbounds(x, y),
    ensures
        after.at(x, y).depth <= before.at(x, y).depth,
        after.at(x, y).depth == before.at(x, y).depth ==> after.at(x, y) == before.at(x, y),
{
    assert(after.at(x, y) == drawn_at(before, area, ink, x, y));
}

/// Drawing the same thing over the same area a second time changes
/// nothing: every fragment of the second pass loses the depth test.
pub proof fn lemma_painted_twice(g0: Grid, g1: Grid, g2: Grid, area: Set<Pixel>, ink: Ink)
    requires
        g0.wf(),
        painted(g0, g1, area, ink),
        painted(g1, g2, area, ink),
    ensures
        g2 == g1,
{
    assert forall|x: int, y: int| g2.inbounds(x, y) implies #[trigger] g2.at(x, y) == g1.at(
        x,
        y,
    ) by {
        assert(g0.inbounds(x, y));
        assert(g1.inbounds(x, y));
        assert(g1.at(x, y) == drawn_at(g0, area, ink, x, y));
        assert(g2.at(x, y) == drawn_at(g1, area, ink, x, y));
    }
    g2.lemma_equal(g1);
}

} // verus!
