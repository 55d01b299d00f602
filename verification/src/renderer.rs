//! The renderer. Per triangle of a mesh: model transform, view transform
//! and lighting, which give a face in camera space, where the camera stands
//! at the origin and looks down the positive x axis; then back-face cull,
//! perspective projection, vertex sort, long-side classification, dual edge
//! walk, per-pixel shading and depth-tested write.

use vstd::prelude::*;
use crate::arith::{div_floor, floor_div, lemma_floor_div_size, lemma_mul_bounds};
use crate::buffer::{Buffer, Fragment, Grid};
use crate::color::Color;
use crate::edge::{EdgeTracer, Walk};
use crate::geometry::{Barycentric, Camera, Mesh, Tri, Vert};
use crate::light::{lambert, light_level};
use crate::math::{Int, Vec2i, Vec3i};
use crate::raster::{
    coverage, lemma_paint, lemma_painted_agree, lemma_painted_off_grid, lemma_painted_plot,
    lemma_painted_twice, lemma_painted_union, outline, paint, painted, path, rows, span, Ink, Pixel,
};
use crate::texture::{Texture, TextureGrid};
use crate::transform::{about_zyx, held_difference, held_sum, Turns};

verus! {

/// The colour of a wireframe before lighting.
pub const WIRE_RED: u8 = 0;

pub const WIRE_GREEN: u8 = 255;

pub const WIRE_BLUE: u8 = 255;

/// The depth that every pixel of a line is offered at: in front of all
/// that lies at a depth greater than one.
pub const LINE_DEPTH: i64 = 1;

/// A triangle in camera space with the lighting level that falls on it.
#[derive(Debug, Clone, Copy, PartialEq, Eq, Structural)]
pub struct Face {
    pub tri: Tri,
    pub lighting: u8,
}

/// The rotations of one frame: the sines and cosines of the angles that
/// the mesh and the camera are turned by.
#[derive(Debug, Clone, Copy, PartialEq, Eq, Structural)]
pub struct Stage {
    pub mesh: Turns,
    pub camera: Turns,
}

/// What the triangles of a mesh are brought into camera space with: the
/// offset of the mesh, the place of the camera, the rotations of both, and
/// the direction of the light.
pub struct Scene {
    pub center: Vec3i,
    pub eye: Vec3i,
    pub stage: Stage,
    pub light: Vec3i,
}

/// A point of a mesh at rest in camera space: turned as the mesh is turned,
/// moved by the place of the camera and the offset of the mesh, and turned
/// against the turn of the camera. Every turn goes about z, then y, then
/// x.
pub open spec fn in_camera_space(p: Vec3i, center: Vec3i, eye: Vec3i, stage: Stage) -> Vec3i {
    about_zyx(held_sum(held_difference(about_zyx(p, stage.mesh), eye), center), stage.camera.back())
}

impl Scene {
    /// A point of the mesh at rest, in camera space.
    pub open spec fn place(self, p: Vec3i) -> Vec3i {
        in_camera_space(p, self.center, self.eye, self.stage)
    }

    /// A triangle of the mesh at rest in camera space.
    pub open spec fn pose(self, t: Tri) -> Tri {
        t.placed(self.place(t.a.pos), self.place(t.b.pos), self.place(t.c.pos))
    }

    /// A triangle of the mesh at rest as the face that is drawn: in camera
    /// space, with the lighting level that its normal there gives it.
    pub open spec fn face(self, t: Tri) -> Face {
        Face { tri: self.pose(t), lighting: light_level(self.light, self.pose(t)) }
    }

    /// The faces of all triangles of a mesh, in their order.
    pub open spec fn faces(self, tris: Seq<Tri>) -> Seq<Face> {
        Seq::new(tris.len(), |i: int| self.face(tris[i]))
    }
}

/// The perspective projection of a renderer: its scale, which is half the
/// screen's width over the tangent of half the field of view, and the
/// centre of its screen.
pub struct Lens {
    pub scale: int,
    pub half_width: int,
    pub half_height: int,
}

/// The three corners in the order of descending y, as three exchanges of
/// neighbours put them: `c` with `b`, `b` with `a`, `c` with `b`.
pub open spec fn sort_desc(t: Tri) -> Tri {
    let (b1, c1) = if t.c.pos.y > t.b.pos.y {
        (t.c, t.b)
    } else {
        (t.b, t.c)
    };
    let (a2, b2) = if b1.pos.y > t.a.pos.y {
        (b1, t.a)
    } else {
        (t.a, b1)
    };
    let (b3, c3) = if c1.pos.y > b2.pos.y {
        (c1, b2)
    } else {
        (b2, c1)
    };
    Tri { a: a2, b: b3, c: c3 }
}

impl Lens {
    /// The column that the camera-space point `p` is seen in:
    /// `y / x * scale + half_width`, rounded down.
    pub open spec fn screen_x(self, p: Vec3i) -> int {
        floor_div(p.y * self.scale, p.x as int) + self.half_width
    }

    /// The row that the camera-space point `p` is seen in:
    /// `-z / x * scale + half_height`, rounded down.
    pub open spec fn screen_y(self, p: Vec3i) -> int {
        floor_div(-p.z * self.scale, p.x as int) + self.half_height
    }

    /// The point lies in front of the camera and is seen at coordinates
    /// that an `Int` can hold.
    pub open spec fn sees(self, p: Vec3i) -> bool {
        &&& p.x > 0
        &&& Int::MIN <= self.screen_x(p) <= Int::MAX
        &&& Int::MIN <= self.screen_y(p) <= Int::MAX
    }

    /// The corner on the screen: column, row and the depth it had.
    pub open spec fn project(self, v: Vert) -> Vert {
        Vert {
            pos: Vec3i { x: self.screen_x(v.pos) as Int, y: self.screen_y(v.pos) as Int, z: v.pos.x },
            ..v
        }
    }

    /// The triangle as it is scan-converted: on the screen and sorted. No
    /// triangle where it shows its back or a corner is not seen.
    pub open spec fn prepared(self, tri: Tri) -> Option<Tri> {
        if tri.spec_faces_away() || !self.sees(tri.a.pos) || !self.sees(tri.b.pos) || !self.sees(
            tri.c.pos,
        ) {
            None
        } else {
            Some(
                sort_desc(
                    Tri { a: self.project(tri.a), b: self.project(tri.b), c: self.project(tri.c) },
                ),
            )
        }
    }

    /// The grid after the triangle `tri` was drawn into it under the
    /// lighting level `lighting`. A triangle that is culled, not seen or
    /// without area on the screen leaves the grid as it is.
    pub open spec fn drawn(self, g: Grid, tex: Option<TextureGrid>, tri: Tri, lighting: u8) -> Grid {
        match self.prepared(tri) {
            Some(t) => if t.den() == 0 {
                g
            } else {
                paint(g, coverage(t), Ink::Shaded { tri: t, tex, lighting })
            },
            None => g,
        }
    }

    /// The grid after each of `faces` was drawn into it, in order.
    pub open spec fn drawn_all(self, g: Grid, tex: Option<TextureGrid>, faces: Seq<Face>) -> Grid
        decreases faces.len(),
    {
        if faces.len() == 0 {
            g
        } else {
            self.drawn(
                self.drawn_all(g, tex, faces.drop_last()),
                tex,
                faces.last().tri,
                faces.last().lighting,
            )
        }
    }

    /// The fragment that a wireframe of lighting level `lighting` is drawn
    /// with.
    pub open spec fn wire(lighting: u8) -> Fragment {
        Fragment {
            color: (Color { red: WIRE_RED, green: WIRE_GREEN, blue: WIRE_BLUE }).attenuated(
                lighting,
            ).packed(),
            depth: LINE_DEPTH,
        }
    }

    /// The grid after the outline of `tri` was drawn into it. A triangle
    /// that is culled or not seen leaves the grid as it is.
    pub open spec fn outlined(self, g: Grid, tri: Tri, lighting: u8) -> Grid {
        match self.prepared(tri) {
            Some(t) => paint(g, outline(t), Ink::Flat { fragment: Self::wire(lighting) }),
            None => g,
        }
    }

    /// The grid after the outline of each of `faces` was drawn into it, in
    /// order.
    pub open spec fn outlined_all(self, g: Grid, faces: Seq<Face>) -> Grid
        decreases faces.len(),
    {
        if faces.len() == 0 {
            g
        } else {
            self.outlined(
                self.outlined_all(g, faces.drop_last()),
                faces.last().tri,
                faces.last().lighting,
            )
        }
    }
}

/// Sorting puts the corners in the order of descending y and keeps the
/// triangle's three corners.
pub proof fn lemma_sort_desc(t: Tri)
    ensures
        sort_desc(t).sorted(),
        ({
            let s = sort_desc(t);
            ||| (s.a == t.a && s.b == t.b && s.c == t.c)
            ||| (s.a == t.a && s.b == t.c && s.c == t.b)
            ||| (s.a == t.b && s.b == t.a && s.c == t.c)
            ||| (s.a == t.b && s.b == t.c && s.c == t.a)
            ||| (s.a == t.c && s.b == t.a && s.c == t.b)
            ||| (s.a == t.c && s.b == t.b && s.c == t.a)
        }),
{
}

/// A renderer: a buffer to draw into, the direction that the light falls
/// from, and the scale of the projection.
pub struct Renderer {
    pub buffer: Buffer,
    pub lighting_vec: Vec3i,
    pub scale: Int,
}

/// The content of a texture, if there is one.
pub open spec fn tex_of(texture: Option<Texture>) -> Option<TextureGrid> {
    match texture {
        Some(t) => Some(t@),
        None => None,
    }
}

impl Renderer {
    /// The projection of this renderer.
    pub open spec fn lens(&self) -> Lens {
        Lens {
            scale: self.scale as int,
            half_width: self.buffer@.width / 2,
            half_height: self.buffer@.height / 2,
        }
    }

    /// A renderer that draws into `buffer`, under light from the direction
    /// `lighting_vec`.
    pub fn cons(buffer: Buffer, lighting_vec: Vec3i, scale: Int) -> (r: Renderer)
        ensures
            r.buffer == buffer,
            r.lighting_vec == lighting_vec,
            r.scale == scale,
    {
        Renderer { buffer, lighting_vec, scale }
    }

    /// What this renderer brings the triangles of `mesh` into camera space
    /// with.
    pub open spec fn scene(&self, mesh: &Mesh, camera: &Camera, stage: &Stage) -> Scene {
        Scene {
            center: mesh.center,
            eye: camera.position,
            stage: *stage,
            light: self.lighting_vec,
        }
    }

    /// A point of the mesh at rest, in camera space.
    fn place(p: Vec3i, mesh: &Mesh, camera: &Camera, stage: &Stage) -> (r: Vec3i)
        ensures
            r == in_camera_space(p, mesh.center, camera.position, *stage),
    {
        let mut v = p;
        v.rotationmatzyx(stage.mesh);
        v = v.minus(&camera.position);
        v = v.plus(&mesh.center);
        v.rotationmatzyx(stage.camera.reversed());
        v
    }

    /// One triangle of the mesh at rest as the face that is drawn: the
    /// mesh's rotation and offset and the camera's place and rotation bring
    /// it into camera space, and its normal there gives its lighting level.
    pub fn pose_triangle(&self, tri: &Tri, mesh: &Mesh, camera: &Camera, stage: &Stage) -> (f: Face)
        ensures
            f == self.scene(mesh, camera, stage).face(*tri),
    {
        let a = Renderer::place(tri.a.pos, mesh, camera, stage);
        let b = Renderer::place(tri.b.pos, mesh, camera, stage);
        let c = Renderer::place(tri.c.pos, mesh, camera, stage);
        let posed = Tri::cons_verts(
            Vert::cons(a, tri.a.color, tri.a.texpos),
            Vert::cons(b, tri.b.color, tri.b.texpos),
            Vert::cons(c, tri.c.color, tri.c.texpos),
        );
        Face { tri: posed, lighting: lambert(&self.lighting_vec, &posed) }
    }

    /// The faces of all triangles of `mesh`, in their order.
    pub fn pose_mesh(&self, mesh: &Mesh, camera: &Camera, stage: &Stage) -> (faces: Vec<Face>)
        ensures
            faces@ == self.scene(mesh, camera, stage).faces(mesh.tris@),
    {
        let mut faces: Vec<Face> = Vec::new();
        let n = mesh.tris.len();
        let mut i: usize = 0;
        while i < n
            invariant
                i <= n,
                n == mesh.tris@.len(),
                faces@.len() == i,
                forall|j: int|
                    0 <= j < i ==> faces@[j] == self.scene(mesh, camera, stage).face(mesh.tris@[j]),
            decreases n - i,
        {
            faces.push(self.pose_triangle(&mesh.tris[i], mesh, camera, stage));
            i += 1;
        }
        assert(faces@ =~= self.scene(mesh, camera, stage).faces(mesh.tris@));
        faces
    }

    /// Draws every triangle of `mesh`, in order, as the camera sees it.
    pub fn render_mesh(&mut self, mesh: &Mesh, camera: &Camera, stage: &Stage)
        ensures
            final(self).buffer@ == old(self).lens().drawn_all(
                old(self).buffer@,
                tex_of(mesh.texture),
                old(self).scene(mesh, camera, stage).faces(mesh.tris@),
            ),
            final(self).lighting_vec == old(self).lighting_vec,
            final(self).scale == old(self).scale,
            final(self).lens() == old(self).lens(),
    {
        let faces = self.pose_mesh(mesh, camera, stage);
        self.render_faces(&faces, &mesh.texture);
    }

    /// Draws the outline of every triangle of `mesh`, in order, as the
    /// camera sees it.
    pub fn render_wireframe(&mut self, mesh: &Mesh, camera: &Camera, stage: &Stage)
        ensures
            final(self).buffer@ == old(self).lens().outlined_all(
                old(self).buffer@,
                old(self).scene(mesh, camera, stage).faces(mesh.tris@),
            ),
            final(self).lighting_vec == old(self).lighting_vec,
            final(self).scale == old(self).scale,
            final(self).lens() == old(self).lens(),
    {
        let faces = self.pose_mesh(mesh, camera, stage);
        self.outline_faces(&faces);
    }

    /// Draws one triangle of `mesh` as the camera sees it.
    pub fn render_triangle(&mut self, tri: &Tri, mesh: &Mesh, camera: &Camera, stage: &Stage)
        ensures
            final(self).buffer@ == ({
                let face = old(self).scene(mesh, camera, stage).face(*tri);
                old(self).lens().drawn(
                    old(self).buffer@,
                    tex_of(mesh.texture),
                    face.tri,
                    face.lighting,
                )
            }),
            final(self).lighting_vec == old(self).lighting_vec,
            final(self).scale == old(self).scale,
            final(self).lens() == old(self).lens(),
    {
        let face = self.pose_triangle(tri, mesh, camera, stage);
        self.render_face(&face, &mesh.texture);
    }

    /// Draws each of `faces`, which stand in camera space, in order.
    pub fn render_faces(&mut self, faces: &Vec<Face>, texture: &Option<Texture>)
        ensures
            final(self).buffer@ == old(self).lens().drawn_all(
                old(self).buffer@,
                tex_of(*texture),
                faces@,
            ),
            final(self).lighting_vec == old(self).lighting_vec,
            final(self).scale == old(self).scale,
            final(self).lens() == old(self).lens(),
    {
        let n = faces.len();
        let mut i: usize = 0;
        while i < n
            invariant
                i <= n,
                n == faces@.len(),
                self.lighting_vec == old(self).lighting_vec,
                self.scale == old(self).scale,
                self.lens() == old(self).lens(),
                self.buffer@ == old(self).lens().drawn_all(
                    old(self).buffer@,
                    tex_of(*texture),
                    faces@.take(i as int),
                ),
            decreases n - i,
        {
            self.render_face(&faces[i], texture);
            proof {
                assert(faces@.take(i + 1).drop_last() =~= faces@.take(i as int));
            }
            i += 1;
        }
        assert(faces@.take(n as int) =~= faces@);
    }

    /// Draws the outline of each of `faces`, which stand in camera space,
    /// in order.
    pub fn outline_faces(&mut self, faces: &Vec<Face>)
        ensures
            final(self).buffer@ == old(self).lens().outlined_all(old(self).buffer@, faces@),
            final(self).lighting_vec == old(self).lighting_vec,
            final(self).scale == old(self).scale,
            final(self).lens() == old(self).lens(),
    {
        let n = faces.len();
        let mut i: usize = 0;
        while i < n
            invariant
                i <= n,
                n == faces@.len(),
                self.lighting_vec == old(self).lighting_vec,
                self.scale == old(self).scale,
                self.lens() == old(self).lens(),
                self.buffer@ == old(self).lens().outlined_all(
                    old(self).buffer@,
                    faces@.take(i as int),
                ),
            decreases n - i,
        {
            self.outline_face(&faces[i]);
            proof {
                assert(faces@.take(i + 1).drop_last() =~= faces@.take(i as int));
            }
            i += 1;
        }
        assert(faces@.take(n as int) =~= faces@);
    }

    /// Draws the outline of one face.
    pub fn outline_face(&mut self, face: &Face)
        ensures
            final(self).buffer@ == old(self).lens().outlined(
                old(self).buffer@,
                face.tri,
                face.lighting,
            ),
            final(self).lighting_vec == old(self).lighting_vec,
            final(self).scale == old(self).scale,
            final(self).lens() == old(self).lens(),
    {
        let ghost before = self.buffer@;
        proof {
            use_type_invariant(&self.buffer);
        }
        let lighting = face.lighting;
        if let Some(triangle) = self.prep_triangle(&face.tri) {
            let mut color = Color::cons(WIRE_RED, WIRE_GREEN, WIRE_BLUE);
            color.attenuate(lighting);
            let a = Vec2i::cons(triangle.a.pos.x, triangle.a.pos.y);
            let b = Vec2i::cons(triangle.b.pos.x, triangle.b.pos.y);
            let c = Vec2i::cons(triangle.c.pos.x, triangle.c.pos.y);
            let ghost ink = Ink::Flat { fragment: Lens::wire(lighting) };
            self.draw_line(a, b, color);
            let ghost g1 = self.buffer@;
            self.draw_line(a, c, color);
            let ghost g2 = self.buffer@;
            self.draw_line(c, b, color);
            proof {
                lemma_paint(before, path(Walk::begin(a, b)), ink);
                lemma_paint(g1, path(Walk::begin(a, c)), ink);
                lemma_paint(g2, path(Walk::begin(c, b)), ink);
                lemma_painted_union(
                    before,
                    g1,
                    g2,
                    path(Walk::begin(a, b)),
                    path(Walk::begin(a, c)),
                    ink,
                );
                lemma_painted_union(
                    before,
                    g2,
                    self.buffer@,
                    path(Walk::begin(a, b)).union(path(Walk::begin(a, c))),
                    path(Walk::begin(c, b)),
                    ink,
                );
                lemma_paint(before, outline(triangle), ink);
            }
        }
    }

    /// Draws one face: a triangle in camera space under its lighting
    /// level.
    pub fn render_face(&mut self, face: &Face, texture: &Option<Texture>)
        ensures
            final(self).buffer@ == old(self).lens().drawn(
                old(self).buffer@,
                tex_of(*texture),
                face.tri,
                face.lighting,
            ),
            final(self).lighting_vec == old(self).lighting_vec,
            final(self).scale == old(self).scale,
            final(self).lens() == old(self).lens(),
    {
        let ghost before = self.buffer@;
        proof {
            use_type_invariant(&self.buffer);
        }
        let lighting = face.lighting;
        if let Some(triangle) = self.prep_triangle(&face.tri) {
            if let Some(bary) = Barycentric::cons(&triangle) {
                let a = Vec2i::cons(triangle.a.pos.x, triangle.a.pos.y);
                let b = Vec2i::cons(triangle.b.pos.x, triangle.b.pos.y);
                let c = Vec2i::cons(triangle.c.pos.x, triangle.c.pos.y);
                let ghost ink = Ink::Shaded { tri: triangle, tex: tex_of(*texture), lighting };
                if triangle.long_left() {
                    self.trace_and_fill(&triangle, a, c, a, b, lighting, &bary, texture);
                    let ghost middle = self.buffer@;
                    self.trace_and_fill(&triangle, c, a, c, b, lighting, &bary, texture);
                    proof {
                        lemma_painted_union(
                            before,
                            middle,
                            self.buffer@,
                            rows(Walk::begin(a, c), Walk::begin(a, b)),
                            rows(Walk::begin(c, a), Walk::begin(c, b)),
                            ink,
                        );
                    }
                } else {
                    self.trace_and_fill(&triangle, a, b, a, c, lighting, &bary, texture);
                    let ghost middle = self.buffer@;
                    self.trace_and_fill(&triangle, c, b, c, a, lighting, &bary, texture);
                    proof {
                        lemma_painted_union(
                            before,
                            middle,
                            self.buffer@,
                            rows(Walk::begin(a, b), Walk::begin(a, c)),
                            rows(Walk::begin(c, b), Walk::begin(c, a)),
                            ink,
                        );
                    }
                }
                proof {
                    lemma_paint(before, coverage(triangle), ink);
                }
            }
        }
    }

    /// Walks two edges in lock-step, one row at a time, and fills the span
    /// between them on every row that both enter.
    fn trace_and_fill(
        &mut self,
        triangle: &Tri,
        e1s: Vec2i,
        e1e: Vec2i,
        e2s: Vec2i,
        e2e: Vec2i,
        lighting: u8,
        bary: &Barycentric,
        texture: &Option<Texture>,
    )
        requires
            bary@ == *triangle,
        ensures
            painted(
                old(self).buffer@,
                final(self).buffer@,
                rows(Walk::begin(e1s, e1e), Walk::begin(e2s, e2e)),
                Ink::Shaded { tri: *triangle, tex: tex_of(*texture), lighting },
            ),
            final(self).lighting_vec == old(self).lighting_vec,
            final(self).scale == old(self).scale,
            final(self).lens() == old(self).lens(),
    {
        let mut e1 = EdgeTracer::cons(e1s, e1e);
        let mut e2 = EdgeTracer::cons(e2s, e2e);
        let ghost ink = Ink::Shaded { tri: *triangle, tex: tex_of(*texture), lighting };
        let ghost total = rows(e1@, e2@);
        let ghost mut done: Set<Pixel> = Set::empty();
        let mut more = true;
        proof {
            use_type_invariant(&self.buffer);
            assert(done.union(rows(e1@, e2@)) =~= total);
        }
        while more
            invariant
                e1@.wf(),
                e2@.wf(),
                bary@ == *triangle,
                old(self).buffer@.wf(),
                self.lighting_vec == old(self).lighting_vec,
                self.scale == old(self).scale,
                self.lens() == old(self).lens(),
                ink == (Ink::Shaded { tri: *triangle, tex: tex_of(*texture), lighting }),
                painted(old(self).buffer@, self.buffer@, done, ink),
                more ==> total == done.union(rows(e1@, e2@)),
                !more ==> total == done,
            decreases e1@.left() + (if more { 1int } else { 0int }),
        {
            let ghost w1 = e1@;
            let ghost w2 = e2@;
            let ghost g = self.buffer@;
            proof {
                w1.lemma_next_row();
            }
            let r1 = e1.step_constant();
            let r2 = e2.step_constant();
            match (r1, r2) {
                (Some(p1), Some(p2)) => {
                    self.fill_edge_trace(&p1, &p2, triangle, lighting, bary, texture);
                    proof {
                        lemma_painted_union(old(self).buffer@, g, self.buffer@, done, span(p1, p2), ink);
                        assert(done.union(span(p1, p2)).union(rows(e1@, e2@)) =~= done.union(
                            rows(w1, w2),
                        ));
                        done = done.union(span(p1, p2));
                    }
                },
                _ => {
                    proof {
                        assert(rows(w1, w2) =~= Set::<Pixel>::empty());
                        assert(done.union(rows(w1, w2)) =~= done);
                    }
                    more = false;
                },
            }
        }
    }

    /// The triangle as it is scan-converted: culled where it shows its
    /// back, projected onto the screen, and sorted by descending row.
    pub fn prep_triangle(&self, tri: &Tri) -> (r: Option<Tri>)
        ensures
            r == self.lens().prepared(*tri),
            r matches Some(t) ==> t.sorted(),
    {
        if tri.faces_away() {
            return None;
        }
        let a = match self.view_to_screen(&tri.a) {
            Some(v) => v,
            None => {
                return None;
            },
        };
        let b = match self.view_to_screen(&tri.b) {
            Some(v) => v,
            None => {
                return None;
            },
        };
        let c = match self.view_to_screen(&tri.c) {
            Some(v) => v,
            None => {
                return None;
            },
        };
        let mut a: Vert = a;
        let mut b: Vert = b;
        let mut c: Vert = c;
        if c.pos.y > b.pos.y {
            let t = c;
            c = b;
            b = t;
        }
        if b.pos.y > a.pos.y {
            let t = a;
            a = b;
            b = t;
        }
        if c.pos.y > b.pos.y {
            let t = c;
            c = b;
            b = t;
        }
        Some(Tri::cons_verts(a, b, c))
    }

    /// Fills one scanline from `starting` up to, not including, the column
    /// of `ending`. Pixels off the buffer are left out.
    fn fill_edge_trace(
        &mut self,
        starting: &Vec2i,
        ending: &Vec2i,
        triangle: &Tri,
        lighting: u8,
        bary: &Barycentric,
        texture: &Option<Texture>,
    )
        requires
            bary@ == *triangle,
        ensures
            painted(
                old(self).buffer@,
                final(self).buffer@,
                span(*starting, *ending),
                Ink::Shaded { tri: *triangle, tex: tex_of(*texture), lighting },
            ),
            final(self).lighting_vec == old(self).lighting_vec,
            final(self).scale == old(self).scale,
            final(self).lens() == old(self).lens(),
    {
        let ghost ink = Ink::Shaded { tri: *triangle, tex: tex_of(*texture), lighting };
        let ghost before = self.buffer@;
        proof {
            use_type_invariant(&self.buffer);
        }
        let y: Int = starting.y;
        let width = self.buffer.width();
        let height = self.buffer.height();
        if y < 0 || y as usize >= height {
            proof {
                lemma_painted_off_grid(before, span(*starting, *ending), ink);
            }
            return ;
        }
        let limit: Int = if width > Int::MAX as usize {
            Int::MAX
        } else {
            width as Int
        };
        let lo: Int = if starting.x < 0 {
            0
        } else {
            starting.x
        };
        let hi: Int = if ending.x < limit {
            ending.x
        } else {
            limit
        };
        let mut x: Int = lo;
        proof {
            lemma_painted_off_grid(before, span(*starting, Vec2i { x, y }), ink);
        }
        while x < hi
            invariant
                lo <= x,
                x <= hi || x == lo,
                0 <= lo,
                starting.x <= lo,
                hi <= limit,
                limit <= width,
                0 <= y < height,
                y == starting.y,
                width == before.width,
                height == before.height,
                before.wf(),
                before == old(self).buffer@,
                bary@ == *triangle,
                self.lighting_vec == old(self).lighting_vec,
                self.scale == old(self).scale,
                self.lens() == old(self).lens(),
                ink == (Ink::Shaded { tri: *triangle, tex: tex_of(*texture), lighting }),
                painted(before, self.buffer@, span(*starting, Vec2i { x, y }), ink),
            decreases hi - x,
        {
            let ghost now = self.buffer@;
            let weights = bary.weights(x, y);
            let mut color = match texture {
                Some(texture) => texture.get_at(
                    triangle.interpolate_x(&weights),
                    triangle.interpolate_y(&weights),
                ),
                None => triangle.interpolate_color(&weights),
            };
            color.lighting(lighting);
            let depth = triangle.interpolate_depth_inverse(&weights);
            self.buffer.set(x as usize, y as usize, color, depth);
            proof {
                assert(Fragment { color: color.packed(), depth } == ink.at(x as int, y as int));
                lemma_painted_plot(before, now, span(*starting, Vec2i { x, y }), ink, x as int, y as int);
                assert(span(*starting, Vec2i { x, y }).insert((x as int, y as int)) =~= span(
                    *starting,
                    Vec2i { x: (x + 1) as Int, y },
                ));
            }
            x += 1;
        }
        proof {
            lemma_painted_agree(
                before,
                self.buffer@,
                span(*starting, Vec2i { x, y }),
                span(*starting, *ending),
                ink,
            );
        }
    }

    /// Draws the line from `p1` to `p2` in one colour, every pixel of it
    /// at the depth `LINE_DEPTH`. The starting point itself is not drawn.
    /// Pixels off the buffer are left out.
    pub fn draw_line(&mut self, p1: Vec2i, p2: Vec2i, color: Color)
        ensures
            final(self).buffer@ == paint(
                old(self).buffer@,
                path(Walk::begin(p1, p2)),
                Ink::Flat { fragment: Fragment { color: color.packed(), depth: LINE_DEPTH } },
            ),
            final(self).lighting_vec == old(self).lighting_vec,
            final(self).scale == old(self).scale,
            final(self).lens() == old(self).lens(),
    {
        let ghost ink = Ink::Flat { fragment: Fragment { color: color.packed(), depth: LINE_DEPTH } };
        let ghost before = self.buffer@;
        let mut edge = EdgeTracer::cons(p1, p2);
        let ghost total = path(edge@);
        let ghost mut done: Set<Pixel> = Set::empty();
        let mut more = true;
        proof {
            use_type_invariant(&self.buffer);
            assert(done.union(path(edge@)) =~= total);
        }
        while more
            invariant
                edge@.wf(),
                before.wf(),
                before == old(self).buffer@,
                self.lighting_vec == old(self).lighting_vec,
                self.scale == old(self).scale,
                self.lens() == old(self).lens(),
                ink == (Ink::Flat { fragment: Fragment { color: color.packed(), depth: LINE_DEPTH } }),
                painted(before, self.buffer@, done, ink),
                more ==> total == done.union(path(edge@)),
                !more ==> total == done,
            decreases edge@.left() + (if more { 1int } else { 0int }),
        {
            let ghost w = edge@;
            let ghost now = self.buffer@;
            proof {
                if !w.done() {
                    w.lemma_next();
                }
            }
            match edge.step_once() {
                Some(point) => {
                    if point.x >= 0 && point.y >= 0 {
                        if self.buffer.inbounds(point.x as usize, point.y as usize) {
                            self.buffer.set(point.x as usize, point.y as usize, color, LINE_DEPTH);
                        }
                    }
                    proof {
                        assert(self.buffer@ == now.plot(point.x as int, point.y as int, ink.at(point.x as int, point.y as int)));
                        lemma_painted_plot(before, now, done, ink, point.x as int, point.y as int);
                        assert(done.insert((point.x as int, point.y as int)).union(path(edge@))
                            =~= done.union(path(w)));
                        done = done.insert((point.x as int, point.y as int));
                    }
                },
                None => {
                    proof {
                        assert(path(w) =~= Set::<Pixel>::empty());
                        assert(done.union(path(w)) =~= done);
                    }
                    more = false;
                },
            }
        }
        proof {
            lemma_paint(before, total, ink);
        }
    }

    /// Projects a corner from camera space onto the screen. `None` where
    /// the corner does not lie in front of the camera, or where it would
    /// be seen at a coordinate that an `Int` cannot hold.
    pub fn view_to_screen(&self, target: &Vert) -> (r: Option<Vert>)
        ensures
            self.lens().sees(target.pos) <==> r.is_some(),
            r matches Some(v) ==> v == self.lens().project(*target),
    {
        let depth: Int = target.pos.x;
        if depth <= 0 {
            return None;
        }
        let half_width: i128 = self.buffer.halfwidth() as i128;
        let half_height: i128 = self.buffer.halfheight() as i128;
        proof {
            lemma_mul_bounds(target.pos.y as int, self.scale as int, 0x8000_0000, 0x8000_0000);
            lemma_mul_bounds(-(target.pos.z as int), self.scale as int, 0x8000_0000, 0x8000_0000);
            lemma_floor_div_size(
                target.pos.y * self.scale,
                depth as int,
                0x4000_0000_0000_0000,
            );
            lemma_floor_div_size(
                -(target.pos.z as int) * self.scale,
                depth as int,
                0x4000_0000_0000_0000,
            );
        }
        let across: i128 = div_floor(
            (target.pos.y as i128) * (self.scale as i128),
            depth as i128,
        ) + half_width;
        let up: i128 = div_floor(
            (-(target.pos.z as i128)) * (self.scale as i128),
            depth as i128,
        ) + half_height;
        if across < Int::MIN as i128 || across > Int::MAX as i128 || up < Int::MIN as i128 || up
            > Int::MAX as i128 {
            return None;
        }
        Some(Vert::cons(Vec3i::cons(across as Int, up as Int, depth), target.color, target.texpos))
    }
}

/// A triangle whose normal has no component towards the camera leaves the
/// grid as it was.
pub proof fn lemma_back_face_culled(lens: Lens, g: Grid, tex: Option<TextureGrid>, tri: Tri, lighting: u8)
    requires
        tri.spec_faces_away(),
    ensures
        lens.drawn(g, tex, tri, lighting) == g,
{
}

/// The projection is the same along both axes of the screen: a point as
/// far to the side as another is high, at one depth, is seen as many
/// columns from the centre as the other is seen rows from it. So what is
/// round in space is as wide as it is high on the screen.
pub proof fn lemma_projection_same_on_both_axes(lens: Lens, depth: Int, aside: Int)
    requires
        aside > Int::MIN,
    ensures
        lens.screen_x(Vec3i { x: depth, y: aside, z: 0 }) - lens.half_width == lens.screen_y(
            Vec3i { x: depth, y: 0, z: (-aside) as Int },
        ) - lens.half_height,
{
}

/// A triangle with a corner at or behind the camera plane leaves the grid
/// as it was.
pub proof fn lemma_out_of_view(lens: Lens, g: Grid, tex: Option<TextureGrid>, tri: Tri, lighting: u8)
    requires
        tri.a.pos.x <= 0 || tri.b.pos.x <= 0 || tri.c.pos.x <= 0,
    ensures
        lens.drawn(g, tex, tri, lighting) == g,
{
}

/// Drawing the same triangle twice in succession leaves what drawing it
/// once leaves.
pub proof fn lemma_draw_twice(lens: Lens, g: Grid, tex: Option<TextureGrid>, tri: Tri, lighting: u8)
    requires
        g.wf(),
    ensures
        lens.drawn(lens.drawn(g, tex, tri, lighting), tex, tri, lighting) == lens.drawn(
            g,
            tex,
            tri,
            lighting,
        ),
{
    match lens.prepared(tri) {
        Some(t) => {
            if t.den() != 0 {
                let ink = Ink::Shaded { tri: t, tex, lighting };
                let g1 = paint(g, coverage(t), ink);
                lemma_paint(g, coverage(t), ink);
                lemma_paint(g1, coverage(t), ink);
                lemma_painted_twice(g, g1, paint(g1, coverage(t), ink), coverage(t), ink);
            }
        },
        None => {},
    }
}

} // verus!
