//! Meshes from lists: the vertices, texture coordinates and faces that a
//! mesh file holds become the triangles of a mesh. A face names its corners
//! by number, counted from one; a face of more than three corners is cut
//! into a fan of triangles about its first corner.

use vstd::prelude::*;
use crate::color::Color;
use crate::geometry::{Mesh, Tri, Vert};
use crate::math::{Vec2i, Vec3i};
use crate::texture::Texture;

verus! {

/// One corner of a face: the number of its vertex and, where it has one,
/// the number of its texture coordinate, both counted from one.
#[derive(Debug, Clone, Copy, PartialEq, Eq, Structural)]
pub struct Corner {
    pub vertex: usize,
    pub texture: Option<usize>,
}

/// The colour of every corner of a mesh that comes with texture
/// coordinates.
pub open spec fn white() -> Color {
    Color { red: 255, green: 255, blue: 255 }
}

/// The corner `c` names a vertex, and a texture coordinate if it names
/// one at all, that the lists hold.
pub open spec fn known(c: Corner, vertices: Seq<Vec3i>, coords: Seq<Vec2i>) -> bool {
    &&& 1 <= c.vertex <= vertices.len()
    &&& c.texture matches Some(t) ==> 1 <= t <= coords.len()
}

/// The corner `c` as a corner of a triangle: white, at its vertex, with
/// its texture coordinate or, where it names none, the origin of the
/// texture.
pub open spec fn corner_of(c: Corner, vertices: Seq<Vec3i>, coords: Seq<Vec2i>) -> Vert {
    Vert {
        pos: vertices[c.vertex - 1],
        texpos: match c.texture {
            Some(t) => coords[t - 1],
            None => Vec2i { x: 0, y: 0 },
        },
        color: white(),
    }
}

/// The triangles of one face: a fan about its first corner, one triangle
/// for every corner after the second. A face of fewer than three corners
/// has none.
pub open spec fn fan(face: Seq<Corner>, vertices: Seq<Vec3i>, coords: Seq<Vec2i>) -> Seq<Tri> {
    Seq::new(
        if face.len() >= 2 {
            (face.len() - 2) as nat
        } else {
            0
        },
        |i: int|
            Tri {
                a: corner_of(face[0], vertices, coords),
                b: corner_of(face[i + 1], vertices, coords),
                c: corner_of(face[i + 2], vertices, coords),
            },
    )
}

/// Every corner of the face is known.
pub open spec fn face_known(face: Seq<Corner>, vertices: Seq<Vec3i>, coords: Seq<Vec2i>) -> bool {
    forall|i: int| 0 <= i < face.len() ==> known(#[trigger] face[i], vertices, coords)
}

/// Every corner of every face is known.
pub open spec fn all_known(faces: Seq<Vec<Corner>>, vertices: Seq<Vec3i>, coords: Seq<Vec2i>) -> bool {
    forall|k: int| 0 <= k < faces.len() ==> face_known(#[trigger] faces[k]@, vertices, coords)
}

/// The triangles of the first `n` faces, face after face.
pub open spec fn fans(faces: Seq<Vec<Corner>>, n: int, vertices: Seq<Vec3i>, coords: Seq<Vec2i>) -> Seq<
    Tri,
>
    decreases n,
{
    if n <= 0 {
        Seq::empty()
    } else {
        fans(faces, n - 1, vertices, coords) + fan(faces[n - 1]@, vertices, coords)
    }
}

/// The corner `c` as a corner of a triangle, or `None` where it is not
/// known.
fn resolve(c: &Corner, vertices: &Vec<Vec3i>, coords: &Vec<Vec2i>) -> (r: Option<Vert>)
    ensures
        known(*c, vertices@, coords@) <==> r.is_some(),
        r matches Some(v) ==> v == corner_of(*c, vertices@, coords@),
{
    if c.vertex < 1 || c.vertex > vertices.len() {
        return None;
    }
    let texpos = match c.texture {
        Some(t) => {
            if t < 1 || t > coords.len() {
                return None;
            }
            coords[t - 1]
        },
        None => Vec2i::cons(0, 0),
    };
    Some(Vert::cons(vertices[c.vertex - 1], Color::cons(255, 255, 255), texpos))
}

impl Mesh {
    /// The mesh of the faces of a mesh file, at the offset `center`. `None`
    /// where a face names a vertex or a texture coordinate that the lists
    /// do not hold.
    pub fn assemble(
        vertices: &Vec<Vec3i>,
        coords: &Vec<Vec2i>,
        faces: &Vec<Vec<Corner>>,
        center: Vec3i,
        texture: Option<Texture>,
    ) -> (r: Option<Mesh>)
        ensures
            all_known(faces@, vertices@, coords@) <==> r.is_some(),
            r matches Some(m) ==> {
                &&& m.tris@ == fans(faces@, faces@.len() as int, vertices@, coords@)
                &&& m.center == center
                &&& m.rotation == (Vec3i { x: 0, y: 0, z: 0 })
                &&& m.texture == texture
            },
    {
        let mut tris: Vec<Tri> = Vec::new();
        let mut k: usize = 0;
        while k < faces.len()
            invariant
                k <= faces@.len(),
                forall|j: int| 0 <= j < k ==> face_known(#[trigger] faces@[j]@, vertices@, coords@),
                tris@ == fans(faces@, k as int, vertices@, coords@),
            decreases faces@.len() - k,
        {
            let face = &faces[k];
            let ghost done = tris@;
            let mut i: usize = 0;
            let mut first: Option<Vert> = None;
            let mut last: Option<Vert> = None;
            while i < face.len()
                invariant
                    i <= face@.len(),
                    k < faces@.len(),
                    face@ == faces@[k as int]@,
                    forall|j: int| 0 <= j < i ==> known(#[trigger] face@[j], vertices@, coords@),
                    i >= 1 ==> first == Some(corner_of(face@[0], vertices@, coords@)),
                    i >= 1 ==> last == Some(corner_of(face@[i - 1], vertices@, coords@)),
                    tris@.len() == done.len() + (if i >= 2 { i - 2 } else { 0 }),
                    forall|j: int| 0 <= j < done.len() ==> tris@[j] == done[j],
                    forall|j: int|
                        0 <= j < tris@.len() - done.len() ==> tris@[done.len() + j] == fan(
                            face@,
                            vertices@,
                            coords@,
                        )[j],
                decreases face@.len() - i,
            {
                let corner = match resolve(&face[i], vertices, coords) {
                    Some(v) => v,
                    None => {
                        proof {
                            assert(!known(faces@[k as int]@[i as int], vertices@, coords@));
                            assert(!face_known(faces@[k as int]@, vertices@, coords@));
                        }
                        return None;
                    },
                };
                if i == 0 {
                    first = Some(corner);
                } else if i >= 2 {
                    tris.push(Tri::cons_verts(first.unwrap(), last.unwrap(), corner));
                }
                last = Some(corner);
                i += 1;
            }
            proof {
                assert(tris@ =~= done + fan(face@, vertices@, coords@));
            }
            k += 1;
        }
        Some(Mesh::cons(tris, center, texture))
    }
}

} // verus!
