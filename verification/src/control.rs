//! What the keys and the mouse do to a scene: which rotation a key asks of
//! the mesh, which move of the camera, and which drawing of the renderer.

use vstd::prelude::*;
use crate::geometry::{turned, Camera, Mesh};
use crate::math::{held, hold, Int, Vec2i, Vec3i};
use crate::renderer::{tex_of, Renderer, Stage};

verus! {

/// The number of fixed-point units in one unit of length.
pub const UNIT: Int = 256;

/// The binary angle by which a key turns the mesh: a fiftieth of a radian.
pub const KEY_TURN: Int = 13671306;

/// The binary angles by which the mesh turns about x, y and z while it
/// spins by itself: a hundredth, a two-hundredth and a hundredth of a
/// radian.
pub const SPIN_X: Int = 6835653;

pub const SPIN_Y: Int = 3417826;

pub const SPIN_Z: Int = 6835653;

/// The binary angle by which one pixel of a drag turns the mesh: a
/// hundredth of a radian.
pub const DRAG_TURN: Int = 6835653;

/// The binary angle by which a key turns the camera: a twentieth of a
/// radian.
pub const CAMERA_TURN: Int = 34178264;

/// The distance by which a key moves the camera: half a unit of length.
pub const CAMERA_STEP: Int = 128;

/// The keys that are held down.
#[derive(Debug, Clone, Copy, PartialEq, Eq, Structural)]
pub struct Keys {
    pub w: bool,
    pub s: bool,
    pub a: bool,
    pub d: bool,
    pub q: bool,
    pub e: bool,
    pub r: bool,
    pub p: bool,
    pub o: bool,
    pub up: bool,
    pub down: bool,
    pub left: bool,
    pub right: bool,
}

/// `angle` turned by `by` where `held` says so.
pub open spec fn turned_if(held: bool, angle: Int, by: Int) -> Int {
    if held {
        turned(angle, by)
    } else {
        angle
    }
}

/// The binary angle that undoes the turn of a key.
pub open spec fn back(by: Int) -> Int {
    (-by) as Int
}

/// The rotation that the keys leave the mesh with. With `r` held the mesh
/// spins by itself; without it `w` and `s` turn it about y, `a` and `d`
/// about z, `q` and `e` about x, each pair in opposite directions.
pub open spec fn steered(rotation: Vec3i, keys: Keys) -> Vec3i {
    if keys.r {
        Vec3i {
            x: turned(rotation.x, SPIN_X),
            y: turned(rotation.y, SPIN_Y),
            z: turned(rotation.z, SPIN_Z),
        }
    } else {
        Vec3i {
            x: turned_if(keys.e, turned_if(keys.q, rotation.x, KEY_TURN), back(KEY_TURN)),
            y: turned_if(keys.s, turned_if(keys.w, rotation.y, KEY_TURN), back(KEY_TURN)),
            z: turned_if(keys.d, turned_if(keys.a, rotation.z, KEY_TURN), back(KEY_TURN)),
        }
    }
}

/// The angle of a drag by `pixels`: `DRAG_TURN` for every pixel, wrapped as
/// angles are.
pub open spec fn drag_angle(pixels: int) -> Int {
    (pixels * DRAG_TURN) as Int
}

/// The rotation that a drag of the mouse from `past` to `now` leaves the
/// mesh with: the way across the screen turns it about z, the way up and
/// down about y.
pub open spec fn dragged(rotation: Vec3i, past: Vec2i, now: Vec2i) -> Vec3i {
    Vec3i {
        x: rotation.x,
        y: turned(rotation.y, drag_angle(past.y - now.y)),
        z: turned(rotation.z, drag_angle(now.x - past.x)),
    }
}

/// The camera that the keys leave: the first that is held of `up`, `down`,
/// `right` and `left` moves it forwards or backwards or turns it about z.
pub open spec fn piloted(camera: Camera, keys: Keys) -> Camera {
    if keys.up {
        Camera {
            position: Vec3i { x: held(camera.position.x + CAMERA_STEP), ..camera.position },
            ..camera
        }
    } else if keys.down {
        Camera {
            position: Vec3i { x: held(camera.position.x - CAMERA_STEP), ..camera.position },
            ..camera
        }
    } else if keys.right {
        Camera {
            rotation: Vec3i { z: turned(camera.rotation.z, CAMERA_TURN), ..camera.rotation },
            ..camera
        }
    } else if keys.left {
        Camera {
            rotation: Vec3i { z: turned(camera.rotation.z, back(CAMERA_TURN)), ..camera.rotation },
            ..camera
        }
    } else {
        camera
    }
}

/// Turns the mesh as the keys ask.
pub fn handle_mutation_input(keys: &Keys, mesh: &mut Mesh)
    ensures
        final(mesh).rotation == steered(old(mesh).rotation, *keys),
        final(mesh).tris == old(mesh).tris,
        final(mesh).center == old(mesh).center,
        final(mesh).texture == old(mesh).texture,
{
    if !keys.r {
        if keys.w {
            mesh.rotatey(KEY_TURN);
        }
        if keys.s {
            mesh.rotatey(-KEY_TURN);
        }
        if keys.a {
            mesh.rotatez(KEY_TURN);
        }
        if keys.d {
            mesh.rotatez(-KEY_TURN);
        }
        if keys.q {
            mesh.rotatex(KEY_TURN);
        }
        if keys.e {
            mesh.rotatex(-KEY_TURN);
        }
    } else {
        mesh.rotatex(SPIN_X);
        mesh.rotatey(SPIN_Y);
        mesh.rotatez(SPIN_Z);
    }
}

/// Follows the mouse: while the button is held, every move of the mouse
/// turns the mesh. `mouse` keeps the position that the mouse was last seen
/// at, or `None` while the mouse is off the window.
pub fn handle_mouse_input(
    position: Option<Vec2i>,
    pressed: bool,
    mesh: &mut Mesh,
    mouse: &mut Option<Vec2i>,
)
    ensures
        *final(mouse) == position,
        final(mesh).rotation == (match (position, *old(mouse)) {
            (Some(now), Some(past)) if pressed => dragged(old(mesh).rotation, past, now),
            _ => old(mesh).rotation,
        }),
        final(mesh).tris == old(mesh).tris,
        final(mesh).center == old(mesh).center,
        final(mesh).texture == old(mesh).texture,
{
    if let Some(now) = position {
        if pressed {
            if let Some(past) = *mouse {
                let screen_dx: i64 = now.x as i64 - past.x as i64;
                let screen_dy: i64 = past.y as i64 - now.y as i64;
                mesh.rotatey(drag(screen_dy));
                mesh.rotatez(drag(screen_dx));
            }
        }
        *mouse = Some(now);
    } else {
        *mouse = None;
    }
}

/// The angle of a drag by `pixels`.
fn drag(pixels: i64) -> (angle: Int)
    requires
        -0xffff_ffff <= pixels <= 0xffff_ffff,
    ensures
        angle == drag_angle(pixels as int),
{
    assert(-0xffff_ffff * 6835653 <= pixels * 6835653 <= 0xffff_ffff * 6835653) by (nonlinear_arith)
        requires
            -0xffff_ffff <= pixels <= 0xffff_ffff,
    ;
    let wide: i64 = pixels * (DRAG_TURN as i64);
    #[verifier::truncate]
    (wide as Int)
}

/// The farthest that a view tilts up or down.
pub const TILT_LIMIT: Int = 70;

/// The tilt of a view after it was moved by `delta`: the sum, held to
/// `TILT_LIMIT` either way.
pub open spec fn tilted(tilt: Int, delta: Int) -> Int {
    if tilt + delta > TILT_LIMIT {
        TILT_LIMIT
    } else if tilt + delta < -TILT_LIMIT {
        (-TILT_LIMIT) as Int
    } else {
        (tilt + delta) as Int
    }
}

/// Tilts a view by `delta` and returns its new tilt, which never leaves
/// the range from `-TILT_LIMIT` to `TILT_LIMIT`.
pub fn tilt(now: Int, delta: Int) -> (r: Int)
    ensures
        r == tilted(now, delta),
        -TILT_LIMIT <= r <= TILT_LIMIT,
{
    let sum: i64 = now as i64 + delta as i64;
    if sum > TILT_LIMIT as i64 {
        TILT_LIMIT
    } else if sum < -(TILT_LIMIT as i64) {
        -TILT_LIMIT
    } else {
        sum as Int
    }
}

/// Moves or turns the camera as the keys ask.
pub fn handle_camera_input(keys: &Keys, camera: &mut Camera)
    ensures
        *final(camera) == piloted(*old(camera), *keys),
{
    if keys.up {
        camera.position.x = hold(camera.position.x as i128 + CAMERA_STEP as i128);
    } else if keys.down {
        camera.position.x = hold(camera.position.x as i128 - CAMERA_STEP as i128);
    } else if keys.right {
        camera.rotation.z = camera.rotation.z.wrapping_add(CAMERA_TURN);
    } else if keys.left {
        camera.rotation.z = camera.rotation.z.wrapping_add(-CAMERA_TURN);
    }
}

/// Draws the mesh as the keys ask: filled unless `p` is held, and as a
/// wireframe over that where `o` is held.
pub fn handle_renderer_input(
    keys: &Keys,
    renderer: &mut Renderer,
    mesh: &Mesh,
    camera: &Camera,
    stage: &Stage,
)
    ensures
        final(renderer).buffer@ == ({
            let lens = old(renderer).lens();
            let faces = old(renderer).scene(mesh, camera, stage).faces(mesh.tris@);
            let filled = if keys.p {
                old(renderer).buffer@
            } else {
                lens.drawn_all(old(renderer).buffer@, tex_of(mesh.texture), faces)
            };
            if keys.o {
                lens.outlined_all(filled, faces)
            } else {
                filled
            }
        }),
        final(renderer).lighting_vec == old(renderer).lighting_vec,
        final(renderer).scale == old(renderer).scale,
{
    if !keys.p {
        renderer.render_mesh(mesh, camera, stage);
    }
    if keys.o {
        renderer.render_wireframe(mesh, camera, stage);
    }
}

} // verus!
