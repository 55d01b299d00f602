use rasterizer::{
    handle_camera_input, handle_mouse_input, handle_mutation_input, handle_renderer_input, Buffer,
    Camera, Keys, Mesh, Renderer, Stage, Tri, Turns, Vec2i, Vec3i, FAR, UNIT,
};

fn none() -> Keys {
    Keys {
        w: false,
        s: false,
        a: false,
        d: false,
        q: false,
        e: false,
        r: false,
        p: false,
        o: false,
        up: false,
        down: false,
        left: false,
        right: false,
    }
}

fn mesh() -> Mesh {
    Mesh::cons(Vec::new(), Vec3i::cons(0, 0, 0), None)
}

#[test]
fn keys_turn_the_mesh() {
    let mut m = mesh();
    handle_mutation_input(&none(), &mut m);
    assert_eq!(m.rotation, Vec3i::cons(0, 0, 0));
    handle_mutation_input(&Keys { w: true, a: true, q: true, ..none() }, &mut m);
    assert_eq!(m.rotation, Vec3i::cons(13671306, 13671306, 13671306));
    handle_mutation_input(&Keys { s: true, ..none() }, &mut m);
    assert_eq!(m.rotation, Vec3i::cons(13671306, 0, 13671306));
    handle_mutation_input(&Keys { d: true, e: true, ..none() }, &mut m);
    assert_eq!(m.rotation, Vec3i::cons(0, 0, 0));
    handle_mutation_input(&Keys { w: true, s: true, ..none() }, &mut m);
    assert_eq!(m.rotation, Vec3i::cons(0, 0, 0));
}

#[test]
fn spinning_mesh_ignores_the_other_keys() {
    let mut m = mesh();
    handle_mutation_input(&Keys { r: true, w: true, e: true, ..none() }, &mut m);
    assert_eq!(m.rotation, Vec3i::cons(6835653, 3417826, 6835653));
}

#[test]
fn drag_turns_the_mesh() {
    let mut m = mesh();
    let mut last = None;
    handle_mouse_input(Some(Vec2i::cons(10, 10)), true, &mut m, &mut last);
    assert_eq!(m.rotation, Vec3i::cons(0, 0, 0));
    assert_eq!(last, Some(Vec2i::cons(10, 10)));
    handle_mouse_input(Some(Vec2i::cons(13, 8)), true, &mut m, &mut last);
    assert_eq!(m.rotation, Vec3i::cons(0, 2 * 6835653, 3 * 6835653));
    assert_eq!(last, Some(Vec2i::cons(13, 8)));
    handle_mouse_input(Some(Vec2i::cons(0, 0)), false, &mut m, &mut last);
    assert_eq!(m.rotation, Vec3i::cons(0, 2 * 6835653, 3 * 6835653));
    assert_eq!(last, Some(Vec2i::cons(0, 0)));
    handle_mouse_input(None, true, &mut m, &mut last);
    assert_eq!(last, None);
    handle_mouse_input(Some(Vec2i::cons(i32::MAX, i32::MIN)), true, &mut m, &mut last);
    handle_mouse_input(Some(Vec2i::cons(i32::MIN, i32::MAX)), true, &mut m, &mut last);
    assert_eq!(last, Some(Vec2i::cons(i32::MIN, i32::MAX)));
}

#[test]
fn keys_move_the_camera() {
    let mut c = Camera::cons(Vec3i::cons(-100 * UNIT, 0, 0));
    handle_camera_input(&none(), &mut c);
    assert_eq!(c.position.x, -25600);
    handle_camera_input(&Keys { up: true, down: true, left: true, ..none() }, &mut c);
    assert_eq!(c.position.x, -25600 + 128);
    assert_eq!(c.rotation, Vec3i::cons(0, 0, 0));
    handle_camera_input(&Keys { down: true, right: true, ..none() }, &mut c);
    assert_eq!(c.position.x, -25600);
    handle_camera_input(&Keys { right: true, left: true, ..none() }, &mut c);
    assert_eq!(c.rotation.z, 34178264);
    handle_camera_input(&Keys { left: true, ..none() }, &mut c);
    assert_eq!(c.rotation.z, 0);
    assert_eq!(c.position, Vec3i::cons(-25600, 0, 0));
}

#[test]
fn camera_stops_at_the_end_of_the_range() {
    let mut c = Camera::cons(Vec3i::cons(i32::MAX - 5, 0, 0));
    handle_camera_input(&Keys { up: true, ..none() }, &mut c);
    assert_eq!(c.position.x, i32::MAX);
    let mut d = Camera::cons(Vec3i::cons(i32::MIN + 5, 0, 0));
    handle_camera_input(&Keys { down: true, ..none() }, &mut d);
    assert_eq!(d.position.x, i32::MIN);
}

#[test]
fn keys_choose_the_drawing() {
    let tri = Tri::cons(Vec3i::cons(10, -8, -8), Vec3i::cons(10, -8, 8), Vec3i::cons(10, 8, 0));
    let mesh = Mesh::cons(vec![tri], Vec3i::cons(0, 0, 0), None);
    let camera = Camera::cons(Vec3i::cons(0, 0, 0));
    let stage = Stage { mesh: Turns::none(), camera: Turns::none() };
    let count = |keys: &Keys| -> (usize, u32) {
        let mut r = Renderer::cons(Buffer::cons(20, 20), Vec3i::cons(-1, 0, 0), 10);
        handle_renderer_input(keys, &mut r, &mesh, &camera, &stage);
        let mut n = 0;
        for y in 0..20 {
            for x in 0..20 {
                if r.buffer.get_depth(x, y) != FAR {
                    n += 1;
                }
            }
        }
        (n, r.buffer.get_pixels()[r.buffer.idx(2, 10)])
    };
    let (filled, _) = count(&none());
    let (nothing, _) = count(&Keys { p: true, ..none() });
    let (wire, edge) = count(&Keys { p: true, o: true, ..none() });
    let (both, over) = count(&Keys { o: true, ..none() });
    assert!(filled > 100);
    assert_eq!(nothing, 0);
    assert!(wire > 30 && wire < filled);
    assert_eq!(edge, 0x00ffff);
    assert!(both >= filled);
    assert_eq!(over, 0x00ffff);
}

#[test]
fn tilt_stays_within_its_limit() {
    assert_eq!(rasterizer::tilt(0, 1), 1);
    assert_eq!(rasterizer::tilt(0, -1), -1);
    assert_eq!(rasterizer::tilt(70, 1), 70);
    assert_eq!(rasterizer::tilt(-70, -1), -70);
    assert_eq!(rasterizer::tilt(69, 1), 70);
    assert_eq!(rasterizer::tilt(i32::MAX, i32::MAX), 70);
    assert_eq!(rasterizer::tilt(i32::MIN, i32::MIN), -70);
    assert_eq!(rasterizer::tilt(500, -460), 40);
    assert_eq!(rasterizer::TILT_LIMIT, 70);
}
