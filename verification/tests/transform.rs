use rasterizer::{
    isqrt, lambert, Buffer, Camera, Face, Mesh, Renderer, Stage, Tri, Turn, Turns, Vec3i, FAR,
    TRIG_ONE,
};

fn turn(degrees: f64) -> Turn {
    let radians = degrees.to_radians();
    Turn::cons(
        (radians.sin() * TRIG_ONE as f64).round() as i32,
        (radians.cos() * TRIG_ONE as f64).round() as i32,
    )
}

fn tri(a: (i32, i32, i32), b: (i32, i32, i32), c: (i32, i32, i32)) -> Tri {
    Tri::cons(Vec3i::cons(a.0, a.1, a.2), Vec3i::cons(b.0, b.1, b.2), Vec3i::cons(c.0, c.1, c.2))
}

#[test]
fn quarter_turns_are_exact() {
    let quarter = Turn::cons(TRIG_ONE, 0);
    let mut v = Vec3i::cons(100, 0, 7);
    v.rotatez(quarter);
    assert_eq!(v, Vec3i::cons(0, 100, 7));
    v.rotatez(quarter);
    assert_eq!(v, Vec3i::cons(-100, 0, 7));
    let mut w = Vec3i::cons(7, 100, 0);
    w.rotatex(quarter);
    assert_eq!(w, Vec3i::cons(7, 0, 100));
    let mut u = Vec3i::cons(0, 7, 100);
    u.rotatey(quarter);
    assert_eq!(u, Vec3i::cons(100, 7, 0));
}

#[test]
fn no_turn_changes_nothing() {
    let mut v = Vec3i::cons(i32::MAX, i32::MIN, -5);
    v.rotationmatzyx(Turns::none());
    assert_eq!(v, Vec3i::cons(i32::MAX, i32::MIN, -5));
    v.rotationmatxyz(Turns::none());
    assert_eq!(v, Vec3i::cons(i32::MAX, i32::MIN, -5));
    assert_eq!(Turn::none(), Turn::cons(0, TRIG_ONE));
}

#[test]
fn turn_follows_its_formula_and_rounds_down() {
    // 30 degrees: sine 1/2, cosine 0.8660254..
    let t = turn(30.0);
    assert_eq!(t.sin, TRIG_ONE / 2);
    let mut v = Vec3i::cons(1000, 0, 0);
    v.rotatez(t);
    assert_eq!(v, Vec3i::cons(866, 500, 0));
    let mut w = Vec3i::cons(0, 1000, 0);
    w.rotatez(t);
    // -500 exactly, and 866.02.. rounded down.
    assert_eq!(w, Vec3i::cons(-500, 866, 0));
    let mut n = Vec3i::cons(-1000, 0, 0);
    n.rotatez(t);
    // -866.02.. rounded down, and -500 exactly.
    assert_eq!(n, Vec3i::cons(-867, -500, 0));
}

#[test]
fn axes_are_turned_in_the_order_asked() {
    let quarter = Turn::cons(TRIG_ONE, 0);
    let turns = Turns::cons(quarter, Turn::none(), quarter);
    let mut v = Vec3i::cons(1, 0, 0);
    v.rotationmatzyx(turns);
    // About z: (0, 1, 0); then about x: (0, 0, 1).
    assert_eq!(v, Vec3i::cons(0, 0, 1));
    let mut w = Vec3i::cons(1, 0, 0);
    w.rotationmatxyz(turns);
    // About x: (1, 0, 0); then about z: (0, 1, 0).
    assert_eq!(w, Vec3i::cons(0, 1, 0));
}

#[test]
fn turning_there_and_back_restores_the_point() {
    for degrees in [1.0, 17.0, 45.0, 89.5, 123.0, 180.0, 271.0, 359.0] {
        let t = turn(degrees);
        for &(x, y) in &[(0, 0), (1, 0), (12345, -54321), (i32::MAX / 2, i32::MIN / 2), (-7, 1_000_000_000)] {
            let mut v = Vec3i::cons(x, y, 9);
            v.rotatez(t);
            v.rotatez(t.reversed());
            assert!((v.x as i64 - x as i64).abs() <= 7, "{} degrees: {} for {}", degrees, v.x, x);
            assert!((v.y as i64 - y as i64).abs() <= 7, "{} degrees: {} for {}", degrees, v.y, y);
            assert_eq!(v.z, 9);
            let mut w = Vec3i::cons(9, x, y);
            w.rotatex(t);
            w.rotatex(t.reversed());
            assert!((w.y as i64 - x as i64).abs() <= 7 && (w.z as i64 - y as i64).abs() <= 7);
            let mut u = Vec3i::cons(y, 9, x);
            u.rotatey(t);
            u.rotatey(t.reversed());
            assert!((u.z as i64 - x as i64).abs() <= 7 && (u.x as i64 - y as i64).abs() <= 7);
        }
    }
}

#[test]
fn turn_keeps_the_length() {
    let t = turn(37.0);
    let mut v = Vec3i::cons(30000, 40000, 0);
    v.rotatez(t);
    let length = ((v.x as f64).powi(2) + (v.y as f64).powi(2)).sqrt();
    assert!((length - 50000.0).abs() < 2.0);
}

#[test]
fn turn_that_leaves_the_range_is_held() {
    let eighth = turn(45.0);
    let mut v = Vec3i::cons(i32::MAX, i32::MIN, 0);
    v.rotatez(eighth);
    assert_eq!(v.x, i32::MAX);
    let mut w = Vec3i::cons(i32::MIN, i32::MIN, 0);
    w.rotatez(eighth);
    assert_eq!(w.y, i32::MIN);
}

#[test]
fn reversed_turn() {
    assert_eq!(Turn::cons(5, 7).reversed(), Turn::cons(-5, 7));
    assert_eq!(Turn::cons(i32::MIN, 0).reversed(), Turn::cons(i32::MAX, 0));
    let t = Turns::cons(Turn::cons(1, 2), Turn::cons(3, 4), Turn::cons(5, 6));
    assert_eq!(t.reversed(), Turns::cons(Turn::cons(-1, 2), Turn::cons(-3, 4), Turn::cons(-5, 6)));
}

#[test]
fn mirrors_and_sums() {
    let mut v = Vec3i::cons(1, -2, 3);
    v.reflex();
    v.refley();
    v.reflez();
    assert_eq!(v, Vec3i::cons(-1, 2, -3));
    let mut m = Vec3i::cons(i32::MIN, 0, 0);
    m.reflex();
    assert_eq!(m.x, i32::MAX);
    assert_eq!(Vec3i::cons(1, 2, 3).inner_prod(&Vec3i::cons(4, -5, 6)), 12);
    assert_eq!(
        Vec3i::cons(i32::MIN, i32::MIN, i32::MIN).inner_prod(&Vec3i::cons(i32::MIN, i32::MIN, i32::MIN)),
        3 * (1i128 << 62)
    );
    assert_eq!(Vec3i::cons(i32::MAX, 0, -5).plus(&Vec3i::cons(1, 2, 3)), Vec3i::cons(i32::MAX, 2, -2));
    assert_eq!(Vec3i::cons(i32::MIN, 0, -5).minus(&Vec3i::cons(1, 2, 3)), Vec3i::cons(i32::MIN, -2, -8));
}

#[test]
fn triangle_turns_corner_by_corner() {
    let quarter = Turn::cons(TRIG_ONE, 0);
    let mut t = tri((1, 0, 0), (0, 2, 0), (0, 0, 3));
    t.rotatez(quarter);
    assert_eq!((t.a.pos, t.b.pos, t.c.pos), (Vec3i::cons(0, 1, 0), Vec3i::cons(-2, 0, 0), Vec3i::cons(0, 0, 3)));
    t.rotatey(quarter);
    assert_eq!((t.a.pos, t.b.pos, t.c.pos), (Vec3i::cons(0, 1, 0), Vec3i::cons(0, 0, 2), Vec3i::cons(3, 0, 0)));
    t.rotatex(quarter);
    assert_eq!((t.a.pos, t.b.pos, t.c.pos), (Vec3i::cons(0, 0, 1), Vec3i::cons(0, -2, 0), Vec3i::cons(3, 0, 0)));
    let mut u = tri((1, 0, 0), (0, 2, 0), (0, 0, 3));
    u.rotatezyx(Turns::cons(quarter, quarter, quarter));
    assert_eq!((u.a.pos, u.b.pos, u.c.pos), (t.a.pos, t.b.pos, t.c.pos));
    assert_eq!(u.a.color, t.a.color);
}

#[test]
fn whole_number_roots() {
    for &(n, r) in &[(0u128, 0u64), (1, 1), (2, 1), (3, 1), (4, 2), (8, 2), (9, 3), (99, 9), (100, 10), (1 << 60, 1 << 30)] {
        assert_eq!(isqrt(n), r);
    }
    let big = (1u128 << 126) - 1;
    let r = isqrt(big) as u128;
    assert!(r * r <= big && (r + 1) * (r + 1) > big);
    assert_eq!(isqrt(10_000_000_000_000_000_000_000u128 - 1), 99_999_999_999);
}

#[test]
fn light_along_the_normal_is_full_light() {
    // The normal of this triangle is (-256, 0, 0).
    let t = tri((10, -8, -8), (10, -8, 8), (10, 8, 0));
    assert_eq!(lambert(&Vec3i::cons(-1, 0, 0), &t), 255);
    assert_eq!(lambert(&Vec3i::cons(-1000, 0, 0), &t), 255);
    assert_eq!(lambert(&Vec3i::cons(i32::MIN, 0, 0), &t), 255);
}

#[test]
fn light_from_behind_or_from_the_side_is_no_light() {
    let t = tri((10, -8, -8), (10, -8, 8), (10, 8, 0));
    assert_eq!(lambert(&Vec3i::cons(1, 0, 0), &t), 0);
    assert_eq!(lambert(&Vec3i::cons(0, 1, 0), &t), 0);
    assert_eq!(lambert(&Vec3i::cons(0, 5, -3), &t), 0);
    assert_eq!(lambert(&Vec3i::cons(0, 0, 0), &t), 0);
    let line = tri((0, 0, 0), (1, 1, 1), (2, 2, 2));
    assert_eq!(lambert(&Vec3i::cons(-1, 0, 0), &line), 0);
}

#[test]
fn light_at_an_angle_is_the_cosine() {
    let t = tri((10, -8, -8), (10, -8, 8), (10, 8, 0));
    // 45 degrees: 255 / sqrt(2) = 180.3..
    assert_eq!(lambert(&Vec3i::cons(-1, 1, 0), &t), 180);
    // The cosine of the angle between (-3, 4, 0) and (-1, 0, 0) is 3 / 5.
    assert_eq!(lambert(&Vec3i::cons(-3, 4, 0), &t), 153);
    // (-3, 1, 4) against (-1, 0, 0): 3 / sqrt(26) = 0.588.., times 255 = 150.03..
    assert_eq!(lambert(&Vec3i::cons(-3, 1, 4), &t), 150);
}

#[test]
fn light_on_a_large_triangle() {
    let t = tri((i32::MAX, i32::MIN, i32::MIN), (i32::MAX, i32::MIN, i32::MAX), (i32::MAX, i32::MAX, 0));
    let level = lambert(&Vec3i::cons(i32::MIN, 0, 0), &t);
    assert!(level >= 254);
}

#[test]
fn triangle_is_posed_by_mesh_and_camera() {
    let r = Renderer::cons(Buffer::cons(20, 20), Vec3i::cons(-1, 0, 0), 10);
    let t = tri((0, -8, -8), (0, -8, 8), (0, 8, 0));
    let mesh = Mesh::cons(vec![t], Vec3i::cons(3, 0, 0), None);
    let camera = Camera::cons(Vec3i::cons(-7, 0, 0));
    let still = Stage { mesh: Turns::none(), camera: Turns::none() };
    let face = r.pose_triangle(&t, &mesh, &camera, &still);
    assert_eq!(face.tri.a.pos, Vec3i::cons(10, -8, -8));
    assert_eq!(face.tri.b.pos, Vec3i::cons(10, -8, 8));
    assert_eq!(face.tri.c.pos, Vec3i::cons(10, 8, 0));
    assert_eq!(face.tri.a.color, t.a.color);
    assert_eq!(face.lighting, 255);
    // The mesh turned by half a turn about z shows its back.
    let half = Turn::cons(0, -TRIG_ONE);
    let around = Stage { mesh: Turns::cons(Turn::none(), Turn::none(), half), camera: Turns::none() };
    let back = r.pose_triangle(&t, &mesh, &camera, &around);
    assert_eq!(back.tri.a.pos, Vec3i::cons(10, 8, -8));
    assert!(back.tri.faces_away());
    assert_eq!(back.lighting, 0);
    // The camera turned by a quarter about z sees the mesh to its side.
    let quarter = Turn::cons(TRIG_ONE, 0);
    let aside = Stage { mesh: Turns::none(), camera: Turns::cons(Turn::none(), Turn::none(), quarter) };
    let side = r.pose_triangle(&t, &mesh, &camera, &aside);
    assert_eq!(side.tri.a.pos, Vec3i::cons(-8, -10, -8));
    assert_eq!(r.pose_mesh(&mesh, &camera, &aside), vec![side]);
}

#[test]
fn mesh_is_drawn_as_the_camera_sees_it() {
    let t = tri((0, -8, -8), (0, -8, 8), (0, 8, 0));
    let mesh = Mesh::cons(vec![t], Vec3i::cons(3, 0, 0), None);
    let camera = Camera::cons(Vec3i::cons(-7, 0, 0));
    let still = Stage { mesh: Turns::none(), camera: Turns::none() };
    let mut whole = Renderer::cons(Buffer::cons(20, 20), Vec3i::cons(-3, 4, 0), 10);
    whole.render_mesh(&mesh, &camera, &still);
    let mut single = Renderer::cons(Buffer::cons(20, 20), Vec3i::cons(-3, 4, 0), 10);
    single.render_triangle(&t, &mesh, &camera, &still);
    let mut direct = Renderer::cons(Buffer::cons(20, 20), Vec3i::cons(-3, 4, 0), 10);
    direct.render_face(&Face { tri: tri((10, -8, -8), (10, -8, 8), (10, 8, 0)), lighting: 153 }, &None);
    assert_eq!(whole.buffer.get_pixels(), direct.buffer.get_pixels());
    assert_eq!(single.buffer.get_pixels(), direct.buffer.get_pixels());
    assert!(whole.buffer.get_pixels().iter().any(|&p| p != 0));
    let mut wire = Renderer::cons(Buffer::cons(20, 20), Vec3i::cons(-3, 4, 0), 10);
    wire.render_wireframe(&mesh, &camera, &still);
    assert_eq!(wire.buffer.get_depth(2, 10), 1);
    assert_eq!(wire.buffer.get_depth(6, 10), FAR);
    // 0x00ffff under the lighting level 153.
    assert_eq!(wire.buffer.get_pixels()[wire.buffer.idx(2, 10)], 0x009999);
}

#[test]
fn turning_mesh_there_and_back_draws_the_same_picture() {
    let t = tri((0, -2048, -2048), (0, -2048, 2048), (0, 2048, 0));
    let mesh = Mesh::cons(vec![t], Vec3i::cons(0, 0, 0), None);
    let camera = Camera::cons(Vec3i::cons(-2560, 0, 0));
    let picture = |stage: &Stage| -> Vec<u32> {
        let mut r = Renderer::cons(Buffer::cons(40, 40), Vec3i::cons(-1, 0, 0), 20);
        r.render_mesh(&mesh, &camera, stage);
        r.buffer.get_pixels().clone()
    };
    let still = picture(&Stage { mesh: Turns::none(), camera: Turns::none() });
    let full = Turn::cons(0, TRIG_ONE);
    let again = picture(&Stage { mesh: Turns::cons(full, full, full), camera: Turns::none() });
    assert_eq!(still, again);
    assert!(still.iter().any(|&p| p != 0));
}

#[test]
fn cross_product_is_across_both() {
    let n = Vec3i::cons(1, 0, 0).cross(&Vec3i::cons(0, 1, 0));
    assert_eq!((n.x, n.y, n.z), (0, 0, 1));
    let m = Vec3i::cons(2, 3, 4).cross(&Vec3i::cons(5, 6, 7));
    assert_eq!((m.x, m.y, m.z), (-3, 6, -3));
    let p = Vec3i::cons(2, 3, 4).cross(&Vec3i::cons(4, 6, 8));
    assert_eq!((p.x, p.y, p.z), (0, 0, 0));
    let big = Vec3i::cons(i32::MIN, i32::MAX, 0).cross(&Vec3i::cons(i32::MAX, i32::MIN, 0));
    assert_eq!(big.z, (i32::MIN as i128) * (i32::MIN as i128) - (i32::MAX as i128) * (i32::MAX as i128));
}

#[test]
fn scaling_by_a_number() {
    assert_eq!(Vec3i::cons(1, -2, 3).times(-4), Vec3i::cons(-4, 8, -12));
    assert_eq!(Vec3i::cons(i32::MAX, i32::MIN, 1).times(2), Vec3i::cons(i32::MAX, i32::MIN, 2));
    assert_eq!(Vec3i::cons(7, -7, 8).over(2), Vec3i::cons(3, -4, 4));
    assert_eq!(Vec3i::cons(7, -7, 8).over(-2), Vec3i::cons(-4, 3, -4));
    assert_eq!(Vec3i::cons(i32::MIN, 0, 5).over(-1), Vec3i::cons(i32::MAX, 0, -5));
}

#[test]
fn normalized_vector_has_length_one() {
    let mut v = Vec3i::cons(3, 0, 4);
    assert!(v.normalize());
    // 3 / 5 and 4 / 5 of 2^30, rounded down.
    assert_eq!(v, Vec3i::cons(644245094, 0, 858993459));
    let mut axis = Vec3i::cons(0, -12345, 0);
    assert!(axis.normalize());
    assert_eq!(axis, Vec3i::cons(0, -TRIG_ONE, 0));
    let mut w = Vec3i::cons(-3, 1, 4);
    assert!(w.normalize());
    let length = ((w.x as f64).powi(2) + (w.y as f64).powi(2) + (w.z as f64).powi(2)).sqrt();
    // The whole-number length of (-3, 1, 4) is 5, a little under the square
    // root of 26.
    assert!((length / TRIG_ONE as f64 - 26f64.sqrt() / 5.0).abs() < 1e-6);
    let mut large = Vec3i::cons(i32::MIN, i32::MAX, i32::MIN);
    assert!(large.normalize());
    assert!(large.x >= -TRIG_ONE && large.y <= TRIG_ONE);
    assert!((large.y as f64 / TRIG_ONE as f64 - 1.0 / 3f64.sqrt()).abs() < 1e-6);
}

#[test]
fn vector_of_no_length_cannot_be_normalized() {
    let mut zero = Vec3i::cons(0, 0, 0);
    assert!(!zero.normalize());
    assert_eq!(zero, Vec3i::cons(0, 0, 0));
}

#[test]
fn rotate_z() {
    // One unit of length along x, in thousandths, turned by 90 radians.
    let mut v2 = Vec3i::cons(1000, 0, 0);
    let angle = 90.0_f64;
    v2.rotatez(Turn::cons(
        (angle.sin() * TRIG_ONE as f64).round() as i32,
        (angle.cos() * TRIG_ONE as f64).round() as i32,
    ));
    let v3 = Vec3i::cons(
        (v2.x as f64 / 1000.0).round() as i32,
        (v2.y as f64 / 1000.0).round() as i32,
        (v2.z as f64 / 1000.0).round() as i32,
    );

    println!("{:?}", v3);
    assert!(v3 == Vec3i::cons(0, 1, 0));
}

#[test]
fn norm() {
    let mut v1 = Vec3i::cons(1, 0, 0);
    v1.normalize();
    assert!(v1.x / TRIG_ONE == 1);
    assert!(v1.y / TRIG_ONE == 0);
    assert!(v1.z / TRIG_ONE == 0);
}

#[test]
fn dot() {
    let v1 = Vec3i::cons(1, 0, 0);
    let v2 = Vec3i::cons(1, 0, 0);
    let test = v1.inner_prod(&v2);
    assert!(test as i32 == 1);
}

#[test]
fn turning_a_triangle_there_and_back_restores_it() {
    let t0 = tri((1000, -2000, 3000), (-40000, 50000, 60000), (7, 8, -9));
    for degrees in [3.0, 45.0, 120.0, 333.0] {
        let angle = turn(degrees);
        let mut about_x = t0;
        about_x.rotatex(angle);
        about_x.rotatex(angle.reversed());
        let mut about_y = t0;
        about_y.rotatey(angle);
        about_y.rotatey(angle.reversed());
        let mut about_z = t0;
        about_z.rotatez(angle);
        about_z.rotatez(angle.reversed());
        for (now, was) in [
            (about_x.a, t0.a),
            (about_x.b, t0.b),
            (about_x.c, t0.c),
            (about_y.a, t0.a),
            (about_y.b, t0.b),
            (about_y.c, t0.c),
            (about_z.a, t0.a),
            (about_z.b, t0.b),
            (about_z.c, t0.c),
        ] {
            assert!((now.pos.x - was.pos.x).abs() <= 7);
            assert!((now.pos.y - was.pos.y).abs() <= 7);
            assert!((now.pos.z - was.pos.z).abs() <= 7);
            assert_eq!(now.color, was.color);
            assert_eq!(now.texpos, was.texpos);
        }
        assert_eq!((about_x.a.pos.x, about_x.b.pos.x, about_x.c.pos.x), (1000, -40000, 7));
        assert_eq!((about_y.a.pos.y, about_y.b.pos.y, about_y.c.pos.y), (-2000, 50000, 8));
        assert_eq!((about_z.a.pos.z, about_z.b.pos.z, about_z.c.pos.z), (3000, 60000, -9));
    }
}

#[test]
fn turn_that_is_held_back_is_not_undone() {
    // The corner of the range is longer than the range: an eighth of a turn
    // takes it out, it is held, and the way back does not find it again.
    let eighth = turn(45.0);
    let mut v = Vec3i::cons(i32::MAX, i32::MAX, 0);
    v.rotatez(eighth);
    assert_eq!(v.y, i32::MAX);
    v.rotatez(eighth.reversed());
    assert!((v.x as i64 - i32::MAX as i64).abs() > 600_000_000);
}
